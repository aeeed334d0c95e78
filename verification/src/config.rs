//! Where configuration documents come from, and when they are read again.
//!
//! Reading a file, fetching a URL and watching for changes belong to the
//! caller. What is decided here: under which key a source is cached, whether
//! a cached copy may still be used, what has to be read otherwise, what to
//! wait for before the next read, and when a failed fetch is tried again.

use vstd::prelude::*;
use vstd::string::StringExecFns;

verus! {

/// A point in time: nanoseconds since the Unix epoch.
pub type Timestamp = u128;

/// How often a fetch is attempted before its error is final.
pub const FETCH_ATTEMPTS: usize = 3;

/// Nanoseconds in a second.
pub const NANOS_PER_SEC: u128 = 1_000_000_000;

/// A document that is fetched from a URL, and again once `interval` seconds
/// have passed. Without an interval it is fetched once.
#[derive(Debug, Clone, PartialEq, Eq)]
pub struct ImportUrl {
    pub url: String,
    pub interval: Option<u64>,
}

/// A document kept in a folder of the program's data directory.
#[derive(Debug, Clone, PartialEq, Eq)]
pub struct ImportStorage {
    pub folder: String,
    pub key: String,
}

/// Where a configuration document comes from.
#[derive(Debug, Clone, PartialEq, Eq)]
pub enum ImportSource {
    /// A file, by its path.
    Path(String),
    /// A URL that is polled.
    Poll(ImportUrl),
    /// An entry of the program's own storage.
    Storage(ImportStorage),
    /// The document itself.
    Oneshot(String),
}

/// A cached document and the time it was stored.
#[derive(Debug, Clone, PartialEq, Eq)]
pub struct CacheItem {
    pub updated_at: Timestamp,
    pub content: String,
}

/// How the content of a source is to be had.
#[derive(Debug, Clone, PartialEq, Eq)]
pub enum ContentPlan {
    /// The cached copy is still good: this is the content.
    Cached(String),
    /// Read the file at this path.
    ReadFile(String),
    /// Fetch the URL, trying `attempts` times, and store the result in the
    /// cache under `cache_key`.
    Fetch { url: String, attempts: usize, cache_key: String },
    /// Read the entry `key` of the storage folder `folder`; not found is an
    /// error.
    ReadStorage { folder: String, key: String },
    /// The source holds the content itself.
    Inline(String),
}

/// What to wait for before a source is read again.
#[derive(Debug, Clone, PartialEq, Eq)]
pub enum WaitPlan {
    /// Until the file at this path changes.
    WatchPath(String),
    /// Until the entry `key` of the storage folder `folder` changes.
    WatchStorage { folder: String, key: String },
    /// For this many nanoseconds.
    Sleep(u128),
    /// Nothing: read at once.
    Ready,
    /// Forever: the source never changes.
    Never,
}

/// What follows one attempt of an operation that is tried up to a number of
/// times.
#[derive(Debug, PartialEq, Eq)]
pub enum Retry<R, E> {
    /// The operation is over: with the first success, or with the error of
    /// the last attempt.
    Done(Result<R, E>),
    /// Try again; the error of the attempt that failed is handed back for
    /// the log.
    Again(E),
}

/// What one attempt leads to: a success ends the operation, a failure ends
/// it only when `attempt`, which counts from 1, has reached `times`.
pub open spec fn spec_retry<R, E>(times: usize, attempt: usize, outcome: Result<R, E>) -> Retry<
    R,
    E,
> {
    match outcome {
        Ok(r) => Retry::Done(Ok(r)),
        Err(e) => if attempt < times {
            Retry::Again(e)
        } else {
            Retry::Done(Err(e))
        },
    }
}

/// Decides what follows attempt number `attempt` (counted from 1) of an
/// operation that is tried up to `times` times and at least once.
pub fn retry<R, E>(times: usize, attempt: usize, outcome: Result<R, E>) -> (r: Retry<R, E>)
    ensures
        r == spec_retry(times, attempt, outcome),
{
    match outcome {
        Ok(r) => Retry::Done(Ok(r)),
        Err(e) => if attempt < times {
            Retry::Again(e)
        } else {
            Retry::Done(Err(e))
        },
    }
}

/// An operation that is tried up to `times` times comes to an end at the
/// first success, and at attempt `times` at the latest (at the first, when
/// `times` is 0).
pub proof fn lemma_retry_ends<R, E>(times: usize, attempt: usize, outcome: Result<R, E>)
    requires
        1 <= attempt,
    ensures
        outcome is Ok ==> spec_retry(times, attempt, outcome) == Retry::Done(outcome),
        attempt >= times ==> spec_retry(times, attempt, outcome) == Retry::Done(outcome),
        spec_retry(times, attempt, outcome) is Again ==> attempt < times && outcome is Err,
{
}

/// What `format!("{:?}", s)` gives for a string `s`: the string in double
/// quotes, with the characters escaped that Rust's debug format escapes.
pub uninterp spec fn debug_quoted(s: Seq<char>) -> Seq<char>;

/// Formats `s` with `{:?}`. The contract names the result and says nothing
/// more of it: the escaping rules of the standard library are not restated.
#[verifier::external_body]
fn debug_string(s: &str) -> (r: String)
    ensures
        r@ == debug_quoted(s@),
{
    format!("{:?}", s)
}

/// The time at which a copy stored at `updated_at` stops being good when it
/// is good for `secs` seconds. It stops at the end of time where that is
/// further away than a `u128` can say.
pub open spec fn expires_at(updated_at: Timestamp, secs: u64) -> Timestamp {
    if updated_at + secs * NANOS_PER_SEC <= u128::MAX {
        (updated_at + secs * NANOS_PER_SEC) as u128
    } else {
        u128::MAX
    }
}

fn compute_expires_at(updated_at: Timestamp, secs: u64) -> (r: Timestamp)
    ensures
        r == expires_at(updated_at, secs),
{
    let span: u128 = secs as u128 * NANOS_PER_SEC;
    updated_at.saturating_add(span)
}

impl ImportSource {
    pub fn new_path(path: String) -> (r: Self)
        ensures
            r == ImportSource::Path(path),
    {
        ImportSource::Path(path)
    }

    pub fn new_poll(url: String, interval: Option<u64>) -> (r: Self)
        ensures
            r == ImportSource::Poll(ImportUrl { url, interval }),
    {
        ImportSource::Poll(ImportUrl { url, interval })
    }

    /// The key under which the cache files the source.
    pub open spec fn spec_cache_key(&self) -> Seq<char> {
        match self {
            ImportSource::Path(path) => "path:"@ + debug_quoted(path@),
            ImportSource::Poll(url) => "poll:"@ + url.url@,
            ImportSource::Storage(storage) => "storage:"@ + storage.folder@ + ":"@ + storage.key@,
            ImportSource::Oneshot(_) => "oneshot"@,
        }
    }

    /// The key under which the cache files the source: `path:` and the path
    /// in debug format, `poll:` and the URL, `storage:` with folder and key,
    /// or `oneshot`.
    pub fn cache_key(&self) -> (r: String)
        ensures
            r@ == self.spec_cache_key(),
    {
        match self {
            ImportSource::Path(path) => {
                let quoted = debug_string(path.as_str());
                String::from_str("path:").concat(quoted.as_str())
            },
            ImportSource::Poll(url) => String::from_str("poll:").concat(url.url.as_str()),
            ImportSource::Storage(storage) => {
                let mut key = String::from_str("storage:");
                key.append(storage.folder.as_str());
                key.append(":");
                key.append(storage.key.as_str());
                key
            },
            ImportSource::Oneshot(_) => String::from_str("oneshot"),
        }
    }

    /// For how many seconds a cached copy of the source is good; `None` when
    /// it does not expire.
    pub open spec fn spec_expire_duration(&self) -> Option<u64> {
        match self {
            ImportSource::Poll(url) => url.interval,
            _ => None,
        }
    }

    #[verifier::when_used_as_spec(spec_expire_duration)]
    pub fn get_expire_duration(&self) -> (r: Option<u64>)
        ensures
            r == self.spec_expire_duration(),
    {
        match self {
            ImportSource::Path(_) => None,
            ImportSource::Poll(url) => url.interval,
            ImportSource::Storage(_) => None,
            ImportSource::Oneshot(_) => None,
        }
    }

    /// Whether a copy cached at `updated_at` may be used at `now`: always
    /// for a source that does not expire, else while `now` is before the
    /// time of expiry.
    pub open spec fn spec_is_fresh(&self, updated_at: Timestamp, now: Timestamp) -> bool {
        match self.spec_expire_duration() {
            Some(secs) => now < expires_at(updated_at, secs),
            None => true,
        }
    }

    #[verifier::when_used_as_spec(spec_is_fresh)]
    pub fn is_fresh(&self, updated_at: Timestamp, now: Timestamp) -> (r: bool)
        ensures
            r == self.spec_is_fresh(updated_at, now),
    {
        match self.get_expire_duration() {
            Some(secs) => now < compute_expires_at(updated_at, secs),
            None => true,
        }
    }

    /// Whether `plan` is how the content of the source is to be had, given
    /// what the cache holds under the source's key and the time: the cached
    /// copy while it is fresh, and otherwise what the kind of the source
    /// asks for.
    pub open spec fn content_plan_is(
        &self,
        cached: Option<CacheItem>,
        now: Timestamp,
        plan: ContentPlan,
    ) -> bool {
        if cached is Some && self.spec_is_fresh(cached->Some_0.updated_at, now) {
            plan == ContentPlan::Cached(cached->Some_0.content)
        } else {
            match (self, plan) {
                (ImportSource::Path(path), ContentPlan::ReadFile(p)) => p@ == path@,
                (
                    ImportSource::Poll(url),
                    ContentPlan::Fetch { url: u, attempts, cache_key },
                ) => u@ == url.url@ && attempts == FETCH_ATTEMPTS && cache_key@
                    == self.spec_cache_key(),
                (
                    ImportSource::Storage(storage),
                    ContentPlan::ReadStorage { folder, key },
                ) => folder@ == storage.folder@ && key@ == storage.key@,
                (ImportSource::Oneshot(content), ContentPlan::Inline(c)) => c@ == content@,
                _ => false,
            }
        }
    }

    /// Decides how the content of the source is to be had. `cached` is what
    /// the cache holds under `cache_key()`, `now` the time.
    pub fn get_content(&self, cached: Option<CacheItem>, now: Timestamp) -> (plan: ContentPlan)
        ensures
            self.content_plan_is(cached, now, plan),
    {
        match cached {
            Some(c) => {
                if self.is_fresh(c.updated_at, now) {
                    return ContentPlan::Cached(c.content);
                }
            },
            None => {},
        }
        match self {
            ImportSource::Path(path) => ContentPlan::ReadFile(path.clone()),
            ImportSource::Poll(url) => ContentPlan::Fetch {
                url: url.url.clone(),
                attempts: FETCH_ATTEMPTS,
                cache_key: self.cache_key(),
            },
            ImportSource::Storage(storage) => ContentPlan::ReadStorage {
                folder: storage.folder.clone(),
                key: storage.key.clone(),
            },
            ImportSource::Oneshot(content) => ContentPlan::Inline(content.clone()),
        }
    }

    /// Whether `plan` is what to wait for before the source is read again,
    /// given the time `updated_at` at which the cache last stored it, if it
    /// did: a change of the file or of the storage entry; for a polled URL
    /// nothing when it was never stored, nothing ever when it has no
    /// interval, and else the time left until the copy expires, which is 0
    /// once it has.
    pub open spec fn wait_plan_is(
        &self,
        updated_at: Option<Timestamp>,
        now: Timestamp,
        plan: WaitPlan,
    ) -> bool {
        match self {
            ImportSource::Path(path) => plan matches WaitPlan::WatchPath(p) && p@ == path@,
            ImportSource::Poll(url) => match (updated_at, url.interval) {
                (None, _) => plan == WaitPlan::Ready,
                (Some(_), None) => plan == WaitPlan::Never,
                (Some(at), Some(secs)) => plan == WaitPlan::Sleep(
                    if expires_at(at, secs) >= now {
                        (expires_at(at, secs) - now) as u128
                    } else {
                        0
                    },
                ),
            },
            ImportSource::Storage(storage) => plan matches WaitPlan::WatchStorage { folder, key }
                && folder@ == storage.folder@ && key@ == storage.key@,
            ImportSource::Oneshot(_) => plan == WaitPlan::Never,
        }
    }

    /// Decides what to wait for before the source is read again.
    /// `updated_at` is the time at which the cache last stored the source
    /// under `cache_key()`, if it did, `now` the time.
    pub fn wait(&self, updated_at: Option<Timestamp>, now: Timestamp) -> (plan: WaitPlan)
        ensures
            self.wait_plan_is(updated_at, now, plan),
    {
        match self {
            ImportSource::Path(path) => WaitPlan::WatchPath(path.clone()),
            ImportSource::Poll(url) => {
                match (updated_at, url.interval) {
                    (None, _) => WaitPlan::Ready,
                    (Some(_), None) => WaitPlan::Never,
                    (Some(updated_at), Some(interval)) => {
                        let expired_at = compute_expires_at(updated_at, interval);
                        let tts: u128 = if expired_at >= now {
                            expired_at - now
                        } else {
                            0
                        };
                        WaitPlan::Sleep(tts)
                    },
                }
            },
            ImportSource::Storage(storage) => WaitPlan::WatchStorage {
                folder: storage.folder.clone(),
                key: storage.key.clone(),
            },
            ImportSource::Oneshot(_) => WaitPlan::Never,
        }
    }
}

/// A polled source is read from the cache exactly until its copy expires,
/// and the wait that follows a read ends exactly then: a source that is
/// read after the wait it asked for is fetched anew.
pub proof fn lemma_wait_ends_at_expiry(
    source: ImportSource,
    updated_at: Timestamp,
    now: Timestamp,
    secs: u64,
)
    requires
        source.spec_expire_duration() == Some(secs),
        expires_at(updated_at, secs) < u128::MAX,
    ensures
        source.spec_is_fresh(updated_at, now) <==> now < expires_at(updated_at, secs),
        source.wait_plan_is(Some(updated_at), now, WaitPlan::Sleep(0)) <==> !source.spec_is_fresh(
            updated_at,
            now,
        ),
        forall|span: u128|
            #[trigger] source.wait_plan_is(Some(updated_at), now, WaitPlan::Sleep(span)) && now
                + span <= u128::MAX ==> !source.spec_is_fresh(updated_at, (now + span) as u128),
{
}

} // verus!
