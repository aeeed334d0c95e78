use rabbit_digger_pro::config::{
    retry, CacheItem, ContentPlan, ImportSource, ImportStorage, ImportUrl, Retry, WaitPlan,
    FETCH_ATTEMPTS,
};

const SEC: u128 = 1_000_000_000;

#[test]
fn cache_key_names_the_source() {
    assert_eq!(ImportSource::new_path("config.yaml".to_string()).cache_key(), "path:\"config.yaml\"");
    assert_eq!(
        ImportSource::new_path("a \"b\"\\c\n".to_string()).cache_key(),
        "path:\"a \\\"b\\\"\\\\c\\n\""
    );
    assert_eq!(
        ImportSource::new_poll("http://example.com/c.yaml".to_string(), Some(60)).cache_key(),
        "poll:http://example.com/c.yaml"
    );
    let storage = ImportSource::Storage(ImportStorage {
        folder: "user".to_string(),
        key: "main".to_string(),
    });
    assert_eq!(storage.cache_key(), "storage:user:main");
    assert_eq!(ImportSource::Oneshot("net: {}".to_string()).cache_key(), "oneshot");
}

#[test]
fn constructors_build_the_variants() {
    assert_eq!(ImportSource::new_path("p".to_string()), ImportSource::Path("p".to_string()));
    assert_eq!(
        ImportSource::new_poll("u".to_string(), None),
        ImportSource::Poll(ImportUrl { url: "u".to_string(), interval: None })
    );
}

#[test]
fn only_polled_sources_expire() {
    assert_eq!(ImportSource::new_path("p".to_string()).get_expire_duration(), None);
    assert_eq!(ImportSource::new_poll("u".to_string(), Some(30)).get_expire_duration(), Some(30));
    assert_eq!(ImportSource::new_poll("u".to_string(), None).get_expire_duration(), None);
    assert_eq!(ImportSource::Oneshot("x".to_string()).get_expire_duration(), None);
}

#[test]
fn cached_copy_is_used_until_it_expires() {
    let source = ImportSource::new_poll("http://h/c".to_string(), Some(10));
    let cached = CacheItem { updated_at: 100 * SEC, content: "old".to_string() };
    assert_eq!(
        source.get_content(Some(cached.clone()), 109 * SEC + 999_999_999),
        ContentPlan::Cached("old".to_string())
    );
    let fetch = ContentPlan::Fetch {
        url: "http://h/c".to_string(),
        attempts: 3,
        cache_key: "poll:http://h/c".to_string(),
    };
    assert_eq!(FETCH_ATTEMPTS, 3);
    assert_eq!(source.get_content(Some(cached.clone()), 110 * SEC), fetch);
    assert_eq!(source.get_content(Some(cached), 500 * SEC), fetch);
    assert_eq!(source.get_content(None, 0), fetch);
    assert!(source.is_fresh(100 * SEC, 0));
    assert!(!source.is_fresh(100 * SEC, 110 * SEC));
}

#[test]
fn sources_without_interval_never_expire() {
    let cached = CacheItem { updated_at: 0, content: "kept".to_string() };
    for source in [
        ImportSource::new_path("/etc/rd.yaml".to_string()),
        ImportSource::new_poll("http://h/c".to_string(), None),
        ImportSource::Storage(ImportStorage { folder: "f".to_string(), key: "k".to_string() }),
        ImportSource::Oneshot("inline".to_string()),
    ] {
        assert_eq!(
            source.get_content(Some(cached.clone()), u128::MAX),
            ContentPlan::Cached("kept".to_string())
        );
    }
}

#[test]
fn uncached_sources_are_read_by_kind() {
    assert_eq!(
        ImportSource::new_path("/etc/rd.yaml".to_string()).get_content(None, 5),
        ContentPlan::ReadFile("/etc/rd.yaml".to_string())
    );
    assert_eq!(
        ImportSource::Storage(ImportStorage { folder: "f".to_string(), key: "k".to_string() })
            .get_content(None, 5),
        ContentPlan::ReadStorage { folder: "f".to_string(), key: "k".to_string() }
    );
    assert_eq!(
        ImportSource::Oneshot("inline".to_string()).get_content(None, 5),
        ContentPlan::Inline("inline".to_string())
    );
}

#[test]
fn expiry_saturates_at_the_end_of_time() {
    let source = ImportSource::new_poll("u".to_string(), Some(u64::MAX));
    assert!(source.is_fresh(u128::MAX - 5, u128::MAX - 1));
    assert!(!source.is_fresh(u128::MAX - 5, u128::MAX));
    assert_eq!(source.wait(Some(u128::MAX - 5), u128::MAX - 2), WaitPlan::Sleep(2));
}

#[test]
fn wait_plans() {
    assert_eq!(
        ImportSource::new_path("p".to_string()).wait(None, 0),
        WaitPlan::WatchPath("p".to_string())
    );
    assert_eq!(
        ImportSource::Storage(ImportStorage { folder: "f".to_string(), key: "k".to_string() })
            .wait(Some(3), 9),
        WaitPlan::WatchStorage { folder: "f".to_string(), key: "k".to_string() }
    );
    assert_eq!(ImportSource::Oneshot("x".to_string()).wait(None, 0), WaitPlan::Never);
    let poll = ImportSource::new_poll("u".to_string(), Some(10));
    assert_eq!(poll.wait(None, 7 * SEC), WaitPlan::Ready);
    assert_eq!(poll.wait(Some(100 * SEC), 104 * SEC), WaitPlan::Sleep(6 * SEC));
    assert_eq!(poll.wait(Some(100 * SEC), 110 * SEC), WaitPlan::Sleep(0));
    assert_eq!(poll.wait(Some(100 * SEC), 400 * SEC), WaitPlan::Sleep(0));
    let once = ImportSource::new_poll("u".to_string(), None);
    assert_eq!(once.wait(None, 0), WaitPlan::Ready);
    assert_eq!(once.wait(Some(1), 2), WaitPlan::Never);
}

#[test]
fn retry_stops_at_first_success_or_last_attempt() {
    assert_eq!(retry::<u8, &str>(3, 1, Ok(7)), Retry::Done(Ok(7)));
    assert_eq!(retry::<u8, &str>(3, 1, Err("a")), Retry::Again("a"));
    assert_eq!(retry::<u8, &str>(3, 2, Err("b")), Retry::Again("b"));
    assert_eq!(retry::<u8, &str>(3, 3, Err("c")), Retry::Done(Err("c")));
    assert_eq!(retry::<u8, &str>(3, 2, Ok(1)), Retry::Done(Ok(1)));
    // At least one attempt is made even when none is asked for.
    assert_eq!(retry::<u8, &str>(0, 1, Err("z")), Retry::Done(Err("z")));
    assert_eq!(retry::<u8, &str>(1, 1, Err("z")), Retry::Done(Err("z")));
}

#[test]
fn retry_loop_calls_three_times() {
    let mut calls = 0;
    let mut attempt = 0;
    let result = loop {
        attempt += 1;
        calls += 1;
        let outcome: Result<u8, usize> = Err(calls);
        match retry(FETCH_ATTEMPTS, attempt, outcome) {
            Retry::Done(r) => break r,
            Retry::Again(_) => {}
        }
    };
    assert_eq!(calls, 3);
    assert_eq!(result, Err(3));
}
