//! The context of a call: where it came from, what the nets it passed
//! through noted on it, and whether it was cancelled.

use crate::address::SocketAddr;
use crate::error::Error;
use crate::registry::{lookup, put, ItemView, Table};
use vstd::prelude::*;

verus! {

/// The context of a call, mathematically.
pub struct ContextView {
    /// The address that the call came from, if it is known.
    pub source: Option<SocketAddr>,
    /// The attributes, by key, as JSON text.
    pub attributes: Seq<ItemView>,
    /// Whether the call was cancelled.
    pub cancelled: bool,
}

/// A record that accompanies one call through every net it passes. Stacked
/// nets read it and note attributes on it; whoever holds it can cancel the
/// call.
#[derive(Debug)]
pub struct Context {
    source: Option<SocketAddr>,
    attributes: Table,
    cancelled: bool,
}

impl View for Context {
    type V = ContextView;

    closed spec fn view(&self) -> ContextView {
        ContextView {
            source: self.source,
            attributes: self.attributes@,
            cancelled: self.cancelled,
        }
    }
}

impl Context {
    /// No attribute key occurs twice.
    pub open spec fn wf(&self) -> bool {
        crate::registry::distinct(self@.attributes)
    }

    /// An empty context.
    pub fn new() -> (c: Context)
        ensures
            c.wf(),
            c@ == (ContextView { source: None, attributes: Seq::empty(), cancelled: false }),
    {
        Context { source: None, attributes: Table::new(), cancelled: false }
    }

    /// The context of a call that came from `addr`.
    pub fn from_socketaddr(addr: SocketAddr) -> (c: Context)
        ensures
            c.wf(),
            c@ == (ContextView { source: Some(addr), attributes: Seq::empty(), cancelled: false }),
    {
        Context { source: Some(addr), attributes: Table::new(), cancelled: false }
    }

    /// Where the call came from.
    pub fn source(&self) -> (r: Option<SocketAddr>)
        ensures
            r == self@.source,
    {
        self.source
    }

    /// Notes `value` under `key`. What was noted under the key before is
    /// replaced.
    pub fn insert(&mut self, key: String, value: String)
        requires
            old(self).wf(),
        ensures
            final(self).wf(),
            final(self)@ == (ContextView {
                attributes: put(old(self)@.attributes, key@, value@),
                ..old(self)@
            }),
    {
        self.attributes.add(key, value);
    }

    /// What was noted under `key`.
    pub fn get(&self, key: &str) -> (r: Option<&String>)
        ensures
            match r {
                Some(v) => lookup(self@.attributes, key@) == Some(v@),
                None => lookup(self@.attributes, key@) is None,
            },
    {
        self.attributes.get(key)
    }

    /// Cancels the call. There is no way back.
    pub fn cancel(&mut self)
        ensures
            final(self)@ == (ContextView { cancelled: true, ..old(self)@ }),
    {
        self.cancelled = true;
    }

    pub fn is_cancelled(&self) -> (r: bool)
        ensures
            r == self@.cancelled,
    {
        self.cancelled
    }

    /// What an operation that holds the context does at a point where it
    /// would wait: it goes on, or fails as aborted by the user once the
    /// call was cancelled.
    pub fn check(&self) -> (r: Result<(), Error>)
        ensures
            r == if self@.cancelled {
                Err::<(), Error>(Error::AbortedByUser)
            } else {
                Ok(())
            },
    {
        if self.cancelled {
            Err(Error::AbortedByUser)
        } else {
            Ok(())
        }
    }
}

} // verus!
