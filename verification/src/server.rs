//! The harness that every inbound provider runs in: a listener is bound,
//! each accepted connection is served in a task of its own, and nothing
//! that goes wrong in such a task reaches the accept loop.

use crate::address::SocketAddr;
use crate::context::{Context, ContextView};
use crate::error::Error;
use vstd::prelude::*;

verus! {

/// What the accept loop does after an accept.
#[derive(Debug, PartialEq, Eq)]
pub enum Accept {
    /// Serve the connection from `source` in a task of its own, and accept
    /// the next.
    Spawn { source: SocketAddr },
    /// Leave the loop with this error.
    Stop(Error),
}

/// Decides what follows an accept that gave `accepted`, the address of the
/// peer or an error: the loop goes on after every connection and ends
/// with the listener's error.
pub fn on_accept(accepted: Result<SocketAddr, Error>) -> (step: Accept)
    ensures
        step == match accepted {
            Ok(source) => Accept::Spawn { source },
            Err(e) => Accept::Stop(e),
        },
{
    match accepted {
        Ok(source) => Accept::Spawn { source },
        Err(e) => Accept::Stop(e),
    }
}

/// The context in which the connection from `source` is served.
pub fn connection_context(source: SocketAddr) -> (ctx: Context)
    ensures
        ctx.wf(),
        ctx@ == (ContextView { source: Some(source), attributes: Seq::empty(), cancelled: false }),
{
    Context::from_socketaddr(source)
}

/// What is left of the result of a connection's task: the error, for the
/// log. The accept loop never sees it.
pub fn on_served(result: Result<(), Error>) -> (logged: Option<Error>)
    ensures
        logged == match result {
            Ok(()) => None,
            Err(e) => Some(e),
        },
{
    match result {
        Ok(()) => None,
        Err(e) => Some(e),
    }
}

} // verus!
