//! The in-memory pipe that carries streams, accepted connections and
//! datagrams: two queues, one per direction, between two ends.

use crate::error::Error;
use std::collections::VecDeque;
use vstd::prelude::*;

verus! {

/// One of the two ends of a pipe.
#[derive(Debug, Clone, Copy, PartialEq, Eq, Structural)]
pub enum Side {
    A,
    B,
}

impl Side {
    /// The opposite end.
    pub open spec fn spec_other(self) -> Side {
        match self {
            Side::A => Side::B,
            Side::B => Side::A,
        }
    }

    #[verifier::when_used_as_spec(spec_other)]
    pub fn other(self) -> (r: Side)
        ensures
            r == self.spec_other(),
    {
        match self {
            Side::A => Side::B,
            Side::B => Side::A,
        }
    }
}

/// What a pipe is, mathematically: what each end has yet to receive, and
/// which of its four halves are still open.
pub struct PipeView<T> {
    /// Sent by B, not yet received by A, oldest first.
    pub to_a: Seq<T>,
    /// Sent by A, not yet received by B, oldest first.
    pub to_b: Seq<T>,
    /// A has not shut its sending half.
    pub a_open: bool,
    /// B has not shut its sending half.
    pub b_open: bool,
    /// A still receives.
    pub a_recv: bool,
    /// B still receives.
    pub b_recv: bool,
    /// The pipe was torn down from outside.
    pub aborted: bool,
}

impl<T> PipeView<T> {
    /// A new pipe: all four halves open, nothing in flight.
    pub open spec fn fresh() -> Self {
        PipeView {
            to_a: Seq::empty(),
            to_b: Seq::empty(),
            a_open: true,
            b_open: true,
            a_recv: true,
            b_recv: true,
            aborted: false,
        }
    }

    /// What `side` has yet to receive.
    pub open spec fn inbox(self, side: Side) -> Seq<T> {
        match side {
            Side::A => self.to_a,
            Side::B => self.to_b,
        }
    }

    /// Whether the sending half of `side` is open.
    pub open spec fn open(self, side: Side) -> bool {
        match side {
            Side::A => self.a_open,
            Side::B => self.b_open,
        }
    }

    /// Whether the receiving half of `side` is open.
    pub open spec fn receiving(self, side: Side) -> bool {
        match side {
            Side::A => self.a_recv,
            Side::B => self.b_recv,
        }
    }

    /// The pipe with `items` as what `side` has yet to receive.
    pub open spec fn with_inbox(self, side: Side, items: Seq<T>) -> Self {
        match side {
            Side::A => PipeView { to_a: items, ..self },
            Side::B => PipeView { to_b: items, ..self },
        }
    }

    /// What `send` from `side` answers.
    pub open spec fn send_result(self, side: Side) -> Result<(), Error> {
        if self.aborted {
            Err(Error::ConnectionAborted)
        } else if self.open(side) && self.receiving(side.spec_other()) {
            Ok(())
        } else {
            Err(Error::BrokenPipe)
        }
    }

    /// The pipe after `side` tried to send `item`: the item joins the back
    /// of the peer's inbox if the send is accepted, else nothing changes.
    pub open spec fn send(self, side: Side, item: T) -> Self {
        if self.send_result(side).is_ok() {
            self.with_inbox(side.spec_other(), self.inbox(side.spec_other()).push(item))
        } else {
            self
        }
    }

    /// What `recv` at `side` answers: the oldest item; `None` when `side` no
    /// longer receives, or nothing is left and the peer has shut its sending
    /// half; would-block when nothing is there yet.
    pub open spec fn recv_result(self, side: Side) -> Result<Option<T>, Error> {
        if self.aborted {
            Err(Error::ConnectionAborted)
        } else if !self.receiving(side) {
            Ok(None)
        } else if self.inbox(side).len() > 0 {
            Ok(Some(self.inbox(side)[0]))
        } else if !self.open(side.spec_other()) {
            Ok(None)
        } else {
            Err(Error::WouldBlock)
        }
    }

    /// The pipe after a `recv` at `side`: the oldest item has left the inbox,
    /// if there was one to hand out.
    pub open spec fn recv(self, side: Side) -> Self {
        if !self.aborted && self.receiving(side) && self.inbox(side).len() > 0 {
            self.with_inbox(side, self.inbox(side).drop_first())
        } else {
            self
        }
    }

    /// The pipe after `side` shut its sending half.
    pub open spec fn close(self, side: Side) -> Self {
        match side {
            Side::A => PipeView { a_open: false, ..self },
            Side::B => PipeView { b_open: false, ..self },
        }
    }

    /// The pipe after `side` shut its receiving half: what it had not
    /// received is gone, and the peer can send no more.
    pub open spec fn stop(self, side: Side) -> Self {
        match side {
            Side::A => PipeView { a_recv: false, to_a: Seq::empty(), ..self },
            Side::B => PipeView { b_recv: false, to_b: Seq::empty(), ..self },
        }
    }

    /// The pipe after the end `side` was dropped: both of its halves are
    /// shut.
    pub open spec fn drop_end(self, side: Side) -> Self {
        self.close(side).stop(side)
    }

    /// The pipe after it was torn down: nothing in flight, every later
    /// operation fails.
    pub open spec fn abort(self) -> Self {
        PipeView {
            to_a: Seq::empty(),
            to_b: Seq::empty(),
            a_open: false,
            b_open: false,
            a_recv: false,
            b_recv: false,
            aborted: true,
        }
    }

    /// Nothing waits at an end that no longer receives, and no end of a pipe
    /// that was torn down receives. Every operation keeps this.
    pub open spec fn quiet(self) -> bool {
        &&& !self.a_recv ==> self.to_a.len() == 0
        &&& !self.b_recv ==> self.to_b.len() == 0
        &&& self.aborted ==> !self.a_recv && !self.b_recv
    }

    /// All four halves are shut: the pipe carries nothing any more.
    pub open spec fn destroyed(self) -> bool {
        !self.a_open && !self.b_open && !self.a_recv && !self.b_recv
    }
}

/// A new pipe is quiet, and every operation keeps a quiet pipe quiet.
pub proof fn lemma_quiet<T>(p: PipeView<T>, side: Side, item: T)
    requires
        p.quiet(),
    ensures
        PipeView::<T>::fresh().quiet(),
        p.send(side, item).quiet(),
        p.recv(side).quiet(),
        p.close(side).quiet(),
        p.stop(side).quiet(),
        p.drop_end(side).quiet(),
        p.abort().quiet(),
{
}

/// A pair of queues between two ends, A and B. Each end sends into the
/// other's inbox and receives from its own.
#[derive(Debug)]
pub struct Pipe<T> {
    to_a: VecDeque<T>,
    to_b: VecDeque<T>,
    a_open: bool,
    b_open: bool,
    a_recv: bool,
    b_recv: bool,
    aborted: bool,
}

/// The views of the items of `items`, in the same order.
pub open spec fn views<T: View>(items: Seq<T>) -> Seq<T::V> {
    items.map_values(|t: T| t@)
}

/// What a `recv` handed out, with the item taken by its view.
pub open spec fn received<T: View>(r: Result<Option<T>, Error>) -> Result<Option<T::V>, Error> {
    match r {
        Ok(Some(x)) => Ok(Some(x@)),
        Ok(None) => Ok(None),
        Err(e) => Err(e),
    }
}

impl<T: View> View for Pipe<T> {
    type V = PipeView<T::V>;

    closed spec fn view(&self) -> PipeView<T::V> {
        PipeView {
            to_a: views(self.to_a@),
            to_b: views(self.to_b@),
            a_open: self.a_open,
            b_open: self.b_open,
            a_recv: self.a_recv,
            b_recv: self.b_recv,
            aborted: self.aborted,
        }
    }
}

impl<T: View> Pipe<T> {
    pub fn new() -> (p: Pipe<T>)
        ensures
            p@ == PipeView::<T::V>::fresh(),
    {
        assert(views(Seq::<T>::empty()) =~= Seq::<T::V>::empty());
        Pipe {
            to_a: VecDeque::new(),
            to_b: VecDeque::new(),
            a_open: true,
            b_open: true,
            a_recv: true,
            b_recv: true,
            aborted: false,
        }
    }

    /// Sends `item` from `side` to the other end. Fails with
    /// connection-aborted on a pipe that was torn down, and with broken-pipe
    /// when `side` has shut its sending half or the other end no longer
    /// receives.
    pub fn send(&mut self, side: Side, item: T) -> (r: Result<(), Error>)
        ensures
            r == old(self)@.send_result(side),
            final(self)@ == old(self)@.send(side, item@),
    {
        if self.aborted {
            return Err(Error::ConnectionAborted);
        }
        assert(views(self.to_a@.push(item)) =~= views(self.to_a@).push(item@));
        assert(views(self.to_b@.push(item)) =~= views(self.to_b@).push(item@));
        match side {
            Side::A => {
                if self.a_open && self.b_recv {
                    self.to_b.push_back(item);
                    Ok(())
                } else {
                    Err(Error::BrokenPipe)
                }
            },
            Side::B => {
                if self.b_open && self.a_recv {
                    self.to_a.push_back(item);
                    Ok(())
                } else {
                    Err(Error::BrokenPipe)
                }
            },
        }
    }

    /// Takes the oldest item that `side` has yet to receive. `Ok(None)` is
    /// the end of the stream; would-block says that nothing has arrived yet.
    pub fn recv(&mut self, side: Side) -> (r: Result<Option<T>, Error>)
        ensures
            received(r) == old(self)@.recv_result(side),
            final(self)@ == old(self)@.recv(side),
    {
        if self.aborted {
            return Err(Error::ConnectionAborted);
        }
        let receiving = match side {
            Side::A => self.a_recv,
            Side::B => self.b_recv,
        };
        if !receiving {
            return Ok(None);
        }
        let (item, peer_open) = match side {
            Side::A => (self.to_a.pop_front(), self.b_open),
            Side::B => (self.to_b.pop_front(), self.a_open),
        };
        match item {
            Some(x) => {
                assert(old(self)@.inbox(side).drop_first() =~= self@.inbox(side));
                Ok(Some(x))
            },
            None => {
                if peer_open {
                    Err(Error::WouldBlock)
                } else {
                    Ok(None)
                }
            },
        }
    }

    /// What a `send` from `side` would answer, without sending anything.
    pub fn send_check(&self, side: Side) -> (r: Result<(), Error>)
        ensures
            r == self@.send_result(side),
    {
        if self.aborted {
            return Err(Error::ConnectionAborted);
        }
        let ok = match side {
            Side::A => self.a_open && self.b_recv,
            Side::B => self.b_open && self.a_recv,
        };
        if ok {
            Ok(())
        } else {
            Err(Error::BrokenPipe)
        }
    }

    /// Whether the pipe was torn down.
    pub fn is_aborted(&self) -> (r: bool)
        ensures
            r == self@.aborted,
    {
        self.aborted
    }

    /// How many items `side` has yet to receive.
    pub fn pending(&self, side: Side) -> (n: usize)
        ensures
            n == self@.inbox(side).len(),
    {
        match side {
            Side::A => self.to_a.len(),
            Side::B => self.to_b.len(),
        }
    }

    /// Shuts the sending half of `side`.
    pub fn close(&mut self, side: Side)
        ensures
            final(self)@ == old(self)@.close(side),
    {
        match side {
            Side::A => {
                self.a_open = false;
            },
            Side::B => {
                self.b_open = false;
            },
        }
    }

    /// Shuts the receiving half of `side` and hands back what it had not
    /// received.
    pub fn stop(&mut self, side: Side) -> (left: VecDeque<T>)
        ensures
            final(self)@ == old(self)@.stop(side),
            views(left@) == old(self)@.inbox(side),
    {
        assert(views(Seq::<T>::empty()) =~= Seq::<T::V>::empty());
        let mut left: VecDeque<T> = VecDeque::new();
        match side {
            Side::A => {
                self.a_recv = false;
                core::mem::swap(&mut self.to_a, &mut left);
            },
            Side::B => {
                self.b_recv = false;
                core::mem::swap(&mut self.to_b, &mut left);
            },
        }
        left
    }

    /// Drops the end `side`: shuts both of its halves and hands back what it
    /// had not received.
    pub fn drop_end(&mut self, side: Side) -> (left: VecDeque<T>)
        ensures
            final(self)@ == old(self)@.drop_end(side),
            views(left@) == old(self)@.inbox(side),
    {
        self.close(side);
        self.stop(side)
    }

    /// Tears the pipe down: what was in flight is lost and every later send
    /// or receive fails with connection-aborted.
    pub fn abort(&mut self)
        ensures
            final(self)@ == old(self)@.abort(),
    {
        assert(views(Seq::<T>::empty()) =~= Seq::<T::V>::empty());
        self.to_a.clear();
        self.to_b.clear();
        self.a_open = false;
        self.b_open = false;
        self.a_recv = false;
        self.b_recv = false;
        self.aborted = true;
    }

    /// Whether all four halves are shut.
    pub fn is_destroyed(&self) -> (r: bool)
        ensures
            r == self@.destroyed(),
    {
        !self.a_open && !self.b_open && !self.a_recv && !self.b_recv
    }
}

} // verus!
