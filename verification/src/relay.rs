//! The relay primitives: the splice that couples two streams, and the
//! table by which a datagram bridge finds the way back to each client.
//!
//! Reading and writing wait, so they are the caller's. The splice is told
//! what each read, write and shutdown gave and answers what to do next.

use crate::address::SocketAddr;
use crate::error::Error;
use crate::pipe::Side;
use vstd::prelude::*;

verus! {

/// The size of the buffer of each direction of a splice, in bytes.
pub const SPLICE_BUFFER: usize = 8192;

/// After how many milliseconds without a datagram a client's way back is
/// forgotten.
pub const UDP_IDLE_MS: u64 = 60_000;

/// What the caller of a splice does next.
#[derive(Debug, PartialEq, Eq)]
pub enum SpliceAction {
    /// Read from this side, into the buffer of the direction that starts
    /// there.
    Read(Side),
    /// Write this many bytes from the buffer of the direction that ends at
    /// this side to it, all of them.
    Write(Side, usize),
    /// Shut the writing half of this side: its peer has no more to say.
    Shutdown(Side),
    /// Nothing, in this direction: it is complete, and the other one goes
    /// on.
    Rest,
    /// Return from the splice with this result.
    Finish(Result<(), Error>),
}

/// A splice, mathematically.
pub struct SpliceView {
    /// Whether bytes still flow from A to B.
    pub a_to_b: bool,
    /// Whether bytes still flow from B to A.
    pub b_to_a: bool,
    /// Whether the splice has ended.
    pub finished: bool,
}

impl SpliceView {
    /// A splice with both directions flowing.
    pub open spec fn fresh() -> SpliceView {
        SpliceView { a_to_b: true, b_to_a: true, finished: false }
    }

    /// Whether bytes still flow in the direction that starts at `from`.
    pub open spec fn flows(self, from: Side) -> bool {
        match from {
            Side::A => self.a_to_b,
            Side::B => self.b_to_a,
        }
    }

    /// The splice with the direction that starts at `from` complete.
    pub open spec fn stopped(self, from: Side) -> SpliceView {
        match from {
            Side::A => SpliceView { a_to_b: false, ..self },
            Side::B => SpliceView { b_to_a: false, ..self },
        }
    }

    /// The splice after it ended.
    pub open spec fn ended(self) -> SpliceView {
        SpliceView { a_to_b: false, b_to_a: false, finished: true }
    }

    /// The same splice with the names of its two sides exchanged.
    pub open spec fn flipped(self) -> SpliceView {
        SpliceView { a_to_b: self.b_to_a, b_to_a: self.a_to_b, finished: self.finished }
    }

    /// The splice after a read at `from` gave `outcome`. The end of the
    /// stream completes the direction that starts at `from` and leaves the
    /// other alone; an error ends the splice.
    pub open spec fn on_read(self, from: Side, outcome: Result<usize, Error>) -> SpliceView {
        if self.finished || !self.flows(from) {
            self
        } else {
            match outcome {
                Ok(n) => if n == 0 {
                    self.stopped(from)
                } else {
                    self
                },
                Err(_) => self.ended(),
            }
        }
    }

    /// What to do after a read at `from` gave `outcome`: pass the bytes on
    /// to the other side; at the end of the stream shut the other side's
    /// writing half; after an error return with it.
    pub open spec fn read_action(self, from: Side, outcome: Result<usize, Error>) -> SpliceAction {
        if self.finished || !self.flows(from) {
            SpliceAction::Rest
        } else {
            match outcome {
                Ok(n) => if n == 0 {
                    SpliceAction::Shutdown(from.spec_other())
                } else {
                    SpliceAction::Write(from.spec_other(), n)
                },
                Err(e) => SpliceAction::Finish(Err(e)),
            }
        }
    }

    /// The splice after a write to `to` gave `outcome`: an error ends it.
    pub open spec fn on_write(self, to: Side, outcome: Result<(), Error>) -> SpliceView {
        if self.finished || !self.flows(to.spec_other()) {
            self
        } else {
            match outcome {
                Ok(()) => self,
                Err(_) => self.ended(),
            }
        }
    }

    /// What to do after a write to `to` gave `outcome`: read on in the
    /// same direction; after an error return with it.
    pub open spec fn write_action(self, to: Side, outcome: Result<(), Error>) -> SpliceAction {
        if self.finished || !self.flows(to.spec_other()) {
            SpliceAction::Rest
        } else {
            match outcome {
                Ok(()) => SpliceAction::Read(to.spec_other()),
                Err(e) => SpliceAction::Finish(Err(e)),
            }
        }
    }

    /// The splice after the shutdown of the writing half of `side` gave
    /// `outcome`: it ends when the other direction is complete too, or
    /// with an error.
    pub open spec fn on_shutdown(self, side: Side, outcome: Result<(), Error>) -> SpliceView {
        if self.finished {
            self
        } else if outcome is Err || (!self.a_to_b && !self.b_to_a) {
            self.ended()
        } else {
            self
        }
    }

    /// What to do after the shutdown of the writing half of `side` gave
    /// `outcome`: return once both directions are complete, and at once
    /// after an error; else leave the other direction to go on.
    pub open spec fn shutdown_action(self, side: Side, outcome: Result<(), Error>)
        -> SpliceAction {
        if self.finished {
            SpliceAction::Rest
        } else {
            match outcome {
                Err(e) => SpliceAction::Finish(Err(e)),
                Ok(()) => if !self.a_to_b && !self.b_to_a {
                    SpliceAction::Finish(Ok(()))
                } else {
                    SpliceAction::Rest
                },
            }
        }
    }
}

/// The action with the names of the two sides exchanged.
pub open spec fn flipped_action(action: SpliceAction) -> SpliceAction {
    match action {
        SpliceAction::Read(s) => SpliceAction::Read(s.spec_other()),
        SpliceAction::Write(s, n) => SpliceAction::Write(s.spec_other(), n),
        SpliceAction::Shutdown(s) => SpliceAction::Shutdown(s.spec_other()),
        SpliceAction::Rest => SpliceAction::Rest,
        SpliceAction::Finish(r) => SpliceAction::Finish(r),
    }
}

/// The decisions of `connect_tcp`, which couples two streams: two copies
/// run side by side, A to B and B to A, each reading from one stream and
/// writing all it read to the other.
#[derive(Debug)]
pub struct Splice {
    a_to_b: bool,
    b_to_a: bool,
    finished: bool,
}

impl View for Splice {
    type V = SpliceView;

    closed spec fn view(&self) -> SpliceView {
        SpliceView { a_to_b: self.a_to_b, b_to_a: self.b_to_a, finished: self.finished }
    }
}

impl Splice {
    /// A splice at its start. The caller begins with a read at each side.
    pub fn new() -> (s: Splice)
        ensures
            s@ == SpliceView::fresh(),
    {
        Splice { a_to_b: true, b_to_a: true, finished: false }
    }

    /// Whether the splice has ended.
    pub fn is_finished(&self) -> (r: bool)
        ensures
            r == self@.finished,
    {
        self.finished
    }

    /// Whether bytes still flow in the direction that starts at `from`.
    pub fn flows(&self, from: Side) -> (r: bool)
        ensures
            r == self@.flows(from),
    {
        match from {
            Side::A => self.a_to_b,
            Side::B => self.b_to_a,
        }
    }

    fn end(&mut self)
        ensures
            final(self)@ == old(self)@.ended(),
    {
        self.a_to_b = false;
        self.b_to_a = false;
        self.finished = true;
    }

    /// Takes in what a read at `from` gave: `Ok(0)` is the end of the
    /// stream.
    pub fn on_read(&mut self, from: Side, outcome: Result<usize, Error>) -> (action: SpliceAction)
        ensures
            final(self)@ == old(self)@.on_read(from, outcome),
            action == old(self)@.read_action(from, outcome),
    {
        if self.finished || !self.flows(from) {
            return SpliceAction::Rest;
        }
        match outcome {
            Ok(n) => {
                if n == 0 {
                    match from {
                        Side::A => {
                            self.a_to_b = false;
                        },
                        Side::B => {
                            self.b_to_a = false;
                        },
                    }
                    SpliceAction::Shutdown(from.other())
                } else {
                    SpliceAction::Write(from.other(), n)
                }
            },
            Err(e) => {
                self.end();
                SpliceAction::Finish(Err(e))
            },
        }
    }

    /// Takes in what the write to `to` gave.
    pub fn on_write(&mut self, to: Side, outcome: Result<(), Error>) -> (action: SpliceAction)
        ensures
            final(self)@ == old(self)@.on_write(to, outcome),
            action == old(self)@.write_action(to, outcome),
    {
        if self.finished || !self.flows(to.other()) {
            return SpliceAction::Rest;
        }
        match outcome {
            Ok(()) => SpliceAction::Read(to.other()),
            Err(e) => {
                self.end();
                SpliceAction::Finish(Err(e))
            },
        }
    }

    /// Takes in what the shutdown of the writing half of `side` gave.
    pub fn on_shutdown(&mut self, side: Side, outcome: Result<(), Error>) -> (action: SpliceAction)
        ensures
            final(self)@ == old(self)@.on_shutdown(side, outcome),
            action == old(self)@.shutdown_action(side, outcome),
    {
        if self.finished {
            return SpliceAction::Rest;
        }
        match outcome {
            Err(e) => {
                self.end();
                SpliceAction::Finish(Err(e))
            },
            Ok(()) => {
                if !self.a_to_b && !self.b_to_a {
                    self.end();
                    SpliceAction::Finish(Ok(()))
                } else {
                    SpliceAction::Rest
                }
            },
        }
    }
}

/// A splice does not care which of its sides is called A: with the names
/// exchanged, every step leads to the same state and the same action, with
/// the names exchanged.
pub proof fn lemma_splice_is_symmetric(
    s: SpliceView,
    side: Side,
    read: Result<usize, Error>,
    done: Result<(), Error>,
)
    ensures
        s.flipped().on_read(side.spec_other(), read) == s.on_read(side, read).flipped(),
        s.flipped().read_action(side.spec_other(), read) == flipped_action(
            s.read_action(side, read),
        ),
        s.flipped().on_write(side.spec_other(), done) == s.on_write(side, done).flipped(),
        s.flipped().write_action(side.spec_other(), done) == flipped_action(
            s.write_action(side, done),
        ),
        s.flipped().on_shutdown(side.spec_other(), done) == s.on_shutdown(side, done).flipped(),
        s.flipped().shutdown_action(side.spec_other(), done) == flipped_action(
            s.shutdown_action(side, done),
        ),
        s.flipped().flipped() == s,
{
}

/// The end of the stream in one direction leaves the other direction
/// flowing, and the splice returns without an error only when both
/// directions are complete.
pub proof fn lemma_half_close(s: SpliceView, from: Side, done: Result<(), Error>)
    requires
        !s.finished,
        s.flows(from),
    ensures
        s.on_read(from, Ok(0)).flows(from.spec_other()) == s.flows(from.spec_other()),
        !s.on_read(from, Ok(0)).flows(from),
        !s.on_read(from, Ok(0)).finished,
        s.on_read(from, Ok(0)).shutdown_action(from.spec_other(), done) == SpliceAction::Finish(
            Ok(()),
        ) <==> done is Ok && !s.flows(from.spec_other()),
{
}

/// One client of a datagram bridge, mathematically: its address, the
/// outbound socket that carries its datagrams, and when it was last heard
/// of.
#[derive(Debug, Clone, Copy, PartialEq, Eq, Structural)]
pub struct Flow {
    pub client: SocketAddr,
    pub outbound: u64,
    pub last_seen: u64,
}

/// Whether a flow last heard of at `last_seen` has been idle for too long
/// at `now`. Both are milliseconds on the caller's clock.
pub open spec fn is_idle(last_seen: u64, now: u64) -> bool {
    now >= last_seen && now - last_seen >= UDP_IDLE_MS
}

/// The place of the flow of `client` among `flows`, if it has one.
pub open spec fn flow_of_client(flows: Seq<Flow>, client: SocketAddr) -> Option<int>
    decreases flows.len(),
{
    if flows.len() == 0 {
        None
    } else if flows.last().client == client {
        Some(flows.len() - 1)
    } else {
        flow_of_client(flows.drop_last(), client)
    }
}

/// The place of the flow that `outbound` carries among `flows`, if it
/// carries one.
pub open spec fn flow_of_outbound(flows: Seq<Flow>, outbound: u64) -> Option<int>
    decreases flows.len(),
{
    if flows.len() == 0 {
        None
    } else if flows.last().outbound == outbound {
        Some(flows.len() - 1)
    } else {
        flow_of_outbound(flows.drop_last(), outbound)
    }
}

/// Clients and outbound sockets are paired one to one: no client has two
/// flows, and no outbound socket carries two.
pub open spec fn one_to_one(flows: Seq<Flow>) -> bool {
    forall|i: int, j: int|
        0 <= i < j < flows.len() ==> (#[trigger] flows[i]).client != (#[trigger] flows[j]).client
            && flows[i].outbound != flows[j].outbound
}

/// `flow_of_client` and `flow_of_outbound` find a flow of the client or the
/// socket, and find nothing only when there is none.
pub proof fn lemma_flow_found(flows: Seq<Flow>, client: SocketAddr, outbound: u64)
    ensures
        match flow_of_client(flows, client) {
            Some(i) => 0 <= i < flows.len() && flows[i].client == client,
            None => forall|i: int| 0 <= i < flows.len() ==> (#[trigger] flows[i]).client != client,
        },
        match flow_of_outbound(flows, outbound) {
            Some(i) => 0 <= i < flows.len() && flows[i].outbound == outbound,
            None => forall|i: int|
                0 <= i < flows.len() ==> (#[trigger] flows[i]).outbound != outbound,
        },
    decreases flows.len(),
{
    if flows.len() > 0 {
        lemma_flow_found(flows.drop_last(), client, outbound);
        assert forall|i: int| 0 <= i < flows.len() - 1 implies flows[i] == flows.drop_last()[i] by {}
        if flow_of_client(flows, client) is None {
            assert forall|i: int| 0 <= i < flows.len() implies (#[trigger] flows[i]).client
                != client by {
                if i < flows.len() - 1 {
                    assert(flows.drop_last()[i].client != client);
                }
            }
        }
        if flow_of_outbound(flows, outbound) is None {
            assert forall|i: int| 0 <= i < flows.len() implies (#[trigger] flows[i]).outbound
                != outbound by {
                if i < flows.len() - 1 {
                    assert(flows.drop_last()[i].outbound != outbound);
                }
            }
        }
    }
}

/// The table of a datagram bridge: which outbound socket carries the
/// datagrams of which client. The first datagram of a client picks its
/// socket; replies that arrive on the socket go back to that client.
#[derive(Debug)]
pub struct UdpBridge {
    flows: Vec<Flow>,
}

impl View for UdpBridge {
    type V = Seq<Flow>;

    closed spec fn view(&self) -> Seq<Flow> {
        self.flows@
    }
}

impl UdpBridge {
    pub open spec fn wf(&self) -> bool {
        one_to_one(self@)
    }

    /// A bridge that knows no client.
    pub fn new() -> (b: UdpBridge)
        ensures
            b.wf(),
            b@ == Seq::<Flow>::empty(),
    {
        UdpBridge { flows: Vec::new() }
    }

    /// How many clients the bridge knows.
    pub fn len(&self) -> (n: usize)
        ensures
            n == self@.len(),
    {
        self.flows.len()
    }

    fn find_client(&self, client: SocketAddr) -> (r: Option<usize>)
        ensures
            match r {
                Some(i) => flow_of_client(self@, client) == Some(i as int) && i < self@.len(),
                None => flow_of_client(self@, client) is None,
            },
    {
        let mut i: usize = self.flows.len();
        assert(self@.take(i as int) =~= self@);
        while i > 0
            invariant
                i <= self.flows@.len(),
                flow_of_client(self@, client) == flow_of_client(self@.take(i as int), client),
            decreases i,
        {
            proof {
                let head = self@.take(i as int);
                assert(head.drop_last() =~= self@.take(i - 1));
                assert(head.last() == self@[i - 1]);
            }
            i -= 1;
            if self.flows[i].client == client {
                return Some(i);
            }
        }
        None
    }

    fn find_outbound(&self, outbound: u64) -> (r: Option<usize>)
        ensures
            match r {
                Some(i) => flow_of_outbound(self@, outbound) == Some(i as int) && i < self@.len(),
                None => flow_of_outbound(self@, outbound) is None,
            },
    {
        let mut i: usize = self.flows.len();
        assert(self@.take(i as int) =~= self@);
        while i > 0
            invariant
                i <= self.flows@.len(),
                flow_of_outbound(self@, outbound) == flow_of_outbound(
                    self@.take(i as int),
                    outbound,
                ),
            decreases i,
        {
            proof {
                let head = self@.take(i as int);
                assert(head.drop_last() =~= self@.take(i - 1));
                assert(head.last() == self@[i - 1]);
            }
            i -= 1;
            if self.flows[i].outbound == outbound {
                return Some(i);
            }
        }
        None
    }

    /// Takes in a datagram from `client` at `now` and says which outbound
    /// socket carries it. `None` is the answer for a client seen for the
    /// first time: the caller binds a socket for it and makes it known with
    /// `attach`.
    pub fn inbound(&mut self, client: SocketAddr, now: u64) -> (r: Option<u64>)
        requires
            old(self).wf(),
        ensures
            final(self).wf(),
            match flow_of_client(old(self)@, client) {
                Some(i) => r == Some(old(self)@[i].outbound) && final(self)@ == old(self)@.update(
                    i,
                    Flow { last_seen: now, ..old(self)@[i] },
                ),
                None => r is None && final(self)@ == old(self)@,
            },
    {
        match self.find_client(client) {
            Some(i) => {
                let flow = self.flows[i];
                self.flows[i] = Flow { last_seen: now, ..flow };
                assert(self@ =~= old(self)@.update(i as int, Flow { last_seen: now, ..flow }));
                Some(flow.outbound)
            },
            None => None,
        }
    }

    /// Makes it known that `outbound` carries the datagrams of `client`
    /// from `now` on. Nothing changes, and the answer is `false`, when the
    /// client already has a socket or the socket already a client.
    pub fn attach(&mut self, client: SocketAddr, outbound: u64, now: u64) -> (r: bool)
        requires
            old(self).wf(),
        ensures
            final(self).wf(),
            r == (flow_of_client(old(self)@, client) is None && flow_of_outbound(
                old(self)@,
                outbound,
            ) is None),
            final(self)@ == if r {
                old(self)@.push(Flow { client, outbound, last_seen: now })
            } else {
                old(self)@
            },
    {
        proof {
            lemma_flow_found(self@, client, outbound);
        }
        if self.find_client(client).is_some() || self.find_outbound(outbound).is_some() {
            return false;
        }
        self.flows.push(Flow { client, outbound, last_seen: now });
        true
    }

    /// Takes in a reply that arrived on `outbound` at `now` and says to
    /// which client it goes back. `None` is the answer for a socket that
    /// carries no client: the reply is dropped.
    pub fn reply(&mut self, outbound: u64, now: u64) -> (r: Option<SocketAddr>)
        requires
            old(self).wf(),
        ensures
            final(self).wf(),
            match flow_of_outbound(old(self)@, outbound) {
                Some(i) => r == Some(old(self)@[i].client) && final(self)@ == old(self)@.update(
                    i,
                    Flow { last_seen: now, ..old(self)@[i] },
                ),
                None => r is None && final(self)@ == old(self)@,
            },
    {
        match self.find_outbound(outbound) {
            Some(i) => {
                let flow = self.flows[i];
                self.flows[i] = Flow { last_seen: now, ..flow };
                assert(self@ =~= old(self)@.update(i as int, Flow { last_seen: now, ..flow }));
                Some(flow.client)
            },
            None => None,
        }
    }

    /// Forgets the clients that have been idle for too long at `now` and
    /// hands back their outbound sockets, for the caller to close. The
    /// clients that stay keep their order.
    pub fn prune(&mut self, now: u64) -> (closed: Vec<u64>)
        requires
            old(self).wf(),
        ensures
            final(self).wf(),
            final(self)@ == old(self)@.filter(|f: Flow| !is_idle(f.last_seen, now)),
            closed@ == old(self)@.filter(|f: Flow| is_idle(f.last_seen, now)).map_values(
                |f: Flow| f.outbound,
            ),
    {
        let ghost keep = |f: Flow| !is_idle(f.last_seen, now);
        let ghost drop = |f: Flow| is_idle(f.last_seen, now);
        let ghost out = |f: Flow| f.outbound;
        let mut kept: Vec<Flow> = Vec::new();
        let mut closed: Vec<u64> = Vec::new();
        let mut i: usize = 0;
        assert(self@.take(0).filter(keep) =~= Seq::<Flow>::empty()) by {
            assert(self@.take(0) =~= Seq::<Flow>::empty());
        }
        assert(self@.take(0).filter(drop).map_values(out) =~= Seq::<u64>::empty()) by {
            assert(self@.take(0) =~= Seq::<Flow>::empty());
        }
        while i < self.flows.len()
            invariant
                i <= self.flows@.len(),
                self@ == old(self)@,
                keep == |f: Flow| !is_idle(f.last_seen, now),
                drop == |f: Flow| is_idle(f.last_seen, now),
                out == |f: Flow| f.outbound,
                kept@ == self@.take(i as int).filter(keep),
                closed@ == self@.take(i as int).filter(drop).map_values(out),
            decreases self.flows@.len() - i,
        {
            let f = self.flows[i];
            proof {
                let head = self@.take(i as int);
                assert(self@.take(i + 1) =~= head.push(f));
                lemma_filter_last(head, f, keep);
                lemma_filter_last(head, f, drop);
            }
            if now >= f.last_seen && now - f.last_seen >= UDP_IDLE_MS {
                closed.push(f.outbound);
                assert(closed@ =~= self@.take(i + 1).filter(drop).map_values(out));
            } else {
                kept.push(f);
            }
            i += 1;
        }
        assert(self@.take(self@.len() as int) =~= self@);
        proof {
            lemma_filter_keeps_one_to_one(self@, keep);
        }
        self.flows = kept;
        closed
    }
}

/// What a filter keeps of a sequence with one more element: what it kept
/// before, and the element if it passes.
pub proof fn lemma_filter_last<T>(s: Seq<T>, last: T, pred: spec_fn(T) -> bool)
    ensures
        s.push(last).filter(pred) == if pred(last) {
            s.filter(pred).push(last)
        } else {
            s.filter(pred)
        },
{
    reveal(Seq::filter);
    assert(s.push(last).drop_last() =~= s);
}

/// Every element that a filter keeps stood in the sequence, in the same
/// order: for two places of the filtered sequence there are two places of
/// the sequence, in the same order, that hold the same elements.
proof fn lemma_filter_places<T>(s: Seq<T>, pred: spec_fn(T) -> bool, i: int, j: int)
    requires
        0 <= i < j < s.filter(pred).len(),
    ensures
        exists|a: int, b: int|
            0 <= a < b < s.len() && s[a] == s.filter(pred)[i] && s[b] == s.filter(pred)[j],
    decreases s.len(),
{
    reveal(Seq::filter);
    if s.len() > 0 {
        let head = s.drop_last();
        let f = s.filter(pred);
        if pred(s.last()) && j == f.len() - 1 {
            lemma_filter_place(head, pred, i);
            let a = choose|a: int| 0 <= a < head.len() && head[a] == head.filter(pred)[i];
            assert(s[a] == f[i] && s[s.len() - 1] == f[j]);
        } else {
            lemma_filter_places(head, pred, i, j);
            let (a, b) = choose|a: int, b: int|
                0 <= a < b < head.len() && head[a] == head.filter(pred)[i] && head[b]
                    == head.filter(pred)[j];
            assert(s[a] == f[i] && s[b] == f[j]);
        }
    }
}

proof fn lemma_filter_place<T>(s: Seq<T>, pred: spec_fn(T) -> bool, i: int)
    requires
        0 <= i < s.filter(pred).len(),
    ensures
        exists|a: int| 0 <= a < s.len() && s[a] == s.filter(pred)[i],
    decreases s.len(),
{
    reveal(Seq::filter);
    if s.len() > 0 {
        let head = s.drop_last();
        let f = s.filter(pred);
        if pred(s.last()) && i == f.len() - 1 {
            assert(s[s.len() - 1] == f[i]);
        } else {
            lemma_filter_place(head, pred, i);
            let a = choose|a: int| 0 <= a < head.len() && head[a] == head.filter(pred)[i];
            assert(s[a] == f[i]);
        }
    }
}

/// Forgetting flows leaves the pairing of the others one to one.
pub proof fn lemma_filter_keeps_one_to_one(flows: Seq<Flow>, pred: spec_fn(Flow) -> bool)
    requires
        one_to_one(flows),
    ensures
        one_to_one(flows.filter(pred)),
{
    let f = flows.filter(pred);
    assert forall|i: int, j: int| 0 <= i < j < f.len() implies (#[trigger] f[i]).client != (
    #[trigger] f[j]).client && f[i].outbound != f[j].outbound by {
        lemma_filter_places(flows, pred, i, j);
        let (a, b) = choose|a: int, b: int|
            0 <= a < b < flows.len() && flows[a] == f[i] && flows[b] == f[j];
        assert(flows[a].client != flows[b].client);
    }
}

/// A reply finds its way back: once a socket was attached for a client,
/// the client's datagrams are carried by that socket and the replies that
/// arrive on it go back to that client, and to no other.
pub proof fn lemma_reply_goes_back(flows: Seq<Flow>, client: SocketAddr, outbound: u64, now: u64)
    requires
        one_to_one(flows),
        flow_of_client(flows, client) is None,
        flow_of_outbound(flows, outbound) is None,
    ensures
        ({
            let after = flows.push(Flow { client, outbound, last_seen: now });
            &&& one_to_one(after)
            &&& flow_of_client(after, client) == Some(flows.len() as int)
            &&& flow_of_outbound(after, outbound) == Some(flows.len() as int)
            &&& forall|other: SocketAddr|
                other != client ==> #[trigger] flow_of_client(after, other) == flow_of_client(
                    flows,
                    other,
                )
        }),
{
    let after = flows.push(Flow { client, outbound, last_seen: now });
    lemma_flow_found(flows, client, outbound);
    assert(after.drop_last() =~= flows);
}

} // verus!
