//! The remote tunnel: one process offers its net to another over a
//! channel. A channel carries one request; a bind keeps it open for the
//! responses that announce accepted streams, each under an id by which a
//! second channel can claim it, once.
//!
//! The streams themselves stay with the caller, who knows each by a handle
//! of its own choosing; the library keeps the table from ids to handles
//! and decides what each request leads to.

use crate::address::{Address, SocketAddr};
use crate::error::Error;
use dashmap::DashMap;
use vstd::prelude::*;
use vstd::string::StringExecFns;

verus! {

/// The distance between two ids that follow each other. It leaves room
/// for the numbers of sub-streams.
pub const ID_STEP: u64 = 10;

#[verifier::external_type_specification]
#[verifier::external_body]
#[verifier::reject_recursive_types(K)]
#[verifier::reject_recursive_types(V)]
#[verifier::reject_recursive_types(S)]
pub struct ExDashMap<K, V, S>(DashMap<K, V, S>);

/// What a `DashMap` from ids to handles holds: for each key that is in it,
/// the value filed under the key.
pub uninterp spec fn contents(m: DashMap<u64, u64>) -> Map<u64, u64>;

/// `DashMap::new`: a map that holds nothing.
#[verifier::external_body]
fn map_new() -> (r: DashMap<u64, u64>)
    ensures
        forall|k: u64| !contents(r).contains_key(k),
{
    DashMap::new()
}

/// `DashMap::insert`: files `value` under `key` and hands back what was
/// filed there before, if anything was. The map is borrowed mutably, so
/// that nothing else holds a reference into it during the call.
#[verifier::external_body]
fn map_insert(m: &mut DashMap<u64, u64>, key: u64, value: u64) -> (r: Option<u64>)
    ensures
        contents(*final(m)) == contents(*old(m)).insert(key, value),
        r == if contents(*old(m)).contains_key(key) {
            Some(contents(*old(m))[key])
        } else {
            None
        },
{
    m.insert(key, value)
}

/// `DashMap::remove`: takes the entry under `key` out of the map and hands
/// back its value, if there was one. The map is borrowed mutably, so that
/// nothing else holds a reference into it during the call.
#[verifier::external_body]
fn map_remove(m: &mut DashMap<u64, u64>, key: u64) -> (r: Option<u64>)
    ensures
        contents(*final(m)) == contents(*old(m)).remove(key),
        r == if contents(*old(m)).contains_key(key) {
            Some(contents(*old(m))[key])
        } else {
            None
        },
{
    match m.remove(&key) {
        Some(entry) => Some(entry.1),
        None => None,
    }
}

/// The table of accepted streams, mathematically.
pub struct MapView {
    /// The handle of each stream that waits to be claimed, by its id.
    pub streams: Map<u64, u64>,
    /// The id that the next stream gets.
    pub next: u64,
}

impl MapView {
    /// The id after `id`: 10 further, around the end of the `u64` range.
    pub open spec fn id_after(id: u64) -> u64 {
        if id + ID_STEP <= u64::MAX {
            (id + ID_STEP) as u64
        } else {
            (id + ID_STEP - u64::MAX - 1) as u64
        }
    }

    /// The table after the stream `tcp` was filed: it waits under the next
    /// id, and the next id has moved on.
    pub open spec fn insert(self, tcp: u64) -> MapView {
        MapView { streams: self.streams.insert(self.next, tcp), next: Self::id_after(self.next) }
    }

    /// The stream that waits under `id`, if one does.
    pub open spec fn get_result(self, id: u64) -> Option<u64> {
        if self.streams.contains_key(id) {
            Some(self.streams[id])
        } else {
            None
        }
    }

    /// The table after the stream under `id` was claimed: nothing waits
    /// under `id` any more.
    pub open spec fn get(self, id: u64) -> MapView {
        MapView { streams: self.streams.remove(id), ..self }
    }
}

/// The table of the streams that a listener has accepted and that wait to
/// be claimed.
pub struct StreamMap {
    streams: DashMap<u64, u64>,
    next: u64,
}

impl View for StreamMap {
    type V = MapView;

    closed spec fn view(&self) -> MapView {
        MapView { streams: contents(self.streams), next: self.next }
    }
}

impl StreamMap {
    /// An empty table. The first id is 0.
    pub fn new() -> (m: StreamMap)
        ensures
            m@ == (MapView { streams: Map::empty(), next: 0 }),
    {
        let streams = map_new();
        assert(contents(streams) =~= Map::<u64, u64>::empty());
        StreamMap { streams, next: 0 }
    }

    /// Files the stream `tcp` and hands out the id under which it waits.
    pub fn insert(&mut self, tcp: u64) -> (id: u64)
        ensures
            id == old(self)@.next,
            final(self)@ == old(self)@.insert(tcp),
    {
        let id = self.next;
        self.next = id.wrapping_add(ID_STEP);
        let _ = map_insert(&mut self.streams, id, tcp);
        id
    }

    /// Claims the stream that waits under `id`. An id is good for one
    /// claim.
    pub fn get(&mut self, id: u64) -> (r: Option<u64>)
        ensures
            r == old(self)@.get_result(id),
            final(self)@ == old(self)@.get(id),
    {
        map_remove(&mut self.streams, id)
    }
}

/// What the peer asks for on a channel.
#[derive(Debug, Clone, PartialEq, Eq)]
pub enum CommandRequest {
    /// Connect to `address` and carry the connection's bytes on this
    /// channel.
    TcpConnect { address: Address },
    /// Listen at `address` and announce each accepted stream on this
    /// channel.
    TcpBind { address: Address },
    /// Carry the bytes of the accepted stream `id` on this channel.
    TcpAccept { id: u64 },
}

/// What the peer is told on the channel of a bind.
#[derive(Debug, Clone, Copy, PartialEq, Eq, Structural)]
pub enum CommandResponse {
    /// The listener is bound to `addr`.
    BindAddr { addr: SocketAddr },
    /// A stream from `addr` was accepted and waits under `id`.
    Accept { id: u64, addr: SocketAddr },
}

/// What the server does for a request.
#[derive(Debug, PartialEq, Eq)]
pub enum Step {
    /// Connect to the address through the net, then carry bytes between the
    /// connection and the channel.
    Connect(Address),
    /// Bind a listener to the address through the net, report its address
    /// with `bound`, then report each accepted stream with `accepted`.
    Bind(Address),
    /// Carry bytes between the stream with this handle and the channel.
    Splice(u64),
    /// Give the channel up with this error.
    Fail(Error),
}

/// The message of the error for an id under which nothing waits.
pub open spec fn id_not_found() -> Seq<char> {
    "ID is not found"@
}

/// Whether `step` is what the request leads to, given what waits in the
/// table.
pub open spec fn step_is(req: CommandRequest, map: MapView, step: Step) -> bool {
    match req {
        CommandRequest::TcpConnect { address } => step == Step::Connect(address),
        CommandRequest::TcpBind { address } => step == Step::Bind(address),
        CommandRequest::TcpAccept { id } => match map.get_result(id) {
            Some(tcp) => step == Step::Splice(tcp),
            None => step matches Step::Fail(e) && e.is_other(id_not_found()),
        },
    }
}

/// The table after the request was handled: a claim takes its stream out.
pub open spec fn map_after(req: CommandRequest, map: MapView) -> MapView {
    match req {
        CommandRequest::TcpAccept { id } => map.get(id),
        _ => map,
    }
}

/// Decides what to do for the request that opened a channel.
pub fn process_channel(req: CommandRequest, map: &mut StreamMap) -> (step: Step)
    ensures
        step_is(req, old(map)@, step),
        final(map)@ == map_after(req, old(map)@),
{
    match req {
        CommandRequest::TcpConnect { address } => Step::Connect(address),
        CommandRequest::TcpBind { address } => Step::Bind(address),
        CommandRequest::TcpAccept { id } => {
            match map.get(id) {
                Some(target) => Step::Splice(target),
                None => Step::Fail(Error::Other(String::from_str("ID is not found"))),
            }
        },
    }
}

/// The response that reports the address of the listener of a bind.
pub fn bound(addr: SocketAddr) -> (r: CommandResponse)
    ensures
        r == (CommandResponse::BindAddr { addr }),
{
    CommandResponse::BindAddr { addr }
}

/// Files a stream that the listener of a bind accepted from `addr`, and
/// makes the response that announces it.
pub fn accepted(map: &mut StreamMap, tcp: u64, addr: SocketAddr) -> (r: CommandResponse)
    ensures
        r == (CommandResponse::Accept { id: old(map)@.next, addr }),
        final(map)@ == old(map)@.insert(tcp),
{
    let id = map.insert(tcp);
    CommandResponse::Accept { id, addr }
}

/// The server's side of the tunnel: the table of what waits to be claimed.
pub struct RemoteServer {
    map: StreamMap,
}

impl RemoteServer {
    /// What waits to be claimed.
    pub closed spec fn spec_map(&self) -> MapView {
        self.map@
    }

    /// A server with nothing accepted yet.
    pub fn new() -> (s: RemoteServer)
        ensures
            s.spec_map() == (MapView { streams: Map::empty(), next: 0 }),
    {
        RemoteServer { map: StreamMap::new() }
    }

    /// Decides what to do for the request that opened a channel.
    pub fn start(&mut self, req: CommandRequest) -> (step: Step)
        ensures
            step_is(req, old(self).spec_map(), step),
            final(self).spec_map() == map_after(req, old(self).spec_map()),
    {
        process_channel(req, &mut self.map)
    }

    /// Files an accepted stream and makes the response that announces it.
    pub fn accepted(&mut self, tcp: u64, addr: SocketAddr) -> (r: CommandResponse)
        ensures
            r == (CommandResponse::Accept { id: old(self).spec_map().next, addr }),
            final(self).spec_map() == old(self).spec_map().insert(tcp),
    {
        accepted(&mut self.map, tcp, addr)
    }
}

/// An id is good for one claim: the stream that was announced under an id
/// is handed to the first claim of that id, and a second claim finds
/// nothing, whatever was claimed in between.
pub proof fn lemma_id_is_single_use(map: MapView, tcp: u64, between: Seq<u64>)
    ensures
        ({
            let id = map.next;
            let filed = map.insert(tcp);
            let claimed = filed.get(id);
            &&& filed.get_result(id) == Some(tcp)
            &&& claimed.get_result(id) is None
            &&& claim_all(claimed, between).get_result(id) is None
        }),
{
    lemma_claims_only_remove(map.insert(tcp).get(map.next), between, map.next);
}

/// The table after the ids of `ids` were claimed, one after the other.
pub open spec fn claim_all(map: MapView, ids: Seq<u64>) -> MapView
    decreases ids.len(),
{
    if ids.len() == 0 {
        map
    } else {
        claim_all(map, ids.drop_last()).get(ids.last())
    }
}

/// Claims bring nothing into the table: an id under which nothing waits
/// stays that way through any number of claims.
pub proof fn lemma_claims_only_remove(map: MapView, ids: Seq<u64>, id: u64)
    requires
        map.get_result(id) is None,
    ensures
        claim_all(map, ids).get_result(id) is None,
        claim_all(map, ids).next == map.next,
    decreases ids.len(),
{
    if ids.len() > 0 {
        lemma_claims_only_remove(map, ids.drop_last(), id);
    }
}

/// A claim of an id under which nothing waits fails, with the message that
/// the id was not found, and changes nothing.
pub proof fn lemma_unknown_id_fails(map: MapView, id: u64, step: Step)
    requires
        !map.streams.contains_key(id),
        step_is(CommandRequest::TcpAccept { id }, map, step),
    ensures
        step matches Step::Fail(e) && e.is_other(id_not_found()),
        map_after(CommandRequest::TcpAccept { id }, map) == map,
{
    assert(map.streams.remove(id) =~= map.streams);
}

/// Two streams that are filed one after the other get ids that are 10
/// apart, and both wait under their own id.
pub proof fn lemma_ids_step(map: MapView, first: u64, second: u64)
    ensures
        ({
            let after = map.insert(first).insert(second);
            &&& map.insert(first).next == MapView::id_after(map.next)
            &&& map.next + ID_STEP <= u64::MAX ==> map.insert(first).next == map.next + 10
            &&& map.insert(first).next != map.next
            &&& after.get_result(map.next) == Some(first)
            &&& after.get_result(map.insert(first).next) == Some(second)
        }),
{
}

/// The length of the header that goes before each message on a channel.
pub const FRAME_HEADER: usize = 4;

/// The four bytes that spell `n`, most significant first.
pub open spec fn be32(n: int) -> Seq<u8> {
    seq![
        (n / 16777216 % 256) as u8,
        (n / 65536 % 256) as u8,
        (n / 256 % 256) as u8,
        (n % 256) as u8,
    ]
}

/// The number that the first four bytes of `b` spell, most significant
/// first.
pub open spec fn be32_value(b: Seq<u8>) -> int {
    b[0] * 16777216 + b[1] * 65536 + b[2] * 256 + b[3]
}

/// A message as it goes over a channel: its length in four bytes, then the
/// message.
pub open spec fn framed(payload: Seq<u8>) -> Seq<u8> {
    be32(payload.len() as int) + payload
}

/// The message of the error for a message that is too long to frame.
pub open spec fn frame_too_large() -> Seq<char> {
    "frame too large"@
}

/// Puts the header before a message. A message of more than 2^32 - 1
/// bytes cannot be framed.
pub fn frame(payload: &[u8]) -> (r: Result<Vec<u8>, Error>)
    ensures
        match r {
            Ok(out) => payload@.len() <= u32::MAX && out@ == framed(payload@),
            Err(e) => payload@.len() > u32::MAX && e.is_other(frame_too_large()),
        },
{
    let len = payload.len();
    if len > 0xffff_ffff {
        return Err(Error::Other(String::from_str("frame too large")));
    }
    let mut out: Vec<u8> = Vec::new();
    out.push((len / 16777216 % 256) as u8);
    out.push((len / 65536 % 256) as u8);
    out.push((len / 256 % 256) as u8);
    out.push((len % 256) as u8);
    let mut i: usize = 0;
    while i < len
        invariant
            i <= len,
            len == payload@.len(),
            out@ == be32(len as int) + payload@.take(i as int),
        decreases len - i,
    {
        out.push(payload[i]);
        assert(out@ =~= be32(len as int) + payload@.take(i + 1));
        i += 1;
    }
    assert(payload@.take(len as int) =~= payload@);
    Ok(out)
}

/// Finds the first message in what has arrived on a channel: the message
/// is `buf[start..end]`, and what follows it begins at `end`. Nothing when
/// the header or the message has not arrived in full.
pub fn deframe(buf: &[u8]) -> (r: Option<(usize, usize)>)
    ensures
        match r {
            Some((start, end)) => {
                &&& start == FRAME_HEADER
                &&& buf@.len() >= FRAME_HEADER
                &&& end == FRAME_HEADER + be32_value(buf@)
                &&& end <= buf@.len()
            },
            None => buf@.len() < FRAME_HEADER || buf@.len() < FRAME_HEADER + be32_value(buf@),
        },
{
    if buf.len() < FRAME_HEADER {
        return None;
    }
    let len: u64 = buf[0] as u64 * 16777216 + buf[1] as u64 * 65536 + buf[2] as u64 * 256
        + buf[3] as u64;
    let have: u64 = (buf.len() - FRAME_HEADER) as u64;
    if have < len {
        return None;
    }
    Some((FRAME_HEADER, FRAME_HEADER + len as usize))
}

/// What was framed is found again: in a framed message, followed by
/// anything, the first message is the one that was framed, and what is
/// left begins behind it.
pub proof fn lemma_frame_round_trip(payload: Seq<u8>, rest: Seq<u8>)
    requires
        payload.len() <= u32::MAX,
    ensures
        ({
            let buf = framed(payload) + rest;
            &&& be32_value(buf) == payload.len()
            &&& buf.subrange(FRAME_HEADER as int, FRAME_HEADER + payload.len()) == payload
            &&& buf.skip(FRAME_HEADER + payload.len()) == rest
        }),
{
    let buf = framed(payload) + rest;
    let n = payload.len() as int;
    assert(buf[0] == (n / 16777216 % 256) as u8);
    assert(buf[1] == (n / 65536 % 256) as u8);
    assert(buf[2] == (n / 256 % 256) as u8);
    assert(buf[3] == (n % 256) as u8);
    assert(buf.subrange(FRAME_HEADER as int, FRAME_HEADER + payload.len()) =~= payload);
    assert(buf.skip(FRAME_HEADER + payload.len()) =~= rest);
}

} // verus!
