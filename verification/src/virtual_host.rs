//! An in-memory TCP/UDP fabric: a port registry, listeners with accept
//! queues, and streams and sockets built on pipes. No kernel socket is
//! touched; every operation answers at once, with would-block where a real
//! socket would wait.

use crate::address::SocketAddr;
use crate::error::Error;
use crate::pipe::{lemma_quiet, views, Pipe, PipeView, Side};
use std::collections::BTreeMap;
use std::collections::VecDeque;
use vstd::prelude::*;
use vstd::slice::slice_to_vec;

verus! {

/// The two transports that the fabric carries.
#[derive(Debug, PartialOrd, PartialEq, Ord, Eq, Copy, Clone, Structural)]
pub enum Protocol {
    Tcp,
    Udp,
}

/// A port of one protocol: the key of the registry.
#[derive(Debug, Clone, Copy, PartialOrd, PartialEq, Ord, Eq, Structural)]
pub struct Port(pub Protocol, pub u16);

impl Port {
    /// The address under which the port is reached: `127.0.0.1` and the
    /// port's number.
    pub open spec fn spec_addr(self) -> SocketAddr {
        SocketAddr::spec_localhost(self.1)
    }

    /// The number under which the registry files the port: the port's number
    /// for TCP, and 65536 more for UDP.
    pub open spec fn spec_code(self) -> u32 {
        match self.0 {
            Protocol::Tcp => self.1 as u32,
            Protocol::Udp => (self.1 + 65536) as u32,
        }
    }

    #[verifier::when_used_as_spec(spec_addr)]
    pub fn addr(self) -> (r: SocketAddr)
        ensures
            r == self.spec_addr(),
    {
        SocketAddr::localhost(self.1)
    }

    #[verifier::when_used_as_spec(spec_code)]
    pub fn code(self) -> (r: u32)
        ensures
            r == self.spec_code(),
    {
        match self.0 {
            Protocol::Tcp => self.1 as u32,
            Protocol::Udp => self.1 as u32 + 65536,
        }
    }

    pub fn protocol(self) -> (r: Protocol)
        ensures
            r == self.0,
    {
        self.0
    }

    pub fn number(self) -> (r: u16)
        ensures
            r == self.1,
    {
        self.1
    }
}

/// What one end of a stream knows of itself, mathematically.
pub struct TcpDataView {
    /// Bytes that arrived in a chunk too large for the reader's buffer and
    /// wait for the next read.
    pub buf: Seq<u8>,
    pub local_addr: Port,
    pub peer_addr: Port,
}

/// What one end of a stream keeps: the bytes carried over from an oversized
/// chunk, and the two ports of the connection.
#[derive(Debug, Clone)]
pub struct TcpData {
    buf: VecDeque<u8>,
    local_addr: Port,
    peer_addr: Port,
}

impl View for TcpData {
    type V = TcpDataView;

    closed spec fn view(&self) -> TcpDataView {
        TcpDataView { buf: self.buf@, local_addr: self.local_addr, peer_addr: self.peer_addr }
    }
}

/// How many bytes one read moves: as many as are there, as far as the
/// buffer has room.
pub open spec fn copy_len(available: nat, room: nat) -> nat {
    if available <= room {
        available
    } else {
        room
    }
}

impl TcpData {
    /// The data of a fresh end: nothing carried over.
    pub fn new(local_addr: Port, peer_addr: Port) -> (d: TcpData)
        ensures
            d@ == (TcpDataView { buf: Seq::empty(), local_addr, peer_addr }),
    {
        TcpData { buf: VecDeque::new(), local_addr, peer_addr }
    }

    /// Exchanges the local and the peer port: the data of the other end.
    pub fn swap(&mut self)
        ensures
            final(self)@ == (TcpDataView {
                buf: old(self)@.buf,
                local_addr: old(self)@.peer_addr,
                peer_addr: old(self)@.local_addr,
            }),
    {
        let l = self.local_addr;
        self.local_addr = self.peer_addr;
        self.peer_addr = l;
    }

    pub fn local_addr(&self) -> (p: Port)
        ensures
            p == self@.local_addr,
    {
        self.local_addr
    }

    pub fn peer_addr(&self) -> (p: Port)
        ensures
            p == self@.peer_addr,
    {
        self.peer_addr
    }

    /// How many bytes are carried over.
    pub fn carried(&self) -> (n: usize)
        ensures
            n == self@.buf.len(),
    {
        self.buf.len()
    }

    /// Forgets what was carried over.
    pub fn clear(&mut self)
        ensures
            final(self)@ == (TcpDataView { buf: Seq::empty(), ..old(self)@ }),
    {
        self.buf.clear();
    }

    /// Moves carried-over bytes to the front of `buf`, oldest first, as far
    /// as `buf` has room, and says how many were moved.
    pub fn drain_into(&mut self, buf: &mut [u8]) -> (n: usize)
        ensures
            n == copy_len(old(self)@.buf.len(), old(buf)@.len()),
            final(buf)@ == old(self)@.buf.take(n as int) + old(buf)@.skip(n as int),
            final(self)@ == (TcpDataView { buf: old(self)@.buf.skip(n as int), ..old(self)@ }),
    {
        let n: usize = if self.buf.len() <= buf.len() {
            self.buf.len()
        } else {
            buf.len()
        };
        let mut i: usize = 0;
        while i < n
            invariant
                i <= n,
                n <= old(self)@.buf.len(),
                n <= old(buf)@.len(),
                buf@.len() == old(buf)@.len(),
                buf@ == old(self)@.buf.take(i as int) + old(buf)@.skip(i as int),
                self.buf@ == old(self)@.buf.skip(i as int),
                self.local_addr == old(self).local_addr,
                self.peer_addr == old(self).peer_addr,
            decreases n - i,
        {
            let b = self.buf.pop_front();
            match b {
                Some(x) => {
                    buf[i] = x;
                },
                None => {},
            }
            i += 1;
        }
        n
    }

    /// Takes in a chunk that just arrived: its first bytes go to the front
    /// of `buf`, as far as `buf` has room, and the rest is carried over for
    /// the reads that follow. Says how many bytes went to `buf`.
    pub fn absorb(&mut self, chunk: &Vec<u8>, buf: &mut [u8]) -> (n: usize)
        ensures
            n == copy_len(chunk@.len(), old(buf)@.len()),
            final(buf)@ == chunk@.take(n as int) + old(buf)@.skip(n as int),
            final(self)@ == (TcpDataView {
                buf: old(self)@.buf + chunk@.skip(n as int),
                ..old(self)@
            }),
    {
        let n: usize = if chunk.len() <= buf.len() {
            chunk.len()
        } else {
            buf.len()
        };
        let mut i: usize = 0;
        while i < n
            invariant
                i <= n,
                n <= chunk@.len(),
                n <= old(buf)@.len(),
                buf@.len() == old(buf)@.len(),
                buf@ == chunk@.take(i as int) + old(buf)@.skip(i as int),
            decreases n - i,
        {
            buf[i] = chunk[i];
            i += 1;
        }
        while i < chunk.len()
            invariant
                n <= i <= chunk@.len(),
                self.buf@ == old(self)@.buf + chunk@.subrange(n as int, i as int),
                self.local_addr == old(self).local_addr,
                self.peer_addr == old(self).peer_addr,
            decreases chunk@.len() - i,
        {
            self.buf.push_back(chunk[i]);
            i += 1;
        }
        assert(chunk@.subrange(n as int, chunk@.len() as int) == chunk@.skip(n as int));
        n
    }
}

/// What the registry files under a port: which kind of endpoint owns it, and
/// the number of that endpoint's pipe in the host's table of its kind.
#[derive(Debug, Clone, Copy, PartialEq, Eq, Structural)]
pub enum Value {
    TcpStream(usize),
    TcpListener(usize),
    UdpSocket(usize),
}

impl Value {
    /// The pipe of the connected stream that owns the port; refused when
    /// something else owns it.
    pub fn get_tcp_stream(&self) -> (r: Result<usize, Error>)
        ensures
            r == match *self {
                Value::TcpStream(i) => Ok::<usize, Error>(i),
                _ => Err(Error::ConnectionRefused),
            },
    {
        match self {
            Value::TcpStream(s) => Ok(*s),
            _ => Err(Error::ConnectionRefused),
        }
    }

    /// The pipe of the listener that owns the port; refused when something
    /// else owns it.
    pub fn get_tcp_listener(&self) -> (r: Result<usize, Error>)
        ensures
            r == match *self {
                Value::TcpListener(i) => Ok::<usize, Error>(i),
                _ => Err(Error::ConnectionRefused),
            },
    {
        match self {
            Value::TcpListener(s) => Ok(*s),
            _ => Err(Error::ConnectionRefused),
        }
    }

    /// The pipe of the datagram socket that owns the port; refused when
    /// something else owns it.
    pub fn get_udp_socket(&self) -> (r: Result<usize, Error>)
        ensures
            r == match *self {
                Value::UdpSocket(i) => Ok::<usize, Error>(i),
                _ => Err(Error::ConnectionRefused),
            },
    {
        match self {
            Value::UdpSocket(s) => Ok(*s),
            _ => Err(Error::ConnectionRefused),
        }
    }
}

/// One end of a stream, mathematically: its pipe in the host's table, the
/// side of that pipe it holds, and its data.
pub struct TcpStreamView {
    pub pipe: usize,
    pub side: Side,
    pub data: TcpDataView,
}

/// One end of a connected stream. The connecting end holds side A of the
/// stream's pipe, the accepted end side B.
#[derive(Debug)]
pub struct TcpStream {
    pipe: usize,
    side: Side,
    data: TcpData,
}

impl View for TcpStream {
    type V = TcpStreamView;

    closed spec fn view(&self) -> TcpStreamView {
        TcpStreamView { pipe: self.pipe, side: self.side, data: self.data@ }
    }
}

impl TcpStream {
    /// The address of the other end.
    pub fn peer_addr(&self) -> (r: Result<SocketAddr, Error>)
        ensures
            r == Ok::<SocketAddr, Error>(self@.data.peer_addr.spec_addr()),
    {
        Ok(self.data.peer_addr().addr())
    }

    /// The address of this end.
    pub fn local_addr(&self) -> (r: Result<SocketAddr, Error>)
        ensures
            r == Ok::<SocketAddr, Error>(self@.data.local_addr.spec_addr()),
    {
        Ok(self.data.local_addr().addr())
    }
}

/// A listener or a datagram socket, mathematically: its pipe in the host's
/// table of its kind, and the port it is bound to.
pub struct BoundView {
    pub pipe: usize,
    pub port: Port,
}

/// A bound TCP listener. It holds side B of its pipe; the registry sends
/// accepted streams in from side A.
#[derive(Debug)]
pub struct TcpListener {
    pipe: usize,
    data: Port,
}

impl View for TcpListener {
    type V = BoundView;

    closed spec fn view(&self) -> BoundView {
        BoundView { pipe: self.pipe, port: self.data }
    }
}

impl TcpListener {
    /// The address the listener is bound to.
    pub fn local_addr(&self) -> (r: Result<SocketAddr, Error>)
        ensures
            r == Ok::<SocketAddr, Error>(self@.port.spec_addr()),
    {
        Ok(self.data.addr())
    }
}

/// A bound datagram socket. It holds side B of its pipe; the fabric delivers
/// datagrams in from side A.
#[derive(Debug)]
pub struct UdpSocket {
    pipe: usize,
    data: Port,
}

impl View for UdpSocket {
    type V = BoundView;

    closed spec fn view(&self) -> BoundView {
        BoundView { pipe: self.pipe, port: self.data }
    }
}

impl UdpSocket {
    /// The address the socket is bound to.
    pub fn local_addr(&self) -> (r: Result<SocketAddr, Error>)
        ensures
            r == Ok::<SocketAddr, Error>(self@.port.spec_addr()),
    {
        Ok(self.data.addr())
    }
}

/// A datagram in flight, mathematically.
pub struct DatagramView {
    pub data: Seq<u8>,
    pub from: SocketAddr,
}

/// A datagram in flight: its payload and the address it came from.
#[derive(Debug)]
pub struct Datagram {
    pub data: Vec<u8>,
    pub from: SocketAddr,
}

impl View for Datagram {
    type V = DatagramView;

    open spec fn view(&self) -> DatagramView {
        DatagramView { data: self.data@, from: self.from }
    }
}

/// Whether the fabric accepts `addr` as a place to bind or to reach: only
/// loopback and unspecified addresses exist on it.
pub open spec fn address_ok(addr: SocketAddr) -> bool {
    addr.ip.spec_is_loopback() || addr.ip.spec_is_unspecified()
}

/// Accepts loopback and unspecified addresses; every other is not
/// available.
pub fn check_address(addr: &SocketAddr) -> (r: Result<(), Error>)
    ensures
        r == if address_ok(*addr) {
            Ok::<(), Error>(())
        } else {
            Err(Error::AddrNotAvailable)
        },
{
    if addr.ip().is_loopback() {
        Ok(())
    } else if addr.ip().is_unspecified() {
        Ok(())
    } else {
        Err(Error::AddrNotAvailable)
    }
}

/// The smallest port number from `from` up that `protocol` has free in
/// `ports`, if there is one.
pub open spec fn first_free(ports: Map<Port, Value>, protocol: Protocol, from: int) -> Option<u16>
    decreases 65536 - from,
{
    if from < 0 || from > 65535 {
        None
    } else if !ports.contains_key(Port(protocol, from as u16)) {
        Some(from as u16)
    } else {
        first_free(ports, protocol, from + 1)
    }
}

/// `first_free` finds a free port at or after `from`, and every port
/// between `from` and what it finds is taken; it finds none only when every
/// port from `from` up is taken.
pub proof fn lemma_first_free(ports: Map<Port, Value>, protocol: Protocol, from: int)
    requires
        0 <= from <= 65536,
    ensures
        match first_free(ports, protocol, from) {
            Some(q) => {
                &&& from <= q
                &&& !ports.contains_key(Port(protocol, q))
                &&& forall|p: u16| from <= p < q ==> ports.contains_key(Port(protocol, p))
            },
            None => forall|p: u16| from <= p ==> ports.contains_key(Port(protocol, p)),
        },
    decreases 65536 - from,
{
    if from <= 65535 && ports.contains_key(Port(protocol, from as u16)) {
        lemma_first_free(ports, protocol, from + 1);
        match first_free(ports, protocol, from) {
            Some(q) => {
                assert forall|p: u16| from <= p < q implies ports.contains_key(
                    Port(protocol, p),
                ) by {
                    if p != from {
                        assert(from + 1 <= p);
                    }
                }
            },
            None => {
                assert forall|p: u16| from <= p implies ports.contains_key(
                    Port(protocol, p),
                ) by {
                    if p != from {
                        assert(from + 1 <= p);
                    }
                }
            },
        }
    }
}

/// The registry as the contracts see it: for each port, what owns it.
pub open spec fn ports_of(m: Map<u32, Value>) -> Map<Port, Value> {
    Map::new(|p: Port| m.contains_key(p.spec_code()), |p: Port| m[p.spec_code()])
}

/// The port registry: who owns which port, and where the search for a free
/// port starts.
struct Inner {
    ports: BTreeMap<u32, Value>,
    next_port: u16,
}

impl Inner {
    spec fn ports(&self) -> Map<Port, Value> {
        ports_of(self.ports@)
    }

    fn new() -> (r: Inner)
        ensures
            r.ports() == Map::<Port, Value>::empty(),
            r.next_port == 1,
    {
        let r = Inner { ports: BTreeMap::new(), next_port: 1 };
        assert(r.ports() =~= Map::<Port, Value>::empty());
        r
    }

    fn lookup(&self, key: Port) -> (r: Option<Value>)
        ensures
            r == if self.ports().contains_key(key) {
                Some(self.ports()[key])
            } else {
                None
            },
    {
        let code = key.code();
        match self.ports.get(&code) {
            Some(v) => Some(*v),
            None => None,
        }
    }

    fn insert(&mut self, key: Port, value: Value)
        ensures
            final(self).ports() == old(self).ports().insert(key, value),
            final(self).next_port == old(self).next_port,
    {
        let code = key.code();
        self.ports.insert(code, value);
        assert(self.ports() =~= old(self).ports().insert(key, value)) by {
            assert forall|p: Port| p.spec_code() == key.spec_code() implies p == key by {}
        }
    }

    fn remove(&mut self, key: Port)
        ensures
            final(self).ports() == old(self).ports().remove(key),
            final(self).next_port == old(self).next_port,
    {
        let code = key.code();
        self.ports.remove(&code);
        assert(self.ports() =~= old(self).ports().remove(key)) by {
            assert forall|p: Port| p.spec_code() == key.spec_code() implies p == key by {}
        }
    }

    /// Moves the hint up to the first port that `protocol` has free and
    /// hands that port out; leaves the hint alone when none is free.
    fn next_port(&mut self, protocol: Protocol) -> (r: Option<u16>)
        ensures
            r == first_free(old(self).ports(), protocol, old(self).next_port as int),
            final(self).ports() == old(self).ports(),
            final(self).next_port == match r {
                Some(q) => q,
                None => old(self).next_port,
            },
    {
        let mut p: u16 = self.next_port;
        loop
            invariant
                *self == *old(self),
                self.next_port <= p,
                first_free(self.ports(), protocol, p as int) == first_free(
                    self.ports(),
                    protocol,
                    self.next_port as int,
                ),
            decreases 65536 - p,
        {
            if self.lookup(Port(protocol, p)).is_none() {
                self.next_port = p;
                return Some(p);
            }
            if p == 65535 {
                assert(first_free(self.ports(), protocol, 65536) == None::<u16>);
                return None;
            }
            p += 1;
        }
    }

    /// The key for a bind to `port`: the port itself, or for port 0 the
    /// first free one from the hint up. In use when the key is taken or
    /// none is left.
    fn get_port(&mut self, protocol: Protocol, port: u16) -> (r: Result<Port, Error>)
        ensures
            r == pick_port(old(self).ports(), old(self).next_port, protocol, port),
            final(self).ports() == old(self).ports(),
            final(self).next_port == hint_after(
                old(self).ports(),
                old(self).next_port,
                protocol,
                port,
            ),
    {
        if port == 0 {
            match self.next_port(protocol) {
                Some(q) => {
                    proof {
                        lemma_first_free(old(self).ports(), protocol, old(self).next_port as int);
                    }
                    Ok(Port(protocol, q))
                },
                None => Err(Error::AddrInUse),
            }
        } else {
            let key = Port(protocol, port);
            if self.lookup(key).is_some() {
                Err(Error::AddrInUse)
            } else {
                Ok(key)
            }
        }
    }
}

/// The key that a bind to `port` gets: `port` itself when it is not 0 and
/// free; for port 0 the smallest free port from the hint up; in use
/// otherwise.
pub open spec fn pick_port(
    ports: Map<Port, Value>,
    hint: u16,
    protocol: Protocol,
    port: u16,
) -> Result<Port, Error> {
    if port == 0 {
        match first_free(ports, protocol, hint as int) {
            Some(q) => Ok(Port(protocol, q)),
            None => Err(Error::AddrInUse),
        }
    } else if ports.contains_key(Port(protocol, port)) {
        Err(Error::AddrInUse)
    } else {
        Ok(Port(protocol, port))
    }
}

/// The hint after a bind to `port`: it moves to the port that was picked
/// for port 0, and stays otherwise.
pub open spec fn hint_after(
    ports: Map<Port, Value>,
    hint: u16,
    protocol: Protocol,
    port: u16,
) -> u16 {
    if port == 0 {
        match first_free(ports, protocol, hint as int) {
            Some(q) => q,
            None => hint,
        }
    } else {
        hint
    }
}

/// The views of the pipes of a table, in the table's order.
pub open spec fn pipe_views<T: View>(pipes: Seq<Pipe<T>>) -> Seq<PipeView<T::V>> {
    pipes.map_values(|p: Pipe<T>| p@)
}

/// The whole fabric, mathematically.
pub struct HostView {
    /// The registry: what owns each port that is taken.
    pub ports: Map<Port, Value>,
    /// Where the search for a free port starts. It never moves down.
    pub next_port: u16,
    /// The pipes of the streams, by number. Side A is the connecting end,
    /// side B the accepted end.
    pub streams: Seq<PipeView<Seq<u8>>>,
    /// The pipes of the listeners, by number. Side B is the listener; what
    /// it has yet to receive is its accept queue.
    pub listeners: Seq<PipeView<TcpStreamView>>,
    /// The pipes of the datagram sockets, by number. Side B is the socket;
    /// what it has yet to receive are the datagrams sent to it.
    pub sockets: Seq<PipeView<DatagramView>>,
}

impl HostView {
    /// A fabric on which nothing is bound. The first port handed out is 1.
    pub open spec fn fresh() -> HostView {
        HostView {
            ports: Map::empty(),
            next_port: 1,
            streams: Seq::empty(),
            listeners: Seq::empty(),
            sockets: Seq::empty(),
        }
    }

    /// Every entry of the registry names a pipe that exists, and so does
    /// every stream that waits in an accept queue; the pipe of every stream
    /// is quiet and carries no empty chunk.
    pub open spec fn wf(self) -> bool {
        &&& forall|i: int| 0 <= i < self.streams.len() ==> chunks_ok(#[trigger] self.streams[i])
        &&& forall|p: Port| #[trigger]
            self.ports.contains_key(p) ==> match self.ports[p] {
                Value::TcpStream(i) => i < self.streams.len(),
                Value::TcpListener(i) => i < self.listeners.len(),
                Value::UdpSocket(i) => i < self.sockets.len(),
            }
        &&& forall|l: int, j: int|
            0 <= l < self.listeners.len() && 0 <= j < self.listeners[l].to_b.len() ==> (
            #[trigger] self.listeners[l].to_b[j]).pipe < self.streams.len()
    }

    /// The key that a bind to `port` gets.
    pub open spec fn pick(self, protocol: Protocol, port: u16) -> Result<Port, Error> {
        pick_port(self.ports, self.next_port, protocol, port)
    }

    /// The hint after a bind to `port`.
    pub open spec fn hint(self, protocol: Protocol, port: u16) -> u16 {
        hint_after(self.ports, self.next_port, protocol, port)
    }

    /// What `tcp_bind` answers: not available for an address that is neither
    /// loopback nor unspecified; in use when the port is taken, or when port
    /// 0 is asked for and none is free from the hint up; else a listener on
    /// the picked port, with the next pipe of the listeners' table.
    pub open spec fn tcp_bind_result(self, addr: SocketAddr) -> Result<BoundView, Error> {
        if !address_ok(addr) {
            Err(Error::AddrNotAvailable)
        } else {
            match self.pick(Protocol::Tcp, addr.port) {
                Ok(key) => Ok(BoundView { pipe: self.listeners.len() as usize, port: key }),
                Err(e) => Err(e),
            }
        }
    }

    /// The fabric after `tcp_bind`: on success the registry files the new
    /// listener under its port, and the hint has moved if port 0 was asked
    /// for. A failed bind changes nothing.
    pub open spec fn tcp_bind(self, addr: SocketAddr) -> HostView {
        match self.tcp_bind_result(addr) {
            Ok(l) => HostView {
                ports: self.ports.insert(l.port, Value::TcpListener(l.pipe)),
                next_port: self.hint(Protocol::Tcp, addr.port),
                listeners: self.listeners.push(PipeView::fresh()),
                ..self
            },
            Err(_) => self,
        }
    }

    /// What `udp_bind` answers: as `tcp_bind`, among the UDP ports.
    pub open spec fn udp_bind_result(self, addr: SocketAddr) -> Result<BoundView, Error> {
        if !address_ok(addr) {
            Err(Error::AddrNotAvailable)
        } else {
            match self.pick(Protocol::Udp, addr.port) {
                Ok(key) => Ok(BoundView { pipe: self.sockets.len() as usize, port: key }),
                Err(e) => Err(e),
            }
        }
    }

    /// The fabric after `udp_bind`.
    pub open spec fn udp_bind(self, addr: SocketAddr) -> HostView {
        match self.udp_bind_result(addr) {
            Ok(s) => HostView {
                ports: self.ports.insert(s.port, Value::UdpSocket(s.pipe)),
                next_port: self.hint(Protocol::Udp, addr.port),
                sockets: self.sockets.push(PipeView::fresh()),
                ..self
            },
            Err(_) => self,
        }
    }
}

impl HostView {
    /// The end that `tcp_connect` hands to the listener for the end `s` that
    /// it hands to the caller: the same pipe from its other side, with the
    /// two ports exchanged.
    pub open spec fn mirror(s: TcpStreamView) -> TcpStreamView {
        TcpStreamView {
            pipe: s.pipe,
            side: s.side.spec_other(),
            data: TcpDataView {
                buf: Seq::empty(),
                local_addr: s.data.peer_addr,
                peer_addr: s.data.local_addr,
            },
        }
    }

    /// What `tcp_connect` answers: not available for an address that is
    /// neither loopback nor unspecified; in use when no port is free for the
    /// caller's end; refused when no listener owns the target port; else the
    /// caller's end of a new stream, from the first free port to the
    /// target's.
    pub open spec fn tcp_connect_result(self, addr: SocketAddr) -> Result<TcpStreamView, Error> {
        let target = Port(Protocol::Tcp, addr.port);
        if !address_ok(addr) {
            Err(Error::AddrNotAvailable)
        } else {
            match self.pick(Protocol::Tcp, 0) {
                Err(e) => Err(e),
                Ok(key) => if !self.ports.contains_key(target) {
                    Err(Error::ConnectionRefused)
                } else {
                    match self.ports[target] {
                        Value::TcpListener(l) => match self.listeners[l as int].send_result(
                            Side::A,
                        ) {
                            Ok(()) => Ok(
                                TcpStreamView {
                                    pipe: self.streams.len() as usize,
                                    side: Side::A,
                                    data: TcpDataView {
                                        buf: Seq::empty(),
                                        local_addr: key,
                                        peer_addr: target,
                                    },
                                },
                            ),
                            Err(e) => Err(e),
                        },
                        _ => Err(Error::ConnectionRefused),
                    }
                },
            }
        }
    }

    /// The fabric after `tcp_connect`. For an address that the fabric
    /// accepts the hint moves to the port picked for the caller, whether or
    /// not the connection comes about. On success the registry files the
    /// caller's end under that port, the stream gets a new pipe, and the
    /// mirrored end joins the back of the listener's accept queue.
    pub open spec fn tcp_connect(self, addr: SocketAddr) -> HostView {
        if !address_ok(addr) {
            self
        } else {
            match self.tcp_connect_result(addr) {
                Ok(s) => {
                    let l = self.ports[Port(Protocol::Tcp, addr.port)]->TcpListener_0 as int;
                    HostView {
                        ports: self.ports.insert(s.data.local_addr, Value::TcpStream(s.pipe)),
                        next_port: self.hint(Protocol::Tcp, 0),
                        streams: self.streams.push(PipeView::fresh()),
                        listeners: self.listeners.update(
                            l,
                            self.listeners[l].send(Side::A, Self::mirror(s)),
                        ),
                        ..self
                    }
                },
                Err(_) => HostView { next_port: self.hint(Protocol::Tcp, 0), ..self },
            }
        }
    }

    /// What `accept` answers: the oldest stream of the accept queue with
    /// its peer's address; would-block while the queue is empty; aborted
    /// once the listener's pipe is shut; not connected for a handle that
    /// names no listener of this fabric.
    pub open spec fn accept_result(self, l: BoundView) -> Result<
        (TcpStreamView, SocketAddr),
        Error,
    > {
        if l.pipe >= self.listeners.len() {
            Err(Error::NotConnected)
        } else {
            match self.listeners[l.pipe as int].recv_result(Side::B) {
                Ok(Some(s)) => Ok((s, s.data.peer_addr.spec_addr())),
                Ok(None) => Err(Error::ConnectionAborted),
                Err(e) => Err(e),
            }
        }
    }

    /// The fabric after `accept`: the stream that was handed out has left
    /// the accept queue.
    pub open spec fn accept(self, l: BoundView) -> HostView {
        if l.pipe >= self.listeners.len() {
            self
        } else {
            HostView {
                listeners: self.listeners.update(
                    l.pipe as int,
                    self.listeners[l.pipe as int].recv(Side::B),
                ),
                ..self
            }
        }
    }

    /// The registry after the endpoint with pipe `owner` gave up `port`:
    /// the entry goes if it is still that endpoint's.
    pub open spec fn released(self, port: Port, owner: Value) -> Map<Port, Value> {
        if self.ports.contains_key(port) && self.ports[port] == owner {
            self.ports.remove(port)
        } else {
            self.ports
        }
    }

    /// The fabric after the listener `l` was dropped: its port is free
    /// again, its pipe is shut, and every stream that still waited in its
    /// accept queue is torn down.
    pub open spec fn drop_listener(self, l: BoundView) -> HostView {
        if l.pipe >= self.listeners.len() {
            self
        } else {
            HostView {
                ports: self.released(l.port, Value::TcpListener(l.pipe)),
                listeners: self.listeners.update(
                    l.pipe as int,
                    self.listeners[l.pipe as int].drop_end(Side::B),
                ),
                streams: abort_all(self.streams, self.listeners[l.pipe as int].inbox(Side::B)),
                ..self
            }
        }
    }
}

/// The pipe is quiet, and no chunk in flight on it is empty.
pub open spec fn chunks_ok(p: PipeView<Seq<u8>>) -> bool {
    &&& p.quiet()
    &&& forall|j: int| 0 <= j < p.to_a.len() ==> (#[trigger] p.to_a[j]).len() > 0
    &&& forall|j: int| 0 <= j < p.to_b.len() ==> (#[trigger] p.to_b[j]).len() > 0
}

/// A new pipe is in order, and every operation keeps a pipe in order as
/// long as no empty chunk is sent.
pub proof fn lemma_chunks_ok(p: PipeView<Seq<u8>>, side: Side, chunk: Seq<u8>)
    requires
        chunks_ok(p),
    ensures
        chunks_ok(PipeView::<Seq<u8>>::fresh()),
        chunks_ok(p.abort()),
        chunks_ok(p.recv(side)),
        chunks_ok(p.close(side)),
        chunks_ok(p.stop(side)),
        chunks_ok(p.drop_end(side)),
        chunk.len() > 0 ==> chunks_ok(p.send(side, chunk)),
{
    lemma_quiet(p, side, chunk);
    let r = p.recv(side);
    assert forall|j: int| 0 <= j < r.to_a.len() implies (#[trigger] r.to_a[j]).len() > 0 by {
        if r.to_a != p.to_a {
            assert(r.to_a[j] == p.to_a[j + 1]);
        }
    }
    assert forall|j: int| 0 <= j < r.to_b.len() implies (#[trigger] r.to_b[j]).len() > 0 by {
        if r.to_b != p.to_b {
            assert(r.to_b[j] == p.to_b[j + 1]);
        }
    }
    if chunk.len() > 0 {
        let w = p.send(side, chunk);
        assert forall|j: int| 0 <= j < w.to_a.len() implies (#[trigger] w.to_a[j]).len() > 0 by {
            if j < p.to_a.len() {
                assert(w.to_a[j] == p.to_a[j]);
            }
        }
        assert forall|j: int| 0 <= j < w.to_b.len() implies (#[trigger] w.to_b[j]).len() > 0 by {
            if j < p.to_b.len() {
                assert(w.to_b[j] == p.to_b[j]);
            }
        }
    }
}

/// The table of stream pipes after the pipe of each stream of `queue` was
/// torn down.
pub open spec fn abort_all(
    streams: Seq<PipeView<Seq<u8>>>,
    queue: Seq<TcpStreamView>,
) -> Seq<PipeView<Seq<u8>>> {
    Seq::new(
        streams.len(),
        |i: int|
            if exists|j: int| 0 <= j < queue.len() && #[trigger] queue[j].pipe == i {
                streams[i].abort()
            } else {
                streams[i]
            },
    )
}

/// Which halves of a stream a shutdown closes.
#[derive(Debug, Clone, Copy, PartialEq, Eq, Structural)]
pub enum Shutdown {
    Read,
    Write,
    Both,
}

impl Shutdown {
    /// Whether the shutdown closes the reading half.
    pub open spec fn spec_read(self) -> bool {
        self != Shutdown::Write
    }

    /// Whether the shutdown closes the writing half.
    pub open spec fn spec_write(self) -> bool {
        self != Shutdown::Read
    }

    #[verifier::when_used_as_spec(spec_read)]
    pub fn read(self) -> (r: bool)
        ensures
            r == self.spec_read(),
    {
        match self {
            Shutdown::Write => false,
            _ => true,
        }
    }

    #[verifier::when_used_as_spec(spec_write)]
    pub fn write(self) -> (r: bool)
        ensures
            r == self.spec_write(),
    {
        match self {
            Shutdown::Read => false,
            _ => true,
        }
    }
}

impl HostView {
    /// Whether `s` names a stream of this fabric.
    pub open spec fn has_stream(self, s: TcpStreamView) -> bool {
        s.pipe < self.streams.len()
    }

    /// The pipe of the stream `s`.
    pub open spec fn pipe_of(self, s: TcpStreamView) -> PipeView<Seq<u8>> {
        self.streams[s.pipe as int]
    }

    /// Whether a read at `s` turns to the pipe: only when nothing is carried
    /// over.
    pub open spec fn read_draws(self, s: TcpStreamView) -> bool {
        s.data.buf.len() == 0 && self.has_stream(s)
    }

    /// The bytes that a read at `s` has before it: what was carried over,
    /// or else the oldest chunk in flight, or else nothing.
    pub open spec fn read_source(self, s: TcpStreamView) -> Seq<u8> {
        if s.data.buf.len() > 0 {
            s.data.buf
        } else if !self.has_stream(s) {
            Seq::empty()
        } else {
            match self.pipe_of(s).recv_result(s.side) {
                Ok(Some(chunk)) => chunk,
                _ => Seq::empty(),
            }
        }
    }

    /// What `read` answers with `room` bytes of buffer: how many bytes it
    /// moved; 0 at the end of the stream; would-block when nothing is
    /// carried over and nothing has arrived.
    pub open spec fn read_result(self, s: TcpStreamView, room: nat) -> Result<usize, Error> {
        if s.data.buf.len() > 0 {
            Ok(copy_len(s.data.buf.len(), room) as usize)
        } else if !self.has_stream(s) {
            Err(Error::NotConnected)
        } else {
            match self.pipe_of(s).recv_result(s.side) {
                Ok(Some(chunk)) => Ok(copy_len(chunk.len(), room) as usize),
                Ok(None) => Ok(0),
                Err(e) => Err(e),
            }
        }
    }

    /// The fabric after a read at `s`: a read that turned to the pipe took
    /// the oldest chunk out of it.
    pub open spec fn read(self, s: TcpStreamView) -> HostView {
        if self.read_draws(s) {
            HostView {
                streams: self.streams.update(s.pipe as int, self.pipe_of(s).recv(s.side)),
                ..self
            }
        } else {
            self
        }
    }

    /// The end `s` after a read with `room` bytes of buffer: it carries over
    /// what of its source did not fit.
    pub open spec fn read_stream(self, s: TcpStreamView, room: nat) -> TcpStreamView {
        let source = self.read_source(s);
        TcpStreamView {
            data: TcpDataView { buf: source.skip(copy_len(source.len(), room) as int), ..s.data },
            ..s
        }
    }

    /// The buffer after a read at `s`: the first bytes of the source, as far
    /// as they fit, and behind them what the buffer held before.
    pub open spec fn read_buf(self, s: TcpStreamView, buf: Seq<u8>) -> Seq<u8> {
        let source = self.read_source(s);
        let n = copy_len(source.len(), buf.len()) as int;
        source.take(n) + buf.skip(n)
    }

    /// What `write` answers: the number of bytes offered, all of which went
    /// out as one chunk; broken-pipe after the writing half was shut or when
    /// the peer no longer reads.
    pub open spec fn write_result(self, s: TcpStreamView, bytes: Seq<u8>) -> Result<usize, Error> {
        if !self.has_stream(s) {
            Err(Error::NotConnected)
        } else {
            match self.pipe_of(s).send_result(s.side) {
                Ok(()) => Ok(bytes.len() as usize),
                Err(e) => Err(e),
            }
        }
    }

    /// The fabric after a write at `s`: the bytes are on their way to the
    /// peer as one chunk. An empty write sends nothing.
    pub open spec fn write(self, s: TcpStreamView, bytes: Seq<u8>) -> HostView {
        if self.has_stream(s) && bytes.len() > 0 {
            HostView {
                streams: self.streams.update(s.pipe as int, self.pipe_of(s).send(s.side, bytes)),
                ..self
            }
        } else {
            self
        }
    }

    /// What `flush` answers. Writes are on their way as soon as they are
    /// accepted, so a flush has nothing to wait for.
    pub open spec fn flush_result(self, s: TcpStreamView) -> Result<(), Error> {
        if !self.has_stream(s) {
            Err(Error::NotConnected)
        } else if self.pipe_of(s).aborted {
            Err(Error::ConnectionAborted)
        } else {
            Ok(())
        }
    }

    /// The pipe of `s` after a shutdown of the halves that `how` names.
    pub open spec fn shut_pipe(self, s: TcpStreamView, how: Shutdown) -> PipeView<Seq<u8>> {
        let p = self.pipe_of(s);
        let q = if how.spec_write() {
            p.close(s.side)
        } else {
            p
        };
        if how.spec_read() {
            q.stop(s.side)
        } else {
            q
        }
    }

    /// The fabric after a shutdown at `s`.
    pub open spec fn shutdown(self, s: TcpStreamView, how: Shutdown) -> HostView {
        if self.has_stream(s) {
            HostView { streams: self.streams.update(s.pipe as int, self.shut_pipe(s, how)), ..self }
        } else {
            self
        }
    }

    /// The fabric after the end `s` was dropped: both of its halves are
    /// shut, and the port of a connecting end is free again.
    pub open spec fn drop_stream(self, s: TcpStreamView) -> HostView {
        if self.has_stream(s) {
            HostView {
                ports: if s.side == Side::A {
                    self.released(s.data.local_addr, Value::TcpStream(s.pipe))
                } else {
                    self.ports
                },
                streams: self.streams.update(s.pipe as int, self.pipe_of(s).drop_end(s.side)),
                ..self
            }
        } else {
            self
        }
    }

    /// Whether `sock` names a socket of this fabric.
    pub open spec fn has_socket(self, sock: BoundView) -> bool {
        sock.pipe < self.sockets.len()
    }

    /// The socket that a datagram to `addr` reaches: the one that owns the
    /// UDP port of `addr`, if any.
    pub open spec fn udp_target(self, addr: SocketAddr) -> Option<int> {
        let key = Port(Protocol::Udp, addr.port);
        if self.ports.contains_key(key) && self.ports[key] is UdpSocket {
            Some(self.ports[key]->UdpSocket_0 as int)
        } else {
            None
        }
    }

    /// What `send_to` answers: the number of bytes offered, whether or not
    /// anything receives them; not available for an address that is neither
    /// loopback nor unspecified.
    pub open spec fn send_to_result(self, sock: BoundView, bytes: Seq<u8>, addr: SocketAddr)
        -> Result<usize, Error> {
        if !self.has_socket(sock) {
            Err(Error::NotConnected)
        } else if !address_ok(addr) {
            Err(Error::AddrNotAvailable)
        } else {
            Ok(bytes.len() as usize)
        }
    }

    /// The fabric after `send_to`: the datagram, stamped with the sender's
    /// address, joins the back of what the socket bound to the port of
    /// `addr` has yet to receive; it is lost if no socket is bound there or
    /// that socket no longer receives.
    pub open spec fn send_to(self, sock: BoundView, bytes: Seq<u8>, addr: SocketAddr) -> HostView {
        if self.send_to_result(sock, bytes, addr).is_ok() {
            match self.udp_target(addr) {
                Some(t) => HostView {
                    sockets: self.sockets.update(
                        t,
                        self.sockets[t].send(
                            Side::A,
                            DatagramView { data: bytes, from: sock.port.spec_addr() },
                        ),
                    ),
                    ..self
                },
                None => self,
            }
        } else {
            self
        }
    }

    /// The datagram that `recv_from` at `sock` takes, if one is there.
    pub open spec fn recv_source(self, sock: BoundView) -> Option<DatagramView> {
        if !self.has_socket(sock) {
            None
        } else {
            match self.sockets[sock.pipe as int].recv_result(Side::B) {
                Ok(Some(d)) => Some(d),
                _ => None,
            }
        }
    }

    /// What `recv_from` answers with `room` bytes of buffer: the length of
    /// what it copied of the oldest datagram, and where that came from;
    /// would-block while none is there.
    pub open spec fn recv_from_result(self, sock: BoundView, room: nat) -> Result<
        (usize, SocketAddr),
        Error,
    > {
        if !self.has_socket(sock) {
            Err(Error::NotConnected)
        } else {
            match self.sockets[sock.pipe as int].recv_result(Side::B) {
                Ok(Some(d)) => Ok((copy_len(d.data.len(), room) as usize, d.from)),
                Ok(None) => Err(Error::BrokenPipe),
                Err(e) => Err(e),
            }
        }
    }

    /// The fabric after `recv_from`: the datagram that was handed out is
    /// gone, with whatever of it did not fit the buffer.
    pub open spec fn recv_from(self, sock: BoundView) -> HostView {
        if self.has_socket(sock) {
            HostView {
                sockets: self.sockets.update(
                    sock.pipe as int,
                    self.sockets[sock.pipe as int].recv(Side::B),
                ),
                ..self
            }
        } else {
            self
        }
    }

    /// The buffer after `recv_from`: the first bytes of the datagram, as far
    /// as they fit, and behind them what the buffer held before.
    pub open spec fn recv_buf(self, sock: BoundView, buf: Seq<u8>) -> Seq<u8> {
        match self.recv_source(sock) {
            Some(d) => {
                let n = copy_len(d.data.len(), buf.len()) as int;
                d.data.take(n) + buf.skip(n)
            },
            None => buf,
        }
    }

    /// The fabric after the socket `sock` was dropped: its port is free
    /// again and its pipe is shut.
    pub open spec fn drop_socket(self, sock: BoundView) -> HostView {
        if self.has_socket(sock) {
            HostView {
                ports: self.released(sock.port, Value::UdpSocket(sock.pipe)),
                sockets: self.sockets.update(
                    sock.pipe as int,
                    self.sockets[sock.pipe as int].drop_end(Side::B),
                ),
                ..self
            }
        } else {
            self
        }
    }
}

/// The in-memory fabric. `PR` is whatever the owner wants to keep with it,
/// such as a handle to the runtime that runs its tasks.
pub struct VirtualHost<PR = ()> {
    inner: Inner,
    streams: Vec<Pipe<Vec<u8>>>,
    listeners: Vec<Pipe<TcpStream>>,
    sockets: Vec<Pipe<Datagram>>,
    pr: Option<PR>,
}

impl<PR> View for VirtualHost<PR> {
    type V = HostView;

    closed spec fn view(&self) -> HostView {
        HostView {
            ports: self.inner.ports(),
            next_port: self.inner.next_port,
            streams: pipe_views(self.streams@),
            listeners: pipe_views(self.listeners@),
            sockets: pipe_views(self.sockets@),
        }
    }
}

impl VirtualHost<()> {
    /// A fabric on which nothing is bound.
    pub fn new() -> (host: Self)
        ensures
            host@ == HostView::fresh(),
            host@.wf(),
            host.spec_pr().is_none(),
    {
        let host = VirtualHost {
            inner: Inner::new(),
            streams: Vec::new(),
            listeners: Vec::new(),
            sockets: Vec::new(),
            pr: None,
        };
        assert(host@.streams =~= Seq::empty());
        assert(host@.listeners =~= Seq::empty());
        assert(host@.sockets =~= Seq::empty());
        host
    }
}

impl<PR> VirtualHost<PR> {
    /// What the owner keeps with the fabric.
    pub closed spec fn spec_pr(&self) -> Option<PR> {
        self.pr
    }

    /// A fabric on which nothing is bound, with `pr` kept beside it.
    pub fn with_pr(pr: PR) -> (host: Self)
        ensures
            host@ == HostView::fresh(),
            host@.wf(),
            host.spec_pr() == Some(pr),
    {
        let host = VirtualHost {
            inner: Inner::new(),
            streams: Vec::new(),
            listeners: Vec::new(),
            sockets: Vec::new(),
            pr: Some(pr),
        };
        assert(host@.streams =~= Seq::empty());
        assert(host@.listeners =~= Seq::empty());
        assert(host@.sockets =~= Seq::empty());
        host
    }

    /// What was handed to `with_pr`, if anything.
    pub fn pr(&self) -> (r: Option<&PR>)
        ensures
            r == match self.spec_pr() {
                Some(p) => Some(&p),
                None => None,
            },
    {
        self.pr.as_ref()
    }

    /// Binds a TCP listener to `addr`. Port 0 asks for the first free port
    /// from the hint up.
    pub fn tcp_bind(&mut self, addr: SocketAddr) -> (r: Result<TcpListener, Error>)
        requires
            old(self)@.wf(),
        ensures
            final(self)@.wf(),
            final(self)@ == old(self)@.tcp_bind(addr),
            final(self).spec_pr() == old(self).spec_pr(),
            match r {
                Ok(l) => old(self)@.tcp_bind_result(addr) == Ok::<BoundView, Error>(l@),
                Err(e) => old(self)@.tcp_bind_result(addr) == Err::<BoundView, Error>(e),
            },
    {
        match check_address(&addr) {
            Err(e) => {
                return Err(e);
            },
            Ok(()) => {},
        }
        let key = match self.inner.get_port(Protocol::Tcp, addr.port()) {
            Ok(key) => key,
            Err(e) => {
                proof {
                    lemma_failed_pick_keeps_hint(old(self)@, Protocol::Tcp, addr.port);
                }
                assert(self@ =~= old(self)@);
                return Err(e);
            },
        };
        let pipe = self.listeners.len();
        self.listeners.push(Pipe::new());
        self.inner.insert(key, Value::TcpListener(pipe));
        assert(self@.listeners =~= old(self)@.listeners.push(PipeView::fresh()));
        assert(self@.streams == old(self)@.streams);
        Ok(TcpListener { pipe, data: key })
    }

    /// Binds a datagram socket to `addr`. Port 0 asks for the first free
    /// port from the hint up.
    pub fn udp_bind(&mut self, addr: SocketAddr) -> (r: Result<UdpSocket, Error>)
        requires
            old(self)@.wf(),
        ensures
            final(self)@.wf(),
            final(self)@ == old(self)@.udp_bind(addr),
            final(self).spec_pr() == old(self).spec_pr(),
            match r {
                Ok(s) => old(self)@.udp_bind_result(addr) == Ok::<BoundView, Error>(s@),
                Err(e) => old(self)@.udp_bind_result(addr) == Err::<BoundView, Error>(e),
            },
    {
        match check_address(&addr) {
            Err(e) => {
                return Err(e);
            },
            Ok(()) => {},
        }
        let key = match self.inner.get_port(Protocol::Udp, addr.port()) {
            Ok(key) => key,
            Err(e) => {
                proof {
                    lemma_failed_pick_keeps_hint(old(self)@, Protocol::Udp, addr.port);
                }
                assert(self@ =~= old(self)@);
                return Err(e);
            },
        };
        let pipe = self.sockets.len();
        self.sockets.push(Pipe::new());
        self.inner.insert(key, Value::UdpSocket(pipe));
        assert(self@.sockets =~= old(self)@.sockets.push(PipeView::fresh()));
        assert(self@.streams == old(self)@.streams);
        Ok(UdpSocket { pipe, data: key })
    }

    /// Connects to the listener at `addr`. The caller's end gets the first
    /// free TCP port from the hint up as its local port.
    pub fn tcp_connect(&mut self, addr: SocketAddr) -> (r: Result<TcpStream, Error>)
        requires
            old(self)@.wf(),
        ensures
            final(self)@.wf(),
            final(self)@ == old(self)@.tcp_connect(addr),
            final(self).spec_pr() == old(self).spec_pr(),
            match r {
                Ok(s) => old(self)@.tcp_connect_result(addr) == Ok::<TcpStreamView, Error>(s@),
                Err(e) => old(self)@.tcp_connect_result(addr) == Err::<TcpStreamView, Error>(e),
            },
    {
        match check_address(&addr) {
            Err(e) => {
                return Err(e);
            },
            Ok(()) => {},
        }
        let target_key = Port(Protocol::Tcp, addr.port());
        let key = match self.inner.get_port(Protocol::Tcp, 0) {
            Ok(key) => key,
            Err(e) => {
                proof {
                    lemma_failed_pick_keeps_hint(old(self)@, Protocol::Tcp, 0);
                }
                assert(self@ =~= old(self)@);
                return Err(e);
            },
        };
        let listener = match self.inner.lookup(target_key) {
            Some(v) => match v.get_tcp_listener() {
                Ok(l) => l,
                Err(e) => {
                    return Err(e);
                },
            },
            None => {
                return Err(Error::ConnectionRefused);
            },
        };
        let pipe = self.streams.len();
        let tcp_socket = TcpStream { pipe, side: Side::A, data: TcpData::new(key, target_key) };
        let mut other = TcpStream { pipe, side: Side::B, data: TcpData::new(key, target_key) };
        other.data.swap();
        assert(other@ == HostView::mirror(tcp_socket@));
        let ghost before = self@;
        match self.listeners[listener].send(Side::A, other) {
            Ok(()) => {},
            Err(e) => {
                assert(self@.listeners =~= before.listeners);
                return Err(e);
            },
        }
        self.streams.push(Pipe::new());
        self.inner.insert(key, Value::TcpStream(pipe));
        proof {
            let l = listener as int;
            let sent = old(self)@.listeners[l].send(Side::A, HostView::mirror(tcp_socket@));
            assert(self@.listeners =~= old(self)@.listeners.update(l, sent));
            assert(self@.streams =~= old(self)@.streams.push(PipeView::fresh()));
            assert forall|m: int, j: int|
                0 <= m < self@.listeners.len() && 0 <= j < self@.listeners[m].to_b.len() implies (
            #[trigger] self@.listeners[m].to_b[j]).pipe < self@.streams.len() by {
                if m == l && j == old(self)@.listeners[l].to_b.len() {
                } else {
                    assert(self@.listeners[m].to_b[j] == old(self)@.listeners[m].to_b[j]);
                }
            }
        }
        Ok(tcp_socket)
    }

    /// Takes the oldest stream out of the accept queue of `listener`.
    /// Answers would-block while no stream waits.
    pub fn accept(&mut self, listener: &TcpListener) -> (r: Result<(TcpStream, SocketAddr), Error>)
        requires
            old(self)@.wf(),
        ensures
            final(self)@.wf(),
            final(self)@ == old(self)@.accept(listener@),
            final(self).spec_pr() == old(self).spec_pr(),
            match r {
                Ok((s, a)) => old(self)@.accept_result(listener@) == Ok::<
                    (TcpStreamView, SocketAddr),
                    Error,
                >((s@, a)),
                Err(e) => old(self)@.accept_result(listener@) == Err::<
                    (TcpStreamView, SocketAddr),
                    Error,
                >(e),
            },
    {
        if listener.pipe >= self.listeners.len() {
            return Err(Error::NotConnected);
        }
        let got = self.listeners[listener.pipe].recv(Side::B);
        proof {
            let l = listener.pipe as int;
            assert(self@.streams == old(self)@.streams);
            assert(self@.listeners =~= old(self)@.listeners.update(
                l,
                old(self)@.listeners[l].recv(Side::B),
            ));
            assert forall|m: int, j: int|
                0 <= m < self@.listeners.len() && 0 <= j < self@.listeners[m].to_b.len() implies (
            #[trigger] self@.listeners[m].to_b[j]).pipe < self@.streams.len() by {
                if m == l && old(self)@.listeners[l].recv(Side::B) != old(self)@.listeners[l] {
                    assert(self@.listeners[m].to_b[j] == old(self)@.listeners[m].to_b[j + 1]);
                } else {
                    assert(self@.listeners[m].to_b[j] == old(self)@.listeners[m].to_b[j]);
                }
            }
        }
        match got {
            Ok(Some(t)) => {
                let addr = t.data.peer_addr().addr();
                Ok((t, addr))
            },
            Ok(None) => Err(Error::ConnectionAborted),
            Err(e) => Err(e),
        }
    }

    /// Drops `listener`: frees its port, shuts its pipe and tears down the
    /// streams that nobody accepted.
    pub fn drop_listener(&mut self, listener: TcpListener)
        requires
            old(self)@.wf(),
        ensures
            final(self)@.wf(),
            final(self)@ == old(self)@.drop_listener(listener@),
            final(self).spec_pr() == old(self).spec_pr(),
    {
        if listener.pipe >= self.listeners.len() {
            return ;
        }
        self.release(listener.data, Value::TcpListener(listener.pipe));
        assert(self.listeners@.len() == self@.listeners.len());
        let mut left = self.listeners[listener.pipe].drop_end(Side::B);
        let ghost queue = views(left@);
        proof {
            let l = listener.pipe as int;
            assert(self@.listeners =~= old(self)@.listeners.update(
                l,
                old(self)@.listeners[l].drop_end(Side::B),
            ));
            assert(queue == old(self)@.listeners[l].inbox(Side::B));
            assert(self@.streams =~= abort_all(old(self)@.streams, queue.take(0)));
        }
        let ghost mid = self@;
        let ghost total = left@;
        let waiting = left.len();
        let mut done: usize = 0;
        while left.len() > 0
            invariant
                total.len() == waiting,
                done + left@.len() == total.len(),
                left@ == total.skip(done as int),
                queue == views(total),
                forall|j: int| 0 <= j < queue.len() ==> (#[trigger] queue[j]).pipe < self.streams@.len(),
                self.streams@.len() == mid.streams.len(),
                self@.ports == mid.ports,
                self@.next_port == mid.next_port,
                self@.listeners == mid.listeners,
                self@.sockets == mid.sockets,
                self@.streams == abort_all(old(self)@.streams, queue.take(done as int)),
                self.spec_pr() == old(self).spec_pr(),
                old(self)@.streams.len() == mid.streams.len(),
            decreases left@.len(),
        {
            let item = left.pop_front();
            match item {
                Some(t) => {
                    assert(t == total[done as int]);
                    assert(t@ == queue[done as int]);
                    let ghost prev = self@.streams;
                    self.streams[t.pipe].abort();
                    proof {
                        let next = queue.take(done as int + 1);
                        assert(self@.streams =~= prev.update(t@.pipe as int, prev[t@.pipe as int].abort()));
                        assert forall|i: int| 0 <= i < self@.streams.len() implies self@.streams[i]
                            == abort_all(old(self)@.streams, next)[i] by {
                            let before = queue.take(done as int);
                            if exists|j: int| 0 <= j < next.len() && #[trigger] next[j].pipe == i {
                                let j = choose|j: int| 0 <= j < next.len() && #[trigger] next[j].pipe == i;
                                if j < done {
                                    assert(before[j].pipe == i);
                                } else {
                                    assert(i == t@.pipe);
                                }
                            } else {
                                if exists|j: int| 0 <= j < before.len() && #[trigger] before[j].pipe == i {
                                    let j = choose|j: int| 0 <= j < before.len() && #[trigger] before[j].pipe == i;
                                    assert(next[j].pipe == i);
                                }
                                assert(next[done as int].pipe == t@.pipe);
                            }
                            lemma_abort_twice(old(self)@.streams[i]);
                        }
                        assert(self@.streams =~= abort_all(old(self)@.streams, next));
                    }
                    done += 1;
                    assert(left@ =~= total.skip(done as int));
                },
                None => {},
            }
        }
        assert(queue.take(done as int) =~= queue);
    }

    /// Frees `port` if the registry still files it under `owner`.
    fn release(&mut self, port: Port, owner: Value)
        ensures
            final(self)@ == (HostView { ports: old(self)@.released(port, owner), ..old(self)@ }),
            final(self).spec_pr() == old(self).spec_pr(),
    {
        match self.inner.lookup(port) {
            Some(v) => {
                if v == owner {
                    self.inner.remove(port);
                }
            },
            None => {},
        }
    }

    /// Reads from `stream` into the front of `buf`: first what was carried
    /// over from an earlier chunk, and only when nothing was, the next chunk
    /// from the pipe. What does not fit is carried over.
    pub fn read(&mut self, stream: &mut TcpStream, buf: &mut [u8]) -> (r: Result<usize, Error>)
        requires
            old(self)@.wf(),
        ensures
            final(self)@.wf(),
            r == old(self)@.read_result(old(stream)@, old(buf)@.len()),
            final(self)@ == old(self)@.read(old(stream)@),
            final(stream)@ == old(self)@.read_stream(old(stream)@, old(buf)@.len()),
            final(buf)@ == old(self)@.read_buf(old(stream)@, old(buf)@),
            final(self).spec_pr() == old(self).spec_pr(),
    {
        if stream.data.carried() > 0 {
            let n = stream.data.drain_into(buf);
            return Ok(n);
        }
        if stream.pipe >= self.streams.len() {
            assert(buf@ =~= old(self)@.read_buf(old(stream)@, old(buf)@));
            assert(stream@.data.buf =~= old(self)@.read_stream(
                old(stream)@,
                old(buf)@.len(),
            ).data.buf);
            return Err(Error::NotConnected);
        }
        let got = self.streams[stream.pipe].recv(stream.side);
        proof {
            let i = stream.pipe as int;
            let p = old(self)@.streams[i];
            assert(self@.streams =~= old(self)@.streams.update(i, p.recv(stream.side)));
            lemma_chunks_ok(p, stream.side, Seq::empty());
        }
        match got {
            Ok(Some(data)) => {
                let n = stream.data.absorb(&data, buf);
                assert(stream@.data.buf =~= old(self)@.read_stream(
                    old(stream)@,
                    old(buf)@.len(),
                ).data.buf);
                Ok(n)
            },
            Ok(None) => {
                assert(buf@ =~= old(self)@.read_buf(old(stream)@, old(buf)@));
                assert(stream@.data.buf =~= old(self)@.read_stream(
                    old(stream)@,
                    old(buf)@.len(),
                ).data.buf);
                Ok(0)
            },
            Err(e) => {
                assert(buf@ =~= old(self)@.read_buf(old(stream)@, old(buf)@));
                assert(stream@.data.buf =~= old(self)@.read_stream(
                    old(stream)@,
                    old(buf)@.len(),
                ).data.buf);
                Err(e)
            },
        }
    }

    /// Writes `buf` to `stream` as one chunk.
    pub fn write(&mut self, stream: &TcpStream, buf: &[u8]) -> (r: Result<usize, Error>)
        requires
            old(self)@.wf(),
        ensures
            final(self)@.wf(),
            r == old(self)@.write_result(stream@, buf@),
            final(self)@ == old(self)@.write(stream@, buf@),
            final(self).spec_pr() == old(self).spec_pr(),
    {
        if stream.pipe >= self.streams.len() {
            return Err(Error::NotConnected);
        }
        if buf.len() == 0 {
            return match self.streams[stream.pipe].send_check(stream.side) {
                Ok(()) => Ok(0),
                Err(e) => Err(e),
            };
        }
        proof {
            if old(self)@.write_result(stream@, buf@).is_err() {
                assert(old(self)@.write(stream@, buf@).streams =~= old(self)@.streams);
            }
        }
        let chunk = slice_to_vec(buf);
        let sent = self.streams[stream.pipe].send(stream.side, chunk);
        proof {
            let i = stream.pipe as int;
            let p = old(self)@.streams[i];
            assert(self@.streams =~= old(self)@.streams.update(i, p.send(stream.side, buf@)));
            lemma_chunks_ok(p, stream.side, buf@);
        }
        match sent {
            Ok(()) => Ok(buf.len()),
            Err(e) => {
                assert(self@.streams =~= old(self)@.streams);
                Err(e)
            },
        }
    }

    /// Answers whether `stream` can still carry what was written.
    pub fn flush(&self, stream: &TcpStream) -> (r: Result<(), Error>)
        requires
            self@.wf(),
        ensures
            r == self@.flush_result(stream@),
    {
        if stream.pipe >= self.streams.len() {
            return Err(Error::NotConnected);
        }
        if self.streams[stream.pipe].is_aborted() {
            Err(Error::ConnectionAborted)
        } else {
            Ok(())
        }
    }

    /// Shuts the halves of `stream` that `how` names. After a shutdown of
    /// the writing half the peer reads to the end of the stream; after one
    /// of the reading half what had not been read is gone.
    pub fn shutdown(&mut self, stream: &mut TcpStream, how: Shutdown) -> (r: Result<(), Error>)
        requires
            old(self)@.wf(),
        ensures
            final(self)@.wf(),
            r == if old(self)@.has_stream(old(stream)@) {
                Ok::<(), Error>(())
            } else {
                Err(Error::NotConnected)
            },
            final(self)@ == old(self)@.shutdown(old(stream)@, how),
            final(stream)@ == if how.spec_read() && old(self)@.has_stream(old(stream)@) {
                TcpStreamView {
                    data: TcpDataView { buf: Seq::empty(), ..old(stream)@.data },
                    ..old(stream)@
                }
            } else {
                old(stream)@
            },
            final(self).spec_pr() == old(self).spec_pr(),
    {
        if stream.pipe >= self.streams.len() {
            return Err(Error::NotConnected);
        }
        proof {
            lemma_chunks_ok(old(self)@.streams[stream.pipe as int], stream.side, Seq::empty());
            lemma_chunks_ok(
                old(self)@.streams[stream.pipe as int].close(stream.side),
                stream.side,
                Seq::empty(),
            );
        }
        if how.write() {
            self.streams[stream.pipe].close(stream.side);
        }
        if how.read() {
            let _ = self.streams[stream.pipe].stop(stream.side);
            stream.data.clear();
        }
        assert(self@.streams =~= old(self)@.streams.update(
            stream.pipe as int,
            old(self)@.shut_pipe(old(stream)@, how),
        ));
        Ok(())
    }

    /// Closes `stream` for writing.
    pub fn close(&mut self, stream: &mut TcpStream) -> (r: Result<(), Error>)
        requires
            old(self)@.wf(),
        ensures
            final(self)@.wf(),
            r == if old(self)@.has_stream(old(stream)@) {
                Ok::<(), Error>(())
            } else {
                Err(Error::NotConnected)
            },
            final(self)@ == old(self)@.shutdown(old(stream)@, Shutdown::Write),
            final(stream)@ == old(stream)@,
            final(self).spec_pr() == old(self).spec_pr(),
    {
        self.shutdown(stream, Shutdown::Write)
    }

    /// Drops `stream`: shuts both of its halves, and frees the port of a
    /// connecting end.
    pub fn drop_stream(&mut self, stream: TcpStream)
        requires
            old(self)@.wf(),
        ensures
            final(self)@.wf(),
            final(self)@ == old(self)@.drop_stream(stream@),
            final(self).spec_pr() == old(self).spec_pr(),
    {
        if stream.pipe >= self.streams.len() {
            return ;
        }
        proof {
            lemma_chunks_ok(old(self)@.streams[stream.pipe as int], stream.side, Seq::empty());
        }
        match stream.side {
            Side::A => {
                self.release(stream.data.local_addr(), Value::TcpStream(stream.pipe));
                assert(self.streams@.len() == self@.streams.len());
            },
            Side::B => {},
        }
        let _ = self.streams[stream.pipe].drop_end(stream.side);
        assert(self@.streams =~= old(self)@.streams.update(
            stream.pipe as int,
            old(self)@.pipe_of(stream@).drop_end(stream.side),
        ));
        assert(self@.listeners == old(self)@.listeners);
    }

    /// Sends `buf` as one datagram to the socket bound to the port of
    /// `addr`. Nobody tells the sender whether it arrived.
    pub fn send_to(&mut self, socket: &UdpSocket, buf: &[u8], addr: SocketAddr) -> (r: Result<
        usize,
        Error,
    >)
        requires
            old(self)@.wf(),
        ensures
            final(self)@.wf(),
            r == old(self)@.send_to_result(socket@, buf@, addr),
            final(self)@ == old(self)@.send_to(socket@, buf@, addr),
            final(self).spec_pr() == old(self).spec_pr(),
    {
        if socket.pipe >= self.sockets.len() {
            return Err(Error::NotConnected);
        }
        match check_address(&addr) {
            Err(e) => {
                return Err(e);
            },
            Ok(()) => {},
        }
        let target = match self.inner.lookup(Port(Protocol::Udp, addr.port())) {
            Some(Value::UdpSocket(t)) => t,
            _ => {
                return Ok(buf.len());
            },
        };
        let datagram = Datagram { data: slice_to_vec(buf), from: socket.data.addr() };
        let _ = self.sockets[target].send(Side::A, datagram);
        assert(self@.sockets =~= old(self)@.sockets.update(
            target as int,
            old(self)@.sockets[target as int].send(
                Side::A,
                DatagramView { data: buf@, from: socket@.port.spec_addr() },
            ),
        ));
        assert(self@.streams == old(self)@.streams);
        assert(self@.listeners == old(self)@.listeners);
        Ok(buf.len())
    }

    /// Takes the oldest datagram sent to `socket` and copies it to the front
    /// of `buf`. What does not fit is dropped.
    pub fn recv_from(&mut self, socket: &UdpSocket, buf: &mut [u8]) -> (r: Result<
        (usize, SocketAddr),
        Error,
    >)
        requires
            old(self)@.wf(),
        ensures
            final(self)@.wf(),
            r == old(self)@.recv_from_result(socket@, old(buf)@.len()),
            final(self)@ == old(self)@.recv_from(socket@),
            final(buf)@ == old(self)@.recv_buf(socket@, old(buf)@),
            final(self).spec_pr() == old(self).spec_pr(),
    {
        if socket.pipe >= self.sockets.len() {
            return Err(Error::NotConnected);
        }
        let got = self.sockets[socket.pipe].recv(Side::B);
        assert(self@.sockets =~= old(self)@.sockets.update(
            socket.pipe as int,
            old(self)@.sockets[socket.pipe as int].recv(Side::B),
        ));
        assert(self@.streams == old(self)@.streams);
        assert(self@.listeners == old(self)@.listeners);
        match got {
            Ok(Some(d)) => {
                let to_copy: usize = if buf.len() <= d.data.len() {
                    buf.len()
                } else {
                    d.data.len()
                };
                let mut i: usize = 0;
                while i < to_copy
                    invariant
                        i <= to_copy,
                        to_copy <= d.data@.len(),
                        to_copy <= old(buf)@.len(),
                        buf@.len() == old(buf)@.len(),
                        buf@ == d.data@.take(i as int) + old(buf)@.skip(i as int),
                    decreases to_copy - i,
                {
                    buf[i] = d.data[i];
                    i += 1;
                }
                Ok((to_copy, d.from))
            },
            Ok(None) => Err(Error::BrokenPipe),
            Err(e) => Err(e),
        }
    }

    /// Drops `socket`: frees its port and shuts its pipe.
    pub fn drop_socket(&mut self, socket: UdpSocket)
        requires
            old(self)@.wf(),
        ensures
            final(self)@.wf(),
            final(self)@ == old(self)@.drop_socket(socket@),
            final(self).spec_pr() == old(self).spec_pr(),
    {
        if socket.pipe >= self.sockets.len() {
            return ;
        }
        self.release(socket.data, Value::UdpSocket(socket.pipe));
        assert(self.sockets@.len() == self@.sockets.len());
        let _ = self.sockets[socket.pipe].drop_end(Side::B);
        assert(self@.sockets =~= old(self)@.sockets.update(
            socket.pipe as int,
            old(self)@.sockets[socket.pipe as int].drop_end(Side::B),
        ));
        assert(self@.streams == old(self)@.streams);
        assert(self@.listeners == old(self)@.listeners);
    }
}

/// A bind that finds no port leaves the hint where it was.
proof fn lemma_failed_pick_keeps_hint(h: HostView, protocol: Protocol, port: u16)
    requires
        h.pick(protocol, port).is_err(),
    ensures
        h.hint(protocol, port) == h.next_port,
{
}

/// Tearing a pipe down twice is tearing it down once.
pub proof fn lemma_abort_twice<T>(p: PipeView<T>)
    ensures
        p.abort().abort() == p.abort(),
{
}

} // verus!
