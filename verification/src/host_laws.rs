//! What holds of the in-memory fabric whatever is done with it, stated over
//! its mathematical model.

use crate::address::{IpAddr, SocketAddr};
use crate::error::Error;
use crate::virtual_host::{
    chunks_ok, first_free, lemma_chunks_ok, lemma_first_free, BoundView, HostView, Port, Protocol,
    Shutdown, TcpStreamView, Value,
};
use vstd::prelude::*;

verus! {

/// The fabric after listeners were bound to `addrs`, one after the other.
pub open spec fn bind_all(h: HostView, addrs: Seq<SocketAddr>) -> HostView
    decreases addrs.len(),
{
    if addrs.len() == 0 {
        h
    } else {
        bind_all(h, addrs.drop_last()).tcp_bind(addrs.last())
    }
}

/// What the bind to `addrs[i]` answers when it follows the binds to all of
/// `addrs` before it.
pub open spec fn bind_answer(h: HostView, addrs: Seq<SocketAddr>, i: int) -> Result<
    BoundView,
    Error,
> {
    bind_all(h, addrs.take(i)).tcp_bind_result(addrs[i])
}

/// The addresses all name `127.0.0.1` with a port other than 0, no two with
/// the same port, and none with a port that `h` has taken.
pub open spec fn apart(h: HostView, addrs: Seq<SocketAddr>) -> bool {
    &&& forall|k: int|
        0 <= k < addrs.len() ==> (#[trigger] addrs[k]).ip == IpAddr::spec_localhost() && addrs[k].port
            != 0 && !h.ports.contains_key(Port(Protocol::Tcp, addrs[k].port))
    &&& forall|k: int, m: int|
        0 <= k < m < addrs.len() ==> (#[trigger] addrs[k]).port != (#[trigger] addrs[m]).port
}

proof fn lemma_bind_all_ports(h: HostView, addrs: Seq<SocketAddr>, n: int)
    requires
        h.wf(),
        apart(h, addrs),
        0 <= n <= addrs.len(),
    ensures
        bind_all(h, addrs.take(n)).wf(),
        forall|p: Port| #[trigger]
            bind_all(h, addrs.take(n)).ports.contains_key(p) <==> h.ports.contains_key(p) || exists|
                k: int,
            |
                0 <= k < n && p == Port(Protocol::Tcp, (#[trigger] addrs[k]).port),
    decreases n,
{
    if n > 0 {
        lemma_bind_all_ports(h, addrs, n - 1);
        assert(addrs.take(n).drop_last() =~= addrs.take(n - 1));
        assert(addrs.take(n).last() == addrs[n - 1]);
        let g = bind_all(h, addrs.take(n - 1));
        let key = Port(Protocol::Tcp, addrs[n - 1].port);
        assert(!g.ports.contains_key(key)) by {
            if g.ports.contains_key(key) {
                let k = choose|k: int|
                    0 <= k < n - 1 && key == Port(Protocol::Tcp, (#[trigger] addrs[k]).port);
                assert(addrs[k].port != addrs[n - 1].port);
            }
        }
        lemma_bind_keeps_wf(g, addrs[n - 1]);
        let f = bind_all(h, addrs.take(n));
        assert(f == g.tcp_bind(addrs[n - 1]));
        assert forall|p: Port| #[trigger]
            f.ports.contains_key(p) <==> h.ports.contains_key(p) || exists|k: int|
                0 <= k < n && p == Port(Protocol::Tcp, (#[trigger] addrs[k]).port) by {
            if f.ports.contains_key(p) {
                if p == key {
                    assert(p == Port(Protocol::Tcp, addrs[n - 1].port));
                } else {
                    assert(g.ports.contains_key(p));
                    if !h.ports.contains_key(p) {
                        let k = choose|k: int|
                            0 <= k < n - 1 && p == Port(
                                Protocol::Tcp,
                                (#[trigger] addrs[k]).port,
                            );
                        assert(0 <= k < n && p == Port(Protocol::Tcp, addrs[k].port));
                    }
                }
            }
            if h.ports.contains_key(p) {
                assert(g.ports.contains_key(p));
            }
            if exists|k: int| 0 <= k < n && p == Port(Protocol::Tcp, (#[trigger] addrs[k]).port) {
                let k = choose|k: int|
                    0 <= k < n && p == Port(Protocol::Tcp, (#[trigger] addrs[k]).port);
                if k < n - 1 {
                    assert(g.ports.contains_key(p));
                }
            }
        }
    } else {
        assert(addrs.take(0) =~= Seq::<SocketAddr>::empty());
    }
}

/// A bind leaves the fabric in order.
pub proof fn lemma_bind_keeps_wf(h: HostView, addr: SocketAddr)
    requires
        h.wf(),
    ensures
        h.tcp_bind(addr).wf(),
        h.udp_bind(addr).wf(),
{
    let t = h.tcp_bind(addr);
    assert forall|l: int, j: int|
        0 <= l < t.listeners.len() && 0 <= j < t.listeners[l].to_b.len() implies (
    #[trigger] t.listeners[l].to_b[j]).pipe < t.streams.len() by {
        if l < h.listeners.len() {
            assert(t.listeners[l].to_b[j] == h.listeners[l].to_b[j]);
        }
    }
}

/// Binding listeners to addresses of `127.0.0.1` that do not collide, on a
/// fabric that has none of their ports taken: every bind succeeds, and each
/// listener reports the address it was bound to.
pub proof fn lemma_binds_apart_succeed(h: HostView, addrs: Seq<SocketAddr>, i: int)
    requires
        h.wf(),
        apart(h, addrs),
        0 <= i < addrs.len(),
    ensures
        bind_answer(h, addrs, i) is Ok,
        bind_answer(h, addrs, i)->Ok_0.port.spec_addr() == addrs[i],
{
    lemma_bind_all_ports(h, addrs, i);
    let g = bind_all(h, addrs.take(i));
    let key = Port(Protocol::Tcp, addrs[i].port);
    if g.ports.contains_key(key) {
        let k = choose|k: int| 0 <= k < i && key == Port(Protocol::Tcp, (#[trigger] addrs[k]).port);
        assert(addrs[k].port != addrs[i].port);
    }
}

/// Binding an address, dropping the listener and binding the same address
/// again succeeds, on the same port.
pub proof fn lemma_rebind_after_drop(h: HostView, addr: SocketAddr)
    requires
        h.wf(),
        h.tcp_bind_result(addr) is Ok,
    ensures
        ({
            let l = h.tcp_bind_result(addr)->Ok_0;
            let again = h.tcp_bind(addr).drop_listener(l).tcp_bind_result(addr);
            again is Ok && again->Ok_0.port == l.port
        }),
{
    let l = h.tcp_bind_result(addr)->Ok_0;
    let g = h.tcp_bind(addr);
    let d = g.drop_listener(l);
    assert(!d.ports.contains_key(l.port));
    if addr.port == 0 {
        lemma_first_free(h.ports, Protocol::Tcp, h.next_port as int);
        assert(first_free(d.ports, Protocol::Tcp, d.next_port as int) == Some(l.port.1));
    }
}

/// A connection that comes about: the caller's end has the target's port as
/// its peer and the first free port as its own, under which the registry
/// now files it; the end that joined the listener's accept queue has the
/// two ports exchanged.
pub proof fn lemma_connect_ends(h: HostView, addr: SocketAddr)
    requires
        h.wf(),
        h.tcp_connect_result(addr) is Ok,
    ensures
        ({
            let s = h.tcp_connect_result(addr)->Ok_0;
            let l = h.ports[Port(Protocol::Tcp, addr.port)]->TcpListener_0 as int;
            let after = h.tcp_connect(addr);
            let other = HostView::mirror(s);
            &&& s.data.peer_addr == Port(Protocol::Tcp, addr.port)
            &&& addr.ip == IpAddr::spec_localhost() ==> s.data.peer_addr.spec_addr() == addr
            &&& first_free(h.ports, Protocol::Tcp, h.next_port as int) == Some(s.data.local_addr.1)
            &&& !h.ports.contains_key(s.data.local_addr)
            &&& after.ports.contains_key(s.data.local_addr)
            &&& after.ports[s.data.local_addr] == Value::TcpStream(s.pipe)
            &&& after.listeners[l].to_b == h.listeners[l].to_b.push(other)
            &&& other.pipe == s.pipe
            &&& other.data.local_addr == s.data.peer_addr
            &&& other.data.peer_addr == s.data.local_addr
        }),
{
    lemma_first_free(h.ports, Protocol::Tcp, h.next_port as int);
}

/// A stream that was connected to a listener with an empty accept queue is
/// the next that the listener accepts, and it is accepted with the
/// connecting end's address as its peer's.
pub proof fn lemma_accept_after_connect(h: HostView, addr: SocketAddr, listener: BoundView)
    requires
        h.wf(),
        h.tcp_connect_result(addr) is Ok,
        h.ports[Port(Protocol::Tcp, addr.port)] == Value::TcpListener(listener.pipe),
        h.listeners[listener.pipe as int].to_b.len() == 0,
    ensures
        ({
            let s = h.tcp_connect_result(addr)->Ok_0;
            h.tcp_connect(addr).accept_result(listener) == Ok::<(TcpStreamView, SocketAddr), Error>(
                (HostView::mirror(s), s.data.local_addr.spec_addr()),
            )
        }),
{
}

/// The bytes of `chunks`, one chunk after the other.
pub open spec fn joined(chunks: Seq<Seq<u8>>) -> Seq<u8>
    decreases chunks.len(),
{
    if chunks.len() == 0 {
        Seq::empty()
    } else {
        chunks[0] + joined(chunks.drop_first())
    }
}

/// Everything that the end `s` has yet to read, in the order in which it
/// will read it: what it carries over, then the chunks in flight.
pub open spec fn incoming(h: HostView, s: TcpStreamView) -> Seq<u8> {
    s.data.buf + joined(h.pipe_of(s).inbox(s.side))
}

/// The other end of the stream of `s`, as far as the pipe is concerned.
pub open spec fn is_peer(s: TcpStreamView, peer: TcpStreamView) -> bool {
    peer.pipe == s.pipe && peer.side == s.side.spec_other()
}

proof fn lemma_joined_push(chunks: Seq<Seq<u8>>, last: Seq<u8>)
    ensures
        joined(chunks.push(last)) == joined(chunks) + last,
    decreases chunks.len(),
{
    if chunks.len() == 0 {
        assert(chunks.push(last).drop_first() =~= chunks);
        assert(joined(chunks.push(last)) =~= joined(chunks) + last);
    } else {
        lemma_joined_push(chunks.drop_first(), last);
        assert(chunks.push(last).drop_first() =~= chunks.drop_first().push(last));
        assert(joined(chunks.push(last)) =~= joined(chunks) + last);
    }
}

/// What one end writes, the other end has yet to read, behind everything
/// that it had yet to read before; the writing end's own reading is not
/// touched.
pub proof fn lemma_write_appends(
    h: HostView,
    s: TcpStreamView,
    peer: TcpStreamView,
    bytes: Seq<u8>,
)
    requires
        h.wf(),
        is_peer(s, peer),
        h.write_result(s, bytes) is Ok,
    ensures
        h.write_result(s, bytes) == Ok::<usize, Error>(bytes.len() as usize),
        incoming(h.write(s, bytes), peer) == incoming(h, peer) + bytes,
        incoming(h.write(s, bytes), s) == incoming(h, s),
{
    if bytes.len() > 0 {
        lemma_joined_push(h.pipe_of(s).inbox(peer.side), bytes);
    }
    assert(incoming(h.write(s, bytes), peer) =~= incoming(h, peer) + bytes);
}

/// The number of bytes that a read moved: what it answered, or 0 when it
/// failed.
pub open spec fn moved(r: Result<usize, Error>) -> int {
    match r {
        Ok(n) => n as int,
        Err(_) => 0,
    }
}

/// A read hands out the bytes that the end had yet to read, from the front
/// and in order, and leaves the rest to be read: nothing is lost, repeated
/// or out of place. It moves at least one byte whenever there is one and
/// the buffer has room.
pub proof fn lemma_read_takes_front(h: HostView, s: TcpStreamView, buf: Seq<u8>)
    requires
        h.wf(),
        h.has_stream(s),
        buf.len() <= usize::MAX,
    ensures
        ({
            let n = moved(h.read_result(s, buf.len()));
            &&& 0 <= n <= buf.len()
            &&& n <= incoming(h, s).len()
            &&& h.read_buf(s, buf).take(n) == incoming(h, s).take(n)
            &&& h.read_buf(s, buf).skip(n) == buf.skip(n)
            &&& incoming(h.read(s), h.read_stream(s, buf.len())) == incoming(h, s).skip(n)
            &&& incoming(h, s).len() > 0 && buf.len() > 0 ==> n > 0
        }),
{
    let n = moved(h.read_result(s, buf.len()));
    let p = h.pipe_of(s);
    let inbox = p.inbox(s.side);
    let after = h.read(s);
    let t = h.read_stream(s, buf.len());
    assert(chunks_ok(p));
    if s.data.buf.len() > 0 {
        assert(after == h);
        assert(h.read_buf(s, buf).take(n) =~= incoming(h, s).take(n));
        assert(h.read_buf(s, buf).skip(n) =~= buf.skip(n));
        assert(incoming(after, t) =~= incoming(h, s).skip(n));
    } else {
        assert(after.pipe_of(t) == p.recv(s.side));
        match p.recv_result(s.side) {
            Ok(Some(chunk)) => {
                assert(chunk == inbox[0]);
                assert(chunk.len() > 0);
                assert(p.recv(s.side).inbox(s.side) == inbox.drop_first());
                assert(joined(inbox) == chunk + joined(inbox.drop_first()));
                assert(h.read_buf(s, buf).take(n) =~= incoming(h, s).take(n));
                assert(h.read_buf(s, buf).skip(n) =~= buf.skip(n));
                assert(incoming(after, t) =~= incoming(h, s).skip(n));
            },
            _ => {
                assert(inbox.len() == 0);
                assert(p.recv(s.side).inbox(s.side) == inbox);
                assert(h.read_buf(s, buf).take(n) =~= incoming(h, s).take(n));
                assert(h.read_buf(s, buf).skip(n) =~= buf.skip(n));
                assert(incoming(after, t) =~= incoming(h, s).skip(n));
            },
        }
    }
}

/// A read into a buffer with room answers 0 exactly at the end of the
/// stream: when nothing is left to read and the peer has shut its writing
/// half, or this end its reading half. While the peer may still write, a
/// read with nothing before it answers would-block.
pub proof fn lemma_read_end_of_stream(h: HostView, s: TcpStreamView, room: nat)
    requires
        h.wf(),
        h.has_stream(s),
        0 < room <= usize::MAX,
        !h.pipe_of(s).aborted,
    ensures
        h.read_result(s, room) == Ok::<usize, Error>(0) <==> incoming(h, s).len() == 0 && (
        !h.pipe_of(s).open(s.side.spec_other()) || !h.pipe_of(s).receiving(s.side)),
        h.read_result(s, room) == Err::<usize, Error>(Error::WouldBlock) <==> incoming(h, s).len()
            == 0 && h.pipe_of(s).open(s.side.spec_other()) && h.pipe_of(s).receiving(s.side),
{
    let p = h.pipe_of(s);
    let inbox = p.inbox(s.side);
    assert(chunks_ok(p));
    if inbox.len() > 0 {
        assert(inbox[0].len() > 0);
        assert(joined(inbox) == inbox[0] + joined(inbox.drop_first()));
    }
}

/// Once an end has shut its writing half, the peer that has read everything
/// reads the end of the stream, and the end itself can write no more.
pub proof fn lemma_shutdown_write(h: HostView, s: TcpStreamView, peer: TcpStreamView, room: nat)
    requires
        h.wf(),
        h.has_stream(s),
        is_peer(s, peer),
        0 < room <= usize::MAX,
        !h.pipe_of(s).aborted,
    ensures
        ({
            let after = h.shutdown(s, Shutdown::Write);
            &&& incoming(after, peer) == incoming(h, peer)
            &&& incoming(after, peer).len() == 0 ==> after.read_result(peer, room) == Ok::<
                usize,
                Error,
            >(0)
            &&& forall|bytes: Seq<u8>| #[trigger]
                after.write_result(s, bytes) == Err::<usize, Error>(Error::BrokenPipe)
        }),
{
    let after = h.shutdown(s, Shutdown::Write);
    lemma_chunks_ok(h.pipe_of(s), s.side, Seq::empty());
    assert(after.wf()) by {
        assert forall|i: int| 0 <= i < after.streams.len() implies chunks_ok(
            #[trigger] after.streams[i],
        ) by {
            if i != s.pipe {
                assert(after.streams[i] == h.streams[i]);
            }
        }
    }
    lemma_read_end_of_stream(after, peer, room);
}

/// A datagram that is sent to a bound socket arrives there once: with
/// nothing else waiting, the socket receives it next, cut to the buffer
/// and stamped with the sender's address, and nothing waits after it.
pub proof fn lemma_datagram_arrives_once(
    h: HostView,
    sender: BoundView,
    target: BoundView,
    bytes: Seq<u8>,
    addr: SocketAddr,
    buf: Seq<u8>,
)
    requires
        h.wf(),
        h.has_socket(sender),
        h.has_socket(target),
        bytes.len() <= usize::MAX,
        buf.len() <= usize::MAX,
        addr.ip.spec_is_loopback() || addr.ip.spec_is_unspecified(),
        h.udp_target(addr) == Some(target.pipe as int),
        h.sockets[target.pipe as int].send_result(crate::pipe::Side::A) is Ok,
        h.sockets[target.pipe as int].to_b.len() == 0,
    ensures
        ({
            let sent = h.send_to(sender, bytes, addr);
            let n = if bytes.len() <= buf.len() {
                bytes.len()
            } else {
                buf.len()
            };
            &&& h.send_to_result(sender, bytes, addr) == Ok::<usize, Error>(bytes.len() as usize)
            &&& sent.recv_from_result(target, buf.len()) == Ok::<(usize, SocketAddr), Error>(
                (n as usize, sender.port.spec_addr()),
            )
            &&& sent.recv_buf(target, buf).take(n as int) == bytes.take(n as int)
            &&& sent.recv_from(target).sockets[target.pipe as int].to_b.len() == 0
            &&& sent.recv_from(target).recv_from_result(target, buf.len()) == Err::<
                (usize, SocketAddr),
                Error,
            >(Error::WouldBlock)
        }),
{
    let sent = h.send_to(sender, bytes, addr);
    let n = if bytes.len() <= buf.len() {
        bytes.len()
    } else {
        buf.len()
    };
    assert(sent.recv_buf(target, buf).take(n as int) =~= bytes.take(n as int));
}

} // verus!
