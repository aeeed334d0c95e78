//! The net interface: what every provider of outbound TCP and UDP offers,
//! whether it reaches the world itself or is stacked on another net.

use crate::address::{Address, SocketAddr};
use crate::context::Context;
use crate::error::Error;
use crate::registry::same_text;
use crate::virtual_host::{BoundView, TcpListener, TcpStream, TcpStreamView, UdpSocket, VirtualHost};
use vstd::prelude::*;

verus! {

/// A provider of outbound connections. A net that is stacked on another
/// holds the inner net and delegates to it; each net is responsible for
/// its own layer only.
///
/// Every call carries the context of the connection it belongs to. A net
/// may read the context and note attributes on it; it leaves the source
/// alone, never takes a cancellation back, and fails a call whose context
/// is cancelled as aborted by the user.
pub trait Net {
    type TcpStream;

    type TcpListener;

    type UdpSocket;

    /// The net is in order.
    spec fn wf(&self) -> bool;

    fn tcp_connect(&mut self, ctx: &mut Context, addr: &Address) -> (r: Result<
        Self::TcpStream,
        Error,
    >)
        requires
            old(self).wf(),
            old(ctx).wf(),
        ensures
            final(self).wf(),
            final(ctx).wf(),
            final(ctx)@.source == old(ctx)@.source,
            final(ctx)@.cancelled == old(ctx)@.cancelled,
            old(ctx)@.cancelled ==> r == Err::<Self::TcpStream, Error>(Error::AbortedByUser),
    ;

    fn tcp_bind(&mut self, ctx: &mut Context, addr: &Address) -> (r: Result<
        Self::TcpListener,
        Error,
    >)
        requires
            old(self).wf(),
            old(ctx).wf(),
        ensures
            final(self).wf(),
            final(ctx).wf(),
            final(ctx)@.source == old(ctx)@.source,
            final(ctx)@.cancelled == old(ctx)@.cancelled,
            old(ctx)@.cancelled ==> r == Err::<Self::TcpListener, Error>(Error::AbortedByUser),
    ;

    fn udp_bind(&mut self, ctx: &mut Context, addr: &Address) -> (r: Result<
        Self::UdpSocket,
        Error,
    >)
        requires
            old(self).wf(),
            old(ctx).wf(),
        ensures
            final(self).wf(),
            final(ctx).wf(),
            final(ctx)@.source == old(ctx)@.source,
            final(ctx)@.cancelled == old(ctx)@.cancelled,
            old(ctx)@.cancelled ==> r == Err::<Self::UdpSocket, Error>(Error::AbortedByUser),
    ;
}

/// The socket address that an address stands for on the in-memory fabric,
/// which has no resolver: a socket address stands for itself, the name
/// `localhost` for `127.0.0.1`, and no other name for anything.
pub open spec fn spec_resolve_local(addr: Address) -> Option<SocketAddr> {
    match addr {
        Address::SocketAddr(a) => Some(a),
        Address::Domain(d, p) => if d@ == "localhost"@ {
            Some(SocketAddr::spec_localhost(p))
        } else {
            None
        },
    }
}

/// Resolves an address on the in-memory fabric.
pub fn resolve_local(addr: &Address) -> (r: Option<SocketAddr>)
    ensures
        r == spec_resolve_local(*addr),
{
    match addr {
        Address::SocketAddr(a) => Some(*a),
        Address::Domain(d, p) => {
            if same_text(d.as_str(), "localhost") {
                Some(SocketAddr::localhost(*p))
            } else {
                None
            }
        },
    }
}

/// A net on an in-memory fabric of its own.
pub struct VirtualNet {
    pub host: VirtualHost,
}

impl VirtualNet {
    /// A net on a fabric on which nothing is bound.
    pub fn new() -> (net: VirtualNet)
        ensures
            net.wf(),
            net.host@ == crate::virtual_host::HostView::fresh(),
    {
        VirtualNet { host: VirtualHost::new() }
    }
}

impl Net for VirtualNet {
    type TcpStream = TcpStream;

    type TcpListener = TcpListener;

    type UdpSocket = UdpSocket;

    open spec fn wf(&self) -> bool {
        self.host@.wf()
    }

    /// Connects on the fabric, unless the context is cancelled. An address
    /// that does not resolve is not available.
    fn tcp_connect(&mut self, ctx: &mut Context, addr: &Address) -> (r: Result<TcpStream, Error>)
        ensures
            *final(ctx) == *old(ctx),
            match (old(ctx)@.cancelled, spec_resolve_local(*addr)) {
                (true, _) => final(self).host@ == old(self).host@,
                (false, None) => final(self).host@ == old(self).host@ && r == Err::<TcpStream, Error>(
                    Error::AddrNotAvailable,
                ),
                (false, Some(a)) => final(self).host@ == old(self).host@.tcp_connect(a) && match r {
                    Ok(s) => old(self).host@.tcp_connect_result(a) == Ok::<TcpStreamView, Error>(s@),
                    Err(e) => old(self).host@.tcp_connect_result(a) == Err::<TcpStreamView, Error>(e),
                },
            },
    {
        match ctx.check() {
            Err(e) => {
                return Err(e);
            },
            Ok(()) => {},
        }
        match resolve_local(addr) {
            Some(a) => self.host.tcp_connect(a),
            None => Err(Error::AddrNotAvailable),
        }
    }

    /// Binds a listener on the fabric, unless the context is cancelled.
    fn tcp_bind(&mut self, ctx: &mut Context, addr: &Address) -> (r: Result<TcpListener, Error>)
        ensures
            *final(ctx) == *old(ctx),
            match (old(ctx)@.cancelled, spec_resolve_local(*addr)) {
                (true, _) => final(self).host@ == old(self).host@,
                (false, None) => final(self).host@ == old(self).host@ && r == Err::<TcpListener, Error>(
                    Error::AddrNotAvailable,
                ),
                (false, Some(a)) => final(self).host@ == old(self).host@.tcp_bind(a) && match r {
                    Ok(l) => old(self).host@.tcp_bind_result(a) == Ok::<BoundView, Error>(l@),
                    Err(e) => old(self).host@.tcp_bind_result(a) == Err::<BoundView, Error>(e),
                },
            },
    {
        match ctx.check() {
            Err(e) => {
                return Err(e);
            },
            Ok(()) => {},
        }
        match resolve_local(addr) {
            Some(a) => self.host.tcp_bind(a),
            None => Err(Error::AddrNotAvailable),
        }
    }

    /// Binds a datagram socket on the fabric, unless the context is
    /// cancelled.
    fn udp_bind(&mut self, ctx: &mut Context, addr: &Address) -> (r: Result<UdpSocket, Error>)
        ensures
            *final(ctx) == *old(ctx),
            match (old(ctx)@.cancelled, spec_resolve_local(*addr)) {
                (true, _) => final(self).host@ == old(self).host@,
                (false, None) => final(self).host@ == old(self).host@ && r == Err::<UdpSocket, Error>(
                    Error::AddrNotAvailable,
                ),
                (false, Some(a)) => final(self).host@ == old(self).host@.udp_bind(a) && match r {
                    Ok(s) => old(self).host@.udp_bind_result(a) == Ok::<BoundView, Error>(s@),
                    Err(e) => old(self).host@.udp_bind_result(a) == Err::<BoundView, Error>(e),
                },
            },
    {
        match ctx.check() {
            Err(e) => {
                return Err(e);
            },
            Ok(()) => {},
        }
        match resolve_local(addr) {
            Some(a) => self.host.udp_bind(a),
            None => Err(Error::AddrNotAvailable),
        }
    }
}

} // verus!
