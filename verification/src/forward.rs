//! The forward server: every connection and, if asked for, every datagram
//! that arrives at its bind address is passed on to one target.

use crate::address::{Address, SocketAddr};
use crate::context::{Context, ContextView};
use crate::error::Error;
use crate::server::{connection_context, on_accept, Accept};
use vstd::prelude::*;

verus! {

/// The settings of a forward server.
#[derive(Debug, Clone, PartialEq, Eq)]
pub struct ForwardServerConfig {
    /// Where it listens.
    pub bind: Address,
    /// Where it passes everything on to.
    pub target: Address,
    /// Whether it forwards datagrams too.
    pub udp: bool,
}

/// What the datagram side of a forward server does.
#[derive(Debug, Clone, PartialEq, Eq)]
pub enum UdpPlan {
    /// Nothing, for as long as the server runs.
    Idle,
    /// Bind a socket to `listen` on the listening net and one to `outbound`
    /// on the outgoing net, and bridge the two.
    Bridge { listen: Address, outbound: Address },
}

/// A server that forwards all connections to its target.
#[derive(Debug)]
pub struct ForwardServer {
    cfg: ForwardServerConfig,
}

impl ForwardServer {
    /// The server's settings.
    pub closed spec fn spec_cfg(&self) -> ForwardServerConfig {
        self.cfg
    }

    pub fn new(cfg: ForwardServerConfig) -> (s: ForwardServer)
        ensures
            s.spec_cfg() == cfg,
    {
        ForwardServer { cfg }
    }

    /// Builds the server from its settings. Every setting is good.
    pub fn build(cfg: ForwardServerConfig) -> (r: Result<ForwardServer, Error>)
        ensures
            r matches Ok(s) && s.spec_cfg() == cfg,
    {
        Ok(ForwardServer::new(cfg))
    }

    pub fn cfg(&self) -> (r: &ForwardServerConfig)
        ensures
            *r == self.spec_cfg(),
    {
        &self.cfg
    }

    /// The address to bind the listener to when the server starts.
    pub fn start(&self) -> (r: &Address)
        ensures
            *r == self.spec_cfg().bind,
    {
        &self.cfg.bind
    }

    /// The context of a connection that came from `addr`, and the target
    /// to connect it to before the two streams are spliced.
    pub fn serve_connection(&self, addr: SocketAddr) -> (r: (Context, Address))
        ensures
            r.0.wf(),
            r.0@ == (ContextView { source: Some(addr), attributes: Seq::empty(), cancelled: false }),
            r.1 == self.spec_cfg().target,
    {
        (connection_context(addr), self.cfg.target.copy())
    }

    /// Decides what follows an accept: the loop goes on after every
    /// connection and ends with the listener's error.
    pub fn serve_listener(&self, accepted: Result<SocketAddr, Error>) -> (step: Accept)
        ensures
            step == match accepted {
                Ok(source) => Accept::Spawn { source },
                Err(e) => Accept::Stop(e),
            },
    {
        on_accept(accepted)
    }

    /// Whether `plan` is what the datagram side of the server does: nothing
    /// unless datagrams are forwarded; else a bridge from the bind address
    /// to a socket on the target's port and the unspecified host of the
    /// target's family.
    pub open spec fn udp_plan_is(&self, plan: UdpPlan) -> bool {
        if !self.spec_cfg().udp {
            plan == UdpPlan::Idle
        } else {
            plan matches UdpPlan::Bridge { listen, outbound } && listen == self.spec_cfg().bind
                && outbound == Address::SocketAddr(self.spec_cfg().target.spec_to_any_addr_port())
        }
    }

    /// Decides what the datagram side of the server does.
    pub fn serve_udp(&self) -> (plan: UdpPlan)
        ensures
            self.udp_plan_is(plan),
    {
        if !self.cfg.udp {
            return UdpPlan::Idle;
        }
        UdpPlan::Bridge { listen: self.cfg.bind.copy(), outbound: self.cfg.target.to_any_addr_port() }
    }
}

/// The datagram side of a forward server, mathematically.
pub struct ListenUdpChannelView {
    /// The client that was heard of last.
    pub client: Option<SocketAddr>,
    /// Where every datagram is passed on to.
    pub target: Address,
}

/// The channel between the socket that a forward server listens on and the
/// bridge: datagrams that arrive are headed for the server's target, and
/// replies go back to the client that was heard of last.
#[derive(Debug)]
pub struct ListenUdpChannel {
    client: Option<SocketAddr>,
    target: Address,
}

impl View for ListenUdpChannel {
    type V = ListenUdpChannelView;

    closed spec fn view(&self) -> ListenUdpChannelView {
        ListenUdpChannelView { client: self.client, target: self.target }
    }
}

impl ListenUdpChannel {
    /// A channel that has heard of no client yet.
    pub fn new(target: Address) -> (c: ListenUdpChannel)
        ensures
            c@ == (ListenUdpChannelView { client: None, target }),
    {
        ListenUdpChannel { client: None, target }
    }

    /// Takes in a datagram that arrived from `from`: remembers the client
    /// and says where the datagram is headed.
    pub fn poll_next(&mut self, from: SocketAddr) -> (target: Address)
        ensures
            target == old(self)@.target,
            final(self)@ == (ListenUdpChannelView { client: Some(from), ..old(self)@ }),
    {
        self.client = Some(from);
        self.target.copy()
    }

    /// Says where a reply goes: to the client that was heard of last.
    /// Before any client was heard of there is nowhere to send it, and the
    /// reply is dropped without an error.
    pub fn start_send(&self) -> (to: Option<SocketAddr>)
        ensures
            to == self@.client,
    {
        self.client
    }
}

} // verus!
