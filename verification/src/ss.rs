//! The Shadowsocks server: its settings and what its tasks do. The cipher
//! itself is the work of a codec outside this library.

use crate::address::{Address, SocketAddr};
use crate::context::{Context, ContextView};
use crate::error::Error;
use crate::server::{connection_context, on_accept, Accept};
use vstd::prelude::*;

verus! {

/// The settings of a Shadowsocks server.
#[derive(Debug, Clone, PartialEq, Eq)]
pub struct SSServerConfig {
    /// Where it listens, for streams and for datagrams.
    pub bind: Address,
    pub password: String,
    pub udp: bool,
    /// The name of the cipher.
    pub cipher: String,
}

/// A Shadowsocks server.
#[derive(Debug)]
pub struct SSServer {
    bind: Address,
    password: String,
    cipher: String,
}

impl SSServer {
    /// Where the server listens.
    pub closed spec fn spec_bind(&self) -> Address {
        self.bind
    }

    /// The password from which the codec derives its key.
    pub closed spec fn spec_password(&self) -> String {
        self.password
    }

    /// The name of the cipher.
    pub closed spec fn spec_cipher(&self) -> String {
        self.cipher
    }

    pub fn new(cfg: SSServerConfig) -> (s: SSServer)
        ensures
            s.spec_bind() == cfg.bind,
            s.spec_password() == cfg.password,
            s.spec_cipher() == cfg.cipher,
    {
        SSServer { bind: cfg.bind, password: cfg.password, cipher: cfg.cipher }
    }

    pub fn password(&self) -> (r: &String)
        ensures
            *r == self.spec_password(),
    {
        &self.password
    }

    pub fn cipher(&self) -> (r: &String)
        ensures
            *r == self.spec_cipher(),
    {
        &self.cipher
    }

    /// The address to bind the datagram socket to. The server serves
    /// datagrams beside streams, on the same address.
    pub fn serve_udp(&self) -> (r: &Address)
        ensures
            *r == self.spec_bind(),
    {
        &self.bind
    }

    /// The address to bind the listener to.
    pub fn start(&self) -> (r: &Address)
        ensures
            *r == self.spec_bind(),
    {
        &self.bind
    }

    /// Decides what follows an accept: the loop goes on after every
    /// connection and ends with the listener's error.
    pub fn serve_tcp(&self, accepted: Result<SocketAddr, Error>) -> (step: Accept)
        ensures
            step == match accepted {
                Ok(source) => Accept::Spawn { source },
                Err(e) => Accept::Stop(e),
            },
    {
        on_accept(accepted)
    }

    /// The context of a connection that came from `addr` and asks for
    /// `target`, and the address to connect it to: the one it asks for.
    pub fn serve_connection(&self, addr: SocketAddr, target: Address) -> (r: (Context, Address))
        ensures
            r.0.wf(),
            r.0@ == (ContextView { source: Some(addr), attributes: Seq::empty(), cancelled: false }),
            r.1 == target,
    {
        (connection_context(addr), target)
    }
}

} // verus!
