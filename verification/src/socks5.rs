//! SOCKS5: the settings of the client net and of the server, their place
//! in the registry, and the steps of the server's handshake.

use crate::address::Address;
use crate::error::Error;
use crate::registry::{put, Registry};
use vstd::prelude::*;
use vstd::string::StringExecFns;

verus! {

/// The settings of a SOCKS5 client net: where the SOCKS5 server is.
#[derive(Debug, Clone, PartialEq, Eq)]
pub struct Config {
    pub address: String,
    pub port: u16,
}

/// The settings of a SOCKS5 server: where it listens.
#[derive(Debug, Clone, PartialEq, Eq)]
pub struct ServerConfig {
    pub bind: String,
}

/// The name under which both the client net and the server are
/// registered.
pub open spec fn name() -> Seq<char> {
    "socks5"@
}

/// The schema of `Config`.
pub open spec fn net_schema() -> Seq<char> {
    "{\"type\":\"object\",\"required\":[\"address\",\"port\"],\"properties\":{\"address\":{\"type\":\"string\"},\"port\":{\"type\":\"integer\",\"minimum\":0,\"maximum\":65535}}}"@
}

/// The schema of `ServerConfig`.
pub open spec fn server_schema() -> Seq<char> {
    "{\"type\":\"object\",\"required\":[\"bind\"],\"properties\":{\"bind\":{\"type\":\"string\"}}}"@
}

/// Registers the SOCKS5 client net and the SOCKS5 server.
pub fn init(registry: &mut Registry) -> (r: Result<(), Error>)
    requires
        old(registry).wf(),
    ensures
        final(registry).wf(),
        r is Ok,
        final(registry).net@ == put(old(registry).net@, name(), net_schema()),
        final(registry).server@ == put(old(registry).server@, name(), server_schema()),
{
    registry.add_net(
        String::from_str("socks5"),
        String::from_str(
            "{\"type\":\"object\",\"required\":[\"address\",\"port\"],\"properties\":{\"address\":{\"type\":\"string\"},\"port\":{\"type\":\"integer\",\"minimum\":0,\"maximum\":65535}}}",
        ),
    );
    registry.add_server(
        String::from_str("socks5"),
        String::from_str(
            "{\"type\":\"object\",\"required\":[\"bind\"],\"properties\":{\"bind\":{\"type\":\"string\"}}}",
        ),
    );
    Ok(())
}

/// The message of the error for a net that is not built on exactly one
/// net.
pub open spec fn must_have_one_net() -> Seq<char> {
    "Must have one net"@
}

/// The one net that a net is built on. A net that wraps another is built
/// on exactly one.
pub fn get_one_net<N>(mut nets: Vec<N>) -> (r: Result<N, Error>)
    ensures
        match r {
            Ok(net) => nets@.len() == 1 && net == nets@[0],
            Err(e) => nets@.len() != 1 && e.is_other(must_have_one_net()),
        },
{
    if nets.len() != 1 {
        return Err(Error::Other(String::from_str("Must have one net")));
    }
    match nets.pop() {
        Some(net) => Ok(net),
        None => Err(Error::Other(String::from_str("Must have one net"))),
    }
}

/// A SOCKS5 client net: it reaches its targets through the SOCKS5 server
/// at `address` and `port`, which it reaches through the net `net`.
#[derive(Debug)]
pub struct Socks5Client<N> {
    pub net: N,
    pub address: String,
    pub port: u16,
}

impl<N> Socks5Client<N> {
    /// Builds the client net on the one net of `net`.
    pub fn new(net: Vec<N>, config: Config) -> (r: Result<Socks5Client<N>, Error>)
        ensures
            match r {
                Ok(c) => net@.len() == 1 && c == (Socks5Client {
                    net: net@[0],
                    address: config.address,
                    port: config.port,
                }),
                Err(e) => net@.len() != 1 && e.is_other(must_have_one_net()),
            },
    {
        match get_one_net(net) {
            Ok(n) => Ok(Socks5Client { net: n, address: config.address, port: config.port }),
            Err(e) => Err(e),
        }
    }
}

/// A SOCKS5 server: it listens at `bind` on the net `listen_net` and sends
/// through the net `net`.
#[derive(Debug)]
pub struct Socks5<N> {
    pub listen_net: N,
    pub net: N,
    pub bind: String,
}

impl<N> Socks5<N> {
    pub fn new(listen_net: N, net: N, config: ServerConfig) -> (r: Result<Socks5<N>, Error>)
        ensures
            r == Ok::<Socks5<N>, Error>(Socks5 { listen_net, net, bind: config.bind }),
    {
        Ok(Socks5 { listen_net, net, bind: config.bind })
    }
}

/// The authentication method "none". It is the only one that the server
/// takes.
pub const METHOD_NONE: u8 = 0x00;

/// The answer to a greeting that offers no method that the server takes.
pub const METHOD_UNACCEPTABLE: u8 = 0xff;

/// The command "connect". It is the only one that the handshake goes on
/// with.
pub const CMD_CONNECT: u8 = 0x01;

/// The reply codes of the protocol.
#[derive(Debug, Clone, Copy, PartialEq, Eq, Structural)]
pub enum Reply {
    Succeeded,
    GeneralFailure,
    HostUnreachable,
    ConnectionRefused,
    CommandNotSupported,
}

impl Reply {
    /// The reply's code on the wire.
    pub open spec fn spec_code(self) -> u8 {
        match self {
            Reply::Succeeded => 0x00,
            Reply::GeneralFailure => 0x01,
            Reply::HostUnreachable => 0x04,
            Reply::ConnectionRefused => 0x05,
            Reply::CommandNotSupported => 0x07,
        }
    }

    #[verifier::when_used_as_spec(spec_code)]
    pub fn code(self) -> (r: u8)
        ensures
            r == self.spec_code(),
    {
        match self {
            Reply::Succeeded => 0x00,
            Reply::GeneralFailure => 0x01,
            Reply::HostUnreachable => 0x04,
            Reply::ConnectionRefused => 0x05,
            Reply::CommandNotSupported => 0x07,
        }
    }

    /// The reply that tells the client why the dial failed: a target that
    /// cannot be had is unreachable, a refusal downstream is a refusal,
    /// and everything else a general failure.
    pub open spec fn spec_for_error(e: Error) -> Reply {
        match e {
            Error::AddrNotAvailable => Reply::HostUnreachable,
            Error::ConnectionRefused => Reply::ConnectionRefused,
            _ => Reply::GeneralFailure,
        }
    }

    pub fn for_error(e: &Error) -> (r: Reply)
        ensures
            r == Self::spec_for_error(*e),
    {
        match e {
            Error::AddrNotAvailable => Reply::HostUnreachable,
            Error::ConnectionRefused => Reply::ConnectionRefused,
            _ => Reply::GeneralFailure,
        }
    }
}

/// Where a handshake stands.
#[derive(Debug, Clone, Copy, PartialEq, Eq, Structural)]
pub enum Handshake {
    /// Nothing was read yet.
    AwaitGreeting,
    /// The greeting was read; a method is being picked.
    SelectMethod,
    /// The method was told; the request is awaited.
    AwaitRequest,
    /// The request was read; the target is being dialled.
    Dial,
    /// The two streams are spliced. Nothing follows.
    Splice,
    /// The handshake failed. Nothing follows.
    Fail,
}

/// What happened in a handshake.
#[derive(Debug, PartialEq, Eq)]
pub enum Input {
    /// The client's greeting was read; it is ready to be looked at.
    Greeting,
    /// These are the methods that the greeting offers.
    Methods(Vec<u8>),
    /// The client's request was read: a command and a target.
    Request(u8, Address),
    /// The dial to the target came about, or failed.
    Dialled(Result<(), Error>),
    /// What the client sent could not be read as the protocol asks, or the
    /// client failed to authenticate.
    Malformed,
}

/// What the server does in a handshake.
#[derive(Debug, PartialEq, Eq)]
pub enum Output {
    /// Look at the methods that the greeting offers, and hand them in.
    ReadMethods,
    /// Tell the client that this method was picked, then read the request.
    Method(u8),
    /// Connect to the target through the outgoing net.
    Connect(Address),
    /// Send this reply, then couple the client to the target.
    Relay(Reply),
    /// Send this answer to the greeting, then close the connection.
    Refuse(u8),
    /// Send this reply, then close the connection.
    Close(Reply),
    /// Close the connection.
    Drop,
}

/// Whether the greeting offers the method "none".
pub open spec fn offers_none(methods: Seq<u8>) -> bool {
    exists|i: int| 0 <= i < methods.len() && methods[i] == METHOD_NONE
}

impl Handshake {
    /// The state that follows `input` in the state `self`. `Splice` and
    /// `Fail` are final; whatever does not belong where it comes fails the
    /// handshake.
    pub open spec fn spec_next(self, input: Input) -> Handshake {
        match (self, input) {
            (Handshake::AwaitGreeting, Input::Greeting) => Handshake::SelectMethod,
            (Handshake::SelectMethod, Input::Methods(m)) => if offers_none(m@) {
                Handshake::AwaitRequest
            } else {
                Handshake::Fail
            },
            (Handshake::AwaitRequest, Input::Request(cmd, _)) => if cmd == CMD_CONNECT {
                Handshake::Dial
            } else {
                Handshake::Fail
            },
            (Handshake::Dial, Input::Dialled(Ok(()))) => Handshake::Splice,
            (Handshake::Splice, _) => Handshake::Splice,
            _ => Handshake::Fail,
        }
    }

    /// What the server does on `input` in the state `self`. A failure is
    /// answered as the protocol defines before the connection is closed:
    /// a greeting without a method the server takes with "no acceptable
    /// method", a command other than connect with "command not
    /// supported", a failed dial with the reply for its error, and
    /// anything unreadable after the method was picked with a general
    /// failure.
    pub open spec fn spec_output(self, input: Input) -> Output {
        match (self, input) {
            (Handshake::AwaitGreeting, Input::Greeting) => Output::ReadMethods,
            (Handshake::SelectMethod, Input::Methods(m)) => if offers_none(m@) {
                Output::Method(METHOD_NONE)
            } else {
                Output::Refuse(METHOD_UNACCEPTABLE)
            },
            (Handshake::AwaitRequest, Input::Request(cmd, target)) => if cmd == CMD_CONNECT {
                Output::Connect(target)
            } else {
                Output::Close(Reply::CommandNotSupported)
            },
            (Handshake::Dial, Input::Dialled(Ok(()))) => Output::Relay(Reply::Succeeded),
            (Handshake::Dial, Input::Dialled(Err(e))) => Output::Close(Reply::spec_for_error(e)),
            (Handshake::AwaitRequest, _) | (Handshake::Dial, _) => Output::Close(
                Reply::GeneralFailure,
            ),
            _ => Output::Drop,
        }
    }

    /// Whether the handshake is over.
    pub open spec fn spec_is_final(self) -> bool {
        self == Handshake::Splice || self == Handshake::Fail
    }

    /// The state of a connection that was just accepted.
    pub fn new() -> (h: Handshake)
        ensures
            h == Handshake::AwaitGreeting,
    {
        Handshake::AwaitGreeting
    }

    #[verifier::when_used_as_spec(spec_is_final)]
    pub fn is_final(self) -> (r: bool)
        ensures
            r == self.spec_is_final(),
    {
        match self {
            Handshake::Splice => true,
            Handshake::Fail => true,
            _ => false,
        }
    }

    /// Moves the handshake on by one input, and says what the server does.
    pub fn next(&mut self, input: Input) -> (out: Output)
        ensures
            *final(self) == old(self).spec_next(input),
            out == old(self).spec_output(input),
    {
        let state = *self;
        match (state, input) {
            (Handshake::AwaitGreeting, Input::Greeting) => {
                *self = Handshake::SelectMethod;
                Output::ReadMethods
            },
            (Handshake::SelectMethod, Input::Methods(m)) => {
                if has_method_none(&m) {
                    *self = Handshake::AwaitRequest;
                    Output::Method(METHOD_NONE)
                } else {
                    *self = Handshake::Fail;
                    Output::Refuse(METHOD_UNACCEPTABLE)
                }
            },
            (Handshake::AwaitRequest, Input::Request(cmd, target)) => {
                if cmd == CMD_CONNECT {
                    *self = Handshake::Dial;
                    Output::Connect(target)
                } else {
                    *self = Handshake::Fail;
                    Output::Close(Reply::CommandNotSupported)
                }
            },
            (Handshake::Dial, Input::Dialled(Ok(()))) => {
                *self = Handshake::Splice;
                Output::Relay(Reply::Succeeded)
            },
            (Handshake::Dial, Input::Dialled(Err(e))) => {
                *self = Handshake::Fail;
                Output::Close(Reply::for_error(&e))
            },
            (Handshake::AwaitRequest, _) | (Handshake::Dial, _) => {
                *self = Handshake::Fail;
                Output::Close(Reply::GeneralFailure)
            },
            (Handshake::Splice, _) => Output::Drop,
            _ => {
                *self = Handshake::Fail;
                Output::Drop
            },
        }
    }
}

/// Whether the greeting's methods hold the method "none".
pub fn has_method_none(methods: &Vec<u8>) -> (r: bool)
    ensures
        r == offers_none(methods@),
{
    let mut i: usize = 0;
    while i < methods.len()
        invariant
            i <= methods@.len(),
            forall|j: int| 0 <= j < i ==> methods@[j] != METHOD_NONE,
        decreases methods@.len() - i,
    {
        if methods[i] == METHOD_NONE {
            return true;
        }
        i += 1;
    }
    false
}

/// `Splice` and `Fail` are final: no input leads out of them, a splice is
/// never entered a second time, and a handshake gets to the splice only by
/// a greeting, a method, a connect request and a dial that came about, in
/// this order.
pub proof fn lemma_handshake_order(h: Handshake, input: Input)
    ensures
        h.spec_is_final() ==> h.spec_next(input) == h,
        h.spec_is_final() ==> h.spec_output(input) == Output::Drop,
        h.spec_next(input) == Handshake::Splice && h != Handshake::Splice ==> h == Handshake::Dial
            && input is Dialled && input->Dialled_0 is Ok && h.spec_output(input) == Output::Relay(
            Reply::Succeeded,
        ),
        h.spec_next(input) == Handshake::Dial ==> h == Handshake::AwaitRequest,
        h.spec_next(input) == Handshake::AwaitRequest ==> h == Handshake::SelectMethod,
        h.spec_next(input) == Handshake::SelectMethod ==> h == Handshake::AwaitGreeting,
        h.spec_next(input) != Handshake::AwaitGreeting,
{
}

} // verus!
