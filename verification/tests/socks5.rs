use rabbit_digger_pro::address::{Address, IpAddr, SocketAddr};
use rabbit_digger_pro::context::Context;
use rabbit_digger_pro::error::Error;
use rabbit_digger_pro::registry::{get_registry_schema, Registry, Table};
use rabbit_digger_pro::server::{connection_context, on_accept, on_served, Accept};
use rabbit_digger_pro::socks5::{
    get_one_net, has_method_none, init, Config, Handshake, Input, Output, Reply, ServerConfig,
    Socks5, Socks5Client, CMD_CONNECT, METHOD_NONE, METHOD_UNACCEPTABLE,
};
use rabbit_digger_pro::ss::{SSServer, SSServerConfig};

#[test]
fn init_registers_socks5() {
    let mut registry = Registry::new();
    assert_eq!(init(&mut registry), Ok(()));
    assert!(registry.net.contains("socks5"));
    assert!(registry.server.contains("socks5"));
    assert!(!registry.net.contains("socks4"));
    assert!(registry.net.get("socks5").unwrap().contains("\"address\""));
    assert!(registry.server.get("socks5").unwrap().contains("\"bind\""));
    // Registering twice leaves one entry.
    assert_eq!(init(&mut registry), Ok(()));
    assert_eq!(registry.net.len(), 1);
    assert_eq!(registry.server.len(), 1);
}

#[test]
fn table_replaces_by_name() {
    let mut t = Table::new();
    t.add("a".to_string(), "1".to_string());
    t.add("b".to_string(), "2".to_string());
    t.add("a".to_string(), "3".to_string());
    assert_eq!(t.len(), 2);
    assert_eq!(t.get("a"), Some(&"3".to_string()));
    assert_eq!(t.get("b"), Some(&"2".to_string()));
    assert_eq!(t.get("c"), None);
    assert_eq!(t.find("a"), Some(0));
    assert_eq!(t.find("b"), Some(1));
    assert_eq!(t.find(""), None);
    assert_eq!(t.item(1).name, "b");
    let copy = t.copy();
    assert_eq!(copy.len(), 2);
    assert_eq!(copy.get("a"), Some(&"3".to_string()));
}

#[test]
fn registry_schema_is_a_copy() {
    let mut registry = Registry::new();
    registry.add_net("local".to_string(), "{\"n\":1}".to_string());
    registry.add_server("forward".to_string(), "{\"s\":1}".to_string());
    let schema = get_registry_schema(&registry);
    registry.add_net("late".to_string(), "{}".to_string());
    assert_eq!(schema.net().len(), 1);
    assert_eq!(schema.net().get("local"), Some(&"{\"n\":1}".to_string()));
    assert_eq!(schema.server().get("forward"), Some(&"{\"s\":1}".to_string()));
    assert_eq!(schema.net().get("late"), None);
}

#[test]
fn client_is_built_on_one_net() {
    let config = Config { address: "127.0.0.1".to_string(), port: 1080 };
    let client = Socks5Client::new(vec!["local"], config.clone()).unwrap();
    assert_eq!(client.net, "local");
    assert_eq!(client.address, "127.0.0.1");
    assert_eq!(client.port, 1080);
    let none: Vec<&str> = vec![];
    assert_eq!(
        Socks5Client::new(none, config.clone()).err(),
        Some(Error::Other("Must have one net".to_string()))
    );
    assert_eq!(
        Socks5Client::new(vec!["a", "b"], config).err(),
        Some(Error::Other("Must have one net".to_string()))
    );
    assert_eq!(get_one_net(vec![5]), Ok(5));
    assert_eq!(get_one_net(vec![5, 6]), Err(Error::Other("Must have one net".to_string())));
}

#[test]
fn server_keeps_its_settings() {
    let s = Socks5::new("listen", "out", ServerConfig { bind: "127.0.0.1:1080".to_string() })
        .unwrap();
    assert_eq!(s.listen_net, "listen");
    assert_eq!(s.net, "out");
    assert_eq!(s.bind, "127.0.0.1:1080");
}

#[test]
fn handshake_reaches_the_splice() {
    let mut h = Handshake::new();
    assert_eq!(h.next(Input::Greeting), Output::ReadMethods);
    assert_eq!(h, Handshake::SelectMethod);
    assert_eq!(h.next(Input::Methods(vec![0x02, 0x00])), Output::Method(METHOD_NONE));
    assert_eq!(h, Handshake::AwaitRequest);
    let target = Address::Domain("example.com".to_string(), 443);
    assert_eq!(h.next(Input::Request(CMD_CONNECT, target.clone())), Output::Connect(target));
    assert_eq!(h, Handshake::Dial);
    assert!(!h.is_final());
    assert_eq!(h.next(Input::Dialled(Ok(()))), Output::Relay(Reply::Succeeded));
    assert_eq!(h, Handshake::Splice);
    assert!(h.is_final());
    // The splice is final.
    assert_eq!(h.next(Input::Greeting), Output::Drop);
    assert_eq!(h, Handshake::Splice);
}

#[test]
fn handshake_failures_are_answered() {
    let mut h = Handshake::SelectMethod;
    assert_eq!(h.next(Input::Methods(vec![0x01, 0x02])), Output::Refuse(METHOD_UNACCEPTABLE));
    assert_eq!(h, Handshake::Fail);
    assert_eq!(METHOD_UNACCEPTABLE, 0xff);

    let mut h = Handshake::AwaitRequest;
    let target = Address::SocketAddr(SocketAddr::v4(1, 2, 3, 4, 5));
    assert_eq!(h.next(Input::Request(0x02, target)), Output::Close(Reply::CommandNotSupported));
    assert_eq!(h, Handshake::Fail);

    let mut h = Handshake::Dial;
    assert_eq!(
        h.next(Input::Dialled(Err(Error::ConnectionRefused))),
        Output::Close(Reply::ConnectionRefused)
    );
    assert_eq!(h, Handshake::Fail);
    let mut h = Handshake::Dial;
    assert_eq!(
        h.next(Input::Dialled(Err(Error::AddrNotAvailable))),
        Output::Close(Reply::HostUnreachable)
    );
    let mut h = Handshake::Dial;
    assert_eq!(h.next(Input::Dialled(Err(Error::TimedOut))), Output::Close(Reply::GeneralFailure));

    let mut h = Handshake::AwaitGreeting;
    assert_eq!(h.next(Input::Malformed), Output::Drop);
    assert_eq!(h, Handshake::Fail);
    let mut h = Handshake::AwaitRequest;
    assert_eq!(h.next(Input::Malformed), Output::Close(Reply::GeneralFailure));
    assert_eq!(h, Handshake::Fail);
    assert_eq!(h.next(Input::Greeting), Output::Drop);
    assert_eq!(h, Handshake::Fail);
}

#[test]
fn reply_codes() {
    assert_eq!(Reply::Succeeded.code(), 0);
    assert_eq!(Reply::GeneralFailure.code(), 1);
    assert_eq!(Reply::HostUnreachable.code(), 4);
    assert_eq!(Reply::ConnectionRefused.code(), 5);
    assert_eq!(Reply::CommandNotSupported.code(), 7);
    assert_eq!(Reply::for_error(&Error::Other("x".to_string())), Reply::GeneralFailure);
    assert!(has_method_none(&vec![3, 2, 0]));
    assert!(!has_method_none(&vec![]));
}

#[test]
fn accept_loop_survives_connections() {
    let peer = SocketAddr::v4(127, 0, 0, 1, 7);
    assert_eq!(on_accept(Ok(peer)), Accept::Spawn { source: peer });
    assert_eq!(on_accept(Err(Error::ConnectionAborted)), Accept::Stop(Error::ConnectionAborted));
    assert_eq!(on_served(Ok(())), None);
    assert_eq!(on_served(Err(Error::BrokenPipe)), Some(Error::BrokenPipe));
    assert_eq!(connection_context(peer).source(), Some(peer));
}

#[test]
fn context_carries_attributes_and_cancellation() {
    let mut ctx = Context::new();
    assert_eq!(ctx.source(), None);
    assert_eq!(ctx.check(), Ok(()));
    ctx.insert("b".to_string(), "2".to_string());
    ctx.insert("a".to_string(), "1".to_string());
    ctx.insert("b".to_string(), "3".to_string());
    assert_eq!(ctx.get("a"), Some(&"1".to_string()));
    assert_eq!(ctx.get("b"), Some(&"3".to_string()));
    assert_eq!(ctx.get("c"), None);
    assert!(!ctx.is_cancelled());
    ctx.cancel();
    assert!(ctx.is_cancelled());
    assert_eq!(ctx.check(), Err(Error::AbortedByUser));
    ctx.insert("d".to_string(), "4".to_string());
    ctx.cancel();
    assert_eq!(ctx.check(), Err(Error::AbortedByUser));
    let from = Context::from_socketaddr(SocketAddr::v4(10, 1, 1, 1, 99));
    assert_eq!(from.source(), Some(SocketAddr::v4(10, 1, 1, 1, 99)));
    assert!(!from.is_cancelled());
}

#[test]
fn addresses() {
    let v4 = SocketAddr::v4(192, 168, 0, 1, 8080);
    assert_eq!(v4.ip(), IpAddr::V4(192, 168, 0, 1));
    assert_eq!(v4.port(), 8080);
    assert_eq!(
        Address::SocketAddr(v4).to_any_addr_port(),
        Address::SocketAddr(SocketAddr::v4(0, 0, 0, 0, 8080))
    );
    let v6 = SocketAddr::new(IpAddr::V6(0x2001, 0xdb8, 0, 0, 0, 0, 0, 1), 53);
    assert_eq!(
        Address::SocketAddr(v6).to_any_addr_port(),
        Address::SocketAddr(SocketAddr::new(IpAddr::V6(0, 0, 0, 0, 0, 0, 0, 0), 53))
    );
    let domain = Address::Domain("example.com".to_string(), 443);
    assert_eq!(domain.port(), 443);
    assert_eq!(
        domain.to_any_addr_port(),
        Address::SocketAddr(SocketAddr::v4(0, 0, 0, 0, 443))
    );
    assert_eq!(domain.copy(), domain);
    assert!(IpAddr::V4(127, 9, 9, 9).is_loopback());
    assert!(!IpAddr::V4(128, 0, 0, 1).is_loopback());
    assert!(IpAddr::V6(0, 0, 0, 0, 0, 0, 0, 1).is_loopback());
    assert!(!IpAddr::V6(0, 0, 0, 0, 0, 0, 1, 1).is_loopback());
    assert!(IpAddr::V4(0, 0, 0, 0).is_unspecified());
    assert!(!IpAddr::V4(0, 0, 0, 1).is_unspecified());
    assert!(IpAddr::V6(0, 0, 0, 0, 0, 0, 0, 0).is_unspecified());
    assert_eq!(IpAddr::localhost(), IpAddr::V4(127, 0, 0, 1));
    assert_eq!(SocketAddr::localhost(80), SocketAddr::v4(127, 0, 0, 1, 80));
    assert!(Error::WouldBlock.is_would_block());
    assert!(!Error::BrokenPipe.is_would_block());
}

#[test]
fn ss_server_serves_streams_and_datagrams_on_one_address() {
    let bind = Address::SocketAddr(SocketAddr::v4(127, 0, 0, 1, 8388));
    let server = SSServer::new(SSServerConfig {
        bind: bind.clone(),
        password: "secret".to_string(),
        udp: true,
        cipher: "aes-256-gcm".to_string(),
    });
    assert_eq!(server.start(), &bind);
    assert_eq!(server.serve_udp(), &bind);
    assert_eq!(server.password(), "secret");
    assert_eq!(server.cipher(), "aes-256-gcm");
    let peer = SocketAddr::v4(127, 0, 0, 1, 50000);
    assert_eq!(server.serve_tcp(Ok(peer)), Accept::Spawn { source: peer });
    assert_eq!(server.serve_tcp(Err(Error::TimedOut)), Accept::Stop(Error::TimedOut));
    let target = Address::Domain("example.com".to_string(), 80);
    let (ctx, to) = server.serve_connection(peer, target.clone());
    assert_eq!(ctx.source(), Some(peer));
    assert_eq!(to, target);
}
