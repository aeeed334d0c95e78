use rabbit_digger_pro::address::{Address, SocketAddr};
use rabbit_digger_pro::controller::{Action, Controller, Outcome, Running};
use rabbit_digger_pro::error::Error;
use rabbit_digger_pro::forward::{ForwardServer, ForwardServerConfig, ListenUdpChannel, UdpPlan};
use rabbit_digger_pro::pipe::Side;
use rabbit_digger_pro::registry::{get_registry_schema, Registry};
use rabbit_digger_pro::relay::{Splice, SpliceAction, UdpBridge};
use rabbit_digger_pro::server::Accept;
use rabbit_digger_pro::topology::Config;
use rabbit_digger_pro::virtual_host::{TcpStream, UdpSocket, VirtualHost};

fn socket_addr(a: &Address) -> SocketAddr {
    match a {
        Address::SocketAddr(s) => *s,
        Address::Domain(_, _) => panic!("not resolved"),
    }
}

fn end_of<'a>(side: Side, a: &'a mut TcpStream, b: &'a mut TcpStream) -> &'a mut TcpStream {
    match side {
        Side::A => a,
        Side::B => b,
    }
}

/// Runs a splice between two streams of the fabric for as long as it can
/// go on without waiting. Says whether the splice has ended.
fn connect_tcp(
    net: &mut VirtualHost,
    splice: &mut Splice,
    a: &mut TcpStream,
    b: &mut TcpStream,
) -> Option<Result<(), Error>> {
    let mut progress = true;
    while progress {
        progress = false;
        for side in [Side::A, Side::B] {
            if splice.is_finished() || !splice.flows(side) {
                continue;
            }
            let mut buf = [0u8; 16];
            let read = net.read(end_of(side, a, b), &mut buf);
            if read == Err(Error::WouldBlock) {
                continue;
            }
            progress = true;
            let result = match splice.on_read(side, read) {
                SpliceAction::Write(to, n) => {
                    let written = net.write(end_of(to, a, b), &buf[..n]).map(|_| ());
                    match splice.on_write(to, written) {
                        SpliceAction::Finish(r) => Some(r),
                        _ => None,
                    }
                }
                SpliceAction::Shutdown(to) => {
                    let shut = net.close(end_of(to, a, b));
                    match splice.on_shutdown(to, shut) {
                        SpliceAction::Finish(r) => Some(r),
                        _ => None,
                    }
                }
                SpliceAction::Finish(r) => Some(r),
                _ => None,
            };
            if result.is_some() {
                return result;
            }
        }
    }
    None
}

fn echo_tcp(net: &mut VirtualHost, stream: &mut TcpStream) {
    let mut all = Vec::new();
    let mut buf = [0u8; 4];
    loop {
        match net.read(stream, &mut buf) {
            Ok(0) => break,
            Ok(n) => all.extend_from_slice(&buf[..n]),
            Err(e) => panic!("{:?}", e),
        }
    }
    assert_eq!(net.write(stream, &all), Ok(all.len()));
    net.close(stream).unwrap();
}

fn echo_udp(net: &mut VirtualHost, socket: &UdpSocket) {
    let mut buf = [0u8; 64];
    while let Ok((n, from)) = net.recv_from(socket, &mut buf) {
        assert_eq!(net.send_to(socket, &buf[..n], from), Ok(n));
    }
}

#[test]
fn test_forward_server() {
    let mut net = VirtualHost::new();
    let cfg = ForwardServerConfig {
        bind: Address::parse("127.0.0.1:1234").unwrap(),
        target: Address::parse("127.0.0.1:4321").unwrap(),
        udp: true,
    };
    let server = ForwardServer::new(cfg);
    let listener = net.tcp_bind(socket_addr(server.start())).unwrap();
    let echo_listener = net.tcp_bind(SocketAddr::v4(127, 0, 0, 1, 4321)).unwrap();

    // assert_echo over TCP
    let mut client = net.tcp_connect(SocketAddr::v4(127, 0, 0, 1, 1234)).unwrap();
    assert_eq!(net.write(&client, b"hello world"), Ok(11));
    net.close(&mut client).unwrap();

    let accepted = net.accept(&listener);
    let peer = accepted.as_ref().map(|(_, addr)| *addr).map_err(|e| e.clone());
    let source = match server.serve_listener(peer) {
        Accept::Spawn { source } => source,
        Accept::Stop(e) => panic!("{:?}", e),
    };
    assert_eq!(Ok(source), client.local_addr());
    let (mut inbound, _) = accepted.unwrap();
    let (ctx, target) = server.serve_connection(source);
    assert_eq!(ctx.source(), Some(source));
    let mut outbound = net.tcp_connect(socket_addr(&target)).unwrap();
    let (mut upstream, _) = net.accept(&echo_listener).unwrap();

    let mut splice = Splice::new();
    assert_eq!(connect_tcp(&mut net, &mut splice, &mut inbound, &mut outbound), None);
    echo_tcp(&mut net, &mut upstream);
    assert_eq!(
        connect_tcp(&mut net, &mut splice, &mut inbound, &mut outbound),
        Some(Ok(()))
    );

    let mut buf = [0u8; 32];
    assert_eq!(net.read(&mut client, &mut buf), Ok(11));
    assert_eq!(&buf[..11], b"hello world");
    assert_eq!(net.read(&mut client, &mut buf), Ok(0));

    // assert_echo_udp
    let (listen, outbound) = match server.serve_udp() {
        UdpPlan::Bridge { listen, outbound } => (listen, outbound),
        UdpPlan::Idle => panic!("udp is on"),
    };
    assert_eq!(listen, Address::SocketAddr(SocketAddr::v4(127, 0, 0, 1, 1234)));
    assert_eq!(outbound, Address::SocketAddr(SocketAddr::v4(0, 0, 0, 0, 4321)));
    let udp_listener = net.udp_bind(socket_addr(&listen)).unwrap();
    // The echo server lives on a fabric of its own, on which the bridge
    // binds its outbound socket to the target's port, as the target does.
    let mut far = VirtualHost::new();
    let echo_socket = far.udp_bind(SocketAddr::v4(127, 0, 0, 1, 4321)).unwrap();
    assert_eq!(far.udp_bind(socket_addr(&outbound)).err(), Some(Error::AddrInUse));
    let outbound_socket = far.udp_bind(SocketAddr::v4(0, 0, 0, 0, 0)).unwrap();
    let mut channel = ListenUdpChannel::new(server.cfg().target.copy());

    let udp_client = net.udp_bind(SocketAddr::v4(127, 0, 0, 1, 0)).unwrap();
    assert_eq!(net.send_to(&udp_client, b"ping", SocketAddr::v4(127, 0, 0, 1, 1234)), Ok(4));

    // connect_udp: channel to outbound socket ...
    let (n, from) = net.recv_from(&udp_listener, &mut buf).unwrap();
    let to = channel.poll_next(from);
    assert_eq!(far.send_to(&outbound_socket, &buf[..n], socket_addr(&to)), Ok(4));
    echo_udp(&mut far, &echo_socket);
    // ... and back.
    let (n, _) = far.recv_from(&outbound_socket, &mut buf).unwrap();
    let back = channel.start_send().unwrap();
    assert_eq!(net.send_to(&udp_listener, &buf[..n], back), Ok(4));

    let mut reply = [0u8; 8];
    assert_eq!(
        net.recv_from(&udp_client, &mut reply),
        Ok((4, SocketAddr::v4(127, 0, 0, 1, 1234)))
    );
    assert_eq!(&reply[..4], b"ping");
    assert_eq!(net.recv_from(&udp_client, &mut reply), Err(Error::WouldBlock));
}

#[test]
fn forward_without_udp_idles() {
    let cfg = ForwardServerConfig {
        bind: Address::SocketAddr(SocketAddr::v4(127, 0, 0, 1, 1234)),
        target: Address::Domain("example.com".to_string(), 53),
        udp: false,
    };
    let server = ForwardServer::build(cfg.clone()).unwrap();
    assert_eq!(server.serve_udp(), UdpPlan::Idle);
    assert_eq!(server.cfg(), &cfg);
    assert_eq!(
        server.serve_listener(Err(Error::ConnectionAborted)),
        Accept::Stop(Error::ConnectionAborted)
    );
    let with_udp = ForwardServer::new(ForwardServerConfig { udp: true, ..cfg });
    assert_eq!(
        with_udp.serve_udp(),
        UdpPlan::Bridge {
            listen: Address::SocketAddr(SocketAddr::v4(127, 0, 0, 1, 1234)),
            outbound: Address::SocketAddr(SocketAddr::v4(0, 0, 0, 0, 53)),
        }
    );
}

#[test]
fn listen_channel_replies_to_the_last_client() {
    let target = Address::SocketAddr(SocketAddr::v4(127, 0, 0, 1, 4321));
    let mut channel = ListenUdpChannel::new(target.clone());
    // A reply before any datagram has nowhere to go.
    assert_eq!(channel.start_send(), None);
    let c1 = SocketAddr::v4(127, 0, 0, 1, 1);
    let c2 = SocketAddr::v4(127, 0, 0, 1, 2);
    assert_eq!(channel.poll_next(c1), target);
    assert_eq!(channel.start_send(), Some(c1));
    assert_eq!(channel.poll_next(c2), target);
    assert_eq!(channel.start_send(), Some(c2));
}

#[test]
fn udp_echo_through_the_bridge() {
    let mut net = VirtualHost::new();
    let echo = net.udp_bind(SocketAddr::v4(127, 0, 0, 1, 4321)).unwrap();
    let front = net.udp_bind(SocketAddr::v4(127, 0, 0, 1, 1234)).unwrap();
    let c1 = net.udp_bind(SocketAddr::v4(127, 0, 0, 1, 0)).unwrap();
    let c2 = net.udp_bind(SocketAddr::v4(127, 0, 0, 1, 0)).unwrap();
    let mut bridge = UdpBridge::new();
    let mut outbound: Vec<UdpSocket> = Vec::new();
    let mut buf = [0u8; 16];

    net.send_to(&c1, b"one", SocketAddr::v4(127, 0, 0, 1, 1234)).unwrap();
    net.send_to(&c2, b"two", SocketAddr::v4(127, 0, 0, 1, 1234)).unwrap();
    net.send_to(&c1, b"three", SocketAddr::v4(127, 0, 0, 1, 1234)).unwrap();
    while let Ok((n, client)) = net.recv_from(&front, &mut buf) {
        let handle = match bridge.inbound(client, 0) {
            Some(h) => h,
            None => {
                outbound.push(net.udp_bind(SocketAddr::v4(0, 0, 0, 0, 0)).unwrap());
                let h = (outbound.len() - 1) as u64;
                assert!(bridge.attach(client, h, 0));
                h
            }
        };
        let via = &outbound[handle as usize];
        assert_eq!(net.send_to(via, &buf[..n], SocketAddr::v4(127, 0, 0, 1, 4321)), Ok(n));
    }
    assert_eq!(outbound.len(), 2);
    echo_udp(&mut net, &echo);
    for (handle, via) in outbound.iter().enumerate() {
        while let Ok((n, _)) = net.recv_from(via, &mut buf) {
            let client = bridge.reply(handle as u64, 1).unwrap();
            assert_eq!(net.send_to(&front, &buf[..n], client), Ok(n));
        }
    }
    let from = SocketAddr::v4(127, 0, 0, 1, 1234);
    assert_eq!(net.recv_from(&c1, &mut buf), Ok((3, from)));
    assert_eq!(&buf[..3], b"one");
    assert_eq!(net.recv_from(&c1, &mut buf), Ok((5, from)));
    assert_eq!(&buf[..5], b"three");
    assert_eq!(net.recv_from(&c1, &mut buf), Err(Error::WouldBlock));
    assert_eq!(net.recv_from(&c2, &mut buf), Ok((3, from)));
    assert_eq!(&buf[..3], b"two");
    assert_eq!(net.recv_from(&c2, &mut buf), Err(Error::WouldBlock));
}

#[test]
fn hot_reload() {
    let mut net = VirtualHost::new();
    let mut controller = Controller::new();
    let running = || Running::new(Config::new(), get_registry_schema(&Registry::new()));
    controller.run(Config::new());
    assert!(matches!(controller.step(Outcome::Built(running())).action, Action::Serve));

    // The topology's SOCKS5 server listens on 1080 and serves one connection.
    let socks = SocketAddr::v4(127, 0, 0, 1, 1080);
    let listener = net.tcp_bind(socks).unwrap();
    let mut in_flight = net.tcp_connect(socks).unwrap();
    let (served, peer) = net.accept(&listener).unwrap();
    let mut ctx = rabbit_digger_pro::server::connection_context(peer);
    assert_eq!(ctx.check(), Ok(()));

    // A configuration without the server arrives: the topology is torn down.
    let next = controller.step(Outcome::Config(Config::new()));
    assert!(next.tear_down);
    assert!(matches!(next.action, Action::Build(_)));
    assert_eq!(controller.lock().state(), "Idle");
    ctx.cancel();
    net.drop_listener(listener);
    net.drop_stream(served);

    assert_eq!(ctx.check(), Err(Error::AbortedByUser));
    assert_eq!(net.tcp_connect(socks).err(), Some(Error::ConnectionRefused));
    let mut buf = [0u8; 4];
    assert_eq!(net.read(&mut in_flight, &mut buf), Ok(0));
    assert_eq!(net.write(&in_flight, b"late"), Err(Error::BrokenPipe));
    assert!(matches!(controller.step(Outcome::Built(running())).action, Action::Serve));
    assert_eq!(controller.lock().state(), "Running");
}
