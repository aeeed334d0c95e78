use rabbit_digger_pro::address::SocketAddr;
use rabbit_digger_pro::error::Error;
use rabbit_digger_pro::virtual_host::{Shutdown, TcpStream, VirtualHost};

fn read_to_end<PR>(vh: &mut VirtualHost<PR>, stream: &mut TcpStream) -> Vec<u8> {
    let mut out = Vec::new();
    let mut buf = [0u8; 3];
    loop {
        let n = vh.read(stream, &mut buf).unwrap();
        if n == 0 {
            return out;
        }
        out.extend_from_slice(&buf[..n]);
    }
}

#[test]
fn test_tcp() {
    let mut vh = VirtualHost::with_pr(());
    let addr = "127.0.0.1:1234".parse().unwrap();
    let listener = vh.tcp_bind(addr).unwrap();

    let mut client = vh.tcp_connect(addr).unwrap();
    assert_eq!(vh.write(&client, b"hello"), Ok(5));
    vh.close(&mut client).unwrap();

    let (mut server, _) = vh.accept(&listener).unwrap();
    let request = read_to_end(&mut vh, &mut server);
    assert_eq!(vh.write(&server, &request), Ok(request.len()));
    vh.close(&mut server).unwrap();

    let buf = read_to_end(&mut vh, &mut client);
    println!("{:?}", buf);
    assert_eq!(buf, b"hello");
    let mut rest = [0u8; 4];
    assert_eq!(vh.read(&mut client, &mut rest), Ok(0));
}

#[test]
fn test_tcp_listener_local_addr() {
    let mut vh = VirtualHost::new();
    let addr = "127.0.0.1:12345".parse().unwrap();
    let socket = vh.tcp_bind(addr).unwrap();

    assert_eq!(socket.local_addr().unwrap(), addr);

    let mut vh = VirtualHost::new();
    let socket = vh.tcp_bind("0.0.0.0:0".parse().unwrap()).unwrap();
    assert_eq!(
        socket.local_addr().unwrap(),
        "127.0.0.1:1".parse().unwrap()
    );
}

#[test]
fn test_tcp_stream_addr() {
    let mut vh = VirtualHost::new();
    let addr = "127.0.0.1:12345".parse().unwrap();
    let server = vh.tcp_bind(addr).unwrap();

    let socket = vh.tcp_connect(addr).unwrap();
    let (accepted, accepted_addr) = vh.accept(&server).unwrap();

    assert_eq!(socket.peer_addr().unwrap(), addr);
    assert_eq!(
        socket.local_addr().unwrap(),
        "127.0.0.1:1".parse().unwrap()
    );

    assert_eq!(accepted.local_addr().unwrap(), addr);
    assert_eq!(
        accepted.peer_addr().unwrap(),
        "127.0.0.1:1".parse().unwrap()
    );
    assert_eq!(accepted_addr, "127.0.0.1:1".parse().unwrap())
}

#[test]
fn bind_rejects_foreign_address() {
    let mut vh = VirtualHost::new();
    let r = vh.tcp_bind("8.8.8.8:53".parse().unwrap());
    assert_eq!(r.err(), Some(Error::AddrNotAvailable));
    let r = vh.udp_bind(SocketAddr::v4(8, 8, 8, 8, 53));
    assert_eq!(r.err(), Some(Error::AddrNotAvailable));
    let r = vh.tcp_connect(SocketAddr::v4(8, 8, 8, 8, 53));
    assert_eq!(r.err(), Some(Error::AddrNotAvailable));
}

#[test]
fn bind_twice_is_in_use() {
    let mut vh = VirtualHost::new();
    let addr = SocketAddr::v4(127, 0, 0, 1, 80);
    let _l = vh.tcp_bind(addr).unwrap();
    assert_eq!(vh.tcp_bind(addr).err(), Some(Error::AddrInUse));
    // UDP ports are a table of their own.
    let s = vh.udp_bind(addr).unwrap();
    assert_eq!(s.local_addr(), Ok(addr));
    assert_eq!(vh.udp_bind(addr).err(), Some(Error::AddrInUse));
}

#[test]
fn rebind_after_drop() {
    let mut vh = VirtualHost::new();
    let addr = SocketAddr::v4(127, 0, 0, 1, 4000);
    let l = vh.tcp_bind(addr).unwrap();
    vh.drop_listener(l);
    let l = vh.tcp_bind(addr).unwrap();
    assert_eq!(l.local_addr(), Ok(addr));
    assert_eq!(vh.tcp_connect(addr).map(|s| s.peer_addr()), Ok(Ok(addr)));
}

#[test]
fn connect_without_listener_is_refused() {
    let mut vh = VirtualHost::new();
    let addr = SocketAddr::v4(127, 0, 0, 1, 1080);
    assert_eq!(vh.tcp_connect(addr).err(), Some(Error::ConnectionRefused));
    // A datagram socket on the port does not listen for streams.
    let _s = vh.udp_bind(addr).unwrap();
    assert_eq!(vh.tcp_connect(addr).err(), Some(Error::ConnectionRefused));
    let l = vh.tcp_bind(addr).unwrap();
    assert!(vh.tcp_connect(addr).is_ok());
    vh.drop_listener(l);
    assert_eq!(vh.tcp_connect(addr).err(), Some(Error::ConnectionRefused));
}

#[test]
fn ports_are_handed_out_upwards() {
    let mut vh = VirtualHost::new();
    let any = SocketAddr::v4(0, 0, 0, 0, 0);
    let a = vh.tcp_bind(any).unwrap();
    let b = vh.tcp_bind(any).unwrap();
    assert_eq!(a.local_addr(), Ok(SocketAddr::v4(127, 0, 0, 1, 1)));
    assert_eq!(b.local_addr(), Ok(SocketAddr::v4(127, 0, 0, 1, 2)));
    let _c = vh.tcp_bind(SocketAddr::v4(127, 0, 0, 1, 3)).unwrap();
    let d = vh.tcp_connect(SocketAddr::v4(127, 0, 0, 1, 3)).unwrap();
    assert_eq!(d.local_addr(), Ok(SocketAddr::v4(127, 0, 0, 1, 4)));
    // The hint never moves down: a freed port below it is not handed out.
    vh.drop_listener(a);
    let e = vh.tcp_bind(any).unwrap();
    assert_eq!(e.local_addr(), Ok(SocketAddr::v4(127, 0, 0, 1, 5)));
    // UDP ports are searched among the UDP ports.
    let u = vh.udp_bind(any).unwrap();
    assert_eq!(u.local_addr(), Ok(SocketAddr::v4(127, 0, 0, 1, 5)));
}

#[test]
fn oversized_chunk_is_carried_over() {
    let mut vh = VirtualHost::new();
    let addr = SocketAddr::v4(127, 0, 0, 1, 9);
    let l = vh.tcp_bind(addr).unwrap();
    let client = vh.tcp_connect(addr).unwrap();
    let (mut server, _) = vh.accept(&l).unwrap();
    let mut buf = [0u8; 4];
    assert_eq!(vh.read(&mut server, &mut buf), Err(Error::WouldBlock));
    assert_eq!(vh.write(&client, b"abcdefghij"), Ok(10));
    assert_eq!(vh.write(&client, b"kl"), Ok(2));
    assert_eq!(vh.read(&mut server, &mut buf), Ok(4));
    assert_eq!(&buf, b"abcd");
    assert_eq!(vh.read(&mut server, &mut buf), Ok(4));
    assert_eq!(&buf, b"efgh");
    assert_eq!(vh.read(&mut server, &mut buf), Ok(2));
    assert_eq!(&buf, b"ijgh");
    assert_eq!(vh.read(&mut server, &mut buf), Ok(2));
    assert_eq!(&buf, b"klgh");
    assert_eq!(vh.read(&mut server, &mut buf), Err(Error::WouldBlock));
}

#[test]
fn write_after_shutdown_fails() {
    let mut vh = VirtualHost::new();
    let addr = SocketAddr::v4(127, 0, 0, 1, 7);
    let l = vh.tcp_bind(addr).unwrap();
    let mut client = vh.tcp_connect(addr).unwrap();
    let (mut server, _) = vh.accept(&l).unwrap();
    assert_eq!(vh.write(&client, b"x"), Ok(1));
    assert_eq!(vh.shutdown(&mut client, Shutdown::Write), Ok(()));
    assert_eq!(vh.write(&client, b"y"), Err(Error::BrokenPipe));
    assert_eq!(vh.write(&client, b""), Err(Error::BrokenPipe));
    // The other direction still works.
    assert_eq!(vh.write(&server, b"pong"), Ok(4));
    let mut buf = [0u8; 8];
    assert_eq!(vh.read(&mut client, &mut buf), Ok(4));
    assert_eq!(&buf[..4], b"pong");
    assert_eq!(vh.read(&mut server, &mut buf), Ok(1));
    assert_eq!(vh.read(&mut server, &mut buf), Ok(0));
    // After a shutdown of the reading half the peer can send no more.
    assert_eq!(vh.shutdown(&mut client, Shutdown::Read), Ok(()));
    assert_eq!(vh.write(&server, b"late"), Err(Error::BrokenPipe));
    assert_eq!(vh.read(&mut client, &mut buf), Ok(0));
    assert_eq!(vh.flush(&client), Ok(()));
}

#[test]
fn dropped_listener_aborts_waiting_streams() {
    let mut vh = VirtualHost::new();
    let addr = SocketAddr::v4(127, 0, 0, 1, 21);
    let l = vh.tcp_bind(addr).unwrap();
    let mut waiting = vh.tcp_connect(addr).unwrap();
    assert_eq!(vh.write(&waiting, b"hi"), Ok(2));
    vh.drop_listener(l);
    let mut buf = [0u8; 2];
    assert_eq!(vh.write(&waiting, b"hi"), Err(Error::ConnectionAborted));
    assert_eq!(vh.read(&mut waiting, &mut buf), Err(Error::ConnectionAborted));
    assert_eq!(vh.flush(&waiting), Err(Error::ConnectionAborted));
}

#[test]
fn accept_waits_and_hands_out_in_order() {
    let mut vh = VirtualHost::new();
    let addr = SocketAddr::v4(127, 0, 0, 1, 21);
    let l = vh.tcp_bind(addr).unwrap();
    assert_eq!(vh.accept(&l).err(), Some(Error::WouldBlock));
    let a = vh.tcp_connect(addr).unwrap();
    let b = vh.tcp_connect(addr).unwrap();
    let (_, from_a) = vh.accept(&l).unwrap();
    let (_, from_b) = vh.accept(&l).unwrap();
    assert_eq!(Ok(from_a), a.local_addr());
    assert_eq!(Ok(from_b), b.local_addr());
    assert_ne!(from_a, from_b);
    assert_eq!(vh.accept(&l).err(), Some(Error::WouldBlock));
}

#[test]
fn dropped_stream_frees_its_port() {
    let mut vh = VirtualHost::new();
    let addr = SocketAddr::v4(127, 0, 0, 1, 2);
    let l = vh.tcp_bind(addr).unwrap();
    let a = vh.tcp_connect(addr).unwrap();
    assert_eq!(a.local_addr(), Ok(SocketAddr::v4(127, 0, 0, 1, 1)));
    // The connecting end owns port 1 now.
    assert_eq!(vh.tcp_bind(SocketAddr::v4(127, 0, 0, 1, 1)).err(), Some(Error::AddrInUse));
    let (mut server, _) = vh.accept(&l).unwrap();
    vh.drop_stream(a);
    assert!(vh.tcp_bind(SocketAddr::v4(127, 0, 0, 1, 1)).is_ok());
    let mut buf = [0u8; 2];
    assert_eq!(vh.read(&mut server, &mut buf), Ok(0));
    assert_eq!(vh.write(&server, b"x"), Err(Error::BrokenPipe));
}

#[test]
fn foreign_handles_are_not_connected() {
    let mut one = VirtualHost::new();
    let mut other = VirtualHost::new();
    let addr = SocketAddr::v4(127, 0, 0, 1, 2);
    let l = one.tcp_bind(addr).unwrap();
    let mut s = one.tcp_connect(addr).unwrap();
    let u = one.udp_bind(addr).unwrap();
    let mut buf = [0u8; 2];
    assert_eq!(other.accept(&l).err(), Some(Error::NotConnected));
    assert_eq!(other.write(&s, b"x"), Err(Error::NotConnected));
    assert_eq!(other.read(&mut s, &mut buf), Err(Error::NotConnected));
    assert_eq!(other.flush(&s), Err(Error::NotConnected));
    assert_eq!(other.shutdown(&mut s, Shutdown::Both), Err(Error::NotConnected));
    assert_eq!(other.send_to(&u, b"x", addr), Err(Error::NotConnected));
    assert_eq!(other.recv_from(&u, &mut buf), Err(Error::NotConnected));
}

#[test]
fn datagrams_reach_the_bound_socket() {
    let mut vh = VirtualHost::new();
    let a = vh.udp_bind(SocketAddr::v4(127, 0, 0, 1, 4321)).unwrap();
    let b = vh.udp_bind(SocketAddr::v4(0, 0, 0, 0, 0)).unwrap();
    assert_eq!(b.local_addr(), Ok(SocketAddr::v4(127, 0, 0, 1, 1)));
    let mut buf = [0u8; 4];
    assert_eq!(vh.recv_from(&a, &mut buf), Err(Error::WouldBlock));
    assert_eq!(vh.send_to(&b, b"ping!", SocketAddr::v4(127, 0, 0, 1, 4321)), Ok(5));
    assert_eq!(vh.send_to(&b, b"2", SocketAddr::v4(127, 0, 0, 1, 4321)), Ok(1));
    // The datagram is cut to the buffer and the rest is dropped.
    assert_eq!(vh.recv_from(&a, &mut buf), Ok((4, SocketAddr::v4(127, 0, 0, 1, 1))));
    assert_eq!(&buf, b"ping");
    assert_eq!(vh.recv_from(&a, &mut buf), Ok((1, SocketAddr::v4(127, 0, 0, 1, 1))));
    assert_eq!(&buf, b"2ing");
    assert_eq!(vh.recv_from(&a, &mut buf), Err(Error::WouldBlock));
    // Nobody is bound to port 9: the datagram is lost, the sender is not told.
    assert_eq!(vh.send_to(&b, b"lost", SocketAddr::v4(127, 0, 0, 1, 9)), Ok(4));
    assert_eq!(
        vh.send_to(&b, b"x", SocketAddr::v4(10, 0, 0, 1, 9)),
        Err(Error::AddrNotAvailable)
    );
    vh.drop_socket(a);
    assert_eq!(vh.send_to(&b, b"late", SocketAddr::v4(127, 0, 0, 1, 4321)), Ok(4));
    assert!(vh.udp_bind(SocketAddr::v4(127, 0, 0, 1, 4321)).is_ok());
}

#[test]
fn with_pr_keeps_what_it_was_given() {
    let vh = VirtualHost::with_pr(7u8);
    assert_eq!(vh.pr(), Some(&7u8));
    let vh = VirtualHost::new();
    assert_eq!(vh.pr(), None);
}
