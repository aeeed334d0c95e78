use rabbit_digger_pro::address::{Address, SocketAddr};
use rabbit_digger_pro::error::Error;
use rabbit_digger_pro::remote::{
    accepted, bound, deframe, frame, process_channel, CommandRequest, CommandResponse,
    RemoteServer, Step, StreamMap, FRAME_HEADER, ID_STEP,
};

#[test]
fn ids_step_by_ten() {
    assert_eq!(ID_STEP, 10);
    let mut map = StreamMap::new();
    assert_eq!(map.insert(100), 0);
    assert_eq!(map.insert(200), 10);
    assert_eq!(map.insert(300), 20);
    assert_eq!(map.get(10), Some(200));
    assert_eq!(map.get(0), Some(100));
    assert_eq!(map.get(20), Some(300));
    assert_eq!(map.insert(400), 30);
}

#[test]
fn id_is_good_for_one_claim() {
    let mut map = StreamMap::new();
    let id = map.insert(77);
    assert_eq!(map.get(id), Some(77));
    assert_eq!(map.get(id), None);
    assert_eq!(map.get(5), None);
}

#[test]
fn requests_lead_to_their_steps() {
    let mut map = StreamMap::new();
    let address = Address::Domain("example.com".to_string(), 80);
    assert_eq!(
        process_channel(CommandRequest::TcpConnect { address: address.clone() }, &mut map),
        Step::Connect(address.clone())
    );
    assert_eq!(
        process_channel(CommandRequest::TcpBind { address: address.clone() }, &mut map),
        Step::Bind(address)
    );
    assert_eq!(
        process_channel(CommandRequest::TcpAccept { id: 0 }, &mut map),
        Step::Fail(Error::Other("ID is not found".to_string()))
    );
}

#[test]
fn remote_tunnel_bind_accept() {
    let mut server = RemoteServer::new();
    let any = Address::SocketAddr(SocketAddr::v4(127, 0, 0, 1, 0));
    assert_eq!(server.start(CommandRequest::TcpBind { address: any.clone() }), Step::Bind(any));
    let local = SocketAddr::v4(127, 0, 0, 1, 1);
    assert_eq!(bound(local), CommandResponse::BindAddr { addr: local });

    let peer = SocketAddr::v4(127, 0, 0, 1, 2);
    let response = server.accepted(4711, peer);
    assert_eq!(response, CommandResponse::Accept { id: 0, addr: peer });
    let second = server.accepted(4712, SocketAddr::v4(127, 0, 0, 1, 3));
    assert_eq!(
        second,
        CommandResponse::Accept { id: 10, addr: SocketAddr::v4(127, 0, 0, 1, 3) }
    );

    assert_eq!(server.start(CommandRequest::TcpAccept { id: 0 }), Step::Splice(4711));
    assert_eq!(
        server.start(CommandRequest::TcpAccept { id: 0 }),
        Step::Fail(Error::Other("ID is not found".to_string()))
    );
    assert_eq!(server.start(CommandRequest::TcpAccept { id: 10 }), Step::Splice(4712));
}

#[test]
fn accepted_files_the_stream() {
    let mut map = StreamMap::new();
    let addr = SocketAddr::v4(127, 0, 0, 1, 9);
    assert_eq!(accepted(&mut map, 1, addr), CommandResponse::Accept { id: 0, addr });
    assert_eq!(accepted(&mut map, 1, addr), CommandResponse::Accept { id: 10, addr });
    assert_eq!(map.get(10), Some(1));
    assert_eq!(map.get(0), Some(1));
}

#[test]
fn frames_carry_their_length() {
    assert_eq!(FRAME_HEADER, 4);
    assert_eq!(frame(b""), Ok(vec![0, 0, 0, 0]));
    assert_eq!(frame(b"abc"), Ok(vec![0, 0, 0, 3, b'a', b'b', b'c']));
    let long = vec![7u8; 0x0102_03];
    let framed = frame(&long).unwrap();
    assert_eq!(&framed[..4], &[0, 1, 2, 3]);
    assert_eq!(framed.len(), 4 + long.len());
    assert_eq!(&framed[4..], &long[..]);
}

#[test]
fn deframe_waits_for_the_whole_message() {
    assert_eq!(deframe(b""), None);
    assert_eq!(deframe(&[0, 0, 0]), None);
    assert_eq!(deframe(&[0, 0, 0, 0]), Some((4, 4)));
    assert_eq!(deframe(&[0, 0, 0, 2, 9]), None);
    assert_eq!(deframe(&[0, 0, 0, 2, 9, 8]), Some((4, 6)));
    assert_eq!(deframe(&[0, 0, 0, 2, 9, 8, 0, 0]), Some((4, 6)));
    assert_eq!(deframe(&[255, 255, 255, 255, 1]), None);
    assert_eq!(deframe(&[0, 0, 1, 0, 1]), None);
}

#[test]
fn frames_follow_each_other() {
    let mut wire = frame(b"first").unwrap();
    wire.extend(frame(b"").unwrap());
    wire.extend(frame(b"third!").unwrap());
    let mut messages: Vec<Vec<u8>> = Vec::new();
    let mut rest = &wire[..];
    while let Some((start, end)) = deframe(rest) {
        messages.push(rest[start..end].to_vec());
        rest = &rest[end..];
    }
    assert!(rest.is_empty());
    assert_eq!(messages, vec![b"first".to_vec(), b"".to_vec(), b"third!".to_vec()]);
}
