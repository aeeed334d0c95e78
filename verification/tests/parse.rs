use rabbit_digger_pro::address::{Address, IpAddr, SocketAddr};
use rabbit_digger_pro::error::Error;
use rabbit_digger_pro::parse::{read_address, read_socket_addr};

fn v6(a: [u16; 8], port: u16) -> Address {
    Address::SocketAddr(SocketAddr::new(
        IpAddr::V6(a[0], a[1], a[2], a[3], a[4], a[5], a[6], a[7]),
        port,
    ))
}

#[test]
fn ipv4_literals() {
    assert_eq!(
        Address::parse("127.0.0.1:1234"),
        Ok(Address::SocketAddr(SocketAddr::v4(127, 0, 0, 1, 1234)))
    );
    assert_eq!(
        Address::parse("0.0.0.0:0"),
        Ok(Address::SocketAddr(SocketAddr::v4(0, 0, 0, 0, 0)))
    );
    assert_eq!(
        Address::parse("255.255.255.255:65535"),
        Ok(Address::SocketAddr(SocketAddr::v4(255, 255, 255, 255, 65535)))
    );
    assert_eq!(SocketAddr::parse("8.8.8.8:53"), Some(SocketAddr::v4(8, 8, 8, 8, 53)));
    assert_eq!(SocketAddr::parse("8.8.8.8:00053"), Some(SocketAddr::v4(8, 8, 8, 8, 53)));
}

#[test]
fn ipv6_literals() {
    assert_eq!(Address::parse("[::1]:80"), Ok(v6([0, 0, 0, 0, 0, 0, 0, 1], 80)));
    assert_eq!(Address::parse("[::]:0"), Ok(v6([0; 8], 0)));
    assert_eq!(
        Address::parse("[2001:db8::ff00:42:8329]:443"),
        Ok(v6([0x2001, 0xdb8, 0, 0, 0, 0xff00, 0x42, 0x8329], 443))
    );
    assert_eq!(
        Address::parse("[1:2:3:4:5:6:7:8]:9"),
        Ok(v6([1, 2, 3, 4, 5, 6, 7, 8], 9))
    );
    assert_eq!(Address::parse("[fe80::]:1"), Ok(v6([0xfe80, 0, 0, 0, 0, 0, 0, 0], 1)));
    assert_eq!(Address::parse("[1::8]:1"), Ok(v6([1, 0, 0, 0, 0, 0, 0, 8], 1)));
    assert_eq!(
        Address::parse("[ABCD:ef01::]:1"),
        Ok(v6([0xabcd, 0xef01, 0, 0, 0, 0, 0, 0], 1))
    );
    assert_eq!(
        Address::parse("[1:2:3:4:5:6:7::]:1"),
        Ok(v6([1, 2, 3, 4, 5, 6, 7, 0], 1))
    );
    assert_eq!(
        Address::parse("[::2:3:4:5:6:7:8]:1"),
        Ok(v6([0, 2, 3, 4, 5, 6, 7, 8], 1))
    );
}

#[test]
fn domains() {
    assert_eq!(
        Address::parse("example.com:443"),
        Ok(Address::Domain("example.com".to_string(), 443))
    );
    assert_eq!(
        Address::parse("localhost:8080"),
        Ok(Address::Domain("localhost".to_string(), 8080))
    );
    assert_eq!(
        Address::parse("my-host_1.internal:1"),
        Ok(Address::Domain("my-host_1.internal".to_string(), 1))
    );
    // What does not read as an IPv4 literal is a name.
    assert_eq!(
        Address::parse("256.1.1.1:1"),
        Ok(Address::Domain("256.1.1.1".to_string(), 1))
    );
    assert_eq!(Address::parse("01.2.3.4:1"), Ok(Address::Domain("01.2.3.4".to_string(), 1)));
    assert_eq!(Address::parse("1.2.3:1"), Ok(Address::Domain("1.2.3".to_string(), 1)));
    assert_eq!(SocketAddr::parse("example.com:443"), None);
    assert_eq!(read_socket_addr("1.2.3:1"), None);
}

#[test]
fn what_is_no_address() {
    for s in [
        "",
        ":",
        ":80",
        "example.com",
        "example.com:",
        "example.com:port",
        "example.com:65536",
        "example.com:123456",
        "example.com:-1",
        "example.com:+1",
        ".example.com:1",
        "example.com.:1",
        "example..com:1",
        "exa mple.com:1",
        "ex\u{e4}mple.com:1",
        "[::1]",
        "[::1:80",
        "::1:80",
        "[:1]:80",
        "[1:]:80",
        "[:::]:80",
        "[1:::2]:80",
        "[1::2::3]:80",
        "[1:2:3:4:5:6:7]:80",
        "[1:2:3:4:5:6:7:8:9]:80",
        "[1:2:3:4:5:6:7:8::]:80",
        "[12345::]:80",
        "[g::]:80",
        "[::ffff:1.2.3.4]:80",
        "[]:80",
        "1.2.3.4.5:x",
    ] {
        assert_eq!(read_address(s), Err(Error::AddrNotAvailable), "{:?}", s);
    }
}

#[test]
fn from_str_reads_addresses() {
    let a: SocketAddr = "10.1.2.3:4".parse().unwrap();
    assert_eq!(a, SocketAddr::v4(10, 1, 2, 3, 4));
    assert_eq!("example.com:80".parse::<SocketAddr>(), Err(Error::AddrNotAvailable));
    assert_eq!(
        "example.com:80".parse::<Address>(),
        Ok(Address::Domain("example.com".to_string(), 80))
    );
    assert_eq!("nonsense".parse::<Address>(), Err(Error::AddrNotAvailable));
}
