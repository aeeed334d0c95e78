use rabbit_digger_pro::registry::Registry;
use rabbit_digger_pro::topology::{build_order, Config, ConfigError, Net, Server};

fn net(name: &str, kind: &str, inner: &[&str]) -> Net {
    Net {
        name: name.to_string(),
        net_type: kind.to_string(),
        inner: inner.iter().map(|s| s.to_string()).collect(),
        opt: "{}".to_string(),
    }
}

fn server(name: &str, kind: &str, listen: &str, out: &str) -> Server {
    Server {
        name: name.to_string(),
        server_type: kind.to_string(),
        listen: listen.to_string(),
        net: out.to_string(),
        opt: "{}".to_string(),
    }
}

fn registry() -> Registry {
    let mut r = Registry::new();
    r.add_net("local".to_string(), "{}".to_string());
    r.add_net("socks5".to_string(), "{}".to_string());
    r.add_server("forward".to_string(), "{}".to_string());
    r
}

fn check_order(deps: &Vec<Vec<usize>>, order: &[usize]) {
    assert_eq!(order.len(), deps.len());
    for (p, node) in order.iter().enumerate() {
        assert!(!order[..p].contains(node));
        for d in &deps[*node] {
            assert!(order[..p].contains(d), "{} before {}", d, node);
        }
    }
}

#[test]
fn leaves_are_built_first() {
    let deps = vec![vec![1, 2], vec![2], vec![], vec![0]];
    let order = build_order(&deps).unwrap();
    assert_eq!(order, vec![2, 1, 0, 3]);
    check_order(&deps, &order);
    assert_eq!(build_order(&vec![]), Some(vec![]));
    assert_eq!(build_order(&vec![vec![], vec![], vec![]]), Some(vec![0, 1, 2]));
}

#[test]
fn cycles_have_no_order() {
    assert_eq!(build_order(&vec![vec![0]]), None);
    assert_eq!(build_order(&vec![vec![1], vec![0]]), None);
    assert_eq!(build_order(&vec![vec![], vec![2], vec![3], vec![1]]), None);
    // A net that is named twice by the same net is no cycle.
    assert_eq!(build_order(&vec![vec![1, 1], vec![]]), Some(vec![1, 0]));
}

#[test]
fn document_is_built_in_dependency_order() {
    let mut config = Config::new();
    config.net.push(net("proxy", "socks5", &["direct"]));
    config.net.push(net("direct", "local", &[]));
    config.net.push(net("chain", "socks5", &["proxy"]));
    config.server.push(server("in", "forward", "direct", "chain"));
    assert_eq!(config.build_order(&registry()), Ok(vec![1, 0, 2]));
}

#[test]
fn duplicate_names_are_rejected() {
    let mut config = Config::new();
    config.net.push(net("a", "local", &[]));
    config.net.push(net("a", "local", &[]));
    assert_eq!(config.build_order(&registry()), Err(ConfigError::DuplicateName));
    let mut config = Config::new();
    config.net.push(net("a", "local", &[]));
    config.server.push(server("s", "forward", "a", "a"));
    config.server.push(server("s", "forward", "a", "a"));
    assert_eq!(config.build_order(&registry()), Err(ConfigError::DuplicateName));
    // A net and a server may share a name.
    let mut config = Config::new();
    config.net.push(net("a", "local", &[]));
    config.server.push(server("a", "forward", "a", "a"));
    assert_eq!(config.build_order(&registry()), Ok(vec![0]));
}

#[test]
fn unknown_types_are_rejected() {
    let mut config = Config::new();
    config.net.push(net("a", "trojan", &[]));
    assert_eq!(config.build_order(&registry()), Err(ConfigError::UnknownType));
    let mut config = Config::new();
    config.net.push(net("a", "local", &[]));
    config.server.push(server("s", "socks5", "a", "a"));
    assert_eq!(config.build_order(&registry()), Err(ConfigError::UnknownType));
}

#[test]
fn dangling_references_are_rejected() {
    let mut config = Config::new();
    config.net.push(net("a", "socks5", &["b"]));
    assert_eq!(config.build_order(&registry()), Err(ConfigError::UnknownNet));
    let mut config = Config::new();
    config.net.push(net("a", "local", &[]));
    config.server.push(server("s", "forward", "a", "gone"));
    assert_eq!(config.build_order(&registry()), Err(ConfigError::UnknownNet));
    let mut config = Config::new();
    config.net.push(net("a", "local", &[]));
    config.server.push(server("s", "forward", "gone", "a"));
    assert_eq!(config.build_order(&registry()), Err(ConfigError::UnknownNet));
}

#[test]
fn circles_are_rejected() {
    let mut config = Config::new();
    config.net.push(net("a", "socks5", &["b"]));
    config.net.push(net("b", "socks5", &["c"]));
    config.net.push(net("c", "socks5", &["a"]));
    config.net.push(net("d", "local", &[]));
    assert_eq!(config.build_order(&registry()), Err(ConfigError::Cycle));
    let mut config = Config::new();
    config.net.push(net("self", "socks5", &["self"]));
    assert_eq!(config.build_order(&registry()), Err(ConfigError::Cycle));
}

#[test]
fn errors_come_in_order_of_checks() {
    // Duplicate name and unknown type and dangling reference: the name is reported.
    let mut config = Config::new();
    config.net.push(net("a", "nope", &["gone"]));
    config.net.push(net("a", "local", &[]));
    assert_eq!(config.build_order(&registry()), Err(ConfigError::DuplicateName));
    let mut config = Config::new();
    config.net.push(net("a", "nope", &["gone"]));
    assert_eq!(config.build_order(&registry()), Err(ConfigError::UnknownType));
}
