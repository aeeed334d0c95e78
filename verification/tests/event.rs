use rabbit_digger_pro::address::{Address, SocketAddr};
use rabbit_digger_pro::controller::{
    Action, Controller, ControllerNet, Outcome, Phase, Running, FIRST_CONFIG_TIMEOUT_MS,
};
use rabbit_digger_pro::event::{
    copy_batch, Batcher, Broadcast, Event, EventType, RecvError, BATCH_SIZE, BATCH_WINDOW_MS,
    SUBSCRIBER_BACKLOG,
};
use rabbit_digger_pro::context::Context;
use rabbit_digger_pro::error::Error;
use rabbit_digger_pro::net::{resolve_local, Net, VirtualNet};
use rabbit_digger_pro::registry::{get_registry_schema, Registry};
use rabbit_digger_pro::topology;
use rabbit_digger_pro::topology::Config;
use std::sync::Arc;

fn ev(n: u64) -> Event {
    Event::new(n, EventType::Inbound(n))
}

fn batch_of(ids: &[u64]) -> Vec<Arc<Event>> {
    ids.iter().map(|n| Arc::new(ev(*n))).collect()
}

fn ids(batch: &[Arc<Event>]) -> Vec<u64> {
    batch.iter().map(|e| e.uuid).collect()
}

#[test]
fn batch_goes_out_when_full() {
    assert_eq!(BATCH_SIZE, 16);
    assert_eq!(BATCH_WINDOW_MS, 100);
    let mut b = Batcher::new();
    for n in 0..15 {
        assert!(b.push(ev(n)).is_none());
    }
    assert_eq!(b.len(), 15);
    let out = b.push(ev(15)).unwrap();
    assert_eq!(ids(&out), (0..16).collect::<Vec<u64>>());
    assert_eq!(b.len(), 0);
    assert!(b.push(ev(16)).is_none());
    assert_eq!(ids(&b.flush().unwrap()), vec![16]);
}

#[test]
fn flush_hands_out_what_waits() {
    let mut b = Batcher::new();
    assert!(b.flush().is_none());
    b.push(ev(1));
    b.push(ev(2));
    assert_eq!(ids(&b.flush().unwrap()), vec![1, 2]);
    assert!(b.flush().is_none());
}

#[test]
fn copy_shares_the_events() {
    let batch = batch_of(&[4, 5]);
    let copy = copy_batch(&batch);
    assert_eq!(copy, batch);
    assert!(Arc::ptr_eq(&copy[0], &batch[0]));
    assert!(Arc::ptr_eq(&copy[1], &batch[1]));
}

#[test]
fn subscriber_history_begins_at_subscription() {
    let mut plane = Broadcast::new(4);
    plane.publish(batch_of(&[1]));
    let a = plane.subscribe();
    assert_eq!(plane.recv(&a), Err(RecvError::Empty));
    plane.publish(batch_of(&[2, 3]));
    let b = plane.subscribe();
    plane.publish(batch_of(&[4]));
    assert_eq!(plane.recv(&a).map(|x| ids(&x)), Ok(vec![2, 3]));
    assert_eq!(plane.recv(&a).map(|x| ids(&x)), Ok(vec![4]));
    assert_eq!(plane.recv(&a), Err(RecvError::Empty));
    assert_eq!(plane.recv(&b).map(|x| ids(&x)), Ok(vec![4]));
    assert_eq!(plane.recv(&b), Err(RecvError::Empty));
    assert_eq!(a.id(), 0);
    assert_eq!(b.id(), 1);
}

#[test]
fn slow_subscriber_is_dropped_alone() {
    let mut plane = Broadcast::new(2);
    let frozen = plane.subscribe();
    let lively = plane.subscribe();
    for n in 0..5 {
        plane.publish(batch_of(&[n]));
        assert_eq!(plane.recv(&lively).map(|x| ids(&x)), Ok(vec![n]));
    }
    assert_eq!(plane.recv(&frozen), Err(RecvError::Closed));
    assert_eq!(plane.receiver_count(), 1);
    plane.unsubscribe(lively);
    assert_eq!(plane.receiver_count(), 0);
    // The publisher goes on without anybody.
    plane.publish(batch_of(&[9]));
}

#[test]
fn full_queue_is_still_delivered() {
    let mut plane = Broadcast::new(2);
    let r = plane.subscribe();
    plane.publish(batch_of(&[1]));
    plane.publish(batch_of(&[2]));
    assert_eq!(plane.recv(&r).map(|x| ids(&x)), Ok(vec![1]));
    plane.publish(batch_of(&[3]));
    assert_eq!(plane.recv(&r).map(|x| ids(&x)), Ok(vec![2]));
    assert_eq!(plane.recv(&r).map(|x| ids(&x)), Ok(vec![3]));
}

#[test]
fn unknown_receiver_is_closed() {
    let mut one = Broadcast::new(2);
    let mut other = Broadcast::new(2);
    let r = one.subscribe();
    assert_eq!(other.recv(&r), Err(RecvError::Closed));
    other.unsubscribe(r);
}

fn running(name: &str) -> Running {
    let mut registry = Registry::new();
    registry.add_net("local".to_string(), "{}".to_string());
    let mut config = Config::new();
    config.net.push(topology::Net {
        name: name.to_string(),
        net_type: "local".to_string(),
        inner: vec![],
        opt: "{}".to_string(),
    });
    Running::new(config, get_registry_schema(&registry))
}

#[test]
fn controller_starts_idle() {
    let c = Controller::new();
    assert_eq!(c.lock().state(), "Idle");
    assert_eq!(c.lock().phase(), Phase::Starting);
    assert!(c.lock().config().is_none());
    assert!(c.lock().registry().is_none());
    assert_eq!(FIRST_CONFIG_TIMEOUT_MS, 1000);
    assert_eq!(SUBSCRIBER_BACKLOG, 16);
}

#[test]
fn empty_stream_cannot_start() {
    for outcome in [Outcome::StreamEnded, Outcome::TimedOut] {
        let mut c = Controller::new();
        match c.step(outcome).action {
            Action::Finish(Err(m)) => assert_eq!(m, "The config_stream is empty, can not start."),
            other => panic!("{:?}", other),
        }
        assert_eq!(c.lock().phase(), Phase::Finished);
    }
    let mut c = Controller::new();
    match c.step(Outcome::StreamError("boom".to_string())).action {
        Action::Finish(Err(m)) => assert_eq!(m, "Failed to get first config.: boom"),
        other => panic!("{:?}", other),
    }
}

#[test]
fn reload_replaces_the_topology() {
    let mut c = Controller::new();
    let first = running("one").config().clone();
    match c.run(first.clone()).action {
        Action::Build(cfg) => assert_eq!(cfg, first),
        other => panic!("{:?}", other),
    }
    assert_eq!(c.lock().phase(), Phase::Building);
    assert_eq!(c.lock().state(), "Idle");
    assert!(matches!(c.step(Outcome::Built(running("one"))).action, Action::Serve));
    assert_eq!(c.lock().state(), "Running");
    assert_eq!(c.lock().config(), Some(&first));
    assert_eq!(c.lock().registry().unwrap().net().len(), 1);
    assert!(c.lock().registry().unwrap().net().contains("local"));
    assert_eq!(c.lock().registry().unwrap().server().len(), 0);

    // A new configuration arrives while the servers run.
    let second = running("two").config().clone();
    let next = c.step(Outcome::Config(second.clone()));
    assert!(next.tear_down);
    match next.action {
        Action::Build(cfg) => assert_eq!(cfg, second),
        other => panic!("{:?}", other),
    }
    assert_eq!(c.lock().state(), "Idle");
    assert!(c.lock().config().is_none());
    assert!(matches!(c.step(Outcome::Built(running("two"))).action, Action::Serve));
    assert_eq!(c.lock().config(), Some(&second));

    // The servers stop by themselves, with an error: the next configuration is awaited.
    let next = c.step(Outcome::Served(Err("died".to_string())));
    assert!(next.tear_down);
    assert!(matches!(next.action, Action::AwaitConfig));
    assert_eq!(c.lock().state(), "Idle");
    assert_eq!(c.lock().phase(), Phase::Waiting);
    let next = c.step(Outcome::Config(first));
    assert!(!next.tear_down);
    assert!(matches!(next.action, Action::Build(_)));
    assert!(matches!(c.step(Outcome::Built(running("one"))).action, Action::Serve));

    // The stream ends: the loop returns.
    let next = c.step(Outcome::StreamEnded);
    assert!(next.tear_down);
    assert!(matches!(next.action, Action::Finish(Ok(()))));
    assert_eq!(c.lock().state(), "Idle");
    assert_eq!(c.lock().phase(), Phase::Finished);
}

#[test]
fn build_and_stream_errors_end_the_loop() {
    let mut c = Controller::new();
    c.run(Config::new());
    match c.step(Outcome::BuildFailed("unknown type".to_string())).action {
        Action::Finish(Err(m)) => assert_eq!(m, "unknown type"),
        other => panic!("{:?}", other),
    }

    let mut c = Controller::new();
    c.run(Config::new());
    c.step(Outcome::Built(running("one")));
    match c.step(Outcome::StreamError("bad yaml".to_string())).action {
        Action::Finish(Err(m)) => assert_eq!(m, "bad yaml"),
        other => panic!("{:?}", other),
    }
    assert_eq!(c.lock().state(), "Idle");

    let mut c = Controller::new();
    c.run(Config::new());
    c.step(Outcome::Built(running("one")));
    c.step(Outcome::Served(Ok(())));
    assert!(matches!(c.step(Outcome::StreamEnded).action, Action::Finish(Ok(()))));
}

#[test]
fn outcome_out_of_turn_ends_the_loop() {
    let mut c = Controller::new();
    match c.step(Outcome::Served(Ok(()))).action {
        Action::Finish(Err(m)) => assert_eq!(m, "Unexpected outcome."),
        other => panic!("{:?}", other),
    }
    assert_eq!(c.lock().phase(), Phase::Finished);
    assert!(matches!(c.step(Outcome::Config(Config::new())).action, Action::Finish(Err(_))));
}

#[test]
fn controller_publishes_batches() {
    let mut c = Controller::new();
    let sub = c.get_subscriber();
    for n in 0..15 {
        c.send(ev(n));
    }
    assert_eq!(c.recv(&sub), Err(RecvError::Empty));
    c.send(ev(15));
    assert_eq!(c.recv(&sub).map(|b| ids(&b)), Ok((0..16).collect::<Vec<u64>>()));
    c.send(ev(16));
    assert_eq!(c.recv(&sub), Err(RecvError::Empty));
    c.process();
    assert_eq!(c.recv(&sub).map(|b| ids(&b)), Ok(vec![16]));
    c.process();
    assert_eq!(c.recv(&sub), Err(RecvError::Empty));
}

#[test]
fn producer_goes_on_under_a_frozen_subscriber() {
    let mut c = Controller::new();
    let frozen = c.get_subscriber();
    for n in 0..(16 * 17 + 3) {
        c.send(ev(n));
    }
    c.process();
    assert_eq!(c.recv(&frozen), Err(RecvError::Closed));
    let late = c.get_subscriber();
    c.send(ev(7));
    c.process();
    assert_eq!(c.recv(&late).map(|b| ids(&b)), Ok(vec![7]));
}

#[test]
fn instrumented_net_reports_connections() {
    let c = Controller::new();
    let mut net: ControllerNet<VirtualNet> = c.get_net(VirtualNet::new());
    let mut ctx = Context::new();
    let addr = Address::SocketAddr(SocketAddr::v4(127, 0, 0, 1, 443));

    // Nothing listens: the failure is passed on and nothing is reported.
    assert_eq!(net.tcp_connect(&mut ctx, &addr).err(), Some(Error::ConnectionRefused));
    assert!(net.take_events().is_empty());

    let listener = net.tcp_bind(&mut ctx, &addr).unwrap();
    assert_eq!(listener.local_addr(), Ok(SocketAddr::v4(127, 0, 0, 1, 443)));
    let first = net.tcp_connect(&mut ctx, &addr).unwrap();
    let second = net
        .tcp_connect(&mut ctx, &Address::Domain("localhost".to_string(), 443))
        .unwrap();
    assert_eq!((first.uuid, second.uuid), (0, 1));
    assert_eq!(first.stream.peer_addr(), Ok(SocketAddr::v4(127, 0, 0, 1, 443)));
    assert_eq!(net.net.host.write(&first.stream, b"abc"), Ok(3));
    net.outbound(first.uuid, 3);
    net.outbound(first.uuid, 0);
    net.inbound(second.uuid, 10);
    net.inbound(second.uuid, 0);
    net.closed(first.uuid);
    assert_eq!(
        net.take_events(),
        vec![
            Event { uuid: 0, event_type: EventType::NewTcp(addr.clone()) },
            Event {
                uuid: 1,
                event_type: EventType::NewTcp(Address::Domain("localhost".to_string(), 443))
            },
            Event { uuid: 0, event_type: EventType::Outbound(3) },
            Event { uuid: 1, event_type: EventType::Inbound(10) },
            Event { uuid: 0, event_type: EventType::CloseConnection },
        ]
    );
    assert!(net.take_events().is_empty());
    assert!(net.udp_bind(&mut ctx, &addr).is_ok());
}

#[test]
fn cancelled_context_aborts_every_net_call() {
    let mut net = ControllerNet::new(VirtualNet::new());
    let addr = Address::SocketAddr(SocketAddr::v4(127, 0, 0, 1, 80));
    let mut ctx = Context::from_socketaddr(SocketAddr::v4(127, 0, 0, 1, 9));
    let _listener = net.tcp_bind(&mut ctx, &addr).unwrap();
    ctx.cancel();
    assert_eq!(net.tcp_connect(&mut ctx, &addr).err(), Some(Error::AbortedByUser));
    assert_eq!(net.tcp_bind(&mut ctx, &addr).err(), Some(Error::AbortedByUser));
    assert_eq!(net.udp_bind(&mut ctx, &addr).err(), Some(Error::AbortedByUser));
    assert!(net.take_events().is_empty());
    assert!(ctx.is_cancelled());
    assert_eq!(ctx.source(), Some(SocketAddr::v4(127, 0, 0, 1, 9)));
    // The inner net alone behaves the same.
    let mut inner = VirtualNet::new();
    assert_eq!(inner.tcp_bind(&mut ctx, &addr).err(), Some(Error::AbortedByUser));
    assert!(inner.host.tcp_bind(SocketAddr::v4(127, 0, 0, 1, 80)).is_ok());
}

#[test]
fn names_do_not_resolve_on_the_fabric() {
    let mut net = VirtualNet::new();
    let mut ctx = Context::new();
    let name = Address::Domain("example.com".to_string(), 80);
    assert_eq!(net.tcp_bind(&mut ctx, &name).err(), Some(Error::AddrNotAvailable));
    assert_eq!(net.tcp_connect(&mut ctx, &name).err(), Some(Error::AddrNotAvailable));
    assert_eq!(net.udp_bind(&mut ctx, &name).err(), Some(Error::AddrNotAvailable));
    assert_eq!(resolve_local(&name), None);
    assert_eq!(
        resolve_local(&Address::Domain("localhost".to_string(), 7)),
        Some(SocketAddr::v4(127, 0, 0, 1, 7))
    );
    let local = Address::Domain("localhost".to_string(), 80);
    let l = net.tcp_bind(&mut ctx, &local).unwrap();
    assert_eq!(l.local_addr(), Ok(SocketAddr::v4(127, 0, 0, 1, 80)));
}
