//! The controller: the life of a running topology, and the loop that
//! replaces it when a new configuration arrives.
//!
//! The loop itself waits on futures and belongs to the caller. What is
//! decided here is what the caller does next: each outcome it observes
//! (the first configuration, the end of a build, the end of serving, the
//! next configuration) is handed to [`Controller::step`], which moves the
//! controller on and answers with the action to take.

use crate::address::Address;
use crate::context::Context;
use crate::error::Error;
use crate::event::{
    BatchEvent, Batcher, Broadcast, BroadcastView, Event, EventType, Receiver, RecvError,
    SUBSCRIBER_BACKLOG,
};
use crate::net::Net;
use crate::registry::RegistrySchema;
use crate::topology::Config;
use std::sync::Arc;
use vstd::prelude::*;
use vstd::string::StringExecFns;

verus! {

/// The longest that the loop waits for its first configuration, in
/// milliseconds.
pub const FIRST_CONFIG_TIMEOUT_MS: u64 = 1000;

/// A task of the running topology, by name.
#[derive(Debug)]
pub struct TaskInfo {
    pub name: String,
}

/// What a running topology was built from.
#[derive(Debug)]
pub struct Running {
    config: Config,
    registry: RegistrySchema,
}

impl Running {
    pub fn new(config: Config, registry: RegistrySchema) -> (r: Running)
        ensures
            r.spec_config() == config,
            r.spec_registry() == registry,
    {
        Running { config, registry }
    }

    pub closed spec fn spec_config(&self) -> Config {
        self.config
    }

    pub closed spec fn spec_registry(&self) -> RegistrySchema {
        self.registry
    }

    pub fn config(&self) -> (c: &Config)
        ensures
            *c == self.spec_config(),
    {
        &self.config
    }

    pub fn registry(&self) -> (r: &RegistrySchema)
        ensures
            *r == self.spec_registry(),
    {
        &self.registry
    }
}

/// Whether a topology is up.
#[derive(Debug)]
pub enum State {
    Idle,
    Running(Running),
}

impl State {
    /// The running topology, if one is up.
    pub fn running(&self) -> (r: Option<&Running>)
        ensures
            r == match *self {
                State::Running(run) => Some(&run),
                State::Idle => None,
            },
    {
        match self {
            State::Running(r) => Some(r),
            _ => None,
        }
    }
}

/// Where the reload loop stands.
#[derive(Debug, Clone, Copy, PartialEq, Eq, Structural)]
pub enum Phase {
    /// Waiting for the first configuration.
    Starting,
    /// A topology is being built from a configuration.
    Building,
    /// A topology is up: its servers run, and the next configuration is
    /// awaited at the same time.
    Serving,
    /// The servers have stopped; the next configuration is awaited.
    Waiting,
    /// The loop has ended.
    Finished,
}

/// What the loop observed.
#[derive(Debug)]
pub enum Outcome {
    /// The stream yielded a configuration.
    Config(Config),
    /// The stream yielded an error.
    StreamError(String),
    /// The stream ended.
    StreamEnded,
    /// The first configuration did not come in time.
    TimedOut,
    /// The topology was built.
    Built(Running),
    /// The topology could not be built.
    BuildFailed(String),
    /// The servers stopped by themselves, with or without an error.
    Served(Result<(), String>),
}

/// What the loop does next.
#[derive(Debug)]
pub enum Action {
    /// Build a topology from this configuration, and report `Built` or
    /// `BuildFailed`.
    Build(Config),
    /// Run the servers and await the next configuration at the same time;
    /// report whichever comes first.
    Serve,
    /// Await the next configuration and report it.
    AwaitConfig,
    /// Return from the loop with this result.
    Finish(Result<(), String>),
}

/// What the loop does after an outcome.
#[derive(Debug)]
pub struct Next {
    /// Whether the topology that was up is torn down first: its server
    /// tasks aborted, its listeners closed and the contexts of its
    /// connections cancelled.
    pub tear_down: bool,
    /// What to do then.
    pub action: Action,
}

/// Whether the topology is torn down after an outcome in `phase`: always
/// when one is up, whatever the outcome.
pub open spec fn tears_down(phase: Phase) -> bool {
    phase == Phase::Serving
}

/// The controller's state behind its lock.
pub struct Inner {
    state: State,
    phase: Phase,
}

/// The loop's step, mathematically: the phase that follows each outcome in
/// each phase.
pub open spec fn next_phase(phase: Phase, outcome: Outcome) -> Phase {
    match (phase, outcome) {
        (Phase::Starting, Outcome::Config(_)) => Phase::Building,
        (Phase::Building, Outcome::Built(_)) => Phase::Serving,
        (Phase::Serving, Outcome::Served(_)) => Phase::Waiting,
        (Phase::Serving, Outcome::Config(_)) => Phase::Building,
        (Phase::Waiting, Outcome::Config(_)) => Phase::Building,
        _ => Phase::Finished,
    }
}

/// The message with which the loop ends when the stream fails before the
/// first configuration.
pub open spec fn first_config_failed(e: Seq<char>) -> Seq<char> {
    "Failed to get first config.: "@ + e
}

/// Whether `action` is what the loop does after `outcome` in `phase`.
pub open spec fn action_is(phase: Phase, outcome: Outcome, action: Action) -> bool {
    match (phase, outcome) {
        (Phase::Starting, Outcome::Config(c)) => action == Action::Build(c),
        (Phase::Starting, Outcome::StreamError(e)) => action matches Action::Finish(Err(m)) && m@
            == first_config_failed(e@),
        (Phase::Starting, Outcome::StreamEnded) | (Phase::Starting, Outcome::TimedOut) => action
            matches Action::Finish(Err(m)) && m@ == "The config_stream is empty, can not start."@,
        (Phase::Building, Outcome::Built(_)) => action is Serve,
        (Phase::Building, Outcome::BuildFailed(e)) => action == Action::Finish(Err(e)),
        (Phase::Serving, Outcome::Served(_)) => action is AwaitConfig,
        (Phase::Serving, Outcome::Config(c)) | (Phase::Waiting, Outcome::Config(c)) => action
            == Action::Build(c),
        (Phase::Serving, Outcome::StreamError(e)) | (Phase::Waiting, Outcome::StreamError(e)) =>
            action == Action::Finish(Err(e)),
        (Phase::Serving, Outcome::StreamEnded) | (Phase::Waiting, Outcome::StreamEnded) => action
            == Action::Finish(Ok(())),
        _ => action matches Action::Finish(Err(m)) && m@ == "Unexpected outcome."@,
    }
}

impl Inner {
    /// Where the loop stands.
    pub closed spec fn spec_phase(&self) -> Phase {
        self.phase
    }

    /// Whether a topology is up, and which.
    pub closed spec fn spec_state(&self) -> State {
        self.state
    }

    /// A topology is up exactly while the loop serves.
    pub open spec fn wf(&self) -> bool {
        self.spec_state() is Running <==> self.spec_phase() == Phase::Serving
    }

    fn new() -> (r: Inner)
        ensures
            r.wf(),
            r.spec_phase() == Phase::Starting,
            r.spec_state() is Idle,
    {
        Inner { state: State::Idle, phase: Phase::Starting }
    }

    pub fn phase(&self) -> (p: Phase)
        ensures
            p == self.spec_phase(),
    {
        self.phase
    }

    /// The configuration of the running topology.
    pub fn config(&self) -> (r: Option<&Config>)
        ensures
            r == match self.spec_state() {
                State::Running(run) => Some(&run.spec_config()),
                State::Idle => None,
            },
    {
        match self.state.running() {
            Some(i) => Some(i.config()),
            None => None,
        }
    }

    /// The schemas of the running topology's registry.
    pub fn registry(&self) -> (r: Option<&RegistrySchema>)
        ensures
            r == match self.spec_state() {
                State::Running(run) => Some(&run.spec_registry()),
                State::Idle => None,
            },
    {
        match self.state.running() {
            Some(i) => Some(i.registry()),
            None => None,
        }
    }

    /// `"Idle"` or `"Running"`.
    pub fn state(&self) -> (r: &'static str)
        ensures
            r@ == match self.spec_state() {
                State::Idle => "Idle"@,
                State::Running(_) => "Running"@,
            },
    {
        match self.state {
            State::Idle => "Idle",
            State::Running(_) => "Running",
        }
    }

    /// Moves the loop on by one outcome. The topology is up from the moment
    /// it was built until the servers stop or another configuration, an
    /// error or the end of the stream arrives; whatever ends it tears it
    /// down.
    fn step(&mut self, outcome: Outcome) -> (next: Next)
        requires
            old(self).wf(),
        ensures
            final(self).wf(),
            final(self).spec_phase() == next_phase(old(self).spec_phase(), outcome),
            action_is(old(self).spec_phase(), outcome, next.action),
            next.tear_down == tears_down(old(self).spec_phase()),
            final(self).spec_state() == match (old(self).spec_phase(), outcome) {
                (Phase::Building, Outcome::Built(run)) => State::Running(run),
                _ => State::Idle,
            },
    {
        let phase = self.phase;
        let tear_down = match phase {
            Phase::Serving => true,
            _ => false,
        };
        let action = match (phase, outcome) {
            (Phase::Starting, Outcome::Config(c)) => {
                self.phase = Phase::Building;
                self.state = State::Idle;
                Action::Build(c)
            },
            (Phase::Starting, Outcome::StreamError(e)) => {
                self.phase = Phase::Finished;
                self.state = State::Idle;
                let m = String::from_str("Failed to get first config.: ").concat(e.as_str());
                Action::Finish(Err(m))
            },
            (Phase::Starting, Outcome::StreamEnded) | (Phase::Starting, Outcome::TimedOut) => {
                self.phase = Phase::Finished;
                self.state = State::Idle;
                Action::Finish(Err(String::from_str("The config_stream is empty, can not start.")))
            },
            (Phase::Building, Outcome::Built(run)) => {
                self.phase = Phase::Serving;
                self.state = State::Running(run);
                Action::Serve
            },
            (Phase::Building, Outcome::BuildFailed(e)) => {
                self.phase = Phase::Finished;
                self.state = State::Idle;
                Action::Finish(Err(e))
            },
            (Phase::Serving, Outcome::Served(_)) => {
                self.phase = Phase::Waiting;
                self.state = State::Idle;
                Action::AwaitConfig
            },
            (Phase::Serving, Outcome::Config(c)) | (Phase::Waiting, Outcome::Config(c)) => {
                self.phase = Phase::Building;
                self.state = State::Idle;
                Action::Build(c)
            },
            (Phase::Serving, Outcome::StreamError(e)) | (Phase::Waiting, Outcome::StreamError(e)) => {
                self.phase = Phase::Finished;
                self.state = State::Idle;
                Action::Finish(Err(e))
            },
            (Phase::Serving, Outcome::StreamEnded) | (Phase::Waiting, Outcome::StreamEnded) => {
                self.phase = Phase::Finished;
                self.state = State::Idle;
                Action::Finish(Ok(()))
            },
            _ => {
                self.phase = Phase::Finished;
                self.state = State::Idle;
                Action::Finish(Err(String::from_str("Unexpected outcome.")))
            },
        };
        Next { tear_down, action }
    }
}

/// The controller: the reload loop's state and the event plane.
pub struct Controller {
    inner: Inner,
    batcher: Batcher,
    sender: Broadcast,
}

impl Controller {
    /// The state behind the lock.
    pub closed spec fn spec_inner(&self) -> Inner {
        self.inner
    }

    /// The events that wait for their batch.
    pub closed spec fn pending(&self) -> Seq<Arc<Event>> {
        self.batcher@
    }

    /// The fan-out of batches to the subscribers.
    pub closed spec fn plane(&self) -> BroadcastView {
        self.sender@
    }

    pub open spec fn wf(&self) -> bool {
        &&& self.spec_inner().wf()
        &&& self.pending().len() < crate::event::BATCH_SIZE
        &&& self.plane().wf()
    }

    /// A controller without a topology, without subscribers and without
    /// events, at the start of its loop.
    pub fn new() -> (c: Controller)
        ensures
            c.wf(),
            c.spec_inner().spec_phase() == Phase::Starting,
            c.spec_inner().spec_state() is Idle,
            c.pending().len() == 0,
            c.plane().published.len() == 0,
            c.plane().subscribers.len() == 0,
            c.plane().capacity == SUBSCRIBER_BACKLOG,
    {
        Controller {
            inner: Inner::new(),
            batcher: Batcher::new(),
            sender: Broadcast::new(SUBSCRIBER_BACKLOG),
        }
    }

    /// Starts the loop with `config` as its first configuration.
    pub fn run(&mut self, config: Config) -> (next: Next)
        requires
            old(self).wf(),
        ensures
            final(self).wf(),
            final(self).spec_inner().spec_phase() == next_phase(
                old(self).spec_inner().spec_phase(),
                Outcome::Config(config),
            ),
            action_is(old(self).spec_inner().spec_phase(), Outcome::Config(config), next.action),
            next.tear_down == tears_down(old(self).spec_inner().spec_phase()),
            final(self).spec_inner().spec_state() is Idle,
            final(self).pending() == old(self).pending(),
            final(self).plane() == old(self).plane(),
    {
        self.step(Outcome::Config(config))
    }

    /// Moves the reload loop on by what the caller observed, and answers
    /// with what the caller does next.
    pub fn step(&mut self, outcome: Outcome) -> (next: Next)
        requires
            old(self).wf(),
        ensures
            final(self).wf(),
            final(self).spec_inner().spec_phase() == next_phase(
                old(self).spec_inner().spec_phase(),
                outcome,
            ),
            action_is(old(self).spec_inner().spec_phase(), outcome, next.action),
            next.tear_down == tears_down(old(self).spec_inner().spec_phase()),
            final(self).spec_inner().spec_state() == match (
                old(self).spec_inner().spec_phase(),
                outcome,
            ) {
                (Phase::Building, Outcome::Built(run)) => State::Running(run),
                _ => State::Idle,
            },
            final(self).pending() == old(self).pending(),
            final(self).plane() == old(self).plane(),
    {
        self.inner.step(outcome)
    }

    /// The state behind the lock, to look at.
    pub fn lock(&self) -> (r: &Inner)
        ensures
            *r == self.spec_inner(),
    {
        &self.inner
    }

    /// Subscribes to the event plane. The subscriber is served from the
    /// next batch on.
    pub fn get_subscriber(&mut self) -> (r: Receiver)
        requires
            old(self).wf(),
        ensures
            final(self).wf(),
            final(self).plane() == old(self).plane().subscribe(),
            r.spec_id() == old(self).plane().subscribers.len(),
            final(self).spec_inner() == old(self).spec_inner(),
            final(self).pending() == old(self).pending(),
    {
        self.sender.subscribe()
    }

    /// Hands a subscriber its next batch.
    pub fn recv(&mut self, receiver: &Receiver) -> (r: Result<BatchEvent, RecvError>)
        requires
            old(self).wf(),
        ensures
            final(self).wf(),
            final(self).plane() == old(self).plane().recv(receiver.spec_id()),
            match r {
                Ok(batch) => old(self).plane().recv_result(receiver.spec_id()) == Ok::<
                    Seq<Arc<Event>>,
                    RecvError,
                >(batch@),
                Err(e) => old(self).plane().recv_result(receiver.spec_id()) == Err::<
                    Seq<Arc<Event>>,
                    RecvError,
                >(e),
            },
            final(self).spec_inner() == old(self).spec_inner(),
            final(self).pending() == old(self).pending(),
    {
        self.sender.recv(receiver)
    }

    /// Takes in an event from an instrumented net. The event waits for its
    /// batch; the batch is published when this event fills it.
    pub fn send(&mut self, event: Event)
        requires
            old(self).wf(),
        ensures
            final(self).wf(),
            final(self).spec_inner() == old(self).spec_inner(),
            old(self).pending().len() + 1 < crate::event::BATCH_SIZE ==> final(self).pending()
                == old(self).pending().push(Arc::new(event)) && final(self).plane() == old(self).plane(),
            old(self).pending().len() + 1 == crate::event::BATCH_SIZE ==> final(self).pending().len() == 0 && final(self).plane() == old(self).plane().publish(
                old(self).pending().push(Arc::new(event)),
            ),
    {
        match self.batcher.push(event) {
            Some(batch) => {
                self.sender.publish(batch);
            },
            None => {},
        }
    }

    /// Publishes the events that wait, when the window of the oldest of
    /// them has run out. Nothing is published when none waits.
    pub fn process(&mut self)
        requires
            old(self).wf(),
        ensures
            final(self).wf(),
            final(self).spec_inner() == old(self).spec_inner(),
            final(self).pending().len() == 0,
            final(self).plane() == if old(self).pending().len() > 0 {
                old(self).plane().publish(old(self).pending())
            } else {
                old(self).plane()
            },
    {
        match self.batcher.flush() {
            Some(batch) => {
                self.sender.publish(batch);
            },
            None => {},
        }
    }

    /// Puts the instrumentation around a net of the topology.
    pub fn get_net<N: Net>(&self, net: N) -> (r: ControllerNet<N>)
        requires
            net.wf(),
        ensures
            r.wf(),
            r.spec_net() == net,
            r.spec_events() == Seq::<Event>::empty(),
            r.spec_next_uuid() == 0,
    {
        ControllerNet::new(net)
    }
}

/// A TCP stream of an instrumented net: the inner net's stream, and the
/// number under which its events are reported.
#[derive(Debug)]
pub struct Instrumented<S> {
    pub uuid: u64,
    pub stream: S,
}

/// A net that delegates to an inner net and reports what happens on its
/// TCP connections: each connection that comes about is announced, and so
/// are the bytes it carries and its end. The events wait in the net until
/// the caller takes them to the controller.
pub struct ControllerNet<N> {
    pub net: N,
    events: Vec<Event>,
    next_uuid: u64,
}

impl<N> ControllerNet<N> {
    /// The inner net.
    pub closed spec fn spec_net(&self) -> N {
        self.net
    }

    /// The events that wait to be taken, oldest first.
    pub closed spec fn spec_events(&self) -> Seq<Event> {
        self.events@
    }

    /// The number that the next connection gets.
    pub closed spec fn spec_next_uuid(&self) -> u64 {
        self.next_uuid
    }

    /// Whether `other` differs from this net in its inner net at most.
    pub open spec fn same_reports(&self, other: &Self) -> bool {
        self.spec_events() == other.spec_events() && self.spec_next_uuid()
            == other.spec_next_uuid()
    }

    pub fn new(net: N) -> (r: Self)
        ensures
            r.spec_net() == net,
            r.spec_events() == Seq::<Event>::empty(),
            r.spec_next_uuid() == 0,
    {
        ControllerNet { net, events: Vec::new(), next_uuid: 0 }
    }

    /// Takes the events that wait.
    pub fn take_events(&mut self) -> (events: Vec<Event>)
        ensures
            events@ == old(self).spec_events(),
            final(self).spec_events() == Seq::<Event>::empty(),
            final(self).spec_next_uuid() == old(self).spec_next_uuid(),
            final(self).spec_net() == old(self).spec_net(),
    {
        let mut events: Vec<Event> = Vec::new();
        core::mem::swap(&mut self.events, &mut events);
        events
    }

    /// Reports a read of `n` bytes on the connection `uuid`. A read of
    /// nothing is not reported.
    pub fn inbound(&mut self, uuid: u64, n: usize)
        ensures
            final(self).spec_events() == if n > 0 {
                old(self).spec_events().push(
                    Event { uuid, event_type: EventType::Inbound(n as u64) },
                )
            } else {
                old(self).spec_events()
            },
            final(self).spec_next_uuid() == old(self).spec_next_uuid(),
            final(self).spec_net() == old(self).spec_net(),
    {
        if n > 0 {
            self.events.push(Event::new(uuid, EventType::Inbound(n as u64)));
        }
    }

    /// Reports a write of `n` bytes on the connection `uuid`. A write of
    /// nothing is not reported.
    pub fn outbound(&mut self, uuid: u64, n: usize)
        ensures
            final(self).spec_events() == if n > 0 {
                old(self).spec_events().push(
                    Event { uuid, event_type: EventType::Outbound(n as u64) },
                )
            } else {
                old(self).spec_events()
            },
            final(self).spec_next_uuid() == old(self).spec_next_uuid(),
            final(self).spec_net() == old(self).spec_net(),
    {
        if n > 0 {
            self.events.push(Event::new(uuid, EventType::Outbound(n as u64)));
        }
    }

    /// Reports the end of the connection `uuid`.
    pub fn closed(&mut self, uuid: u64)
        ensures
            final(self).spec_events() == old(self).spec_events().push(
                Event { uuid, event_type: EventType::CloseConnection },
            ),
            final(self).spec_next_uuid() == old(self).spec_next_uuid(),
            final(self).spec_net() == old(self).spec_net(),
    {
        self.events.push(Event::new(uuid, EventType::CloseConnection));
    }
}

/// The number after `uuid`, around the end of the `u64` range.
pub open spec fn uuid_after(uuid: u64) -> u64 {
    if uuid == u64::MAX {
        0
    } else {
        (uuid + 1) as u64
    }
}

impl<N: Net> Net for ControllerNet<N> {
    type TcpStream = Instrumented<N::TcpStream>;

    type TcpListener = N::TcpListener;

    type UdpSocket = N::UdpSocket;

    open spec fn wf(&self) -> bool {
        self.spec_net().wf()
    }

    /// Connects through the inner net. A connection that comes about gets
    /// the next number and is announced with where it goes; a failure is
    /// passed on and reports nothing.
    fn tcp_connect(&mut self, ctx: &mut Context, addr: &Address) -> (r: Result<
        Instrumented<N::TcpStream>,
        Error,
    >)
        ensures
            match r {
                Ok(tcp) => {
                    &&& tcp.uuid == old(self).spec_next_uuid()
                    &&& final(self).spec_next_uuid() == uuid_after(tcp.uuid)
                    &&& final(self).spec_events() == old(self).spec_events().push(
                        Event { uuid: tcp.uuid, event_type: EventType::NewTcp(*addr) },
                    )
                },
                Err(_) => final(self).same_reports(old(self)),
            },
    {
        let tcp = match self.net.tcp_connect(ctx, addr) {
            Ok(tcp) => tcp,
            Err(e) => {
                return Err(e);
            },
        };
        let uuid = self.next_uuid;
        self.next_uuid = uuid.wrapping_add(1);
        self.events.push(Event::new(uuid, EventType::NewTcp(addr.copy())));
        Ok(Instrumented { uuid, stream: tcp })
    }

    /// Binds a listener through the inner net. Nothing is reported.
    fn tcp_bind(&mut self, ctx: &mut Context, addr: &Address) -> (r: Result<N::TcpListener, Error>)
        ensures
            final(self).same_reports(old(self)),
    {
        self.net.tcp_bind(ctx, addr)
    }

    /// Binds a datagram socket through the inner net. Nothing is reported.
    fn udp_bind(&mut self, ctx: &mut Context, addr: &Address) -> (r: Result<N::UdpSocket, Error>)
        ensures
            final(self).same_reports(old(self)),
    {
        self.net.udp_bind(ctx, addr)
    }
}

} // verus!
