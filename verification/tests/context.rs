use boomnet::io::{self, ErrorKind};
use boomnet::net::{SocketAddr, SocketAddrV4};
use boomnet::service::dns::{DnsQuery, DnsResolver};
use boomnet::service::endpoint::{Context, DisconnectReason, EndpointWithContext};
use boomnet::service::error::IOServiceOperation;
use boomnet::service::node::{IONode, IONodes};
use boomnet::service::select::{Selectable, Selector, SelectorToken, Selects};
use boomnet::service::time::{Duration, TimeSource};
use boomnet::service::{Handle, IOService, IOServiceError, IOServiceEvent, IntoIOServiceWithContext};
use boomnet::stream::{ConnectionInfo, ConnectionInfoProvider};
use std::cell::Cell;
use std::rc::Rc;

struct Stream;

impl Selectable for Stream {
    fn connected(&mut self) -> Result<bool, io::Error> {
        Ok(true)
    }

    fn make_writable(&mut self) -> Result<(), io::Error> {
        Ok(())
    }

    fn make_readable(&mut self) -> Result<(), io::Error> {
        Ok(())
    }
}

struct Counter(SelectorToken);

impl<E> Selects<Stream, E> for Counter {}

impl Selector for Counter {
    type Target = Stream;

    fn register<E>(&mut self, _token: SelectorToken, _node: &mut IONode<Stream, E>) -> Result<(), io::Error> {
        Ok(())
    }

    fn unregister<E>(&mut self, _node: &mut IONode<Stream, E>) -> Result<(), io::Error> {
        Ok(())
    }

    fn poll<E>(&mut self, _nodes: &mut IONodes<Stream, E>) -> Result<(), io::Error> {
        Ok(())
    }

    fn next_token(&mut self) -> SelectorToken {
        self.0 += 1;
        self.0 - 1
    }
}

struct Loopback;

impl DnsResolver for Loopback {
    type Query = Loopback;

    fn new_query(&self, _host: &str, _port: u16) -> Result<Loopback, io::Error> {
        Ok(Loopback)
    }
}

impl DnsQuery for Loopback {
    fn poll(&mut self) -> Result<Vec<SocketAddr>, io::Error> {
        Ok(vec![SocketAddr::V4(SocketAddrV4 { ip: [127, 0, 0, 1], port: 80 })])
    }
}

struct Clock(Rc<Cell<u64>>);

impl TimeSource for Clock {
    fn current_time_nanos(&self) -> u64 {
        self.0.get()
    }
}

#[derive(Default)]
struct Journal {
    lines: Vec<String>,
    refuse_connection: bool,
    fail_poll: bool,
    recreate: bool,
    stay: bool,
}

impl Context for Journal {}

struct Talker {
    id: u32,
    info: ConnectionInfo,
}

impl Talker {
    fn new(id: u32) -> Talker {
        Talker { id, info: ConnectionInfo::new("localhost", 80) }
    }
}

impl ConnectionInfoProvider for Talker {
    fn connection_info(&self) -> &ConnectionInfo {
        &self.info
    }
}

struct Line<'a> {
    journal: &'a mut Journal,
    id: u32,
}

impl EndpointWithContext<Journal> for Talker {
    type Target = Stream;
    type Event<'a> = Line<'a>;

    fn create_target(&mut self, _addr: SocketAddr, context: &mut Journal) -> Result<Option<Stream>, io::Error> {
        context.lines.push(format!("create {}", self.id));
        if context.refuse_connection {
            Err(io::Error::new(ErrorKind::ConnectionRefused, "refused"))
        } else {
            Ok(Some(Stream))
        }
    }

    fn poll<'a>(&'a mut self, _target: &'a mut Stream, context: &'a mut Journal) -> Result<Option<Line<'a>>, io::Error> {
        context.lines.push(format!("poll {}", self.id));
        if context.fail_poll {
            Err(io::Error::new(ErrorKind::ConnectionReset, "reset"))
        } else {
            Ok(Some(Line { journal: context, id: self.id }))
        }
    }

    fn can_recreate(&mut self, reason: &DisconnectReason, context: &mut Journal) -> bool {
        context.lines.push(format!("recreate {} {}", self.id, reason.to_string()));
        context.recreate
    }

    fn can_auto_disconnect(&mut self, context: &mut Journal) -> bool {
        context.lines.push(format!("end {}", self.id));
        !context.stay
    }
}

type Service = IOService<Counter, Talker, Journal, Clock, Loopback>;

fn service(now: &Rc<Cell<u64>>) -> Service {
    IOService::new(Counter(0), Clock(now.clone()), Loopback)
}

fn connected(now: &Rc<Cell<u64>>, journal: &mut Journal, count: u32) -> Service {
    let mut service = service(now);
    for id in 0..count {
        service.register(Talker::new(id)).unwrap();
        match service.poll(journal) {
            Ok(IOServiceEvent::Connected { handle }) => assert_eq!(handle, Handle(id)),
            _ => panic!("expected a connection"),
        }
        now.set(now.get() + 1_000_000_001);
    }
    service
}

impl IntoIOServiceWithContext<Talker, Journal> for Counter {
    type TimeSource = Clock;
    type DnsResolver = Loopback;

    fn into_io_service_with_context(self) -> Service {
        IOService::new(self, Clock(Rc::new(Cell::new(1))), Loopback)
    }
}

#[test]
fn polls_endpoints_with_context_in_round_robin_order() {
    let now = Rc::new(Cell::new(1));
    let mut journal = Journal::default();
    let mut service = connected(&now, &mut journal, 3);
    journal.lines.clear();
    let mut seen = Vec::new();
    for _ in 0..5 {
        match service.poll(&mut journal) {
            Ok(IOServiceEvent::Data { handle, event }) => {
                event.journal.lines.push(format!("event {}", event.id));
                seen.push((handle.0, event.id));
            }
            _ => panic!("expected data"),
        }
    }
    assert_eq!(seen, [(0, 0), (1, 1), (2, 2), (0, 0), (1, 1)]);
    assert_eq!(journal.lines[..4], ["poll 0", "event 0", "poll 1", "event 1"]);
}

#[test]
fn context_reaches_a_failing_connection_attempt() {
    let now = Rc::new(Cell::new(1));
    let mut journal = Journal { refuse_connection: true, ..Default::default() };
    let mut service = service(&now);
    service.register(Talker::new(5)).unwrap();
    match service.poll(&mut journal) {
        Err(IOServiceError::Io { handle, operation, source }) => {
            assert_eq!(handle, Some(Handle(0)));
            assert_eq!(operation, IOServiceOperation::CreateTarget);
            assert_eq!(source.kind(), ErrorKind::ConnectionRefused);
        }
        _ => panic!("expected a failure"),
    }
    assert_eq!(journal.lines, ["create 5"]);
}

#[test]
fn failed_endpoint_with_context_is_recreated() {
    let now = Rc::new(Cell::new(1));
    let mut journal = Journal { recreate: true, ..Default::default() };
    let mut service = connected(&now, &mut journal, 1);
    journal.lines.clear();
    journal.fail_poll = true;
    assert!(matches!(service.poll(&mut journal), Ok(IOServiceEvent::Idle)));
    match service.poll(&mut journal) {
        Ok(IOServiceEvent::Disconnected { handle, reason }) => {
            assert_eq!(handle, Handle(0));
            assert_eq!(reason.to_string(), "reset");
        }
        _ => panic!("expected a disconnection"),
    }
    assert!(matches!(service.poll(&mut journal), Ok(IOServiceEvent::Connected { handle: Handle(0) })));
    assert_eq!(journal.lines, ["poll 0", "recreate 0 reset", "create 0"]);
}

#[test]
fn failed_endpoint_with_context_may_decline_recreation() {
    let now = Rc::new(Cell::new(1));
    let mut journal = Journal { fail_poll: true, ..Default::default() };
    let mut service = connected(&now, &mut journal, 1);
    assert!(matches!(service.poll(&mut journal), Ok(IOServiceEvent::Idle)));
    assert!(matches!(
        service.poll(&mut journal),
        Err(IOServiceError::EndpointNotRecreatable { handle: Handle(0), reason: DisconnectReason::IO(_) })
    ));
    assert!(service.iter().is_empty());
    assert!(service.pending().is_empty());
}

#[test]
fn endpoint_with_context_is_asked_before_it_is_ended() {
    let now = Rc::new(Cell::new(1));
    let mut journal = Journal { stay: true, recreate: true, ..Default::default() };
    let mut service = service(&now).with_auto_disconnect(Duration::from_nanos(10));
    service.register(Talker::new(0)).unwrap();
    assert!(matches!(service.poll(&mut journal), Ok(IOServiceEvent::Connected { .. })));
    journal.lines.clear();
    now.set(12);
    assert!(matches!(service.poll(&mut journal), Ok(IOServiceEvent::Data { .. })));
    journal.stay = false;
    now.set(21);
    assert!(matches!(service.poll(&mut journal), Ok(IOServiceEvent::Data { .. })));
    now.set(22);
    assert!(matches!(
        service.poll(&mut journal),
        Ok(IOServiceEvent::Disconnected { handle: Handle(0), reason: DisconnectReason::AutoDisconnect(_) })
    ));
    assert_eq!(
        journal.lines,
        ["end 0", "poll 0", "poll 0", "end 0", "recreate 0 auto-disconnect after 10ns"]
    );
}

#[test]
fn dispatch_exposes_the_context() {
    let now = Rc::new(Cell::new(1));
    let mut journal = Journal::default();
    let mut service = connected(&now, &mut journal, 1);
    journal.lines.clear();
    let result = service
        .dispatch(Handle(0), &mut journal, |_target, endpoint, journal| {
            journal.lines.push(format!("dispatch {}", endpoint.id));
            endpoint.id = 8;
            Ok(journal.lines.len())
        })
        .unwrap();
    assert_eq!(result, Some(1));
    assert_eq!(journal.lines, ["dispatch 0"]);
    assert_eq!(service.iter()[0].2.id, 8);
}

#[test]
fn dispatch_leaves_the_context_alone_without_an_active_endpoint() {
    let now = Rc::new(Cell::new(1));
    let mut journal = Journal::default();
    let mut service = service(&now);
    service.register(Talker::new(0)).unwrap();
    let result = service
        .dispatch(Handle(0), &mut journal, |_, _, journal| {
            journal.lines.push("never".to_string());
            Ok(())
        })
        .unwrap();
    assert_eq!(result, None);
    assert!(journal.lines.is_empty());
}

#[test]
fn selector_turns_into_a_service_with_context() {
    let mut journal = Journal::default();
    let mut service = Counter(6).into_io_service_with_context();
    assert_eq!(service.register(Talker::new(0)).unwrap(), Handle(6));
    assert!(matches!(service.poll(&mut journal), Ok(IOServiceEvent::Connected { handle: Handle(6) })));
}

struct Mute(ConnectionInfo);

impl ConnectionInfoProvider for Mute {
    fn connection_info(&self) -> &ConnectionInfo {
        &self.0
    }
}

impl EndpointWithContext<Journal> for Mute {
    type Target = Stream;
    type Event<'a> = ();

    fn create_target(&mut self, _addr: SocketAddr, _context: &mut Journal) -> Result<Option<Stream>, io::Error> {
        Ok(Some(Stream))
    }

    fn poll<'a>(&'a mut self, _target: &'a mut Stream, _context: &'a mut Journal) -> Result<Option<()>, io::Error> {
        Ok(None)
    }
}

#[test]
fn endpoints_agree_to_everything_by_default() {
    let now = Rc::new(Cell::new(1));
    let mut journal = Journal::default();
    let mut service: IOService<Counter, Mute, Journal, Clock, Loopback> =
        IOService::new(Counter(0), Clock(now.clone()), Loopback).with_auto_disconnect(Duration::from_nanos(1));
    service.register(Mute(ConnectionInfo::new("localhost", 80))).unwrap();
    assert!(matches!(service.poll(&mut journal), Ok(IOServiceEvent::Connected { .. })));
    assert!(matches!(service.poll(&mut journal), Ok(IOServiceEvent::Idle)));
    now.set(3);
    assert!(matches!(service.poll(&mut journal), Ok(IOServiceEvent::Disconnected { .. })));
}
