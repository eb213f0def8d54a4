use boomnet::io::{self, ErrorKind};
use boomnet::net::{SocketAddr, SocketAddrV4};
use boomnet::service::dns::{DnsQuery, DnsResolver};
use boomnet::service::endpoint::{DisconnectReason, Endpoint};
use boomnet::service::error::IOServiceOperation;
use boomnet::service::node::{IONode, IONodes};
use boomnet::service::select::{Selectable, Selector, SelectorToken, Selects};
use boomnet::service::time::{Duration, TimeSource};
use boomnet::service::{Handle, IOService, IOServiceError, IOServiceEvent, IntoIOService};
use boomnet::stream::{ConnectionInfo, ConnectionInfoProvider};
use std::cell::{Cell, RefCell};
use std::collections::VecDeque;
use std::rc::Rc;

struct TestTarget;

impl Selectable for TestTarget {
    fn connected(&mut self) -> Result<bool, io::Error> {
        Ok(true)
    }

    fn make_writable(&mut self) -> Result<(), io::Error> {
        Ok(())
    }

    fn make_readable(&mut self) -> Result<(), io::Error> {
        Ok(())
    }
}

#[derive(Default)]
struct TestSelector {
    next_token: SelectorToken,
    repeat_token: bool,
    fail_register: bool,
    fail_unregister: bool,
    fail_poll: Rc<Cell<bool>>,
    log: Rc<RefCell<Vec<String>>>,
}

impl<E> Selects<TestTarget, E> for TestSelector {}

impl Selector for TestSelector {
    type Target = TestTarget;

    fn register<E>(&mut self, token: SelectorToken, _node: &mut IONode<TestTarget, E>) -> Result<(), io::Error> {
        self.log.borrow_mut().push(format!("register {token}"));
        if self.fail_register {
            Err(io::Error::other("no room"))
        } else {
            Ok(())
        }
    }

    fn unregister<E>(&mut self, node: &mut IONode<TestTarget, E>) -> Result<(), io::Error> {
        self.log.borrow_mut().push(format!("unregister {}", node.as_endpoint().0 .0));
        if self.fail_unregister {
            Err(io::Error::other("not found"))
        } else {
            Ok(())
        }
    }

    fn poll<E>(&mut self, _nodes: &mut IONodes<TestTarget, E>) -> Result<(), io::Error> {
        if self.fail_poll.get() {
            Err(io::Error::new(ErrorKind::Interrupted, "selector"))
        } else {
            Ok(())
        }
    }

    fn next_token(&mut self) -> SelectorToken {
        let token = self.next_token;
        if !self.repeat_token {
            self.next_token += 1;
        }
        token
    }
}

impl IntoIOService<TestEndpoint> for TestSelector {
    type TimeSource = ManualTime;
    type DnsResolver = TestDns;

    fn into_io_service(self) -> IOService<TestSelector, TestEndpoint, (), ManualTime, TestDns> {
        IOService::new(self, ManualTime(Rc::new(Cell::new(1))), TestDns::default())
    }
}

type Answer = Result<Vec<SocketAddr>, io::Error>;

#[derive(Default, Clone)]
struct TestDns {
    fail_query: Rc<Cell<bool>>,
    answers: Rc<RefCell<VecDeque<Answer>>>,
    asked: Rc<RefCell<Vec<String>>>,
}

struct TestQuery(Rc<RefCell<VecDeque<Answer>>>);

impl DnsResolver for TestDns {
    type Query = TestQuery;

    fn new_query(&self, host: &str, port: u16) -> Result<TestQuery, io::Error> {
        self.asked.borrow_mut().push(format!("{host}:{port}"));
        if self.fail_query.get() {
            Err(io::Error::new(ErrorKind::NotFound, "no resolver"))
        } else {
            Ok(TestQuery(self.answers.clone()))
        }
    }
}

impl DnsQuery for TestQuery {
    fn poll(&mut self) -> Answer {
        self.0.borrow_mut().pop_front().unwrap_or_else(|| Ok(vec![address(1)]))
    }
}

fn address(last: u8) -> SocketAddr {
    SocketAddr::V4(SocketAddrV4 { ip: [127, 0, 0, last], port: 1234 })
}

#[derive(Clone)]
struct ManualTime(Rc<Cell<u64>>);

impl TimeSource for ManualTime {
    fn current_time_nanos(&self) -> u64 {
        self.0.get()
    }
}

struct TestEndpoint {
    id: u32,
    connection_info: ConnectionInfo,
    fail_poll: bool,
    silent: bool,
    recreate: bool,
    auto_disconnect: bool,
    targets: VecDeque<Result<bool, io::Error>>,
    addr: Option<SocketAddr>,
    reasons: Vec<String>,
}

impl TestEndpoint {
    fn new(id: u32) -> Self {
        Self {
            id,
            connection_info: ConnectionInfo::new("localhost", 1234),
            fail_poll: false,
            silent: false,
            recreate: true,
            auto_disconnect: true,
            targets: VecDeque::new(),
            addr: None,
            reasons: Vec::new(),
        }
    }

    fn terminal(id: u32) -> Self {
        Self { fail_poll: true, recreate: false, ..Self::new(id) }
    }

    fn failing(id: u32) -> Self {
        Self { fail_poll: true, ..Self::new(id) }
    }
}

impl ConnectionInfoProvider for TestEndpoint {
    fn connection_info(&self) -> &ConnectionInfo {
        &self.connection_info
    }
}

impl Endpoint for TestEndpoint {
    type Target = TestTarget;
    type Event<'a> = u32;

    fn create_target(&mut self, addr: SocketAddr) -> Result<Option<TestTarget>, io::Error> {
        self.addr = Some(addr);
        match self.targets.pop_front() {
            None | Some(Ok(true)) => Ok(Some(TestTarget)),
            Some(Ok(false)) => Ok(None),
            Some(Err(e)) => Err(e),
        }
    }

    fn poll<'a>(&'a mut self, _target: &'a mut TestTarget) -> Result<Option<u32>, io::Error> {
        if self.fail_poll {
            Err(io::Error::new(ErrorKind::ConnectionReset, "test disconnect"))
        } else if self.silent {
            Ok(None)
        } else {
            Ok(Some(self.id))
        }
    }

    fn can_recreate(&mut self, reason: &DisconnectReason) -> bool {
        self.reasons.push(reason.to_string());
        self.recreate
    }

    fn can_auto_disconnect(&mut self) -> bool {
        self.auto_disconnect
    }
}

type TestService = IOService<TestSelector, TestEndpoint, (), ManualTime, TestDns>;

fn service(time: ManualTime) -> TestService {
    IOService::new(TestSelector::default(), time, TestDns::default())
}

fn with_selector(selector: TestSelector, now: &Rc<Cell<u64>>) -> TestService {
    IOService::new(selector, ManualTime(now.clone()), TestDns::default())
}

fn with_dns(dns: &TestDns, now: &Rc<Cell<u64>>) -> TestService {
    IOService::new(TestSelector::default(), ManualTime(now.clone()), dns.clone())
}

fn connect_next(service: &mut TestService, now: &Rc<Cell<u64>>, time_ns: u64) {
    now.set(time_ns);
    assert!(matches!(service.poll().unwrap(), IOServiceEvent::Connected { .. }));
}

fn active(service: &TestService) -> Vec<u32> {
    service.iter().iter().map(|(handle, _, _)| handle.0).collect()
}

fn waiting(service: &TestService) -> Vec<u32> {
    service.pending().iter().map(|(handle, _)| handle.0).collect()
}

fn io_failure(error: IOServiceError) -> (Option<Handle>, IOServiceOperation, ErrorKind, String) {
    match error {
        IOServiceError::Io { handle, operation, source } => (handle, operation, source.kind(), source.message),
        other => panic!("unexpected error: {other:?}"),
    }
}

#[test]
fn polls_active_endpoints_in_round_robin_order() {
    let now = Rc::new(Cell::new(1));
    let mut service = service(ManualTime(now.clone()));
    for id in 0..3 {
        service.register(TestEndpoint::new(id)).unwrap();
    }

    connect_next(&mut service, &now, 1);
    connect_next(&mut service, &now, 1_000_000_002);
    connect_next(&mut service, &now, 2_000_000_003);

    let mut events = Vec::new();
    for _ in 0..4 {
        match service.poll().unwrap() {
            IOServiceEvent::Data { event, .. } => events.push(event),
            _ => panic!("expected a batch"),
        }
    }
    assert_eq!(events, [0, 1, 2, 0]);
}

#[test]
fn round_robin_skips_deregistered_slots() {
    let now = Rc::new(Cell::new(1));
    let mut service = service(ManualTime(now.clone()));
    let handles = (0..3)
        .map(|id| service.register(TestEndpoint::new(id)).unwrap())
        .collect::<Vec<_>>();

    connect_next(&mut service, &now, 1);
    connect_next(&mut service, &now, 1_000_000_002);
    connect_next(&mut service, &now, 2_000_000_003);

    assert!(matches!(service.poll().unwrap(), IOServiceEvent::Data { event: 0, .. }));
    service.deregister(handles[1]).unwrap();
    assert!(matches!(service.poll().unwrap(), IOServiceEvent::Data { event: 2, .. }));
    assert!(matches!(service.poll().unwrap(), IOServiceEvent::Data { event: 0, .. }));
}

#[test]
fn returns_error_when_disconnected_endpoint_declines_recreation() {
    let now = Rc::new(Cell::new(1));
    let mut service = service(ManualTime(now.clone()));
    let handle = service.register(TestEndpoint::terminal(7)).unwrap();
    connect_next(&mut service, &now, 1);

    assert!(matches!(service.poll().unwrap(), IOServiceEvent::Idle));
    let error = service.poll().unwrap_err();
    match error {
        IOServiceError::EndpointNotRecreatable {
            handle: error_handle,
            reason: DisconnectReason::IO(source),
        } => {
            assert_eq!(error_handle, handle);
            assert_eq!(source.kind(), ErrorKind::ConnectionReset);
        }
        other => panic!("unexpected error: {other:?}"),
    }
    assert_eq!(service.iter().len(), 0);
}

#[test]
fn deregister_clears_a_queued_disconnect() {
    let now = Rc::new(Cell::new(1));
    let mut service = service(ManualTime(now.clone()));
    let handle = service.register(TestEndpoint::terminal(7)).unwrap();
    connect_next(&mut service, &now, 1);

    assert!(matches!(service.poll().unwrap(), IOServiceEvent::Idle));
    assert!(service.deregister(handle).unwrap().is_some());
    assert!(matches!(service.poll().unwrap(), IOServiceEvent::Idle));
}

#[test]
fn polling_an_empty_service_is_idle() {
    let mut service = service(ManualTime(Rc::new(Cell::new(1))));
    assert!(matches!(service.poll().unwrap(), IOServiceEvent::Idle));
    assert!(service.iter().is_empty());
    assert!(service.pending().is_empty());
}

#[test]
fn registered_endpoint_waits_last() {
    let now = Rc::new(Cell::new(1));
    let mut service = service(ManualTime(now.clone()));
    assert_eq!(service.register(TestEndpoint::new(10)).unwrap(), Handle(0));
    assert_eq!(service.register(TestEndpoint::new(11)).unwrap(), Handle(1));
    let pending: Vec<(Handle, u32)> = service
        .pending()
        .iter()
        .map(|(handle, endpoint)| (**handle, endpoint.id))
        .collect();
    assert_eq!(pending, [(Handle(0), 10), (Handle(1), 11)]);
    assert!(service.iter().is_empty());
}

#[test]
fn connected_endpoint_is_active() {
    let now = Rc::new(Cell::new(1));
    let mut service = service(ManualTime(now.clone()));
    service.register(TestEndpoint::new(10)).unwrap();
    service.register(TestEndpoint::new(11)).unwrap();
    match service.poll().unwrap() {
        IOServiceEvent::Connected { handle } => assert_eq!(handle, Handle(0)),
        other => panic!("unexpected event: {other:?}"),
    }
    assert_eq!(active(&service), [0]);
    assert_eq!(waiting(&service), [1]);
    let endpoints = service.iter();
    assert_eq!(endpoints[0].2.id, 10);
    assert_eq!(endpoints[0].2.addr, Some(address(1)));
}

#[test]
fn register_with_hands_the_handle_to_the_factory() {
    let now = Rc::new(Cell::new(1));
    let mut service = service(ManualTime(now.clone()));
    service.register(TestEndpoint::new(10)).unwrap();
    let handle = service.register_with(|handle: Handle| Ok(TestEndpoint::new(handle.0 + 20))).unwrap();
    assert_eq!(handle, Handle(1));
    assert_eq!(service.pending()[1].1.id, 21);
}

#[test]
fn register_with_reports_a_failing_factory() {
    let now = Rc::new(Cell::new(1));
    let mut service = service(ManualTime(now.clone()));
    let error = service
        .register_with(|_| Err(io::Error::new(ErrorKind::InvalidInput, "no endpoint")))
        .unwrap_err();
    assert_eq!(
        io_failure(error),
        (
            Some(Handle(0)),
            IOServiceOperation::CreateEndpoint,
            ErrorKind::InvalidInput,
            "no endpoint".to_string()
        )
    );
    assert!(service.pending().is_empty());
    // the token is spent
    assert_eq!(service.register(TestEndpoint::new(1)).unwrap(), Handle(1));
}

#[test]
fn register_asks_for_the_address_of_the_endpoint() {
    let now = Rc::new(Cell::new(1));
    let dns = TestDns::default();
    let mut service = with_dns(&dns, &now);
    let mut endpoint = TestEndpoint::new(1);
    endpoint.connection_info = ConnectionInfo::new("example.com", 443);
    service.register(endpoint).unwrap();
    assert_eq!(*dns.asked.borrow(), ["example.com:443"]);
}

#[test]
fn register_reports_a_query_that_cannot_be_issued() {
    let now = Rc::new(Cell::new(1));
    let dns = TestDns::default();
    let mut service = with_dns(&dns, &now);
    dns.fail_query.set(true);
    let expected = |token: u32| {
        (
            Some(Handle(token)),
            IOServiceOperation::Resolve,
            ErrorKind::NotFound,
            "no resolver".to_string(),
        )
    };
    assert_eq!(io_failure(service.register(TestEndpoint::new(1)).unwrap_err()), expected(0));
    assert_eq!(io_failure(service.register_with(|_| Ok(TestEndpoint::new(1))).unwrap_err()), expected(1));
    assert!(service.pending().is_empty());
}

#[test]
fn deregister_takes_an_active_endpoint_out() {
    let now = Rc::new(Cell::new(1));
    let selector = TestSelector::default();
    let log = selector.log.clone();
    let mut service = with_selector(selector, &now);
    let handle = service.register(TestEndpoint::new(10)).unwrap();
    connect_next(&mut service, &now, 1);
    assert_eq!(service.deregister(handle).unwrap().unwrap().id, 10);
    assert!(service.iter().is_empty());
    assert!(service.deregister(handle).unwrap().is_none());
    assert_eq!(*log.borrow(), ["register 0", "unregister 0"]);
}

#[test]
fn deregister_takes_a_pending_endpoint_out() {
    let now = Rc::new(Cell::new(1));
    let mut service = service(ManualTime(now.clone()));
    for id in 0..4 {
        service.register(TestEndpoint::new(id)).unwrap();
    }
    assert_eq!(service.deregister(Handle(2)).unwrap().unwrap().id, 2);
    assert_eq!(waiting(&service), [0, 1, 3]);
    assert!(service.deregister(Handle(2)).unwrap().is_none());
    assert!(service.deregister(Handle(9)).unwrap().is_none());
    assert_eq!(waiting(&service), [0, 1, 3]);
}

#[test]
fn deregistering_undoes_registering() {
    let now = Rc::new(Cell::new(1));
    let mut service = service(ManualTime(now.clone()));
    service.register(TestEndpoint::new(0)).unwrap();
    connect_next(&mut service, &now, 1);
    service.register(TestEndpoint::new(1)).unwrap();
    let handle = service.register(TestEndpoint::new(2)).unwrap();
    assert_eq!(service.deregister(handle).unwrap().unwrap().id, 2);
    assert_eq!(active(&service), [0]);
    assert_eq!(waiting(&service), [1]);
}

#[test]
fn deregister_takes_the_active_one_of_a_doubled_token() {
    let now = Rc::new(Cell::new(1));
    let mut service = with_selector(TestSelector { repeat_token: true, ..Default::default() }, &now);
    service.register(TestEndpoint::new(10)).unwrap();
    connect_next(&mut service, &now, 1);
    service.register(TestEndpoint::new(11)).unwrap();
    assert_eq!(service.deregister(Handle(0)).unwrap().unwrap().id, 10);
    assert_eq!(service.deregister(Handle(0)).unwrap().unwrap().id, 11);
    assert!(service.deregister(Handle(0)).unwrap().is_none());
}

#[test]
fn deregister_reports_a_failing_selector() {
    let now = Rc::new(Cell::new(1));
    let mut service = with_selector(TestSelector { fail_unregister: true, ..Default::default() }, &now);
    service.register(TestEndpoint::new(10)).unwrap();
    connect_next(&mut service, &now, 1);
    let error = match service.deregister(Handle(0)) {
        Err(error) => error,
        Ok(_) => panic!("expected a failure"),
    };
    assert_eq!(
        io_failure(error),
        (
            Some(Handle(0)),
            IOServiceOperation::Unregister,
            ErrorKind::Other,
            "not found".to_string()
        )
    );
    assert_eq!(active(&service), [0]);
}

#[test]
fn pending_endpoints_are_tried_one_second_apart() {
    let now = Rc::new(Cell::new(5));
    let mut service = service(ManualTime(now.clone()));
    for id in 0..3 {
        service.register(TestEndpoint { silent: true, ..TestEndpoint::new(id) }).unwrap();
    }
    connect_next(&mut service, &now, 5);
    now.set(1_000_000_005);
    assert!(matches!(service.poll().unwrap(), IOServiceEvent::Idle));
    assert_eq!(waiting(&service), [1, 2]);
    connect_next(&mut service, &now, 1_000_000_006);
    assert!(matches!(service.poll().unwrap(), IOServiceEvent::Idle));
    connect_next(&mut service, &now, 2_000_000_007);
    assert_eq!(active(&service), [0, 1, 2]);
}

#[test]
fn nothing_is_tried_at_time_zero() {
    let now = Rc::new(Cell::new(0));
    let mut service = service(ManualTime(now.clone()));
    service.register(TestEndpoint::new(1)).unwrap();
    assert!(matches!(service.poll().unwrap(), IOServiceEvent::Idle));
    assert_eq!(waiting(&service), [0]);
    connect_next(&mut service, &now, 1);
}

#[test]
fn endpoint_without_an_address_yet_waits_last() {
    let now = Rc::new(Cell::new(1));
    let dns = TestDns::default();
    let mut service = with_dns(&dns, &now);
    service.register(TestEndpoint::new(0)).unwrap();
    service.register(TestEndpoint::new(1)).unwrap();
    dns.answers.borrow_mut().push_back(Err(io::Error::new(ErrorKind::WouldBlock, "not yet")));
    assert!(matches!(service.poll().unwrap(), IOServiceEvent::Idle));
    assert_eq!(waiting(&service), [1, 0]);
    // no new query was issued, and the next attempt waits
    assert_eq!(dns.asked.borrow().len(), 2);
    now.set(1_000_000_001);
    assert!(matches!(service.poll().unwrap(), IOServiceEvent::Idle));
    connect_next(&mut service, &now, 1_000_000_002);
    assert_eq!(active(&service), [1]);
}

#[test]
fn first_address_is_taken() {
    let now = Rc::new(Cell::new(1));
    let dns = TestDns::default();
    dns.answers.borrow_mut().push_back(Ok(vec![address(9), address(8)]));
    let mut service = with_dns(&dns, &now);
    service.register(TestEndpoint::new(0)).unwrap();
    connect_next(&mut service, &now, 1);
    assert_eq!(service.iter()[0].2.addr, Some(address(9)));
}

#[test]
fn empty_answer_is_reported() {
    let now = Rc::new(Cell::new(1));
    let dns = TestDns::default();
    dns.answers.borrow_mut().push_back(Ok(Vec::new()));
    let mut service = with_dns(&dns, &now);
    service.register(TestEndpoint::new(0)).unwrap();
    assert_eq!(
        io_failure(service.poll().unwrap_err()),
        (
            Some(Handle(0)),
            IOServiceOperation::Resolve,
            ErrorKind::Other,
            "dns resolution dio not return any address".to_string()
        )
    );
    assert!(service.pending().is_empty());
}

#[test]
fn failing_query_is_reported_and_starts_no_pause() {
    let now = Rc::new(Cell::new(1));
    let dns = TestDns::default();
    dns.answers.borrow_mut().push_back(Err(io::Error::new(ErrorKind::NotFound, "no such host")));
    let mut service = with_dns(&dns, &now);
    service.register(TestEndpoint::new(0)).unwrap();
    service.register(TestEndpoint::new(1)).unwrap();
    assert_eq!(
        io_failure(service.poll().unwrap_err()),
        (
            Some(Handle(0)),
            IOServiceOperation::Resolve,
            ErrorKind::NotFound,
            "no such host".to_string()
        )
    );
    assert_eq!(waiting(&service), [1]);
    connect_next(&mut service, &now, 1);
}

#[test]
fn query_times_out() {
    let now = Rc::new(Cell::new(10));
    let dns = TestDns::default();
    let mut service = with_dns(&dns, &now).with_dns_query_timeout(Duration::from_nanos(100));
    service.register(TestEndpoint::new(0)).unwrap();
    now.set(111);
    dns.answers.borrow_mut().push_back(Err(io::Error::new(ErrorKind::WouldBlock, "not yet")));
    assert_eq!(
        io_failure(service.poll().unwrap_err()),
        (
            Some(Handle(0)),
            IOServiceOperation::Resolve,
            ErrorKind::TimedOut,
            "dns resolution timed out".to_string()
        )
    );
    assert!(service.pending().is_empty());
}

#[test]
fn query_in_time_waits_for_its_answer() {
    let now = Rc::new(Cell::new(10));
    let dns = TestDns::default();
    let mut service = with_dns(&dns, &now).with_dns_query_timeout(Duration::from_nanos(100));
    service.register(TestEndpoint::new(0)).unwrap();
    now.set(110);
    dns.answers.borrow_mut().push_back(Err(io::Error::new(ErrorKind::WouldBlock, "not yet")));
    assert!(matches!(service.poll().unwrap(), IOServiceEvent::Idle));
    assert_eq!(waiting(&service), [0]);
}

#[test]
fn answer_is_never_too_late() {
    let now = Rc::new(Cell::new(10));
    let dns = TestDns::default();
    let mut service = with_dns(&dns, &now).with_dns_query_timeout(Duration::from_nanos(100));
    for id in 0..2 {
        service.register(TestEndpoint { silent: true, ..TestEndpoint::new(id) }).unwrap();
    }
    connect_next(&mut service, &now, 500);
    connect_next(&mut service, &now, 1_000_000_501);
    assert_eq!(active(&service), [0, 1]);
}

#[test]
fn blocked_query_answers_in_time() {
    let now = Rc::new(Cell::new(10));
    let dns = TestDns::default();
    let mut service = with_dns(&dns, &now).with_dns_query_timeout(Duration::new(1, 500));
    service.register(TestEndpoint::new(0)).unwrap();
    dns.answers.borrow_mut().push_back(Err(io::Error::new(ErrorKind::WouldBlock, "not yet")));
    assert!(matches!(service.poll().unwrap(), IOServiceEvent::Idle));
    connect_next(&mut service, &now, 1_000_000_510);
}

#[test]
fn late_blocked_query_is_not_polled() {
    let now = Rc::new(Cell::new(10));
    let dns = TestDns::default();
    let mut service = with_dns(&dns, &now).with_dns_query_timeout(Duration::from_secs(1));
    service.register(TestEndpoint::new(0)).unwrap();
    dns.answers.borrow_mut().push_back(Err(io::Error::new(ErrorKind::WouldBlock, "not yet")));
    assert!(matches!(service.poll().unwrap(), IOServiceEvent::Idle));
    dns.answers.borrow_mut().push_back(Ok(vec![address(7)]));
    now.set(1_000_000_011);
    assert_eq!(
        io_failure(service.poll().unwrap_err()),
        (
            Some(Handle(0)),
            IOServiceOperation::Resolve,
            ErrorKind::TimedOut,
            "dns resolution timed out".to_string()
        )
    );
    assert_eq!(dns.answers.borrow().len(), 1);
}

#[test]
fn new_query_starts_unblocked() {
    let now = Rc::new(Cell::new(10));
    let dns = TestDns::default();
    let mut service = with_dns(&dns, &now).with_dns_query_timeout(Duration::new(1, 500));
    let mut endpoint = TestEndpoint::new(0);
    endpoint.targets.push_back(Ok(false));
    service.register(endpoint).unwrap();
    dns.answers.borrow_mut().push_back(Err(io::Error::new(ErrorKind::WouldBlock, "not yet")));
    assert!(matches!(service.poll().unwrap(), IOServiceEvent::Idle));
    now.set(1_000_000_500);
    assert!(matches!(service.poll().unwrap(), IOServiceEvent::Idle));
    // the second query is late as well, but it answers when it is first polled
    connect_next(&mut service, &now, 9_000_000_000);
}

#[test]
fn late_failure_of_a_query_is_its_own() {
    let now = Rc::new(Cell::new(10));
    let dns = TestDns::default();
    let mut service = with_dns(&dns, &now).with_dns_query_timeout(Duration::from_nanos(100));
    service.register(TestEndpoint::new(0)).unwrap();
    now.set(500);
    dns.answers.borrow_mut().push_back(Err(io::Error::new(ErrorKind::NotFound, "no such host")));
    assert_eq!(io_failure(service.poll().unwrap_err()).2, ErrorKind::NotFound);
}

#[test]
fn unresolved_query_keeps_its_start() {
    let now = Rc::new(Cell::new(10));
    let dns = TestDns::default();
    let mut service = with_dns(&dns, &now).with_dns_query_timeout(Duration::new(1, 500));
    service.register(TestEndpoint::new(0)).unwrap();
    dns.answers.borrow_mut().push_back(Err(io::Error::new(ErrorKind::WouldBlock, "not yet")));
    assert!(matches!(service.poll().unwrap(), IOServiceEvent::Idle));
    // the query would answer now, but it is too late
    now.set(1_000_000_511);
    assert_eq!(io_failure(service.poll().unwrap_err()).2, ErrorKind::TimedOut);
}

#[test]
fn failing_target_is_reported() {
    let now = Rc::new(Cell::new(1));
    let mut service = service(ManualTime(now.clone()));
    let mut endpoint = TestEndpoint::new(0);
    endpoint.targets.push_back(Err(io::Error::new(ErrorKind::ConnectionRefused, "refused")));
    service.register(endpoint).unwrap();
    assert_eq!(
        io_failure(service.poll().unwrap_err()),
        (
            Some(Handle(0)),
            IOServiceOperation::CreateTarget,
            ErrorKind::ConnectionRefused,
            "refused".to_string()
        )
    );
    assert!(service.pending().is_empty());
    assert!(service.iter().is_empty());
}

#[test]
fn endpoint_that_does_not_connect_yet_waits_with_a_new_query() {
    let now = Rc::new(Cell::new(1));
    let dns = TestDns::default();
    let mut service = with_dns(&dns, &now);
    let mut endpoint = TestEndpoint::new(0);
    endpoint.targets.push_back(Ok(false));
    service.register(endpoint).unwrap();
    service.register(TestEndpoint::new(1)).unwrap();
    assert!(matches!(service.poll().unwrap(), IOServiceEvent::Idle));
    assert_eq!(waiting(&service), [1, 0]);
    assert_eq!(dns.asked.borrow().len(), 3);
    connect_next(&mut service, &now, 1_000_000_002);
    connect_next(&mut service, &now, 2_000_000_003);
    assert_eq!(active(&service), [0, 1]);
}

#[test]
fn endpoint_that_does_not_connect_yet_is_dropped_without_a_new_query() {
    let now = Rc::new(Cell::new(1));
    let dns = TestDns::default();
    let mut service = with_dns(&dns, &now);
    let mut endpoint = TestEndpoint::new(0);
    endpoint.targets.push_back(Ok(false));
    service.register(endpoint).unwrap();
    dns.fail_query.set(true);
    let failure = io_failure(service.poll().unwrap_err());
    assert_eq!((failure.0, failure.1), (Some(Handle(0)), IOServiceOperation::Resolve));
    assert!(service.pending().is_empty());
}

#[test]
fn endpoint_that_the_selector_refuses_is_reported() {
    let now = Rc::new(Cell::new(1));
    let mut service = with_selector(TestSelector { fail_register: true, ..Default::default() }, &now);
    service.register(TestEndpoint::new(0)).unwrap();
    assert_eq!(
        io_failure(service.poll().unwrap_err()),
        (
            Some(Handle(0)),
            IOServiceOperation::Register,
            ErrorKind::Other,
            "no room".to_string()
        )
    );
    assert!(service.pending().is_empty());
    assert!(service.iter().is_empty());
}

#[test]
fn doubled_token_is_reported() {
    let now = Rc::new(Cell::new(1));
    let mut service = with_selector(TestSelector { repeat_token: true, ..Default::default() }, &now);
    service.register(TestEndpoint::new(10)).unwrap();
    service.register(TestEndpoint::new(11)).unwrap();
    connect_next(&mut service, &now, 1);
    now.set(1_000_000_002);
    match service.poll().unwrap_err() {
        IOServiceError::InvalidState { handle, message } => {
            assert_eq!(handle, Some(Handle(0)));
            assert_eq!(message, "endpoint token is already active");
        }
        other => panic!("unexpected error: {other:?}"),
    }
    assert_eq!(service.iter()[0].2.id, 10);
    assert!(service.pending().is_empty());
}

#[test]
fn failing_selector_is_reported() {
    let now = Rc::new(Cell::new(1));
    let selector = TestSelector::default();
    let fail_poll = selector.fail_poll.clone();
    let mut service = with_selector(selector, &now);
    service.register(TestEndpoint::new(0)).unwrap();
    connect_next(&mut service, &now, 1);
    fail_poll.set(true);
    assert_eq!(
        io_failure(service.poll().unwrap_err()),
        (
            None,
            IOServiceOperation::PollSelector,
            ErrorKind::Interrupted,
            "selector".to_string()
        )
    );
    assert_eq!(active(&service), [0]);
}

#[test]
fn failed_endpoint_is_disconnected_by_the_next_poll() {
    let now = Rc::new(Cell::new(1));
    let dns = TestDns::default();
    let mut service = with_dns(&dns, &now);
    service.register(TestEndpoint::failing(0)).unwrap();
    connect_next(&mut service, &now, 1);
    service.register(TestEndpoint::new(1)).unwrap();
    assert!(matches!(service.poll().unwrap(), IOServiceEvent::Idle));
    assert_eq!(active(&service), [0]);
    // a pending endpoint would be due, but the disconnection comes first
    now.set(5_000_000_000);
    match service.poll().unwrap() {
        IOServiceEvent::Disconnected { handle, reason } => {
            assert_eq!(handle, Handle(0));
            assert_eq!(reason.to_string(), "test disconnect");
        }
        other => panic!("unexpected event: {other:?}"),
    }
    assert!(service.iter().is_empty());
    assert_eq!(waiting(&service), [1, 0]);
    assert_eq!(service.pending()[1].1.reasons, ["test disconnect"]);
    assert_eq!(dns.asked.borrow().len(), 3);
    // and it reconnects under its handle in its turn
    connect_next(&mut service, &now, 5_000_000_001);
    assert_eq!(active(&service), [1]);
    connect_next(&mut service, &now, 6_000_000_002);
    assert_eq!(active(&service), [0, 1]);
}

#[test]
fn disconnected_endpoint_is_dropped_without_a_new_query() {
    let now = Rc::new(Cell::new(1));
    let dns = TestDns::default();
    let mut service = with_dns(&dns, &now);
    service.register(TestEndpoint::failing(0)).unwrap();
    connect_next(&mut service, &now, 1);
    assert!(matches!(service.poll().unwrap(), IOServiceEvent::Idle));
    dns.fail_query.set(true);
    let failure = io_failure(service.poll().unwrap_err());
    assert_eq!((failure.0, failure.1), (Some(Handle(0)), IOServiceOperation::Resolve));
    assert!(service.iter().is_empty());
    assert!(service.pending().is_empty());
}

#[test]
fn endpoint_that_the_selector_keeps_stays_active() {
    let now = Rc::new(Cell::new(1));
    let mut service = with_selector(TestSelector { fail_unregister: true, ..Default::default() }, &now);
    service.register(TestEndpoint::failing(0)).unwrap();
    connect_next(&mut service, &now, 1);
    assert!(matches!(service.poll().unwrap(), IOServiceEvent::Idle));
    let failure = io_failure(service.poll().unwrap_err());
    assert_eq!((failure.0, failure.1), (Some(Handle(0)), IOServiceOperation::Unregister));
    assert_eq!(active(&service), [0]);
    // the next poll finds it failed once more
    assert!(matches!(service.poll().unwrap(), IOServiceEvent::Idle));
}

#[test]
fn endpoints_are_not_ended_before_their_time() {
    let now = Rc::new(Cell::new(1));
    let mut service = service(ManualTime(now.clone())).with_auto_disconnect(Duration::from_secs(10));
    service.register(TestEndpoint::new(3)).unwrap();
    connect_next(&mut service, &now, 1);
    now.set(10_000_000_001);
    assert!(matches!(service.poll().unwrap(), IOServiceEvent::Data { event: 3, .. }));
    now.set(10_000_000_002);
    match service.poll().unwrap() {
        IOServiceEvent::Disconnected { handle, reason } => {
            assert_eq!(handle, Handle(0));
            assert_eq!(reason.to_string(), "auto-disconnect after 10s");
        }
        other => panic!("unexpected event: {other:?}"),
    }
    assert!(service.iter().is_empty());
    assert_eq!(waiting(&service), [0]);
    assert_eq!(service.pending()[0].1.reasons, ["auto-disconnect after 10s"]);
}

#[test]
fn endpoints_without_ttl_are_never_ended() {
    let now = Rc::new(Cell::new(1));
    let mut service = service(ManualTime(now.clone()));
    service.register(TestEndpoint::new(3)).unwrap();
    connect_next(&mut service, &now, 1);
    now.set(u64::MAX);
    assert!(matches!(service.poll().unwrap(), IOServiceEvent::Data { event: 3, .. }));
}

#[test]
fn ended_endpoint_may_decline_recreation() {
    let now = Rc::new(Cell::new(1));
    let mut service = service(ManualTime(now.clone())).with_auto_disconnect(Duration::from_nanos(7));
    service.register(TestEndpoint { recreate: false, ..TestEndpoint::new(3) }).unwrap();
    connect_next(&mut service, &now, 1);
    now.set(9);
    match service.poll().unwrap_err() {
        IOServiceError::EndpointNotRecreatable { handle, reason: DisconnectReason::AutoDisconnect(ttl) } => {
            assert_eq!(handle, Handle(0));
            assert_eq!(ttl, Duration::from_nanos(7));
        }
        other => panic!("unexpected error: {other:?}"),
    }
    assert!(service.iter().is_empty());
    assert!(service.pending().is_empty());
}

#[test]
fn endpoint_may_put_its_end_off() {
    let now = Rc::new(Cell::new(1));
    let spans = Rc::new(RefCell::new(vec![3u64, 50]));
    let supplied = spans.clone();
    let mut service = service(ManualTime(now.clone()))
        .with_auto_disconnect_supplier(move || Duration::from_nanos(supplied.borrow_mut().pop().unwrap_or(1_000)));
    service.register(TestEndpoint { auto_disconnect: false, ..TestEndpoint::new(3) }).unwrap();
    connect_next(&mut service, &now, 1);
    // due after 51, then after 54, then after 1054
    now.set(51);
    assert!(matches!(service.poll().unwrap(), IOServiceEvent::Data { event: 3, .. }));
    assert_eq!(spans.borrow().len(), 1);
    now.set(52);
    assert!(matches!(service.poll().unwrap(), IOServiceEvent::Data { event: 3, .. }));
    assert_eq!(spans.borrow().len(), 0);
    for (_, _, endpoint) in service.iter_mut() {
        endpoint.auto_disconnect = true;
    }
    now.set(54);
    assert!(matches!(service.poll().unwrap(), IOServiceEvent::Data { event: 3, .. }));
    now.set(55);
    match service.poll().unwrap() {
        IOServiceEvent::Disconnected { reason: DisconnectReason::AutoDisconnect(ttl), .. } => {
            assert_eq!(ttl, Duration::from_nanos(50));
        }
        other => panic!("unexpected event: {other:?}"),
    }
}

#[test]
fn dispatch_reaches_an_active_endpoint() {
    let now = Rc::new(Cell::new(1));
    let mut service = service(ManualTime(now.clone()));
    let handle = service.register(TestEndpoint::new(3)).unwrap();
    connect_next(&mut service, &now, 1);
    let before = service
        .dispatch(handle, |_target, endpoint| {
            endpoint.id += 1;
            Ok(endpoint.id - 1)
        })
        .unwrap();
    assert_eq!(before, Some(3));
    assert!(matches!(service.poll().unwrap(), IOServiceEvent::Data { event: 4, .. }));
}

#[test]
fn dispatch_passes_the_failure_of_the_action_on() {
    let now = Rc::new(Cell::new(1));
    let mut service = service(ManualTime(now.clone()));
    let handle = service.register(TestEndpoint::new(3)).unwrap();
    connect_next(&mut service, &now, 1);
    let error = service
        .dispatch::<_, ()>(handle, |_, _| Err(io::Error::new(ErrorKind::BrokenPipe, "pipe")))
        .unwrap_err();
    assert_eq!(error.kind(), ErrorKind::BrokenPipe);
    assert_eq!(active(&service), [0]);
}

#[test]
fn dispatch_leaves_inactive_endpoints_alone() {
    let now = Rc::new(Cell::new(1));
    let mut service = service(ManualTime(now.clone()));
    let handle = service.register(TestEndpoint::new(3)).unwrap();
    let mut calls = 0;
    let result = service
        .dispatch(handle, |_, _| {
            calls += 1;
            Ok(())
        })
        .unwrap();
    assert_eq!(result, None);
    assert_eq!(calls, 0);
    assert_eq!(waiting(&service), [0]);
}

#[test]
fn iter_comes_by_ascending_handle() {
    let now = Rc::new(Cell::new(1));
    let mut service = service(ManualTime(now.clone()));
    for id in 0..3 {
        service.register(TestEndpoint { silent: true, ..TestEndpoint::new(id + 5) }).unwrap();
    }
    connect_next(&mut service, &now, 1);
    connect_next(&mut service, &now, 1_000_000_002);
    connect_next(&mut service, &now, 2_000_000_003);
    for (handle, _target, endpoint) in service.iter_mut() {
        endpoint.id += handle.0 * 100;
    }
    let ids: Vec<u32> = service.iter().iter().map(|(_, _, endpoint)| endpoint.id).collect();
    assert_eq!(ids, [5, 106, 207]);
}

#[test]
fn deregistering_the_last_endpoint_costs_no_other_its_turn() {
    let now = Rc::new(Cell::new(1));
    let mut service = service(ManualTime(now.clone()));
    let handles: Vec<Handle> = (0..5).map(|id| service.register(TestEndpoint::new(id)).unwrap()).collect();
    for k in 0..5u64 {
        connect_next(&mut service, &now, 1 + k * 1_000_000_001);
    }
    for id in 0..5 {
        match service.poll().unwrap() {
            IOServiceEvent::Data { event, .. } => assert_eq!(event, id),
            other => panic!("unexpected event: {other:?}"),
        }
    }
    service.deregister(handles[4]).unwrap();
    assert!(matches!(service.poll().unwrap(), IOServiceEvent::Data { event: 0, .. }));
    assert!(matches!(service.poll().unwrap(), IOServiceEvent::Data { event: 1, .. }));
}

#[test]
fn handles_lead_to_what_iter_shows() {
    let now = Rc::new(Cell::new(1));
    let mut service = service(ManualTime(now.clone()));
    for id in 0..4 {
        service.register(TestEndpoint { silent: true, ..TestEndpoint::new(id + 30) }).unwrap();
    }
    service.deregister(Handle(1)).unwrap();
    for k in 0..3u64 {
        connect_next(&mut service, &now, 1 + k * 1_000_000_001);
    }
    service.register(TestEndpoint::new(99)).unwrap();
    let shown: Vec<(Handle, u32)> = service.iter().iter().map(|(h, _, e)| (*h, e.id)).collect();
    assert_eq!(shown, [(Handle(0), 30), (Handle(2), 32), (Handle(3), 33)]);
    for (handle, _, endpoint) in service.iter_mut() {
        if handle != Handle(2) {
            endpoint.id += 100;
        }
    }
    let ids: Vec<Option<u32>> = (0..5)
        .map(|token| service.dispatch(Handle(token), |_, endpoint| Ok(endpoint.id)).unwrap())
        .collect();
    assert_eq!(ids, [Some(130), None, Some(32), Some(133), None]);
    assert_eq!(waiting(&service), [4]);
}

#[test]
fn run_keeps_registered_endpoints() {
    let now = Rc::new(Cell::new(1));
    let mut service = service(ManualTime(now.clone()));
    let mut live = Vec::new();
    for step in 0..60u64 {
        now.set(1 + step * 400_000_000);
        if step % 7 == 0 {
            let endpoint = if step % 2 == 0 { TestEndpoint::new(0) } else { TestEndpoint::failing(1) };
            live.push(service.register(endpoint).unwrap().0);
        }
        if step % 13 == 12 {
            let token = live.remove(0);
            assert!(service.deregister(Handle(token)).unwrap().is_some());
        }
        service.poll().unwrap();
        let mut all = active(&service);
        all.extend(waiting(&service));
        all.sort();
        assert_eq!(all, live);
    }
}

#[test]
fn silent_endpoints_are_idle_and_pass_the_turn_on() {
    let now = Rc::new(Cell::new(1));
    let mut service = service(ManualTime(now.clone()));
    service.register(TestEndpoint { silent: true, ..TestEndpoint::new(0) }).unwrap();
    service.register(TestEndpoint::new(1)).unwrap();
    connect_next(&mut service, &now, 1);
    connect_next(&mut service, &now, 1_000_000_002);
    assert!(matches!(service.poll().unwrap(), IOServiceEvent::Idle));
    assert!(matches!(service.poll().unwrap(), IOServiceEvent::Data { event: 1, .. }));
    assert!(matches!(service.poll().unwrap(), IOServiceEvent::Idle));
}

#[test]
fn no_endpoint_gets_lost() {
    let now = Rc::new(Cell::new(1));
    let mut service = service(ManualTime(now.clone()));
    service.register(TestEndpoint::failing(0)).unwrap();
    service.register(TestEndpoint::new(1)).unwrap();
    service.register(TestEndpoint { silent: true, ..TestEndpoint::new(2) }).unwrap();
    for step in 0..40u64 {
        now.set(1 + step * 600_000_000);
        service.poll().unwrap();
        let mut all = active(&service);
        all.extend(waiting(&service));
        all.sort();
        assert_eq!(all, [0, 1, 2]);
    }
}

#[test]
fn another_time_source_starts_over() {
    let now = Rc::new(Cell::new(1));
    let mut service = service(ManualTime(now.clone())).with_auto_disconnect(Duration::from_nanos(7));
    service.register(TestEndpoint::new(0)).unwrap();
    service.register(TestEndpoint::new(1)).unwrap();
    connect_next(&mut service, &now, 1);
    let later = Rc::new(Cell::new(1_000_000_001));
    let mut service = service.with_time_source(ManualTime(later.clone()));
    assert!(service.iter().is_empty());
    assert!(service.pending().is_empty());
    // the pause and the time to live stay, and tokens go on
    assert_eq!(service.register(TestEndpoint::new(2)).unwrap(), Handle(2));
    assert!(matches!(service.poll().unwrap(), IOServiceEvent::Idle));
    connect_next(&mut service, &later, 1_000_000_002);
    later.set(1_000_000_010);
    assert!(matches!(service.poll().unwrap(), IOServiceEvent::Disconnected { .. }));
}

#[test]
fn another_resolver_starts_over() {
    let now = Rc::new(Cell::new(1));
    let mut service = service(ManualTime(now.clone())).with_dns_query_timeout(Duration::from_nanos(5));
    service.register(TestEndpoint::new(0)).unwrap();
    let dns = TestDns::default();
    let mut service = service.with_dns_resolver(dns.clone());
    assert!(service.pending().is_empty());
    service.register(TestEndpoint::new(1)).unwrap();
    assert_eq!(*dns.asked.borrow(), ["localhost:1234"]);
    now.set(7);
    dns.answers.borrow_mut().push_back(Err(io::Error::new(ErrorKind::WouldBlock, "not yet")));
    assert_eq!(io_failure(service.poll().unwrap_err()).2, ErrorKind::TimedOut);
}

#[test]
fn selector_turns_into_a_service() {
    let mut service = TestSelector { next_token: 4, ..Default::default() }.into_io_service();
    assert_eq!(service.register(TestEndpoint::new(0)).unwrap(), Handle(4));
    match service.poll().unwrap() {
        IOServiceEvent::Connected { handle } => assert_eq!(handle, Handle(4)),
        other => panic!("unexpected event: {other:?}"),
    }
}

#[test]
fn default_handle_is_zero() {
    assert_eq!(Handle::default(), Handle(0));
}
