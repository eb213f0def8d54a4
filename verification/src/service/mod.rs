//! Service to manage multiple endpoint lifecycle.

use vstd::prelude::*;

use std::collections::VecDeque;
use std::marker::PhantomData;

use crate::io;
use crate::net::SocketAddr;
use crate::service::dns::{DnsQuery, DnsResolver};
use crate::service::endpoint::{Context, DisconnectReason};
use crate::service::error::IOServiceOperation;
use crate::service::model::{DueEndpoint, IOServiceView};
use crate::service::node::{IONode, IONodes};
use crate::service::select::{Selector, SelectorToken, Selects};
use crate::service::time::{Duration, TimeSource, TtlFn, TtlSupplier};
use crate::stream::ConnectionInfoProvider;

pub mod dns;
pub mod endpoint;
pub mod error;
pub mod lifecycle_laws;
pub mod model;
pub mod node;
pub mod outcome;
mod poll;
pub mod poll_laws;
mod poll_with_context;
pub mod reply_laws;
pub mod reply_laws_with_context;
pub mod run_laws;
pub mod select;
pub mod service_laws;
pub mod slots;
pub mod storage_laws;
pub mod time;
pub mod timeout_laws;
pub mod value_laws;

pub use crate::service::error::IOServiceError;

verus! {

/// Endpoint handle.
#[derive(Debug, Copy, Clone, Eq, PartialEq, Ord, PartialOrd, Hash, Structural)]
pub struct Handle(pub SelectorToken);

impl Default for Handle {
    fn default() -> (handle: Handle)
        ensures
            handle == Handle(0),
    {
        Handle(0)
    }
}

/// Pause after a pending endpoint was tried, in nanoseconds.
pub const ENDPOINT_CREATION_THROTTLE_NS: u64 = 1_000_000_000;

/// An endpoint that waits for a connection.
pub struct PendingEndpoint<Q, E> {
    /// Handle of the endpoint.
    pub handle: Handle,
    /// Query for the address of the endpoint.
    pub query: Q,
    /// When the query was issued.
    pub created_ns: u64,
    /// The query was polled and had no answer.
    pub blocked: bool,
    /// The endpoint.
    pub endpoint: E,
}

/// One unit of work produced by polling the service.
#[derive(Debug)]
pub enum IOServiceEvent<E> {
    /// An endpoint became active.
    Connected {
        /// Connected endpoint handle.
        handle: Handle,
    },
    /// An endpoint disconnected and was scheduled for recreation.
    Disconnected {
        /// Disconnected endpoint handle.
        handle: Handle,
        /// Cause of the disconnection.
        reason: DisconnectReason,
    },
    /// Data produced by one endpoint.
    Data {
        /// Endpoint that produced the data.
        handle: Handle,
        /// Endpoint-defined event.
        event: E,
    },
    /// No endpoint produced work during this service poll.
    Idle,
}

/// Handles the lifecycle of endpoints, which are typically network connections. It uses a
/// [`Selector`] for managing asynchronous I/O operations.
pub struct IOService<S: Selector, E, C, TS, D: DnsResolver> {
    selector: S,
    pending_endpoints: VecDeque<PendingEndpoint<D::Query, E>>,
    io_nodes: IONodes<S::Target, E>,
    pending_disconnects: VecDeque<(Handle, DisconnectReason)>,
    next_endpoint_create_time_ns: u64,
    context: PhantomData<C>,
    auto_disconnect: Option<Box<dyn TtlSupplier>>,
    time_source: TS,
    dns_resolver: D,
    dns_query_timeout_ns: Option<u64>,
}

/// Defines how an instance that implements [`Selector`] can be transformed into an [`IOService`],
/// facilitating the management of asynchronous I/O operations.
pub trait IntoIOService<E>: Sized {
    /// Where the service reads the time from.
    type TimeSource;

    /// Issues the queries for the addresses of endpoints.
    type DnsResolver: DnsResolver;

    /// [`IntoIOService::into_io_service`] may turn this into the service `service`. The relation is
    /// the implementation's own: it admits everything unless that says more.
    open spec fn converted(
        self,
        service: IOServiceView<Self, E, Self::TimeSource, Self::DnsResolver>,
    ) -> bool where Self: Selector {
        true
    }

    /// The service that uses this selector.
    fn into_io_service(self) -> (service: IOService<
        Self,
        E,
        (),
        Self::TimeSource,
        Self::DnsResolver,
    >) where Self: Selector
        ensures
            service.wf(),
            self.converted(service@),
    ;
}

/// Defines how an instance that implements [`Selector`] can be transformed into an [`IOService`]
/// with [`Context`], facilitating the management of asynchronous I/O operations.
pub trait IntoIOServiceWithContext<E, C: Context>: Sized {
    /// Where the service reads the time from.
    type TimeSource;

    /// Issues the queries for the addresses of endpoints.
    type DnsResolver: DnsResolver;

    /// [`IntoIOServiceWithContext::into_io_service_with_context`] may turn this into the service
    /// `service`. The relation is the implementation's own: it admits everything unless that
    /// says more.
    open spec fn converted(
        self,
        service: IOServiceView<Self, E, Self::TimeSource, Self::DnsResolver>,
    ) -> bool where Self: Selector {
        true
    }

    /// The service that uses this selector.
    fn into_io_service_with_context(self) -> (service: IOService<
        Self,
        E,
        C,
        Self::TimeSource,
        Self::DnsResolver,
    >) where Self: Selector
        ensures
            service.wf(),
            self.converted(service@),
    ;
}

impl<S: Selector, E, C, TS, D: DnsResolver> View for IOService<S, E, C, TS, D> {
    type V = IOServiceView<S, E, TS, D>;

    closed spec fn view(&self) -> IOServiceView<S, E, TS, D> {
        IOServiceView {
            selector: self.selector,
            pending: self.pending_endpoints@,
            nodes: self.io_nodes@,
            disconnects: self.pending_disconnects@,
            next_create_ns: self.next_endpoint_create_time_ns,
            auto_disconnect: self.auto_disconnect,
            time_source: self.time_source,
            dns_resolver: self.dns_resolver,
            dns_query_timeout_ns: self.dns_query_timeout_ns,
        }
    }
}

impl<S: Selector, E, C, TS, D: DnsResolver> IOService<S, E, C, TS, D> {
    /// The number of active endpoints is kept.
    pub closed spec fn counted(&self) -> bool {
        self.io_nodes.counted()
    }

    /// The service is well formed.
    pub open spec fn wf(&self) -> bool {
        self@.valid() && self.counted()
    }

    /// Creates new instance of [`IOService`].
    pub fn new(selector: S, time_source: TS, dns_resolver: D) -> (service: IOService<
        S,
        E,
        C,
        TS,
        D,
    >)
        ensures
            service.wf(),
            service@ == IOServiceView::<S, E, TS, D>::fresh(selector, time_source, dns_resolver),
    {
        IOService {
            selector,
            pending_endpoints: VecDeque::new(),
            io_nodes: IONodes::default(),
            pending_disconnects: VecDeque::new(),
            next_endpoint_create_time_ns: 0,
            context: PhantomData,
            auto_disconnect: None,
            time_source,
            dns_resolver,
            dns_query_timeout_ns: None,
        }
    }

    /// Specify TTL for each endpoint connection.
    pub fn with_auto_disconnect(self, auto_disconnect: Duration) -> (service: IOService<
        S,
        E,
        C,
        TS,
        D,
    >)
        ensures
            self.wf() ==> service.wf(),
            service@.auto_disconnect matches Some(supplier) && forall|ttl: Duration| #[trigger]
                supplier.supplies(ttl) ==> ttl == auto_disconnect,
            service@ == (IOServiceView { auto_disconnect: service@.auto_disconnect, ..self@ }),
    {
        let supplier = move || -> (ttl: Duration)
            ensures
                (ttl == auto_disconnect),
            { auto_disconnect };
        self.with_auto_disconnect_supplier(supplier)
    }

    /// Specify TTL supplier for each endpoint connection.
    pub fn with_auto_disconnect_supplier<F>(self, f: F) -> (service: IOService<S, E, C, TS, D>)
        where F: Fn() -> Duration + 'static
        requires
            call_requires(f, ()),
        ensures
            self.wf() ==> service.wf(),
            service@.auto_disconnect matches Some(supplier) && forall|ttl: Duration| #[trigger]
                supplier.supplies(ttl) <==> call_ensures(f, (), ttl),
            service@ == (IOServiceView { auto_disconnect: service@.auto_disconnect, ..self@ }),
    {
        let supplier: Box<dyn TtlSupplier> = Box::new(TtlFn::new(f));
        let auto_disconnect = Some(supplier);
        IOService { auto_disconnect, ..self }
    }

    /// Specify DNS query timeout. This is only relevant when using an asynchronous form of
    /// [`DnsResolver`]: a query that answers when it is first polled is never too late.
    pub fn with_dns_query_timeout(self, timeout: Duration) -> (service: IOService<S, E, C, TS, D>)
        ensures
            self.wf() ==> service.wf(),
            service@ == (IOServiceView {
                dns_query_timeout_ns: Some(crate::service::time::low_64_bits(timeout@) as u64),
                ..self@
            }),
    {
        IOService { dns_query_timeout_ns: Some(timeout.as_nanos_64()), ..self }
    }

    /// Specify custom [`TimeSource`]. Endpoints that were registered before are dropped.
    pub fn with_time_source<T: TimeSource>(self, time_source: T) -> (service: IOService<
        S,
        E,
        C,
        T,
        D,
    >)
        ensures
            service.wf(),
            service@ == (IOServiceView {
                next_create_ns: self@.next_create_ns,
                auto_disconnect: self@.auto_disconnect,
                dns_query_timeout_ns: self@.dns_query_timeout_ns,
                ..IOServiceView::<S, E, T, D>::fresh(
                    self@.selector,
                    time_source,
                    self@.dns_resolver,
                )
            }),
    {
        IOService {
            time_source,
            pending_endpoints: VecDeque::new(),
            context: self.context,
            auto_disconnect: self.auto_disconnect,
            io_nodes: IONodes::default(),
            pending_disconnects: VecDeque::new(),
            next_endpoint_create_time_ns: self.next_endpoint_create_time_ns,
            selector: self.selector,
            dns_resolver: self.dns_resolver,
            dns_query_timeout_ns: self.dns_query_timeout_ns,
        }
    }

    /// Specify custom [`DnsResolver`]. Endpoints that were registered before are dropped.
    pub fn with_dns_resolver<DR: DnsResolver>(self, dns_resolver: DR) -> (service: IOService<
        S,
        E,
        C,
        TS,
        DR,
    >)
        ensures
            service.wf(),
            service@ == (IOServiceView {
                next_create_ns: self@.next_create_ns,
                auto_disconnect: self@.auto_disconnect,
                dns_query_timeout_ns: self@.dns_query_timeout_ns,
                ..IOServiceView::<S, E, TS, DR>::fresh(
                    self@.selector,
                    self@.time_source,
                    dns_resolver,
                )
            }),
    {
        IOService {
            time_source: self.time_source,
            pending_endpoints: VecDeque::new(),
            context: self.context,
            auto_disconnect: self.auto_disconnect,
            io_nodes: IONodes::default(),
            pending_disconnects: VecDeque::new(),
            next_endpoint_create_time_ns: self.next_endpoint_create_time_ns,
            selector: self.selector,
            dns_resolver,
            dns_query_timeout_ns: self.dns_query_timeout_ns,
        }
    }

    /// Register a new endpoint with the service and return a handle to it.
    pub fn register(&mut self, endpoint: E) -> (result: Result<Handle, IOServiceError>) where
        E: ConnectionInfoProvider,
        TS: TimeSource,
        ensures
            old(self).wf() ==> final(self).wf(),
            old(self)@.registered(endpoint, final(self)@, result),
    {
        let token: SelectorToken = self.selector.next_token();
        let handle = Handle(token);
        let scheduling = self.schedule_reconnect(handle, endpoint);
        assert(S::issued(old(self)@.selector, self@.selector, token));
        match scheduling {
            Ok(()) => Ok(handle),
            Err(e) => Err(e),
        }
    }

    /// Register a new endpoint with the service using the provided factory and return a handle to
    /// it.
    pub fn register_with<F>(&mut self, endpoint_factory: F) -> (result: Result<
        Handle,
        IOServiceError,
    >) where
        E: ConnectionInfoProvider,
        TS: TimeSource,
        F: FnOnce(Handle) -> Result<E, io::Error>,
        requires
            forall|handle: Handle| call_requires(endpoint_factory, (handle,)),
        ensures
            old(self).wf() ==> final(self).wf(),
            exists|token: SelectorToken, made: Result<E, io::Error>|
                {
                    let known = IOServiceView { selector: final(self)@.selector, ..old(self)@ };
                    &&& S::issued(old(self)@.selector, final(self)@.selector, token)
                    &&& #[trigger] call_ensures(endpoint_factory, (Handle(token),), made)
                    &&& match made {
                        Ok(endpoint) => {
                            &&& known.enrolled(Handle(token), endpoint, final(self)@, result)
                            &&& old(self)@.registered(endpoint, final(self)@, result)
                        },
                        Err(source) => {
                            &&& result == Err::<Handle, _>(
                                IOServiceError::Io {
                                    handle: Some(Handle(token)),
                                    operation: IOServiceOperation::CreateEndpoint,
                                    source,
                                },
                            )
                            &&& final(self)@ == known
                        },
                    }
                },
    {
        let token: SelectorToken = self.selector.next_token();
        let handle = Handle(token);
        match endpoint_factory(handle) {
            Err(source) => Err(
                IOServiceError::io(Some(handle), IOServiceOperation::CreateEndpoint, source),
            ),
            Ok(endpoint) => match self.schedule_reconnect(handle, endpoint) {
                Ok(()) => Ok(handle),
                Err(e) => Err(e),
            },
        }
    }

    /// Forgets the queued disconnections of an endpoint.
    fn forget_disconnects(&mut self, handle: Handle)
        ensures
            old(self).wf() ==> final(self).wf(),
            final(self)@ == (IOServiceView {
                disconnects: crate::service::model::without_handle(old(self)@.disconnects, handle),
                ..old(self)@
            }),
            forall|k: int|
                0 <= k < final(self)@.disconnects.len() ==> (
                #[trigger] final(self)@.disconnects[k]).0 != handle,
    {
        let ghost all = self.pending_disconnects@;
        let ghost keep = crate::service::model::other_than(handle);
        let total: usize = self.pending_disconnects.len();
        let mut kept: VecDeque<(Handle, DisconnectReason)> = VecDeque::new();
        let mut seen: usize = 0;
        assert(all.take(0).filter(keep) == Seq::<(Handle, DisconnectReason)>::empty()) by {
            reveal(Seq::filter);
        }
        while seen < total
            invariant
                seen <= total,
                total == all.len(),
                self.pending_disconnects@ == all.skip(seen as int),
                kept@ == all.take(seen as int).filter(keep),
                keep == crate::service::model::other_than(handle),
                old(self)@.disconnects == all,
                old(self).wf() ==> self.wf(),
                self@ == (IOServiceView { disconnects: self@.disconnects, ..old(self)@ }),
            decreases total - seen,
        {
            proof {
                reveal(Seq::filter);
                assert(all.take(seen + 1).drop_last() == all.take(seen as int));
                assert(all.skip(seen as int).drop_first() == all.skip(seen + 1));
            }
            if let Some(entry) = self.pending_disconnects.pop_front() {
                if entry.0 != handle {
                    kept.push_back(entry);
                }
            }
            seen = seen + 1;
        }
        assert(all.take(total as int) == all);
        self.pending_disconnects = kept;
        proof {
            crate::service::model::without_handle_leaves_others(all, handle);
            assert forall|k: int| #![trigger self@.disconnects[k]]
                old(self).wf() && 0 <= k < self@.disconnects.len() implies self@.nodes.node(
                self@.disconnects[k].0.0,
            ) is Some && self@.disconnects[k].1 is IO by {
                let j = choose|j: int| 0 <= j < all.len() && all[j] == self@.disconnects[k];
                assert(old(self)@.disconnects[j] == self@.disconnects[k]);
            }
        }
    }

    /// The first address that a query gives, nothing if it has no answer yet and may take longer. A
    /// query that is known to be asynchronous, as it had no answer before, has to be in time to be
    /// polled.
    fn resolve_dns(
        &self,
        query: &mut D::Query,
        created_time_ns: u64,
        blocked: bool,
    ) -> (result: Result<Option<SocketAddr>, io::Error>) where TS: TimeSource
        ensures
            self@.resolved(*old(query), created_time_ns, blocked, *final(query), result),
    {
        if blocked && self.is_late(created_time_ns) {
            return Err(io::Error::new(io::ErrorKind::TimedOut, "dns resolution timed out"));
        }
        let answer = query.poll();
        assert(D::Query::polled(*old(query), *query, answer));
        match answer {
            Ok(addrs) => if addrs.len() > 0 {
                Ok(Some(addrs[0]))
            } else {
                Err(io::Error::other("dns resolution dio not return any address"))
            },
            Err(err) => if err.kind() != io::ErrorKind::WouldBlock {
                Err(err)
            } else if !blocked && self.is_late(created_time_ns) {
                Err(io::Error::new(io::ErrorKind::TimedOut, "dns resolution timed out"))
            } else {
                Ok(None)
            },
        }
    }

    /// Whether a query that was issued at `created_time_ns` has taken longer than it may.
    fn is_late(&self, created_time_ns: u64) -> (late: bool) where TS: TimeSource
        ensures
            match self@.dns_query_timeout_ns {
                Some(timeout_ns) => exists|now_ns: u64| #[trigger]
                    self@.time_source.shows(now_ns) && late
                        == crate::service::model::query_expired(
                        now_ns,
                        created_time_ns,
                        timeout_ns,
                    ),
                None => !late,
            },
    {
        match self.dns_query_timeout_ns {
            Some(timeout_ns) => {
                let now_ns: u64 = self.time_source.current_time_nanos();
                assert(self@.time_source.shows(now_ns));
                now_ns > created_time_ns.saturating_add(timeout_ns)
            },
            None => false,
        }
    }

    /// Turns to the next pending endpoint if enough time has passed since the last one, and gives
    /// it out once its address is known.
    fn check_pending_endpoints(&mut self) -> (result: Result<
        Option<DueEndpoint<E>>,
        IOServiceError,
    >) where TS: TimeSource
        ensures
            old(self).wf() ==> final(self).wf(),
            old(self)@.pending_checked(final(self)@, result),
    {
        let now_ns: u64 = self.time_source.current_time_nanos();
        assert(old(self)@.time_source.shows(now_ns));
        if now_ns > self.next_endpoint_create_time_ns {
            if let Some(pending) = self.pending_endpoints.pop_front() {
                let mut pending = pending;
                let ghost first = pending;
                let answer = self.resolve_dns(
                    &mut pending.query,
                    pending.created_ns,
                    pending.blocked,
                );
                assert(old(self)@.resolved(
                    first.query,
                    first.created_ns,
                    first.blocked,
                    pending.query,
                    answer,
                ));
                match answer {
                    Err(source) => {
                        return Err(
                            IOServiceError::io(
                                Some(pending.handle),
                                IOServiceOperation::Resolve,
                                source,
                            ),
                        );
                    },
                    Ok(Some(addr)) => {
                        return Ok(
                            Some(
                                DueEndpoint {
                                    handle: pending.handle,
                                    endpoint: pending.endpoint,
                                    addr,
                                    now_ns,
                                },
                            ),
                        );
                    },
                    Ok(None) => {
                        pending.blocked = true;
                        self.pending_endpoints.push_back(pending);
                    },
                }
            }
            self.next_endpoint_create_time_ns = now_ns.saturating_add(
                ENDPOINT_CREATION_THROTTLE_NS,
            );
        }
        Ok(None)
    }

    fn next_active_handle(&mut self) -> (handle: Option<Handle>)
        requires
            old(self).wf(),
        ensures
            final(self).wf(),
            handle is Some <==> old(self)@.nodes.schedule().len() > 0,
            match handle {
                Some(h) => {
                    &&& h.0 == old(self)@.nodes.schedule().first()
                    &&& old(self)@.nodes.node(h.0) is Some
                    &&& final(self)@ == (IOServiceView {
                        nodes: old(self)@.nodes.advanced(h.0),
                        ..old(self)@
                    })
                },
                None => final(self)@ == old(self)@,
            },
    {
        match self.io_nodes.next_active_token() {
            Some(token) => Some(Handle(token)),
            None => None,
        }
    }

    /// Active endpoints by ascending token, additionally exposing handle and the stream. As long as
    /// the selector leaves the handles of endpoints alone, this is the order of their handles.
    pub fn iter(&self) -> (endpoints: Vec<(Handle, &S::Target, &E)>)
        ensures
            endpoints@.len() == crate::service::slots::taken(self@.nodes.slots).len(),
            forall|k: int| #![trigger endpoints@[k]]
                0 <= k < endpoints@.len() ==> {
                    let node =
                        self@.nodes.slots[crate::service::slots::taken(self@.nodes.slots)[k]]->0;
                    &&& endpoints@[k].0 == node.endpoint.0
                    &&& *endpoints@[k].1 == node.stream
                    &&& *endpoints@[k].2 == node.endpoint.1
                },
            self.wf() && self@.nodes.named() ==> {
                &&& forall|j: int, k: int|
                    0 <= j < k < endpoints@.len() ==> (#[trigger] endpoints@[j]).0.0 < (
                    #[trigger] endpoints@[k]).0.0
                &&& forall|k: int| #![trigger endpoints@[k]]
                    0 <= k < endpoints@.len() ==> {
                        &&& self@.nodes.node(endpoints@[k].0.0) matches Some(node)
                        &&& *endpoints@[k].1 == node.stream
                        &&& *endpoints@[k].2 == node.endpoint.1
                    }
                &&& forall|token: SelectorToken| #[trigger]
                    self@.nodes.node(token) is Some ==> exists|k: int|
                        0 <= k < endpoints@.len() && (#[trigger] endpoints@[k]).0 == Handle(token)
            },
    {
        let nodes = self.io_nodes.values();
        let mut endpoints: Vec<(Handle, &S::Target, &E)> = Vec::new();
        let mut k: usize = 0;
        while k < nodes.len()
            invariant
                k <= nodes@.len(),
                endpoints@.len() == k,
                forall|j: int| #![trigger endpoints@[j]]
                    0 <= j < k ==> {
                        &&& endpoints@[j].0 == nodes@[j].endpoint.0
                        &&& *endpoints@[j].1 == nodes@[j].stream
                        &&& *endpoints@[j].2 == nodes@[j].endpoint.1
                    },
            decreases nodes@.len() - k,
        {
            let (stream, endpoint) = nodes[k].as_parts();
            endpoints.push((endpoint.0, stream, &endpoint.1));
            k = k + 1;
        }
        proof {
            if self.wf() && self@.nodes.named() {
                let taken = crate::service::slots::taken(self@.nodes.slots);
                crate::service::storage_laws::named_nodes_are_in_order(self@.nodes);
                assert forall|k: int| #![trigger endpoints@[k]]
                    0 <= k < endpoints@.len() implies endpoints@[k].0.0 == taken[k] by {}
                assert forall|token: SelectorToken| #[trigger]
                    self@.nodes.node(token) is Some implies exists|k: int|
                    0 <= k < endpoints@.len() && (#[trigger] endpoints@[k]).0 == Handle(token) by {
                    let k = choose|k: int| 0 <= k < taken.len() && taken[k] == token;
                    assert(endpoints@[k].0.0 == token);
                }
            }
        }
        endpoints
    }

    /// Pending endpoints in the order in which they are tried.
    pub fn pending(&self) -> (endpoints: Vec<(&Handle, &E)>)
        ensures
            endpoints@.len() == self@.pending.len(),
            forall|k: int| #![trigger endpoints@[k]]
                0 <= k < endpoints@.len() ==> {
                    &&& *endpoints@[k].0 == self@.pending[k].handle
                    &&& *endpoints@[k].1 == self@.pending[k].endpoint
                },
    {
        let mut endpoints: Vec<(&Handle, &E)> = Vec::new();
        let mut k: usize = 0;
        while k < self.pending_endpoints.len()
            invariant
                k <= self.pending_endpoints@.len(),
                endpoints@.len() == k,
                forall|j: int| #![trigger endpoints@[j]]
                    0 <= j < k ==> {
                        &&& *endpoints@[j].0 == self@.pending[j].handle
                        &&& *endpoints@[j].1 == self@.pending[j].endpoint
                    },
            decreases self.pending_endpoints@.len() - k,
        {
            let pending = &self.pending_endpoints[k];
            endpoints.push((&pending.handle, &pending.endpoint));
            k = k + 1;
        }
        endpoints
    }

    /// Active endpoints by ascending token, additionally exposing handle and the stream, for
    /// changing endpoints and streams in place. As long as the selector leaves the handles of
    /// endpoints alone, this is the order of their handles, and what is written to an endpoint is
    /// what its handle leads to afterwards.
    pub fn iter_mut(&mut self) -> (endpoints: Vec<(Handle, &mut S::Target, &mut E)>)
        ensures
            old(self).wf() ==> final(self).wf(),
            final(self)@ == (IOServiceView { nodes: final(self)@.nodes, ..old(self)@ }),
            final(self)@.nodes.cursor == old(self)@.nodes.cursor,
            final(self)@.nodes.slots.len() == old(self)@.nodes.slots.len(),
            endpoints@.len() == crate::service::slots::taken(old(self)@.nodes.slots).len(),
            forall|k: int| #![trigger endpoints@[k]]
                0 <= k < endpoints@.len() ==> {
                    let index = crate::service::slots::taken(old(self)@.nodes.slots)[k];
                    let node = old(self)@.nodes.slots[index]->0;
                    &&& endpoints@[k].0 == node.endpoint.0
                    &&& *endpoints@[k].1 == node.stream
                    &&& *endpoints@[k].2 == node.endpoint.1
                    &&& final(self)@.nodes.slots[index] == Some(
                        IONode {
                            stream: *final(endpoints@[k].1),
                            endpoint: (node.endpoint.0, *final(endpoints@[k].2)),
                            ..node
                        },
                    )
                },
            forall|i: int|
                0 <= i < old(self)@.nodes.slots.len() ==> (
                #[trigger] final(self)@.nodes.slots[i] is Some <==> old(
                    self,
                )@.nodes.slots[i] is Some),
            old(self).wf() && old(self)@.nodes.named() ==> {
                &&& final(self)@.nodes.named()
                &&& forall|j: int, k: int|
                    0 <= j < k < endpoints@.len() ==> (#[trigger] endpoints@[j]).0.0 < (
                    #[trigger] endpoints@[k]).0.0
                &&& forall|k: int| #![trigger endpoints@[k]]
                    0 <= k < endpoints@.len() ==> {
                        &&& old(self)@.nodes.node(endpoints@[k].0.0) matches Some(node)
                        &&& *endpoints@[k].1 == node.stream
                        &&& *endpoints@[k].2 == node.endpoint.1
                        &&& final(self)@.nodes.node(endpoints@[k].0.0) == Some(
                            IONode {
                                stream: *final(endpoints@[k].1),
                                ..node.with_endpoint(*final(endpoints@[k].2))
                            },
                        )
                    }
                &&& forall|token: SelectorToken| #[trigger]
                    final(self)@.nodes.node(token) is Some ==> exists|k: int|
                        0 <= k < endpoints@.len() && (#[trigger] endpoints@[k]).0 == Handle(token)
            },
    {
        let nodes = self.io_nodes.values_mut();
        let mut endpoints: Vec<(Handle, &mut S::Target, &mut E)> = Vec::new();
        let ghost all = nodes@;
        for node in it: nodes
            invariant
                it.seq() == all,
                endpoints@.len() == it.index(),
                forall|j: int| #![trigger endpoints@[j]]
                    0 <= j < endpoints@.len() ==> {
                        let node = all[j];
                        &&& endpoints@[j].0 == node.endpoint.0
                        &&& *endpoints@[j].1 == node.stream
                        &&& *endpoints@[j].2 == node.endpoint.1
                        &&& *final(node) == IONode {
                            stream: *final(endpoints@[j].1),
                            endpoint: (node.endpoint.0, *final(endpoints@[j].2)),
                            ..*node
                        }
                    },
        {
            let (stream, endpoint) = node.as_parts_mut();
            endpoints.push((endpoint.0, stream, &mut endpoint.1));
        }
        proof {
            let pre = old(self)@.nodes;
            if old(self).wf() && pre.named() {
                let taken = crate::service::slots::taken(pre.slots);
                crate::service::storage_laws::named_nodes_are_in_order(pre);
                assert forall|k: int| #![trigger endpoints@[k]]
                    0 <= k < endpoints@.len() implies endpoints@[k].0.0 == taken[k] by {}
                assert forall|token: SelectorToken| #[trigger]
                    pre.node(token) is Some implies exists|k: int|
                    0 <= k < endpoints@.len() && (#[trigger] endpoints@[k]).0 == Handle(token) by {
                    let k = choose|k: int| 0 <= k < taken.len() && taken[k] == token;
                    assert(endpoints@[k].0.0 == token);
                }
                assert forall|token: SelectorToken| #[trigger]
                    after_borrow(self)@.nodes.node(token) is Some implies pre.node(
                    token,
                ) is Some by {
                    assert(after_borrow(self)@.nodes.slots[token as int] is Some);
                }
            }
        }
        endpoints
    }

    fn schedule_reconnect(&mut self, handle: Handle, endpoint: E) -> (result: Result<
        (),
        IOServiceError,
    >) where E: ConnectionInfoProvider, TS: TimeSource
        ensures
            old(self).wf() ==> final(self).wf(),
            old(self)@.scheduled(handle, endpoint, final(self)@, result),
            final(self)@ == (IOServiceView { pending: final(self)@.pending, ..old(self)@ }),
    {
        let info = endpoint.connection_info();
        let query = self.dns_resolver.new_query(info.host(), info.port());
        assert(self@.asked_for_address(endpoint, query));
        match query {
            Err(source) => Err(
                IOServiceError::io(Some(handle), IOServiceOperation::Resolve, source),
            ),
            Ok(query) => {
                let created_ns: u64 = self.time_source.current_time_nanos();
                self.pending_endpoints.push_back(
                    PendingEndpoint { handle, query, created_ns, blocked: false, endpoint },
                );
                Ok(())
            },
        }
    }
}

impl<S, E, C, TS, D> IOService<S, E, C, TS, D> where
    S: Selector + Selects<<S as Selector>::Target, E>,
    D: DnsResolver,
 {
    /// Deregister an endpoint with the service based on a handle.
    pub fn deregister(&mut self, handle: Handle) -> (result: Result<Option<E>, IOServiceError>)
        requires
            old(self).wf(),
        ensures
            final(self).wf(),
            old(self)@.deregistered(handle, final(self)@, result),
    {
        self.forget_disconnects(handle);
        if self.io_nodes.get(handle.0).is_some() {
            match self.remove_active_endpoint(handle) {
                Ok(endpoint) => Ok(Some(endpoint)),
                Err(e) => Err(e),
            }
        } else {
            let mut index: usize = 0;
            while index < self.pending_endpoints.len()
                invariant
                    index <= self.pending_endpoints@.len(),
                    forall|j: int|
                        0 <= j < index ==> (#[trigger] self.pending_endpoints@[j]).handle != handle,
                    self.wf(),
                    self@.pending == old(self)@.pending,
                    self@ == (IOServiceView {
                        disconnects: crate::service::model::without_handle(
                            old(self)@.disconnects,
                            handle,
                        ),
                        ..old(self)@
                    }),
                    old(self)@.nodes.node(handle.0) is None,
                decreases self.pending_endpoints@.len() - index,
            {
                if self.pending_endpoints[index].handle == handle {
                    return match self.pending_endpoints.remove(index) {
                        Some(pending) => Ok(Some(pending.endpoint)),
                        None => Ok(None),
                    };
                }
                index = index + 1;
            }
            Ok(None)
        }
    }

    fn remove_active_endpoint(&mut self, handle: Handle) -> (result: Result<E, IOServiceError>)
        requires
            old(self).wf(),
            forall|k: int|
                0 <= k < old(self)@.disconnects.len() ==> (#[trigger] old(self)@.disconnects[k]).0
                    != handle,
        ensures
            final(self).wf(),
            old(self)@.detached(handle, final(self)@, result),
    {
        let reply = match self.io_nodes.get_mut(handle.0) {
            None => {
                return Err(
                    IOServiceError::invalid_state(handle, "active endpoint is not registered"),
                );
            },
            Some(io_node) => self.selector.unregister(io_node),
        };
        assert(S::unregistered(
            old(self)@.selector,
            old(self)@.nodes.node(handle.0)->0,
            self@.selector,
            self@.nodes.node(handle.0)->0,
            reply,
        ));
        match reply {
            Ok(()) => {},
            Err(source) => {
                return Err(
                    IOServiceError::io(Some(handle), IOServiceOperation::Unregister, source),
                );
            },
        }
        proof {
            crate::service::storage_laws::removed_node_is_gone(self@.nodes, handle.0);
            assert forall|k: int| 0 <= k < self@.disconnects.len() implies self@.nodes.removed(
                handle.0,
            ).node((#[trigger] self@.disconnects[k]).0.0) is Some by {
                assert(self@.disconnects[k].0.0 != handle.0);
            }
        }
        assert(self@.nodes.slots.update(handle.0 as int, None) == old(self)@.nodes.slots.update(
            handle.0 as int,
            None,
        ));
        match self.io_nodes.remove(handle.0) {
            Some(io_node) => Ok(io_node.into_endpoint().1),
            None => Err(
                IOServiceError::invalid_state(
                    handle,
                    "endpoint disappeared after selector unregistration",
                ),
            ),
        }
    }

    /// Makes a pending endpoint active with the target that it created at `now_ns`. Without a
    /// target the endpoint is put back to the pending ones.
    fn connect_endpoint(
        &mut self,
        handle: Handle,
        endpoint: E,
        now_ns: u64,
        target: Result<Option<S::Target>, io::Error>,
    ) -> (result: Result<Option<Handle>, IOServiceError>) where
        E: ConnectionInfoProvider,
        TS: TimeSource,
        requires
            old(self).wf(),
            old(self)@.disconnects.len() == 0,
        ensures
            final(self).wf(),
            old(self)@.connected(handle, endpoint, now_ns, target, final(self)@, result),
    {
        match target {
            Err(source) => Err(
                IOServiceError::io(Some(handle), IOServiceOperation::CreateTarget, source),
            ),
            Ok(None) => {
                // request new dns query
                let scheduling = self.schedule_reconnect(handle, endpoint);
                assert(old(self)@.scheduled(handle, endpoint, self@, scheduling));
                match scheduling {
                    Err(e) => Err(e),
                    Ok(()) => {
                        self.next_endpoint_create_time_ns = now_ns.saturating_add(
                            ENDPOINT_CREATION_THROTTLE_NS,
                        );
                        Ok(None)
                    },
                }
            },
            Ok(Some(stream)) => {
                let ttl = match &self.auto_disconnect {
                    Some(supplier) => Some(supplier.ttl()),
                    None => None,
                };
                assert(old(self)@.supplies_ttl(ttl));
                let mut io_node = IONode::new(stream, handle, endpoint, ttl, &self.time_source);
                let ghost node = io_node;
                let ghost active_ns = choose|active_ns: u64| #[trigger]
                    self.time_source.shows(active_ns) && node.made_at(
                        stream,
                        handle,
                        endpoint,
                        ttl,
                        active_ns,
                    );
                assert(old(self)@.time_source.shows(active_ns));
                let reply = self.selector.register(handle.0, &mut io_node);
                assert(S::registered(
                    old(self)@.selector,
                    handle.0,
                    node,
                    self@.selector,
                    io_node,
                    reply,
                ));
                let result = match reply {
                    Err(source) => Err(
                        IOServiceError::io(Some(handle), IOServiceOperation::Register, source),
                    ),
                    Ok(()) => match self.io_nodes.insert(handle.0, io_node) {
                        Err(_) => if self.io_nodes.get(handle.0).is_some() {
                            Err(
                                IOServiceError::invalid_state(
                                    handle,
                                    "endpoint token is already active",
                                ),
                            )
                        } else {
                            Err(
                                IOServiceError::invalid_state(
                                    handle,
                                    "endpoint token is out of range",
                                ),
                            )
                        },
                        Ok(()) => {
                            self.next_endpoint_create_time_ns = now_ns.saturating_add(
                                ENDPOINT_CREATION_THROTTLE_NS,
                            );
                            Ok(Some(handle))
                        },
                    },
                };
                assert(old(self)@.activated(handle, node, now_ns, self@, result));
                result
            },
        }
    }

    /// Takes a disconnected endpoint out and puts it back to the pending ones, unless it declined
    /// to be recreated.
    fn disconnect_endpoint<V>(
        &mut self,
        handle: Handle,
        reason: DisconnectReason,
        can_recreate: bool,
    ) -> (result: Result<IOServiceEvent<V>, IOServiceError>) where
        E: ConnectionInfoProvider,
        TS: TimeSource,
        requires
            old(self).wf(),
            old(self)@.disconnects.len() == 0,
        ensures
            final(self).wf(),
            old(self)@.disconnected(handle, reason, can_recreate, final(self)@, result),
    {
        let removal = self.remove_active_endpoint(handle);
        let ghost removed = self@;
        assert(old(self)@.detached(handle, removed, removal));
        match removal {
            Err(e) => Err(e),
            Ok(endpoint) => {
                if !can_recreate {
                    return Err(IOServiceError::EndpointNotRecreatable { handle, reason });
                }
                let scheduling = self.schedule_reconnect(handle, endpoint);
                assert(removed.scheduled(handle, endpoint, self@, scheduling));
                match scheduling {
                    Err(e) => Err(e),
                    Ok(()) => Ok(IOServiceEvent::Disconnected { handle, reason }),
                }
            },
        }
    }
}

} // verus!
