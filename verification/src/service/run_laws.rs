//! Laws of a whole run of the service: every endpoint keeps its handle, and the endpoints that are
//! pending or active are those that were registered and not yet deregistered, each of them once.

use vstd::prelude::*;

use crate::io;
use crate::service::dns::DnsResolver;
use crate::service::error::IOServiceError;
use crate::service::model::{DueEndpoint, IOServiceView};
use crate::service::node::{IONode, IONodesView};
use crate::service::select::{Selector, SelectorToken, Selects};
use crate::service::time::TimeSource;
use crate::service::{Handle, IOServiceEvent};
use crate::stream::ConnectionInfoProvider;

verus! {

/// The selector leaves the handles that are stored with endpoints alone.
pub open spec fn leaves_handles_alone<S, E>() -> bool where
    S: Selector + Selects<<S as Selector>::Target, E>,
 {
    &&& forall|
        pre: S,
        token: SelectorToken,
        node: IONode<S::Target, E>,
        post: S,
        node_post: IONode<S::Target, E>,
        result: Result<(), io::Error>,
    | #[trigger]
        S::registered(pre, token, node, post, node_post, result) ==> node_post.endpoint.0
            == node.endpoint.0
    &&& forall|
        pre: S,
        node: IONode<S::Target, E>,
        post: S,
        node_post: IONode<S::Target, E>,
        result: Result<(), io::Error>,
    | #[trigger]
        S::unregistered(pre, node, post, node_post, result) ==> node_post.endpoint.0
            == node.endpoint.0
    &&& forall|
        pre: S,
        nodes: IONodesView<S::Target, E>,
        post: S,
        nodes_post: IONodesView<S::Target, E>,
        result: Result<(), io::Error>,
    | #[trigger]
        S::polled(pre, nodes, post, nodes_post, result) && nodes.named() ==> nodes_post.named()
}

/// A new service has every active endpoint under its handle, as there is none.
pub proof fn new_service_is_named<S, E, TS, D>(selector: S, time_source: TS, dns_resolver: D) where
    S: Selector,
    D: DnsResolver,

    ensures
        IOServiceView::<S, E, TS, D>::fresh(selector, time_source, dns_resolver).nodes.named(),
{
}

/// Registering an endpoint leaves every active endpoint under its handle.
pub proof fn registering_keeps_names<S, E, TS, D>(
    pre: IOServiceView<S, E, TS, D>,
    endpoint: E,
    post: IOServiceView<S, E, TS, D>,
    result: Result<Handle, IOServiceError>,
) where S: Selector, E: ConnectionInfoProvider, TS: TimeSource, D: DnsResolver
    requires
        pre.nodes.named(),
        pre.registered(endpoint, post, result),
    ensures
        post.nodes.named(),
{
    assert(post.nodes == pre.nodes);
}

/// Changing an active endpoint in place, but for its handle, leaves every active endpoint under its
/// handle.
pub proof fn replacing_keeps_names<S, E, TS, D>(
    pre: IOServiceView<S, E, TS, D>,
    handle: Handle,
    node: IONode<S::Target, E>,
) where S: Selector, D: DnsResolver
    requires
        pre.nodes.valid(),
        pre.nodes.named(),
        pre.nodes.node(handle.0) is Some,
        node.endpoint.0 == pre.nodes.node(handle.0)->0.endpoint.0,
    ensures
        pre.with_node(handle, node).nodes.named(),
{
    crate::service::storage_laws::replacing_keeps_turns(pre.nodes, handle.0, node);
}

proof fn detaching_keeps_names<S, E, TS, D>(
    pre: IOServiceView<S, E, TS, D>,
    handle: Handle,
    post: IOServiceView<S, E, TS, D>,
    result: Result<E, IOServiceError>,
) where S: Selector + Selects<<S as Selector>::Target, E>, D: DnsResolver
    requires
        leaves_handles_alone::<S, E>(),
        pre.nodes.valid(),
        pre.nodes.named(),
        pre.nodes.node(handle.0) is Some,
        pre.detached(handle, post, result),
    ensures
        post.nodes.named(),
{
    crate::service::service_laws::detached_endpoint_is_gone(pre, handle, post, result);
    assert forall|token: SelectorToken| (#[trigger] post.nodes.node(token)) is Some implies
        post.nodes.node(token)->0.endpoint.0 == Handle(token) by {
        if token != handle.0 {
            assert(post.nodes.node(token) == pre.nodes.node(token));
        } else {
            assert(pre.nodes.node(token) is Some);
        }
    }
}

/// Deregistering an endpoint leaves every active endpoint under its handle.
pub proof fn deregistering_keeps_names<S, E, TS, D>(
    pre: IOServiceView<S, E, TS, D>,
    handle: Handle,
    post: IOServiceView<S, E, TS, D>,
    result: Result<Option<E>, IOServiceError>,
) where S: Selector + Selects<<S as Selector>::Target, E>, D: DnsResolver
    requires
        leaves_handles_alone::<S, E>(),
        pre.valid(),
        pre.nodes.named(),
        pre.deregistered(handle, post, result),
    ensures
        post.nodes.named(),
{
    let quiet = IOServiceView {
        disconnects: crate::service::model::without_handle(pre.disconnects, handle),
        ..pre
    };
    if pre.nodes.node(handle.0) is Some {
        match result {
            Ok(Some(endpoint)) => detaching_keeps_names(quiet, handle, post, Ok(endpoint)),
            Ok(None) => {},
            Err(e) => detaching_keeps_names(quiet, handle, post, Err(e)),
        }
    }
}

proof fn disconnecting_keeps_names<S, E, TS, D, V>(
    pre: IOServiceView<S, E, TS, D>,
    handle: Handle,
    endpoint: E,
    reason: crate::service::endpoint::DisconnectReason,
    answer: bool,
    post: IOServiceView<S, E, TS, D>,
    result: Result<IOServiceEvent<V>, IOServiceError>,
) where
    S: Selector + Selects<<S as Selector>::Target, E>,
    E: ConnectionInfoProvider,
    TS: TimeSource,
    D: DnsResolver,

    requires
        leaves_handles_alone::<S, E>(),
        pre.nodes.valid(),
        pre.nodes.named(),
        pre.nodes.node(handle.0) is Some,
        pre.with_endpoint(handle, endpoint).disconnected(handle, reason, answer, post, result),
    ensures
        post.nodes.named(),
{
    let asked = pre.with_endpoint(handle, endpoint);
    let node = pre.nodes.node(handle.0)->0.with_endpoint(endpoint);
    replacing_keeps_names(pre, handle, node);
    crate::service::storage_laws::storage_stays_valid(pre.nodes, handle.0, node);
    assert forall|removed: IOServiceView<S, E, TS, D>, reply: Result<E, IOServiceError>| #[trigger]
        asked.detached(handle, removed, reply) implies removed.nodes.named() by {
        detaching_keeps_names(asked, handle, removed, reply);
    }
}

proof fn connecting_keeps_names<S, E, TS, D>(
    pre: IOServiceView<S, E, TS, D>,
    handle: Handle,
    endpoint: E,
    now_ns: u64,
    target: Result<Option<S::Target>, io::Error>,
    post: IOServiceView<S, E, TS, D>,
    result: Result<Option<Handle>, IOServiceError>,
) where
    S: Selector + Selects<<S as Selector>::Target, E>,
    E: ConnectionInfoProvider,
    TS: TimeSource,
    D: DnsResolver,

    requires
        leaves_handles_alone::<S, E>(),
        pre.nodes.valid(),
        pre.nodes.named(),
        pre.connected(handle, endpoint, now_ns, target, post, result),
    ensures
        post.nodes.named(),
{
    assert forall|node: IONode<S::Target, E>|
        node.endpoint.0 == handle && pre.nodes.admits(handle.0) implies (
    #[trigger] pre.nodes.inserted(handle.0, node)).named() by {
        crate::service::storage_laws::inserted_node_is_found(pre.nodes, handle.0, node);
        let nodes = pre.nodes.inserted(handle.0, node);
        assert forall|token: SelectorToken| (#[trigger] nodes.node(token)) is Some implies
            nodes.node(token)->0.endpoint.0 == Handle(token) by {
            if token != handle.0 {
                assert(nodes.node(token) == pre.nodes.node(token));
            }
        }
    }
    crate::service::poll_laws::connecting_settles(
        pre,
        handle,
        endpoint,
        now_ns,
        target,
        post,
        result,
    );
    if let Ok(Some(stream)) = target {
        assert(forall|node: IONode<S::Target, E>|
            node.endpoint.0 == handle && #[trigger] pre.activated(
                handle,
                node,
                now_ns,
                post,
                result,
            ) ==> post.nodes.named());
    }
}

proof fn active_poll_keeps_names<S, E, TS, D, V>(
    pre: IOServiceView<S, E, TS, D>,
    post: IOServiceView<S, E, TS, D>,
    result: Result<IOServiceEvent<V>, IOServiceError>,
) where
    S: Selector + Selects<<S as Selector>::Target, E>,
    E: ConnectionInfoProvider,
    TS: TimeSource,
    D: DnsResolver,

    requires
        leaves_handles_alone::<S, E>(),
        pre.nodes.named(),
        pre.active_outcome(post, result),
    ensures
        post.nodes.named(),
{
    assert forall|nodes: IONodesView<S::Target, E>, token: SelectorToken|
        nodes.named() implies (#[trigger] nodes.advanced(token)).named() by {
        assert forall|t: SelectorToken| (#[trigger] nodes.advanced(token).node(t)) is Some implies
            nodes.advanced(token).node(t)->0.endpoint.0 == Handle(t) by {
            assert(nodes.node(t) is Some);
        }
    }
    assert forall|turning: IOServiceView<S, E, TS, D>, handle: Handle| #[trigger]
        turning.turn_outcome(handle, post, result) && turning.nodes.valid() && turning.nodes.named()
            && turning.nodes.node(handle.0) is Some implies post.nodes.named() by {
        turn_keeps_names(turning, handle, post, result);
    }
    assert forall|nodes: IONodesView<S::Target, E>|
        nodes.valid() && (#[trigger] nodes.schedule()).len() > 0 implies ({
        let token = nodes.schedule().first() as SelectorToken;
        nodes.advanced(token).valid() && nodes.advanced(token).node(token) is Some
    }) by {
        crate::service::storage_laws::advancing_rotates(nodes);
    }
}

proof fn turn_keeps_names<S, E, TS, D, V>(
    pre: IOServiceView<S, E, TS, D>,
    handle: Handle,
    post: IOServiceView<S, E, TS, D>,
    result: Result<IOServiceEvent<V>, IOServiceError>,
) where
    S: Selector + Selects<<S as Selector>::Target, E>,
    E: ConnectionInfoProvider,
    TS: TimeSource,
    D: DnsResolver,

    requires
        leaves_handles_alone::<S, E>(),
        pre.nodes.valid(),
        pre.nodes.named(),
        pre.nodes.node(handle.0) is Some,
        pre.turn_outcome(handle, post, result),
    ensures
        post.nodes.named(),
{
    if pre.endpoint_outcome(handle, post, result) {
        assert forall|node: IONode<S::Target, E>|
            node.endpoint.0 == pre.nodes.node(handle.0)->0.endpoint.0 implies (
        #[trigger] pre.with_node(handle, node)).nodes.named() by {
            replacing_keeps_names(pre, handle, node);
        }
    } else {
        let reason = crate::service::endpoint::DisconnectReason::AutoDisconnect(
            pre.nodes.node(handle.0)->0.ttl,
        );
        let (endpoint, answer) = choose|endpoint: E, answer: bool| #[trigger]
            pre.with_endpoint(handle, endpoint).disconnected(handle, reason, answer, post, result);
        disconnecting_keeps_names(pre, handle, endpoint, reason, answer, post, result);
    }
}

/// Polling the service leaves every active endpoint under its handle.
pub proof fn polling_keeps_names<S, E, TS, D, V>(
    pre: IOServiceView<S, E, TS, D>,
    post: IOServiceView<S, E, TS, D>,
    result: Result<IOServiceEvent<V>, IOServiceError>,
) where
    S: Selector + Selects<<S as Selector>::Target, E>,
    E: ConnectionInfoProvider,
    TS: TimeSource,
    D: DnsResolver,

    requires
        leaves_handles_alone::<S, E>(),
        pre.valid(),
        pre.nodes.named(),
        pre.poll_outcome(post, result),
    ensures
        post.nodes.named(),
{
    assert forall|state: IOServiceView<S, E, TS, D>| #[trigger]
        state.active_outcome(post, result) && state.nodes.named() implies post.nodes.named() by {
        active_poll_keeps_names(state, post, result);
    }
    if pre.disconnects.len() > 0 {
        let (handle, reason) = pre.disconnects.first();
        assert(pre.nodes.node(pre.disconnects[0].0.0) is Some);
        let rest = IOServiceView { disconnects: pre.disconnects.drop_first(), ..pre };
        let (endpoint, answer) = choose|endpoint: E, answer: bool| #[trigger]
            rest.with_endpoint(handle, endpoint).disconnected(
                handle,
                reason,
                answer,
                post,
                result,
            );
        disconnecting_keeps_names(rest, handle, endpoint, reason, answer, post, result);
    } else if pre.pending.len() > 0 {
        assert forall|
            checked: IOServiceView<S, E, TS, D>,
            due: Result<Option<DueEndpoint<E>>, IOServiceError>,
        | #[trigger]
            pre.pending_checked(checked, due) implies checked.nodes == pre.nodes by {
            crate::service::poll_laws::checking_settles(pre, checked, due);
        }
        assert forall|
            checked: IOServiceView<S, E, TS, D>,
            handle: Handle,
            endpoint: E,
            now_ns: u64,
            target: Result<Option<S::Target>, io::Error>,
            connected: IOServiceView<S, E, TS, D>,
            reply: Result<Option<Handle>, IOServiceError>,
        | #[trigger]
            checked.connected(handle, endpoint, now_ns, target, connected, reply) && checked.nodes
                == pre.nodes implies connected.nodes.named() by {
            connecting_keeps_names(checked, handle, endpoint, now_ns, target, connected, reply);
        }
    }
}

/// The selector adds no active endpoint and removes none while it is polled.
pub open spec fn moves_no_node<S, E>() -> bool where
    S: Selector + Selects<<S as Selector>::Target, E>,
 {
    forall|
        pre: S,
        nodes: IONodesView<S::Target, E>,
        post: S,
        nodes_post: IONodesView<S::Target, E>,
        result: Result<(), io::Error>,
    | #[trigger]
        S::polled(pre, nodes, post, nodes_post, result) ==> same_tokens(nodes, nodes_post)
}

/// The same tokens are active.
pub open spec fn same_tokens<S, E>(a: IONodesView<S, E>, b: IONodesView<S, E>) -> bool {
    forall|token: SelectorToken| #[trigger] a.node(token) is Some <==> b.node(token) is Some
}

/// A call of the service that succeeded.
pub enum Call {
    /// An endpoint was registered under a handle, by itself or with a factory.
    Register(Handle),
    /// The endpoint of a handle was deregistered, if there was one.
    Deregister(Handle),
    /// Active endpoints and their streams were changed in place.
    Change,
    /// The service was polled.
    Poll,
}

/// The call may turn the service `pre` into `post`.
pub open spec fn called<S, E, TS, D, V>(
    pre: IOServiceView<S, E, TS, D>,
    call: Call,
    post: IOServiceView<S, E, TS, D>,
) -> bool where
    S: Selector + Selects<<S as Selector>::Target, E>,
    E: ConnectionInfoProvider,
    TS: TimeSource,
    D: DnsResolver,
 {
    match call {
        Call::Register(handle) => exists|endpoint: E| #[trigger]
            pre.registered(endpoint, post, Ok(handle)),
        Call::Deregister(handle) => exists|found: Option<E>| #[trigger]
            pre.deregistered(handle, post, Ok(found)),
        Call::Change => {
            &&& post == IOServiceView { nodes: post.nodes, ..pre }
            &&& post.nodes.valid()
            &&& same_tokens(pre.nodes, post.nodes)
            &&& forall|token: SelectorToken|
                (#[trigger] post.nodes.node(token)) matches Some(node) ==> node.endpoint.0
                    == pre.nodes.node(token)->0.endpoint.0
        },
        Call::Poll => exists|event: IOServiceEvent<V>| #[trigger]
            pre.poll_outcome(post, Ok(event)),
    }
}

/// Dispatching to an active endpoint changes it in place, and dispatching to any other handle
/// changes nothing.
pub proof fn dispatching_is_a_change<S, E, TS, D, V>(
    pre: IOServiceView<S, E, TS, D>,
    handle: Handle,
    stream: S::Target,
    endpoint: E,
) where
    S: Selector + Selects<<S as Selector>::Target, E>,
    E: ConnectionInfoProvider,
    TS: TimeSource,
    D: DnsResolver,

    requires
        pre.valid(),
    ensures
        called::<S, E, TS, D, V>(pre, Call::Change, pre),
        pre.nodes.node(handle.0) matches Some(node) ==> called::<S, E, TS, D, V>(
            pre,
            Call::Change,
            pre.with_node(handle, IONode { stream, ..node.with_endpoint(endpoint) }),
        ),
{
    if let Some(node) = pre.nodes.node(handle.0) {
        let changed = IONode { stream, ..node.with_endpoint(endpoint) };
        crate::service::storage_laws::storage_stays_valid(pre.nodes, handle.0, changed);
        crate::service::storage_laws::replacing_keeps_turns(pre.nodes, handle.0, changed);
        assert forall|token: SelectorToken| #[trigger]
            pre.nodes.node(token) is Some <==> pre.with_node(handle, changed).nodes.node(
                token,
            ) is Some by {}
    }
}

/// The handles that were registered and not deregistered after that.
pub open spec fn live(calls: Seq<Call>) -> Set<Handle>
    decreases calls.len(),
{
    if calls.len() == 0 {
        Set::empty()
    } else {
        match calls.last() {
            Call::Register(handle) => live(calls.drop_last()).insert(handle),
            Call::Deregister(handle) => live(calls.drop_last()).remove(handle),
            _ => live(calls.drop_last()),
        }
    }
}

/// No handle is issued twice.
pub open spec fn unrepeated(calls: Seq<Call>) -> bool {
    forall|i: int, j: int|
        0 <= i < j < calls.len() && (#[trigger] calls[i]) is Register ==> calls[i]
            != #[trigger] calls[j]
}

/// These services follow from each other by these calls, and the first one has no endpoint yet.
pub open spec fn is_run<S, E, TS, D, V>(
    services: Seq<IOServiceView<S, E, TS, D>>,
    calls: Seq<Call>,
) -> bool where
    S: Selector + Selects<<S as Selector>::Target, E>,
    E: ConnectionInfoProvider,
    TS: TimeSource,
    D: DnsResolver,
 {
    &&& services.len() == calls.len() + 1
    &&& services[0].pending.len() == 0
    &&& services[0].nodes == IONodesView::<S::Target, E>::empty()
    &&& services[0].disconnects.len() == 0
    &&& forall|k: int| #![trigger calls[k]]
        0 <= k < calls.len() ==> called::<S, E, TS, D, V>(services[k], calls[k], services[k + 1])
}

/// Storages with the same active tokens are equally long and have the same slots taken.
proof fn same_tokens_same_slots<S, E>(a: IONodesView<S, E>, b: IONodesView<S, E>)
    requires
        a.valid(),
        b.valid(),
        same_tokens(a, b),
    ensures
        crate::service::slots::taken(a.slots) == crate::service::slots::taken(b.slots),
{
    let a_len = crate::service::slots::occupied_len(a.slots) as int;
    let b_len = crate::service::slots::occupied_len(b.slots) as int;
    crate::service::slots::occupied_len_is_least(a.slots);
    crate::service::slots::occupied_len_is_least(b.slots);
    if a_len > b_len {
        assert(a.node((a_len - 1) as SelectorToken) is Some);
        assert(b.slots[a_len - 1] is Some);
    }
    if b_len > a_len {
        assert(b.node((b_len - 1) as SelectorToken) is Some);
        assert(a.node((b_len - 1) as SelectorToken) is Some);
    }
    assert forall|i: int| 0 <= i < a.slots.len() implies (#[trigger] a.slots[i] is Some
        <==> b.slots[i] is Some) by {
        assert(a.node(i as SelectorToken) is Some <==> b.node(i as SelectorToken) is Some);
    }
    crate::service::slots::taken_between_same(a.slots, b.slots, 0, a.slots.len() as int);
}

/// An endpoint is known if and only if its token counts.
proof fn known_tokens_count<S, E, TS, D>(service: IOServiceView<S, E, TS, D>, token: SelectorToken)
 where S: Selector, D: DnsResolver
    requires
        service.nodes.valid(),
    ensures
        service.tokens().count(token as int) > 0 <==> service.knows(Handle(token)),
        crate::service::service_laws::active_tokens(service.nodes).count(token as int) > 0
            <==> service.nodes.node(token) is Some,
{
    broadcast use vstd::seq_lib::group_to_multiset_ensures;

    let tokens = service.pending.map_values(crate::service::service_laws::pending_token());
    let taken = crate::service::slots::taken(service.nodes.slots);
    let len = service.nodes.slots.len() as int;
    crate::service::slots::taken_between_is_ascending(service.nodes.slots, 0, len);
    if service.nodes.node(token) is Some {
        assert(service.nodes.slots[token as int] is Some);
        assert(taken.contains(token as int));
    }
    if taken.contains(token as int) {
        let k = choose|k: int| 0 <= k < taken.len() && taken[k] == token;
        assert(service.nodes.slots[taken[k]] is Some);
    }
    if tokens.contains(token as int) {
        let k = choose|k: int| 0 <= k < tokens.len() && tokens[k] == token;
        assert(service.pending[k].handle == Handle(token));
    }
    if exists|i: int|
        0 <= i < service.pending.len() && (#[trigger] service.pending[i]).handle == Handle(token) {
        let i = choose|i: int|
            0 <= i < service.pending.len() && (#[trigger] service.pending[i]).handle == Handle(
                token,
            );
        assert(tokens[i] == token);
    }
}

/// What is live was registered.
proof fn live_was_registered(calls: Seq<Call>, handle: Handle)
    requires
        live(calls).contains(handle),
    ensures
        exists|i: int| 0 <= i < calls.len() && #[trigger] calls[i] == Call::Register(handle),
    decreases calls.len(),
{
    if calls.last() == Call::Register(handle) {
        assert(calls[calls.len() - 1] == Call::Register(handle));
    } else {
        let front = calls.drop_last();
        live_was_registered(front, handle);
        let i = choose|i: int|
            0 <= i < front.len() && #[trigger] front[i] == Call::Register(handle);
        assert(calls[i] == Call::Register(handle));
    }
}

/// Each call keeps the service valid and, if the selector moves no endpoint of its own accord,
/// accounts for the tokens.
proof fn call_accounts_for_tokens<S, E, TS, D, V>(
    pre: IOServiceView<S, E, TS, D>,
    call: Call,
    post: IOServiceView<S, E, TS, D>,
) where
    S: Selector + Selects<<S as Selector>::Target, E>,
    E: ConnectionInfoProvider,
    TS: TimeSource,
    D: DnsResolver,

    requires
        pre.valid(),
        called::<S, E, TS, D, V>(pre, call, post),
    ensures
        post.valid(),
        moves_no_node::<S, E>() ==> match call {
            Call::Register(handle) => post.tokens() == pre.tokens().insert(handle.0 as int),
            Call::Deregister(handle) => if pre.knows(handle) {
                pre.tokens() == post.tokens().insert(handle.0 as int)
            } else {
                post.tokens() == pre.tokens()
            },
            _ => post.tokens() == pre.tokens(),
        },
{
    match call {
        Call::Register(handle) => {
            let endpoint = choose|endpoint: E| #[trigger]
                pre.registered(endpoint, post, Ok(handle));
            crate::service::service_laws::registered_endpoint_waits_last(
                pre,
                endpoint,
                post,
                Ok(handle),
            );
        },
        Call::Deregister(handle) => {
            let found = choose|found: Option<E>| #[trigger]
                pre.deregistered(handle, post, Ok(found));
            crate::service::service_laws::deregistered_endpoint_is_gone(
                pre,
                handle,
                post,
                Ok(found),
            );
        },
        Call::Change => {
            same_tokens_same_slots(pre.nodes, post.nodes);
            assert forall|k: int| #![trigger post.disconnects[k]]
                0 <= k < post.disconnects.len() implies post.nodes.node(
                post.disconnects[k].0.0,
            ) is Some by {
                assert(pre.nodes.node(pre.disconnects[k].0.0) is Some);
            }
        },
        Call::Poll => {
            let event = choose|event: IOServiceEvent<V>| #[trigger]
                pre.poll_outcome(post, Ok(event));
            crate::service::poll_laws::outcome_keeps_promises(pre, post, Ok(event));
            assert forall|nodes: IONodesView<S::Target, E>|
                moves_no_node::<S, E>() && #[trigger] pre.reaches(
                    nodes,
                ) implies crate::service::service_laws::active_tokens(nodes)
                == crate::service::service_laws::active_tokens(pre.nodes) by {
                same_tokens_same_slots(pre.nodes, nodes);
            }
        },
    }
}

/// Over a run, a token counts once while it is live and not at all otherwise.
proof fn live_tokens_count_once<S, E, TS, D, V>(
    services: Seq<IOServiceView<S, E, TS, D>>,
    calls: Seq<Call>,
) where
    S: Selector + Selects<<S as Selector>::Target, E>,
    E: ConnectionInfoProvider,
    TS: TimeSource,
    D: DnsResolver,

    requires
        moves_no_node::<S, E>(),
        is_run::<S, E, TS, D, V>(services, calls),
        unrepeated(calls),
    ensures
        services.last().valid(),
        forall|token: SelectorToken| #[trigger]
            services.last().tokens().count(token as int) == if live(calls).contains(Handle(token)) {
                1nat
            } else {
                0nat
            },
    decreases calls.len(),
{
    let last = services.last();
    if calls.len() == 0 {
        crate::service::slots::storage_len_fits(0);
        crate::service::slots::occupied_len_unique(last.nodes.slots, 0);
        assert forall|token: SelectorToken| #[trigger]
            last.tokens().count(token as int) == 0 by {
            known_tokens_count(last, token);
            assert(last.nodes.node(token) is None);
        }
    } else {
        let before = services.drop_last();
        let front = calls.drop_last();
        assert forall|k: int| #![trigger front[k]] 0 <= k < front.len() implies called::<
            S,
            E,
            TS,
            D,
            V,
        >(before[k], front[k], before[k + 1]) by {
            assert(front[k] == calls[k]);
        }
        live_tokens_count_once::<S, E, TS, D, V>(before, front);
        let pre = before.last();
        let call = calls.last();
        assert(calls[calls.len() - 1] == call);
        call_accounts_for_tokens::<S, E, TS, D, V>(pre, call, last);
        assert forall|token: SelectorToken| #[trigger]
            last.tokens().count(token as int) == if live(calls).contains(Handle(token)) {
                1nat
            } else {
                0nat
            } by {
            known_tokens_count(pre, token);
            assert(pre.tokens().count(token as int) <= 1);
            if call == Call::Register(Handle(token)) && live(front).contains(Handle(token)) {
                live_was_registered(front, Handle(token));
                let i = choose|i: int|
                    0 <= i < front.len() && #[trigger] front[i] == Call::Register(Handle(token));
                assert(calls[i] == Call::Register(Handle(token)));
            }
        }
    }
}

/// From a service without endpoints on, as long as calls succeed, the selector issues no handle
/// twice and moves no endpoint of its own accord, the endpoints that are pending or active are
/// exactly those that were registered and not deregistered after that. None of them is pending
/// twice, and none is both pending and active.
pub proof fn run_keeps_endpoints<S, E, TS, D, V>(
    services: Seq<IOServiceView<S, E, TS, D>>,
    calls: Seq<Call>,
) where
    S: Selector + Selects<<S as Selector>::Target, E>,
    E: ConnectionInfoProvider,
    TS: TimeSource,
    D: DnsResolver,

    requires
        moves_no_node::<S, E>(),
        is_run::<S, E, TS, D, V>(services, calls),
        unrepeated(calls),
    ensures
        ({
            let last = services.last();
            &&& forall|handle: Handle| #[trigger]
                last.knows(handle) <==> live(calls).contains(handle)
            &&& forall|i: int, j: int|
                0 <= i < j < last.pending.len() ==> (#[trigger] last.pending[i]).handle != (
                #[trigger] last.pending[j]).handle
            &&& forall|i: int|
                0 <= i < last.pending.len() ==> last.nodes.node(
                    (#[trigger] last.pending[i]).handle.0,
                ) is None
        }),
{
    broadcast use vstd::seq_lib::group_to_multiset_ensures;

    live_tokens_count_once::<S, E, TS, D, V>(services, calls);
    let last = services.last();
    let tokens = last.pending.map_values(crate::service::service_laws::pending_token());
    assert forall|handle: Handle| #[trigger]
        last.knows(handle) <==> live(calls).contains(handle) by {
        known_tokens_count(last, handle.0);
        assert(last.tokens().count(handle.0 as int) <= 1);
    }
    assert forall|i: int| 0 <= i < last.pending.len() implies last.nodes.node(
        (#[trigger] last.pending[i]).handle.0,
    ) is None && tokens.to_multiset().count(last.pending[i].handle.0 as int) == 1 by {
        let token = last.pending[i].handle.0;
        known_tokens_count(last, token);
        assert(tokens[i] == token);
        assert(tokens.contains(token as int));
        assert(last.tokens().count(token as int) <= 1);
    }
    assert forall|x: int| tokens.to_multiset().contains(x) implies (
    #[trigger] tokens.to_multiset().count(x)) == 1 by {
        assert(tokens.contains(x));
        let i = choose|i: int| 0 <= i < tokens.len() && tokens[i] == x;
        assert(last.pending[i].handle.0 == x);
    }
    tokens.lemma_multiset_has_no_duplicates_conv();
    assert forall|i: int, j: int| 0 <= i < j < last.pending.len() implies (
    #[trigger] last.pending[i]).handle != (#[trigger] last.pending[j]).handle by {
        assert(tokens[i] != tokens[j]);
    }
}

/// From a service without endpoints on, as long as calls succeed and the selector leaves the
/// handles of endpoints alone, every active endpoint is under its handle.
pub proof fn run_keeps_names<S, E, TS, D, V>(
    services: Seq<IOServiceView<S, E, TS, D>>,
    calls: Seq<Call>,
) where
    S: Selector + Selects<<S as Selector>::Target, E>,
    E: ConnectionInfoProvider,
    TS: TimeSource,
    D: DnsResolver,

    requires
        leaves_handles_alone::<S, E>(),
        is_run::<S, E, TS, D, V>(services, calls),
    ensures
        services.last().valid(),
        services.last().nodes.named(),
    decreases calls.len(),
{
    let last = services.last();
    if calls.len() == 0 {
        crate::service::slots::storage_len_fits(0);
        crate::service::slots::occupied_len_unique(last.nodes.slots, 0);
    } else {
        let before = services.drop_last();
        let front = calls.drop_last();
        assert forall|k: int| #![trigger front[k]] 0 <= k < front.len() implies called::<
            S,
            E,
            TS,
            D,
            V,
        >(before[k], front[k], before[k + 1]) by {
            assert(front[k] == calls[k]);
        }
        run_keeps_names::<S, E, TS, D, V>(before, front);
        let pre = before.last();
        let call = calls.last();
        assert(calls[calls.len() - 1] == call);
        call_accounts_for_tokens::<S, E, TS, D, V>(pre, call, last);
        match call {
            Call::Register(handle) => {
                let endpoint = choose|endpoint: E| #[trigger]
                    pre.registered(endpoint, last, Ok(handle));
                registering_keeps_names(pre, endpoint, last, Ok(handle));
            },
            Call::Deregister(handle) => {
                let found = choose|found: Option<E>| #[trigger]
                    pre.deregistered(handle, last, Ok(found));
                deregistering_keeps_names(pre, handle, last, Ok(found));
            },
            Call::Change => {
                assert forall|token: SelectorToken| (#[trigger] last.nodes.node(
                    token,
                )) is Some implies last.nodes.node(token)->0.endpoint.0 == Handle(token) by {
                    assert(pre.nodes.node(token) is Some);
                }
            },
            Call::Poll => {
                let event = choose|event: IOServiceEvent<V>| #[trigger]
                    pre.poll_outcome(last, Ok(event));
                polling_keeps_names(pre, last, Ok(event));
            },
        }
    }
}

} // verus!
