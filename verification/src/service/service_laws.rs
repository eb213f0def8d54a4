//! Laws of the registration of endpoints: an endpoint that was registered can be deregistered, and
//! none gets lost on the way.

use vstd::multiset::Multiset;
use vstd::prelude::*;

use crate::io;
use crate::service::dns::DnsResolver;
use crate::service::error::{IOServiceError, IOServiceOperation};
use crate::service::model::IOServiceView;
use crate::service::node::{IONode, IONodesView};
use crate::service::select::{Selector, SelectorToken, Selects};
use crate::service::time::TimeSource;
use crate::service::{Handle, PendingEndpoint};
use crate::stream::{ConnectionInfoProvider, ConnectionInfoView};

verus! {

/// The token of a pending endpoint.
pub open spec fn pending_token<Q, E>() -> spec_fn(PendingEndpoint<Q, E>) -> int {
    |pending: PendingEndpoint<Q, E>| pending.handle.0 as int
}

/// The tokens of pending endpoints.
pub open spec fn pending_tokens<Q, E>(pending: Seq<PendingEndpoint<Q, E>>) -> Multiset<int> {
    pending.map_values(pending_token()).to_multiset()
}

/// The tokens of active endpoints.
pub open spec fn active_tokens<S, E>(nodes: IONodesView<S, E>) -> Multiset<int> {
    crate::service::slots::taken(nodes.slots).to_multiset()
}

impl<S: Selector, E, TS, D: DnsResolver> IOServiceView<S, E, TS, D> {
    /// The tokens of all endpoints, pending or active.
    pub open spec fn tokens(self) -> Multiset<int> {
        pending_tokens(self.pending).add(active_tokens(self.nodes))
    }

    /// An endpoint is registered under `handle`, pending or active.
    pub open spec fn knows(self, handle: Handle) -> bool {
        ||| self.nodes.node(handle.0) is Some
        ||| exists|i: int|
            0 <= i < self.pending.len() && (#[trigger] self.pending[i]).handle == handle
    }
}

/// Taking one item out of the middle of a sequence takes one of its occurrences away.
proof fn middle_counts<A>(front: Seq<A>, item: A, back: Seq<A>)
    ensures
        (front + seq![item] + back).to_multiset() == (front + back).to_multiset().insert(item),
{
    broadcast use vstd::seq_lib::group_to_multiset_ensures;

    vstd::seq_lib::lemma_multiset_commutative(front + seq![item], back);
    vstd::seq_lib::lemma_multiset_commutative(front, back);
    assert(front + seq![item] == front.push(item));
}

/// Putting a node in adds its token to those of the active endpoints.
pub proof fn inserting_adds_token<S, E>(
    nodes: IONodesView<S, E>,
    token: SelectorToken,
    node: IONode<S, E>,
)
    requires
        nodes.valid(),
        nodes.admits(token),
    ensures
        active_tokens(nodes.inserted(token, node)) == active_tokens(nodes).insert(token as int),
{
    let after = nodes.inserted(token, node).slots;
    let len = nodes.slots.len() as int;
    let freed = after.update(token as int, None);
    crate::service::slots::storage_len_fits(token as nat + 1);
    crate::service::slots::freeing_takes_out(after, token as int);
    crate::service::slots::taken_ignores_free_tail(freed, len);
    assert(freed.take(len) == nodes.slots);
    middle_counts(
        crate::service::slots::taken_between(after, 0, token as int),
        token as int,
        crate::service::slots::taken_between(after, token + 1, after.len() as int),
    );
}

/// Taking a node out takes its token away from those of the active endpoints.
pub proof fn removing_takes_token<S, E>(nodes: IONodesView<S, E>, token: SelectorToken)
    requires
        nodes.valid(),
        nodes.node(token) is Some,
    ensures
        active_tokens(nodes) == active_tokens(nodes.removed(token)).insert(token as int),
{
    let freed = nodes.slots.update(token as int, None);
    let len = crate::service::slots::storage_len(crate::service::slots::occupied_len(freed));
    crate::service::slots::occupied_len_is_least(freed);
    crate::service::slots::storage_len_fits(crate::service::slots::occupied_len(freed));
    assert(vstd::arithmetic::power2::is_pow2(nodes.slots.len() as nat as int));
    crate::service::slots::freeing_takes_out(nodes.slots, token as int);
    crate::service::slots::taken_ignores_free_tail(freed, len as int);
    middle_counts(
        crate::service::slots::taken_between(nodes.slots, 0, token as int),
        token as int,
        crate::service::slots::taken_between(nodes.slots, token + 1, nodes.slots.len() as int),
    );
}

/// One more pending endpoint at the end adds its token.
pub proof fn queueing_adds_token<Q, E>(
    pending: Seq<PendingEndpoint<Q, E>>,
    last: PendingEndpoint<Q, E>,
)
    ensures
        pending_tokens(pending.push(last)) == pending_tokens(pending).insert(last.handle.0 as int),
{
    broadcast use vstd::seq_lib::group_to_multiset_ensures;

    assert(pending.push(last).map_values(pending_token()) == pending.map_values(
        pending_token(),
    ).push(last.handle.0 as int));
}

/// One pending endpoint less takes its token away.
pub proof fn unqueueing_takes_token<Q, E>(pending: Seq<PendingEndpoint<Q, E>>, index: int)
    requires
        0 <= index < pending.len(),
    ensures
        pending_tokens(pending) == pending_tokens(pending.remove(index)).insert(
            pending[index].handle.0 as int,
        ),
{
    let front = pending.take(index);
    let back = pending.skip(index + 1);
    let token = pending[index].handle.0 as int;
    middle_counts(front.map_values(pending_token()), token, back.map_values(pending_token()));
    assert(pending.map_values(pending_token()) == front.map_values(pending_token()) + seq![token]
        + back.map_values(pending_token()));
    assert(pending.remove(index).map_values(pending_token()) == front.map_values(pending_token())
        + back.map_values(pending_token()));
}

/// Registering an endpoint puts it behind all pending ones and leaves the active ones alone. It
/// waits for a query of the host and port that it provides. If no such query can be issued, the
/// endpoint is dropped, and the failure names its handle and is the one that the resolver gave.
pub proof fn registered_endpoint_waits_last<S, E, TS, D>(
    pre: IOServiceView<S, E, TS, D>,
    endpoint: E,
    post: IOServiceView<S, E, TS, D>,
    result: Result<Handle, IOServiceError>,
) where
    S: Selector + Selects<<S as Selector>::Target, E>,
    E: ConnectionInfoProvider,
    TS: TimeSource,
    D: DnsResolver,

    requires
        pre.valid(),
        pre.registered(endpoint, post, result),
    ensures
        post.valid(),
        match result {
            Ok(handle) => {
                &&& S::issued(pre.selector, post.selector, handle.0)
                &&& post.pending.len() == pre.pending.len() + 1
                &&& post.pending.drop_last() == pre.pending
                &&& post.pending.last().handle == handle
                &&& post.pending.last().endpoint == endpoint
                &&& !post.pending.last().blocked
                &&& pre.time_source.shows(post.pending.last().created_ns)
                &&& exists|info: ConnectionInfoView| {
                    &&& endpoint.provides(info)
                    &&& #[trigger] pre.dns_resolver.issues(
                        info.host,
                        info.port,
                        Ok(post.pending.last().query),
                    )
                }
                &&& post == IOServiceView {
                    selector: post.selector,
                    pending: post.pending,
                    ..pre
                }
                &&& post.tokens() == pre.tokens().insert(handle.0 as int)
            },
            Err(e) => {
                &&& e matches IOServiceError::Io { handle: Some(handle), operation, source }
                &&& S::issued(pre.selector, post.selector, handle.0)
                &&& operation == IOServiceOperation::Resolve
                &&& exists|info: ConnectionInfoView| {
                    &&& endpoint.provides(info)
                    &&& #[trigger] pre.dns_resolver.issues(info.host, info.port, Err(source))
                }
                &&& post == IOServiceView { selector: post.selector, ..pre }
            },
        },
{
    let token = choose|token: SelectorToken|
        {
            &&& #[trigger] S::issued(pre.selector, post.selector, token)
            &&& (IOServiceView { selector: post.selector, ..pre }).enrolled(
                Handle(token),
                endpoint,
                post,
                result,
            )
        };
    if result is Ok {
        assert(post.pending.drop_last() == pre.pending);
        assert(post.pending == pre.pending.push(post.pending.last()));
        assert(pre.asked_for_address(endpoint, Ok(post.pending.last().query)));
        queueing_adds_token(pre.pending, post.pending.last());
    }
}

/// Deregistering an endpoint takes it out wherever it is, exactly once, together with its queued
/// disconnections, and leaves all other endpoints where they are. `Ok(None)` comes if and only if
/// there is no such endpoint. If the selector fails, the endpoint stays active.
pub proof fn deregistered_endpoint_is_gone<S, E, TS, D>(
    pre: IOServiceView<S, E, TS, D>,
    handle: Handle,
    post: IOServiceView<S, E, TS, D>,
    result: Result<Option<E>, IOServiceError>,
) where S: Selector + Selects<<S as Selector>::Target, E>, D: DnsResolver
    requires
        pre.valid(),
        pre.deregistered(handle, post, result),
    ensures
        post.valid(),
        post == (IOServiceView {
            selector: post.selector,
            nodes: post.nodes,
            pending: post.pending,
            disconnects: post.disconnects,
            ..pre
        }),
        post.disconnects == pre.disconnects.filter(crate::service::model::other_than(handle)),
        forall|k: int|
            0 <= k < post.disconnects.len() ==> (#[trigger] post.disconnects[k]).0 != handle,
        pre.disconnects.len() > 0 && pre.disconnects[0].0 != handle ==> post.disconnects
            == pre.disconnects,
        forall|other: SelectorToken|
            other != handle.0 ==> #[trigger] post.nodes.node(other) == pre.nodes.node(other),
        match result {
            Ok(Some(endpoint)) => {
                &&& pre.tokens() == post.tokens().insert(handle.0 as int)
                &&& pre.nodes.node(handle.0) is Some ==> {
                    &&& post.nodes.node(handle.0) is None
                    &&& post.pending == pre.pending
                    &&& exists|node: IONode<S::Target, E>, reply: Result<(), io::Error>| {
                        &&& #[trigger] S::unregistered(
                            pre.selector,
                            pre.nodes.node(handle.0)->0,
                            post.selector,
                            node,
                            reply,
                        )
                        &&& reply is Ok
                        &&& endpoint == node.endpoint.1
                    }
                }
                &&& pre.nodes.node(handle.0) is None ==> {
                    &&& post.selector == pre.selector
                    &&& post.nodes == pre.nodes
                    &&& exists|i: int|
                        {
                            &&& 0 <= i < pre.pending.len()
                            &&& (#[trigger] pre.pending[i]).handle == handle
                            &&& pre.pending[i].endpoint == endpoint
                            &&& forall|j: int|
                                0 <= j < i ==> (#[trigger] pre.pending[j]).handle != handle
                            &&& post.pending == pre.pending.remove(i)
                        }
                }
            },
            Ok(None) => post == IOServiceView { disconnects: post.disconnects, ..pre },
            Err(e) => {
                &&& e matches IOServiceError::Io { handle: Some(h), operation, source }
                &&& h == handle
                &&& operation == IOServiceOperation::Unregister
                &&& post.nodes.node(handle.0) is Some
                &&& pre.nodes.node(handle.0) is Some
                &&& S::unregistered(
                    pre.selector,
                    pre.nodes.node(handle.0)->0,
                    post.selector,
                    post.nodes.node(handle.0)->0,
                    Err(source),
                )
                &&& post.pending == pre.pending
                &&& post.tokens() == pre.tokens()
            },
        },
        result matches Ok(found) ==> (found is Some <==> pre.knows(handle)),
{
    let quiet = IOServiceView {
        disconnects: crate::service::model::without_handle(pre.disconnects, handle),
        ..pre
    };
    crate::service::model::without_handle_leaves_others(pre.disconnects, handle);
    assert forall|k: int| #![trigger quiet.disconnects[k]]
        0 <= k < quiet.disconnects.len() implies pre.disconnects.contains(
        quiet.disconnects[k],
    ) by {}
    if pre.disconnects.len() > 0 && pre.disconnects[0].0 != handle {
        reveal_with_fuel(Seq::filter, 2);
        assert(quiet.disconnects == pre.disconnects);
    }
    if pre.nodes.node(handle.0) is Some {
        match result {
            Ok(Some(endpoint)) => detached_endpoint_is_gone(quiet, handle, post, Ok(endpoint)),
            Ok(None) => {},
            Err(e) => {
                detached_endpoint_is_gone(quiet, handle, post, Err(e));
                crate::service::lifecycle_laws::leaving_endpoint_is_unregistered(
                    quiet,
                    handle,
                    post,
                    Err(e),
                );
            },
        }
    } else if let Ok(Some(endpoint)) = result {
        let i = choose|i: int|
            {
                &&& 0 <= i < pre.pending.len()
                &&& (#[trigger] pre.pending[i]).handle == handle
                &&& endpoint == pre.pending[i].endpoint
                &&& forall|j: int| 0 <= j < i ==> (#[trigger] pre.pending[j]).handle != handle
                &&& post == IOServiceView { pending: pre.pending.remove(i), ..quiet }
            };
        unqueueing_takes_token(pre.pending, i);
    }
}

/// An active endpoint that was taken out is no longer active, and no other endpoint is concerned.
/// If the selector fails, the endpoint stays active.
pub proof fn detached_endpoint_is_gone<S, E, TS, D>(
    pre: IOServiceView<S, E, TS, D>,
    handle: Handle,
    post: IOServiceView<S, E, TS, D>,
    result: Result<E, IOServiceError>,
) where S: Selector + Selects<<S as Selector>::Target, E>, D: DnsResolver
    requires
        pre.nodes.valid(),
        pre.nodes.node(handle.0) is Some,
        pre.detached(handle, post, result),
    ensures
        post.nodes.valid(),
        post == (IOServiceView { selector: post.selector, nodes: post.nodes, ..pre }),
        forall|other: SelectorToken|
            other != handle.0 ==> #[trigger] post.nodes.node(other) == pre.nodes.node(other),
        match result {
            Ok(endpoint) => {
                &&& post.nodes == pre.nodes.removed(handle.0)
                &&& post.nodes.node(handle.0) is None
                &&& pre.tokens() == post.tokens().insert(handle.0 as int)
            },
            Err(e) => {
                &&& e matches IOServiceError::Io { handle: Some(h), operation, source }
                &&& h == handle
                &&& operation == IOServiceOperation::Unregister
                &&& post.nodes.node(handle.0) is Some
                &&& post.tokens() == pre.tokens()
            },
        },
{
    let node = pre.nodes.node(handle.0)->0;
    crate::service::storage_laws::storage_stays_valid(pre.nodes, handle.0, node);
    crate::service::storage_laws::removed_node_is_gone(pre.nodes, handle.0);
    removing_takes_token(pre.nodes, handle.0);
    crate::service::slots::replacing_keeps_taken(pre.nodes.slots, handle.0 as int);
    assert forall|node_post: IONode<S::Target, E>| #[trigger]
        pre.nodes.with_node(handle.0, node_post).valid() by {
        crate::service::storage_laws::storage_stays_valid(pre.nodes, handle.0, node_post);
    }
}

/// Deregistering an active endpoint does not change the order in which the remaining active ones
/// get their turns.
pub proof fn deregistering_keeps_turns<S, E, TS, D>(
    pre: IOServiceView<S, E, TS, D>,
    handle: Handle,
    post: IOServiceView<S, E, TS, D>,
    endpoint: E,
) where S: Selector + Selects<<S as Selector>::Target, E>, D: DnsResolver
    requires
        pre.valid(),
        pre.nodes.node(handle.0) is Some,
        pre.deregistered(handle, post, Ok(Some(endpoint))),
    ensures
        post.nodes.schedule() == pre.nodes.schedule().filter(
            crate::service::slots::other_slot(handle.0 as int),
        ),
{
    crate::service::storage_laws::removing_keeps_order(pre.nodes, handle.0);
}

/// Deregistering an endpoint that was just registered under a fresh handle gives the endpoint back
/// and leaves the service, but for its selector, as it was.
pub proof fn deregistering_undoes_registering<S, E, TS, D>(
    pre: IOServiceView<S, E, TS, D>,
    endpoint: E,
    handle: Handle,
    mid: IOServiceView<S, E, TS, D>,
    post: IOServiceView<S, E, TS, D>,
    result: Result<Option<E>, IOServiceError>,
) where
    S: Selector + Selects<<S as Selector>::Target, E>,
    E: ConnectionInfoProvider,
    TS: TimeSource,
    D: DnsResolver,

    requires
        pre.valid(),
        !pre.knows(handle),
        pre.registered(endpoint, mid, Ok(handle)),
        mid.deregistered(handle, post, result),
    ensures
        result == Ok::<_, IOServiceError>(Some(endpoint)),
        post == (IOServiceView { selector: mid.selector, ..pre }),
{
    registered_endpoint_waits_last(pre, endpoint, mid, Ok(handle));
    deregistered_endpoint_is_gone(mid, handle, post, result);
    let last = mid.pending.len() - 1;
    assert(mid.pending[last].handle == handle);
    assert forall|j: int| 0 <= j < last implies (#[trigger] mid.pending[j]).handle != handle by {
        assert(mid.pending[j] == pre.pending[j]);
    }
    assert(mid.pending.remove(last) == pre.pending);
    assert(post.disconnects == pre.disconnects) by {
        reveal(Seq::filter);
        if pre.disconnects.len() == 1 {
            let entry = pre.disconnects[0];
            assert(pre.nodes.node(entry.0.0) is Some);
            assert(pre.disconnects.drop_last() == Seq::<
                (Handle, crate::service::endpoint::DisconnectReason),
            >::empty());
            assert(pre.disconnects == Seq::empty().push(entry));
        }
    }
}

} // verus!
