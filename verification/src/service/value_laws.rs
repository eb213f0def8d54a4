//! Laws of the plain values that the service works with: spans of time, nodes, failures and texts.

use vstd::prelude::*;

use crate::io;
use crate::service::dns::DnsResolver;
use crate::service::endpoint::DisconnectReason;
use crate::service::error::IOServiceError;
use crate::service::model::IOServiceView;
use crate::service::node::{IONode, IONodesView};
use crate::service::select::{Selector, SelectorToken};
use crate::service::time::Duration;
use crate::service::Handle;

verus! {

/// A number of nanoseconds that fits into 64 bits is kept whole. Of others, what exceeds a multiple
/// of what 64 bits tell apart is kept.
pub proof fn nanoseconds_are_kept(nanos: nat)
    ensures
        nanos <= u64::MAX ==> crate::service::time::low_64_bits(nanos) == nanos,
        crate::service::time::low_64_bits(nanos) <= u64::MAX,
        crate::service::time::low_64_bits(nanos + 0x1_0000_0000_0000_0000)
            == crate::service::time::low_64_bits(nanos),
{
}

/// A time later is the sum, as long as it fits into 64 bits, and the latest time there is
/// otherwise.
pub proof fn time_after_adds(time_ns: u64, nanos: nat)
    ensures
        crate::service::time::time_after(time_ns, nanos) == if time_ns + nanos <= u64::MAX {
            time_ns + nanos
        } else {
            u64::MAX as int
        },
{
}

/// A query is late when more time has passed since it was issued than it may take.
pub proof fn query_is_late_after_its_time(now_ns: u64, created_ns: u64, timeout_ns: u64)
    ensures
        crate::service::model::query_expired(now_ns, created_ns, timeout_ns) <==> now_ns
            - created_ns > timeout_ns,
{
}

/// A node has the stream and the endpoint that it was made with. Its time to live is the one it was
/// made with, and it is due when that has passed; without one it is never due.
pub proof fn node_is_what_it_was_made_of<S, E>(
    node: IONode<S, E>,
    stream: S,
    handle: Handle,
    endpoint: E,
    ttl: Option<Duration>,
    active_ns: u64,
)
    requires
        node.made_at(stream, handle, endpoint, ttl, active_ns),
    ensures
        node.stream == stream,
        node.endpoint.0 == handle,
        node.endpoint.1 == endpoint,
        match ttl {
            None => node.ttl@ == u64::MAX && node.disconnect_time_ns == u64::MAX,
            Some(span) => {
                &&& span@ <= u64::MAX ==> node.ttl@ == span@
                &&& span@ > u64::MAX ==> node.ttl@ == span@ % 0x1_0000_0000_0000_0000
                &&& node.disconnect_time_ns == if active_ns + node.ttl@ <= u64::MAX {
                    active_ns + node.ttl@
                } else {
                    u64::MAX as int
                }
            },
        },
{
}

/// A failure reads as its own kind and text and as nothing else, and only if it did not come from
/// the operating system.
pub proof fn failure_reads_as_itself(error: io::Error, kind: io::ErrorKind, text: Seq<char>)
    ensures
        error.reads(kind, text) <==> error.kind == kind && error.message@ == text
            && error.os_code is None,
{
}

/// A report of records at odds names its endpoint and what is at odds.
pub proof fn report_names_its_endpoint(error: IOServiceError, handle: Handle, text: Seq<char>)
    ensures
        error.is_invalid_state(handle, text) <==> match error {
            IOServiceError::InvalidState { handle: h, message } => h == Some(handle) && message@
                == text,
            _ => false,
        },
{
}

/// The text of a failure is its own. The text of an end for age names the time to live, split into
/// seconds and nanoseconds.
pub proof fn reason_has_its_text(reason: DisconnectReason)
    ensures
        match reason {
            DisconnectReason::IO(error) => reason.text() == error.message@,
            DisconnectReason::AutoDisconnect(ttl) => forall|secs: u64, nanos: u32|
                ttl@ == secs * 1_000_000_000 + nanos && nanos < 1_000_000_000 ==> reason.text()
                    == "auto-disconnect after "@ + #[trigger] crate::service::time::duration_text(
                    secs,
                    nanos,
                ),
        },
{
}

/// A new service has no endpoint and no queued disconnection, may try endpoints from the start,
/// ends no connection for its age and lets queries take as long as they do.
pub proof fn new_service_has_nothing<S: Selector, E, TS, D: DnsResolver>(
    selector: S,
    time_source: TS,
    dns_resolver: D,
)
    ensures
        ({
            let service = IOServiceView::<S, E, TS, D>::fresh(selector, time_source, dns_resolver);
            &&& service.selector == selector
            &&& service.time_source == time_source
            &&& service.dns_resolver == dns_resolver
            &&& service.pending.len() == 0
            &&& service.disconnects.len() == 0
            &&& service.next_create_ns == 0
            &&& service.auto_disconnect is None
            &&& service.dns_query_timeout_ns is None
            &&& service.nodes.slots.len() == 4
            &&& service.nodes.cursor == 0
            &&& forall|token: SelectorToken| #[trigger] service.nodes.node(token) is None
        }),
{
}

/// Every free token can be taken, as long as its storage can be addressed at all: that of the lower
/// half of the tokens can on every machine.
pub proof fn free_token_can_be_taken<S, E>(nodes: IONodesView<S, E>, token: SelectorToken)
    requires
        nodes.valid(),
        usize::MAX > u32::MAX || token < 0x8000_0000,
    ensures
        nodes.admits(token) <==> nodes.node(token) is None,
{
    crate::service::slots::storage_len_fits(token as nat + 1);
    if token < 0x8000_0000 {
        assert(vstd::arithmetic::power2::is_pow2(0x8000_0000)) by {
            reveal_with_fuel(vstd::arithmetic::power2::is_pow2, 32);
        }
        assert(vstd::arithmetic::power2::is_pow2(0x8000_0000nat as int));
    } else {
        crate::service::slots::token_storage_bound(token);
    }
}

/// Turns come by ascending token, from the cursor to the end and then from the start to the cursor.
pub proof fn turns_ascend_from_cursor<S, E>(nodes: IONodesView<S, E>, j: int, k: int)
    requires
        nodes.valid(),
        0 <= j < k < nodes.schedule().len(),
    ensures
        ({
            let a = nodes.schedule()[j];
            let b = nodes.schedule()[k];
            ||| nodes.cursor <= a < b
            ||| a < b < nodes.cursor
            ||| b < nodes.cursor <= a
        }),
{
    let len = nodes.slots.len() as int;
    crate::service::slots::taken_between_is_ascending(nodes.slots, nodes.cursor, len);
    crate::service::slots::taken_between_is_ascending(nodes.slots, 0, nodes.cursor);
    let late = crate::service::slots::taken_between(nodes.slots, nodes.cursor, len);
    let early = crate::service::slots::taken_between(nodes.slots, 0, nodes.cursor);
    if k < late.len() {
        assert(late[j] < late[k]);
    } else if j < late.len() {
        assert(nodes.cursor <= late[j]);
        assert(early[k - late.len()] < nodes.cursor);
    } else {
        assert(early[j - late.len()] < early[k - late.len()]);
    }
}

/// The search for the next turn starts behind the token that had the last one. Putting nodes in or
/// changing them does not move it, and neither does taking one out, unless the slot it starts from
/// goes with it.
pub proof fn search_starts_behind_last_turn<S, E>(
    nodes: IONodesView<S, E>,
    token: SelectorToken,
    node: IONode<S, E>,
)
    requires
        nodes.valid(),
    ensures
        token + 1 < nodes.slots.len() ==> nodes.advanced(token).cursor == token + 1,
        token + 1 == nodes.slots.len() ==> nodes.advanced(token).cursor == 0,
        nodes.advanced(token).slots == nodes.slots,
        nodes.inserted(token, node).cursor == nodes.cursor,
        nodes.with_node(token, node).cursor == nodes.cursor,
        nodes.node(token) is Some ==> nodes.removed(token).cursor == if nodes.cursor
            < nodes.removed(token).slots.len() {
            nodes.cursor
        } else {
            0
        },
{
    if token + 1 < nodes.slots.len() {
        vstd::arithmetic::div_mod::lemma_small_mod((token + 1) as nat, nodes.slots.len());
    } else if token + 1 == nodes.slots.len() {
        vstd::arithmetic::div_mod::lemma_mod_self_0(token + 1);
    }
    let slots = nodes.slots.update(token as int, None);
    crate::service::slots::occupied_len_is_least(slots);
    crate::service::slots::storage_len_fits(crate::service::slots::occupied_len(slots));
    assert(vstd::arithmetic::power2::is_pow2(nodes.slots.len() as nat as int));
}

/// There are never more slots than it takes: at least four, a power of two, and with the lower half
/// of them alone, if that is no fewer than four, some active node would have no slot.
pub proof fn slots_are_as_few_as_can_be<S, E>(nodes: IONodesView<S, E>)
    requires
        nodes.valid(),
    ensures
        nodes.slots.len() >= 4,
        vstd::arithmetic::power2::is_pow2(nodes.slots.len() as int),
        nodes.slots.len() > 4 ==> exists|token: SelectorToken|
            #[trigger] nodes.node(token) is Some && 2 * token >= nodes.slots.len(),
        0 <= nodes.cursor < nodes.slots.len(),
{
    let len = nodes.slots.len();
    let needed = crate::service::slots::occupied_len(nodes.slots);
    crate::service::slots::occupied_len_is_least(nodes.slots);
    crate::service::slots::storage_len_fits(needed);
    if len > 4 {
        reveal(vstd::arithmetic::power2::is_pow2);
        let half = (len / 2) as nat;
        assert(vstd::arithmetic::power2::is_pow2(half as int));
        assert(2 * half == len);
        assert(half >= 4) by {
            assert(vstd::arithmetic::power2::is_pow2(4nat as int)) by {
                reveal_with_fuel(vstd::arithmetic::power2::is_pow2, 3);
            }
            crate::service::slots::pow2_gap(4, len);
        }
        let token = (needed - 1) as SelectorToken;
        assert(nodes.node(token) is Some);
    }
}

} // verus!
