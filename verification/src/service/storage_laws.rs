//! Laws of the storage of active nodes: what is put in is found, what is taken out is gone, and
//! every active node gets its turn.

use vstd::prelude::*;

use crate::service::node::{IONode, IONodesView};
use crate::service::select::SelectorToken;

verus! {

/// A node that was put in is found under its token, and every other token stands for what it stood
/// for before.
pub proof fn inserted_node_is_found<S, E>(
    nodes: IONodesView<S, E>,
    token: SelectorToken,
    node: IONode<S, E>,
)
    requires
        nodes.valid(),
        nodes.admits(token),
    ensures
        nodes.inserted(token, node).node(token) == Some(node),
        forall|other: SelectorToken|
            other != token ==> #[trigger] nodes.inserted(token, node).node(other) == nodes.node(
                other,
            ),
{
    crate::service::slots::storage_len_fits(token as nat + 1);
}

/// A node that was taken out is gone, and every other token stands for what it stood for before.
pub proof fn removed_node_is_gone<S, E>(nodes: IONodesView<S, E>, token: SelectorToken)
    requires
        nodes.valid(),
        nodes.node(token) is Some,
    ensures
        nodes.removed(token).node(token) is None,
        forall|other: SelectorToken|
            other != token ==> #[trigger] nodes.removed(token).node(other) == nodes.node(other),
{
    let slots = nodes.slots.update(token as int, None);
    crate::service::slots::occupied_len_is_least(slots);
    crate::service::slots::storage_len_fits(crate::service::slots::occupied_len(slots));
    assert(vstd::arithmetic::power2::is_pow2(nodes.slots.len() as nat as int));
    assert forall|other: SelectorToken| other != token implies #[trigger] nodes.removed(token).node(
        other,
    ) == nodes.node(other) by {
        if other < slots.len() {
            assert(slots[other as int] == nodes.slots[other as int]);
        }
    }
}

/// Changing a node in place concerns no other one and leaves all turns as they are.
pub proof fn replacing_keeps_turns<S, E>(
    nodes: IONodesView<S, E>,
    token: SelectorToken,
    node: IONode<S, E>,
)
    requires
        nodes.valid(),
        nodes.node(token) is Some,
    ensures
        nodes.with_node(token, node).node(token) == Some(node),
        forall|other: SelectorToken|
            other != token ==> #[trigger] nodes.with_node(token, node).node(other) == nodes.node(
                other,
            ),
        nodes.with_node(token, node).schedule() == nodes.schedule(),
{
    crate::service::slots::replacing_keeps_taken(nodes.slots, token as int);
}

/// Taking out the node that was just put in gives back the storage as it was.
pub proof fn removing_undoes_inserting<S, E>(
    nodes: IONodesView<S, E>,
    token: SelectorToken,
    node: IONode<S, E>,
)
    requires
        nodes.valid(),
        nodes.admits(token),
    ensures
        nodes.inserted(token, node).removed(token) == nodes,
{
    let len = nodes.slots.len() as int;
    let freed = nodes.inserted(token, node).slots.update(token as int, None);
    crate::service::slots::storage_len_fits(token as nat + 1);
    crate::service::slots::occupied_len_is_least(nodes.slots);
    let occupied = crate::service::slots::occupied_len(nodes.slots) as int;
    assert forall|i: int| occupied <= i < freed.len() implies #[trigger] freed[i] is None by {
        if i < len {
            assert(nodes.slots[i] is None);
        }
    }
    crate::service::slots::occupied_len_unique(freed, occupied);
    assert(freed.take(len) == nodes.slots);
}

/// Putting a node in and taking a node out keep the storage valid: a power of two of slots, and no
/// more of them than the nodes need.
pub proof fn storage_stays_valid<S, E>(
    nodes: IONodesView<S, E>,
    token: SelectorToken,
    node: IONode<S, E>,
)
    requires
        nodes.valid(),
    ensures
        nodes.admits(token) ==> nodes.inserted(token, node).valid(),
        nodes.node(token) is Some ==> nodes.removed(token).valid(),
        nodes.node(token) is Some ==> nodes.with_node(token, node).valid(),
        nodes.advanced(token).valid(),
{
    let index = token as int;
    if nodes.admits(token) {
        crate::service::slots::storage_len_fits(token as nat + 1);
        crate::service::slots::token_storage_bound(token);
        if index < nodes.slots.len() {
            assert(crate::service::slots::padded(nodes.slots, nodes.slots.len()) == nodes.slots);
            crate::service::slots::taking_keeps_tight(nodes.slots, index, node);
        } else {
            crate::service::slots::extending_keeps_tight(nodes.slots, index, node);
        }
    }
    if nodes.node(token) is Some {
        crate::service::slots::replacing_keeps_taken(nodes.slots, index);
        let slots = nodes.slots.update(index, None);
        let len = crate::service::slots::storage_len(crate::service::slots::occupied_len(slots));
        crate::service::slots::occupied_len_is_least(slots);
        crate::service::slots::storage_len_fits(crate::service::slots::occupied_len(slots));
        assert(vstd::arithmetic::power2::is_pow2(nodes.slots.len() as nat as int));
        crate::service::slots::occupied_len_ignores_free_tail(slots, len as int);
    }
}

/// The schedule names every active token, each of them once, and no other.
pub proof fn schedule_names_each_active_once<S, E>(nodes: IONodesView<S, E>)
    requires
        nodes.valid(),
    ensures
        nodes.schedule().no_duplicates(),
        forall|k: int|
            0 <= k < nodes.schedule().len() ==> 0 <= #[trigger] nodes.schedule()[k]
                <= SelectorToken::MAX,
        forall|token: SelectorToken|
            nodes.schedule().contains(token as int) <==> #[trigger] nodes.node(token) is Some,
{
    let len = nodes.slots.len() as int;
    let late = crate::service::slots::taken_between(nodes.slots, nodes.cursor, len);
    let early = crate::service::slots::taken_between(nodes.slots, 0, nodes.cursor);
    crate::service::slots::taken_between_is_ascending(nodes.slots, nodes.cursor, len);
    crate::service::slots::taken_between_is_ascending(nodes.slots, 0, nodes.cursor);
    crate::service::slots::walk_reaches_taken(nodes.slots, nodes.cursor);
    assert forall|i: int, j: int|
        0 <= i < j < nodes.schedule().len() implies nodes.schedule()[i] != nodes.schedule()[j] by {
        if j < late.len() {
            assert(late[i] < late[j]);
        } else if i < late.len() {
            assert(nodes.cursor <= late[i]);
            assert(early[j - late.len()] < nodes.cursor);
        } else {
            assert(early[i - late.len()] < early[j - late.len()]);
        }
    }
    assert forall|token: SelectorToken|
        nodes.schedule().contains(token as int) <==> #[trigger] nodes.node(token) is Some by {
        if nodes.node(token) is Some {
            assert(nodes.slots[token as int] is Some);
            if nodes.cursor <= token {
                let k = choose|k: int| 0 <= k < late.len() && late[k] == token;
                assert(nodes.schedule()[k] == token);
            } else {
                let k = choose|k: int| 0 <= k < early.len() && early[k] == token;
                assert(nodes.schedule()[late.len() + k] == token);
            }
        }
        if nodes.schedule().contains(token as int) {
            let k = choose|k: int|
                0 <= k < nodes.schedule().len() && nodes.schedule()[k] == token;
            assert(nodes.slots[nodes.schedule()[k]] is Some);
        }
    }
}

/// Where every node carries the handle of its token, the taken slots are in the order of the
/// handles and no active node is missing.
pub proof fn named_nodes_are_in_order<S, E>(nodes: IONodesView<S, E>)
    requires
        nodes.valid(),
        nodes.named(),
    ensures
        ({
            let taken = crate::service::slots::taken(nodes.slots);
            &&& forall|k: int| #![trigger taken[k]]
                0 <= k < taken.len() ==> {
                    &&& 0 <= taken[k] <= SelectorToken::MAX
                    &&& nodes.node(taken[k] as SelectorToken) == nodes.slots[taken[k]]
                    &&& nodes.slots[taken[k]] matches Some(node)
                    &&& node.endpoint.0.0 == taken[k]
                }
            &&& forall|j: int, k: int|
                0 <= j < k < taken.len() ==> #[trigger] taken[j] < #[trigger] taken[k]
            &&& forall|token: SelectorToken| #[trigger]
                nodes.node(token) is Some ==> taken.contains(token as int)
        }),
{
    let taken = crate::service::slots::taken(nodes.slots);
    crate::service::slots::taken_between_is_ascending(nodes.slots, 0, nodes.slots.len() as int);
    assert forall|k: int| #![trigger taken[k]] 0 <= k < taken.len() implies ({
        &&& 0 <= taken[k] <= SelectorToken::MAX
        &&& nodes.node(taken[k] as SelectorToken) == nodes.slots[taken[k]]
        &&& nodes.slots[taken[k]] matches Some(node)
        &&& node.endpoint.0.0 == taken[k]
    }) by {
        assert(nodes.slots[taken[k]] is Some);
        assert(nodes.node(taken[k] as SelectorToken) is Some);
    }
}

/// Handing out the next active token moves it to the end of the schedule.
pub proof fn advancing_rotates<S, E>(nodes: IONodesView<S, E>)
    requires
        nodes.valid(),
        nodes.schedule().len() > 0,
    ensures
        ({
            let token = nodes.schedule().first() as SelectorToken;
            &&& nodes.node(token) is Some
            &&& nodes.advanced(token).valid()
            &&& nodes.advanced(token).schedule() == nodes.schedule().drop_first().push(
                nodes.schedule().first(),
            )
        }),
{
    let token = nodes.schedule().first();
    let len = nodes.slots.len() as int;
    crate::service::slots::walk_reaches_taken(nodes.slots, nodes.cursor);
    crate::service::slots::walk_visits_taken(nodes.slots, token);
    crate::service::slots::walk_starts_at_first(nodes.slots, nodes.cursor);
    assert(0 <= (token + 1) % len < len);
}

/// A schedule whose first token moves to its end again and again goes round.
pub proof fn rotations_go_round(schedules: Seq<Seq<int>>, turns: nat)
    requires
        turns < schedules.len(),
        schedules[0].len() > 0,
        forall|k: int|
            0 <= k < schedules.len() - 1 && (#[trigger] schedules[k]).len() > 0 ==> schedules[k + 1]
                == schedules[k].drop_first().push(schedules[k].first()),
    ensures
        schedules[turns as int].len() == schedules[0].len(),
        forall|j: int|
            0 <= j < schedules[0].len() ==> #[trigger] schedules[turns as int][j]
                == schedules[0][(turns + j) % schedules[0].len() as int],
    decreases turns,
{
    let len = schedules[0].len() as int;
    if turns == 0 {
        assert forall|j: int| 0 <= j < len implies #[trigger] schedules[0][j]
            == schedules[0][(turns + j) % len] by {
            vstd::arithmetic::div_mod::lemma_small_mod(j as nat, len as nat);
        }
    } else {
        let last = turns - 1;
        rotations_go_round(schedules, last as nat);
        let before = schedules[last];
        let after = schedules[turns as int];
        assert(after == before.drop_first().push(before.first()));
        assert forall|j: int| 0 <= j < len implies #[trigger] after[j] == schedules[0][(turns + j)
            % len] by {
            if j < len - 1 {
                assert(after[j] == before[j + 1]);
            } else {
                assert(after[j] == before[0]);
                vstd::arithmetic::div_mod::lemma_mod_add_multiples_vanish(last, len);
            }
        }
    }
}

/// The storage after `turns` tokens were handed out.
pub open spec fn after_turns<S, E>(nodes: IONodesView<S, E>, turns: nat) -> IONodesView<S, E>
    decreases turns,
{
    if turns == 0 {
        nodes
    } else {
        let before = after_turns(nodes, (turns - 1) as nat);
        before.advanced(before.schedule().first() as SelectorToken)
    }
}

/// Handing out tokens leaves the nodes where they are.
proof fn turns_move_no_node<S, E>(nodes: IONodesView<S, E>, turns: nat)
    requires
        nodes.valid(),
        nodes.schedule().len() > 0,
    ensures
        after_turns(nodes, turns).valid(),
        after_turns(nodes, turns).slots == nodes.slots,
        after_turns(nodes, turns).schedule().len() > 0,
    decreases turns,
{
    if turns > 0 {
        turns_move_no_node(nodes, (turns - 1) as nat);
        advancing_rotates(after_turns(nodes, (turns - 1) as nat));
    }
}

/// Active tokens are handed out in round-robin order: as long as nothing is put in or taken out,
/// turn after turn goes through the schedule from its start to its end and over again.
pub proof fn turns_go_round<S, E>(nodes: IONodesView<S, E>, turns: nat)
    requires
        nodes.valid(),
        nodes.schedule().len() > 0,
    ensures
        after_turns(nodes, turns).valid(),
        after_turns(nodes, turns).slots == nodes.slots,
        after_turns(nodes, turns).schedule().len() == nodes.schedule().len(),
        forall|k: int|
            0 <= k < nodes.schedule().len() ==> #[trigger] after_turns(nodes, turns).schedule()[k]
                == nodes.schedule()[(turns + k) % nodes.schedule().len() as int],
{
    let schedules = Seq::new(turns + 1, |k: int| after_turns(nodes, k as nat).schedule());
    turns_move_no_node(nodes, turns);
    assert forall|k: int| 0 <= k < turns implies schedules[k + 1] == (
    #[trigger] schedules[k]).drop_first().push(schedules[k].first()) by {
        turns_move_no_node(nodes, k as nat);
        advancing_rotates(after_turns(nodes, k as nat));
    }
    rotations_go_round(schedules, turns);
}

/// Of any as many turns in a row as there are active nodes, each active node gets exactly one, as
/// long as nothing is put in or taken out.
pub proof fn every_round_serves_each_once<S, E>(
    nodes: IONodesView<S, E>,
    start: nat,
    token: SelectorToken,
)
    requires
        nodes.valid(),
        nodes.node(token) is Some,
    ensures
        exists|k: nat|
            k < nodes.schedule().len() && #[trigger] after_turns(
                nodes,
                start + k,
            ).schedule().first() == token,
        forall|j: nat, k: nat|
            #![trigger after_turns(nodes, start + j), after_turns(nodes, start + k)]
            j < nodes.schedule().len() && k < nodes.schedule().len() && after_turns(
                nodes,
                start + j,
            ).schedule().first() == token && after_turns(nodes, start + k).schedule().first()
                == token ==> j == k,
{
    schedule_names_each_active_once(nodes);
    assert(nodes.schedule().contains(token as int));
    turns_go_round(nodes, start);
    let now = after_turns(nodes, start);
    schedule_names_each_active_once(now);
    assert(now.node(token) is Some);
    assert forall|k: nat| k < nodes.schedule().len() implies #[trigger] after_turns(
        nodes,
        start + k,
    ).schedule().first() == now.schedule()[k as int] by {
        turns_go_round(nodes, start + k);
        assert(now.schedule()[k as int] == after_turns(nodes, start + k).schedule()[0]);
    }
    let at = choose|at: int| 0 <= at < now.schedule().len() && now.schedule()[at] == token;
    assert(after_turns(nodes, start + at as nat).schedule().first() == token);
}

/// Putting a node in does not change the order in which the other active nodes get their turns.
pub proof fn inserting_keeps_order<S, E>(
    nodes: IONodesView<S, E>,
    token: SelectorToken,
    node: IONode<S, E>,
)
    requires
        nodes.valid(),
        nodes.admits(token),
    ensures
        nodes.inserted(token, node).schedule().filter(
            crate::service::slots::other_slot(token as int),
        ) == nodes.schedule(),
{
    let after = nodes.inserted(token, node);
    let len = nodes.slots.len() as int;
    let len_after = after.slots.len() as int;
    crate::service::slots::storage_len_fits(token as nat + 1);
    if token >= len {
        crate::service::slots::taken_between_splits(after.slots, nodes.cursor, len, len_after);
        crate::service::slots::filtering_one_out(after.slots, token as int, len, len_after);
        crate::service::slots::taken_between_free(
            after.slots.update(token as int, None),
            len,
            len_after,
        );
    }
    crate::service::slots::filtering_one_out(after.slots, token as int, nodes.cursor, len);
    crate::service::slots::filtering_one_out(after.slots, token as int, 0, nodes.cursor);
    let freed = after.slots.update(token as int, None);
    crate::service::slots::taken_between_same(freed, nodes.slots, nodes.cursor, len);
    crate::service::slots::taken_between_same(freed, nodes.slots, 0, nodes.cursor);
    let late = crate::service::slots::taken_between(after.slots, nodes.cursor, len);
    let fresh = crate::service::slots::taken_between(after.slots, len, len_after);
    let early = crate::service::slots::taken_between(after.slots, 0, nodes.cursor);
    let others = crate::service::slots::other_slot(token as int);
    if token >= len {
        Seq::filter_distributes_over_add(late, fresh, others);
        Seq::filter_distributes_over_add(late + fresh, early, others);
    } else {
        Seq::filter_distributes_over_add(late, early, others);
    }
}

/// Taking a node out does not change the order in which the remaining active nodes get their turns.
pub proof fn removing_keeps_order<S, E>(nodes: IONodesView<S, E>, token: SelectorToken)
    requires
        nodes.valid(),
        nodes.node(token) is Some,
    ensures
        nodes.removed(token).schedule() == nodes.schedule().filter(
            crate::service::slots::other_slot(token as int),
        ),
{
    let after = nodes.removed(token);
    let slots = nodes.slots.update(token as int, None);
    let len = nodes.slots.len() as int;
    let len_after = crate::service::slots::storage_len(
        crate::service::slots::occupied_len(slots),
    ) as int;
    crate::service::slots::occupied_len_is_least(slots);
    crate::service::slots::storage_len_fits(crate::service::slots::occupied_len(slots));
    assert(vstd::arithmetic::power2::is_pow2(nodes.slots.len() as nat as int));
    assert(after.slots.len() == len_after);
    crate::service::slots::filtering_one_out(nodes.slots, token as int, nodes.cursor, len);
    crate::service::slots::filtering_one_out(nodes.slots, token as int, 0, nodes.cursor);
    let late = crate::service::slots::taken_between(nodes.slots, nodes.cursor, len);
    let early = crate::service::slots::taken_between(nodes.slots, 0, nodes.cursor);
    Seq::filter_distributes_over_add(late, early, crate::service::slots::other_slot(token as int));
    if nodes.cursor < len_after {
        crate::service::slots::taken_between_splits(slots, nodes.cursor, len_after, len);
        crate::service::slots::taken_between_free(slots, len_after, len);
        crate::service::slots::taken_between_same(slots, after.slots, nodes.cursor, len_after);
        crate::service::slots::taken_between_same(slots, after.slots, 0, nodes.cursor);
    } else {
        crate::service::slots::taken_between_free(slots, nodes.cursor, len);
        crate::service::slots::taken_between_splits(slots, 0, len_after, nodes.cursor);
        crate::service::slots::taken_between_free(slots, len_after, nodes.cursor);
        crate::service::slots::taken_between_same(slots, after.slots, 0, len_after);
        crate::service::slots::taken_between_free(after.slots, 0, 0);
    }
}

} // verus!
