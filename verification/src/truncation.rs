//! History truncation around user-turn boundaries.
//!
//! All functions here are pure: they locate the user-message boundaries in an
//! ordered sequence of entries and compute boundary-respecting prefixes.
//! Forking cuts strictly before an absolute boundary counted from the start;
//! rollback cuts strictly before a boundary counted from the end. Both keep
//! everything strictly before the selected boundary and nothing else.

use vstd::prelude::*;

use crate::items::ResponseItem;
use crate::items::RolloutItem;
use crate::items::TurnItem;
use crate::items::is_user_message;
use crate::items::parse_turn_item;
use crate::items::rollout_is_user_message;

verus! {

/// The indices, in increasing order, of the entries of `items` that satisfy
/// `is_boundary`.
pub open spec fn boundary_positions<T>(items: Seq<T>, is_boundary: spec_fn(T) -> bool) -> Seq<
    int,
>
    decreases items.len(),
{
    if items.len() == 0 {
        Seq::empty()
    } else if is_boundary(items.last()) {
        boundary_positions(items.drop_last(), is_boundary).push(items.len() - 1)
    } else {
        boundary_positions(items.drop_last(), is_boundary)
    }
}

/// The boundary predicate for in-memory transcripts: a message entry whose
/// classification is a user message.
pub open spec fn response_item_boundary() -> spec_fn(ResponseItem) -> bool {
    |item: ResponseItem| is_user_message(item)
}

/// The boundary predicate for persisted rollouts: a record wrapping a
/// transcript entry that is a user message.
pub open spec fn rollout_item_boundary() -> spec_fn(RolloutItem) -> bool {
    |item: RolloutItem| rollout_is_user_message(item)
}

/// The user-message boundary positions of an in-memory transcript.
pub open spec fn user_message_positions_spec(items: Seq<ResponseItem>) -> Seq<int> {
    boundary_positions(items, response_item_boundary())
}

/// The user-message boundary positions of a persisted rollout.
pub open spec fn rollout_user_message_positions_spec(items: Seq<RolloutItem>) -> Seq<int> {
    boundary_positions(items, rollout_item_boundary())
}

/// Every boundary position is a valid index whose entry satisfies the
/// predicate; the positions are strictly increasing; and every index whose
/// entry satisfies the predicate occurs among the positions.
pub proof fn lemma_boundary_positions_props<T>(items: Seq<T>, is_boundary: spec_fn(T) -> bool)
    ensures
        forall|k: int|
            0 <= k < boundary_positions(items, is_boundary).len() ==> 0 <= #[trigger] boundary_positions(
                items,
                is_boundary,
            )[k] < items.len() && is_boundary(items[boundary_positions(items, is_boundary)[k]]),
        forall|k1: int, k2: int|
            0 <= k1 < k2 < boundary_positions(items, is_boundary).len()
                ==> #[trigger] boundary_positions(items, is_boundary)[k1]
                < #[trigger] boundary_positions(items, is_boundary)[k2],
        forall|i: int|
            0 <= i < items.len() && #[trigger] is_boundary(items[i]) ==> exists|k: int|
                0 <= k < boundary_positions(items, is_boundary).len() && boundary_positions(
                    items,
                    is_boundary,
                )[k] == i,
    decreases items.len(),
{
    if items.len() == 0 {
    } else {
        let prefix = items.drop_last();
        lemma_boundary_positions_props(prefix, is_boundary);
        let p0 = boundary_positions(prefix, is_boundary);
        let p = boundary_positions(items, is_boundary);
        assert(forall|i: int| 0 <= i < prefix.len() ==> #[trigger] prefix[i] == items[i]);
        if is_boundary(items.last()) {
            assert(p == p0.push(items.len() - 1));
            assert forall|i: int| 0 <= i < items.len() && #[trigger] is_boundary(items[i])
                implies exists|k: int| 0 <= k < p.len() && p[k] == i by {
                if i < items.len() - 1 {
                    assert(prefix[i] == items[i]);
                    assert(is_boundary(prefix[i]));
                    let k0 = choose|k0: int| 0 <= k0 < p0.len() && p0[k0] == i;
                    assert(p[k0] == i);
                } else {
                    assert(p[p.len() - 1] == i);
                }
            }
        } else {
            assert(p == p0);
            assert forall|i: int| 0 <= i < items.len() && #[trigger] is_boundary(items[i])
                implies exists|k: int| 0 <= k < p.len() && p[k] == i by {
                assert(i != items.len() - 1);
                assert(prefix[i] == items[i]);
                assert(is_boundary(prefix[i]));
                let k0 = choose|k0: int| 0 <= k0 < p0.len() && p0[k0] == i;
                assert(p[k0] == i);
            }
        }
    }
}

/// Scan an in-memory transcript and return, in order, the indices of the
/// entries that are user-message boundaries.
pub fn user_message_positions_in_response_items(items: &Vec<ResponseItem>) -> (r: Vec<usize>)
    ensures
        r@.len() == user_message_positions_spec(items@).len(),
        forall|k: int|
            0 <= k < r@.len() ==> r@[k] == user_message_positions_spec(items@)[k],
{
    let mut positions: Vec<usize> = Vec::new();
    let mut idx: usize = 0;
    while idx < items.len()
        invariant
            idx <= items.len(),
            positions@.len() == user_message_positions_spec(items@.take(idx as int)).len(),
            forall|k: int|
                0 <= k < positions@.len() ==> positions@[k] == user_message_positions_spec(
                    items@.take(idx as int),
                )[k],
        decreases items.len() - idx,
    {
        proof {
            assert(items@.take(idx as int + 1).drop_last() =~= items@.take(idx as int));
            assert(items@.take(idx as int + 1).last() == items@[idx as int]);
        }
        let is_boundary = match parse_turn_item(&items[idx]) {
            Some(TurnItem::UserMessage) => true,
            _ => false,
        };
        if is_boundary {
            positions.push(idx);
        }
        idx = idx + 1;
    }
    proof {
        assert(items@.take(items@.len() as int) =~= items@);
    }
    positions
}

/// Scan a persisted rollout and return, in order, the indices of the records
/// that are user-message boundaries.
pub fn user_message_positions_in_rollout(items: &Vec<RolloutItem>) -> (r: Vec<usize>)
    ensures
        r@.len() == rollout_user_message_positions_spec(items@).len(),
        forall|k: int|
            0 <= k < r@.len() ==> r@[k] == rollout_user_message_positions_spec(items@)[k],
{
    let mut positions: Vec<usize> = Vec::new();
    let mut idx: usize = 0;
    while idx < items.len()
        invariant
            idx <= items.len(),
            positions@.len() == rollout_user_message_positions_spec(items@.take(idx as int)).len(),
            forall|k: int|
                0 <= k < positions@.len() ==> positions@[k]
                    == rollout_user_message_positions_spec(items@.take(idx as int))[k],
        decreases items.len() - idx,
    {
        proof {
            assert(items@.take(idx as int + 1).drop_last() =~= items@.take(idx as int));
            assert(items@.take(idx as int + 1).last() == items@[idx as int]);
        }
        let is_boundary = match &items[idx] {
            RolloutItem::ResponseItem(inner) => match parse_turn_item(inner) {
                Some(TurnItem::UserMessage) => true,
                _ => false,
            },
            _ => false,
        };
        if is_boundary {
            positions.push(idx);
        }
        idx = idx + 1;
    }
    proof {
        assert(items@.take(items@.len() as int) =~= items@);
    }
    positions
}

/// The prefix of `items` strictly before the `n`th (0-based) user-message
/// boundary; empty when at most `n` boundaries exist.
pub open spec fn truncate_before_nth_user_message_spec(items: Seq<RolloutItem>, n: int) -> Seq<
    RolloutItem,
> {
    let positions = rollout_user_message_positions_spec(items);
    if positions.len() <= n {
        Seq::empty()
    } else {
        items.take(positions[n])
    }
}

/// Return the prefix of `items` obtained by cutting strictly before the nth
/// user message, counted 0-based from the start; `n_from_start = 0` excludes
/// the first user message and everything from it onward. When fewer than or
/// equal to `n_from_start` user messages exist, the whole history is cut
/// away and the result is empty.
pub fn truncate_rollout_before_nth_user_message_from_start(
    items: Vec<RolloutItem>,
    n_from_start: usize,
) -> (r: Vec<RolloutItem>)
    ensures
        r@ == truncate_before_nth_user_message_spec(items@, n_from_start as int),
{
    let positions = user_message_positions_in_rollout(&items);
    if positions.len() <= n_from_start {
        let empty: Vec<RolloutItem> = Vec::new();
        proof {
            assert(empty@ =~= truncate_before_nth_user_message_spec(
                items@,
                n_from_start as int,
            ));
        }
        return empty;
    }
    let cut_idx = positions[n_from_start];
    proof {
        lemma_boundary_positions_props(items@, rollout_item_boundary());
    }
    let mut out = items;
    out.truncate(cut_idx);
    proof {
        assert(out@ =~= truncate_before_nth_user_message_spec(items@, n_from_start as int));
    }
    out
}

/// The prefix of `items` left after dropping the last `num_turns` user
/// turns: the identity when `num_turns` is zero or no boundary exists, the
/// prefix strictly before the first boundary when `num_turns` covers every
/// user turn, and otherwise the prefix strictly before the `num_turns`th
/// boundary from the end.
pub open spec fn drop_last_n_user_turns_spec(items: Seq<ResponseItem>, num_turns: u32) -> Seq<
    ResponseItem,
> {
    let positions = user_message_positions_spec(items);
    if num_turns == 0 || positions.len() == 0 {
        items
    } else if num_turns >= positions.len() {
        items.take(positions[0])
    } else {
        items.take(positions[positions.len() - num_turns])
    }
}

/// Return the prefix of `items` obtained by dropping the last `num_turns`
/// user turns: a no-op for `num_turns == 0` or when there is no user turn;
/// otherwise everything from the selected boundary onward is removed, and
/// entries before the first user message (the session prefix) are always
/// preserved.
pub fn drop_last_n_user_turns_from_response_items(
    items: Vec<ResponseItem>,
    num_turns: u32,
) -> (r: Vec<ResponseItem>)
    ensures
        r@ == drop_last_n_user_turns_spec(items@, num_turns),
{
    if num_turns == 0 {
        return items;
    }
    let positions = user_message_positions_in_response_items(&items);
    if positions.len() == 0 {
        return items;
    }
    let n_from_end = num_turns as usize;
    let cut_idx = if n_from_end >= positions.len() {
        positions[0]
    } else {
        positions[positions.len() - n_from_end]
    };
    proof {
        lemma_boundary_positions_props(items@, response_item_boundary());
    }
    let mut out = items;
    out.truncate(cut_idx);
    proof {
        assert(out@ =~= drop_last_n_user_turns_spec(items@, num_turns));
    }
    out
}

/// Law: when the number of user-message boundaries in `items` is at most
/// `n`, truncating before the `n`th boundary from the start yields the empty
/// history.
pub proof fn lemma_truncate_out_of_range_is_empty(items: Seq<RolloutItem>, n: int)
    requires
        rollout_user_message_positions_spec(items).len() <= n,
    ensures
        truncate_before_nth_user_message_spec(items, n) == Seq::<RolloutItem>::empty(),
{
}

/// Law: when the `n`th (0-based) user-message boundary exists, truncating
/// before it returns exactly `items` up to, and excluding, that boundary's
/// position.
pub proof fn lemma_truncate_cuts_at_nth_boundary(items: Seq<RolloutItem>, n: int)
    requires
        0 <= n < rollout_user_message_positions_spec(items).len(),
    ensures
        truncate_before_nth_user_message_spec(items, n) == items.take(
            rollout_user_message_positions_spec(items)[n],
        ),
        truncate_before_nth_user_message_spec(items, n).len()
            == rollout_user_message_positions_spec(items)[n],
{
    lemma_boundary_positions_props(items, rollout_item_boundary());
}

/// Law: dropping zero user turns is the identity.
pub proof fn lemma_drop_zero_user_turns_is_identity(items: Seq<ResponseItem>)
    ensures
        drop_last_n_user_turns_spec(items, 0) == items,
{
}

/// Law: when `items` has no user-message boundary, dropping any number of
/// user turns is the identity.
pub proof fn lemma_drop_without_boundaries_is_identity(items: Seq<ResponseItem>, num_turns: u32)
    requires
        user_message_positions_spec(items).len() == 0,
    ensures
        drop_last_n_user_turns_spec(items, num_turns) == items,
{
}

/// Law: when `num_turns` covers every user turn, the result is the session
/// prefix: exactly the entries strictly before the first user-message
/// boundary, none of which is itself a boundary.
pub proof fn lemma_drop_all_user_turns_keeps_session_prefix(
    items: Seq<ResponseItem>,
    num_turns: u32,
)
    requires
        user_message_positions_spec(items).len() > 0,
        num_turns >= user_message_positions_spec(items).len(),
    ensures
        drop_last_n_user_turns_spec(items, num_turns) == items.take(
            user_message_positions_spec(items)[0],
        ),
        forall|i: int|
            0 <= i < user_message_positions_spec(items)[0] ==> !is_user_message(
                #[trigger] items[i],
            ),
{
    lemma_boundary_positions_props(items, response_item_boundary());
    let positions = user_message_positions_spec(items);
    assert forall|i: int| 0 <= i < positions[0] implies !is_user_message(items[i]) by {
        if is_user_message(items[i]) {
            assert(response_item_boundary()(items[i]));
            let k = choose|k: int| 0 <= k < positions.len() && positions[k] == i;
            assert(positions[k] < positions[0] ==> false);
        }
    }
}

} // verus!
