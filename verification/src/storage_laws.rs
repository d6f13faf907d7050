//! Laws of the task table, stated over the table as a mathematical value.
//!
//! The operations of [`crate::storage::StorageManager`] promise to change the
//! table as `upsert_all`, `marked_ready` and `finalized` say. What is proved
//! of those here therefore holds of every run of the operations.

use vstd::prelude::*;

use crate::storage::{
    accepts, advances, discovered_status, finalize_verdict, finalized, has_status, marked_ready,
    upsert, upsert_all, FinalizeVerdict, TaskStatus, TaskTable,
};
use crate::task::TorrentTaskInfoView;

verus! {

/// The rank of the status stored for `hash`, or `-1` where the table does not
/// know the hash.
pub open spec fn stored_rank(table: TaskTable, hash: Seq<char>) -> int {
    if table.contains_key(hash) {
        table[hash].status.rank()
    } else {
        -1
    }
}

/// The rank with which an item asks to be stored.
pub open spec fn offered_rank(item: TorrentTaskInfoView) -> int {
    discovered_status(item.status).rank()
}

/// The highest rank that `items` offer for `hash`, or `-1` where none of them
/// speaks of the hash.
pub open spec fn highest_offer(items: Seq<TorrentTaskInfoView>, hash: Seq<char>) -> int
    decreases items.len(),
{
    if items.len() == 0 {
        -1
    } else {
        let before = highest_offer(items.drop_last(), hash);
        if items.last().hash == hash && offered_rank(items.last()) > before {
            offered_rank(items.last())
        } else {
            before
        }
    }
}

/// The greater of two integers.
pub open spec fn greater(a: int, b: int) -> int {
    if a >= b {
        a
    } else {
        b
    }
}

/// `highest_offer` is the greatest rank offered for the hash: no item offers
/// more, and unless it is `-1` some item offers exactly that.
pub proof fn lemma_highest_offer_is_max(items: Seq<TorrentTaskInfoView>, hash: Seq<char>)
    ensures
        forall|i: int|
            0 <= i < items.len() && (#[trigger] items[i]).hash == hash ==> offered_rank(items[i])
                <= highest_offer(items, hash),
        highest_offer(items, hash) == -1 || exists|i: int|
            0 <= i < items.len() && (#[trigger] items[i]).hash == hash && offered_rank(items[i])
                == highest_offer(items, hash),
        highest_offer(items, hash) == -1 ==> forall|i: int|
            0 <= i < items.len() ==> (#[trigger] items[i]).hash != hash,
    decreases items.len(),
{
    if items.len() > 0 {
        let front = items.drop_last();
        lemma_highest_offer_is_max(front, hash);
        assert forall|i: int| 0 <= i < items.len() && (#[trigger] items[i]).hash
            == hash implies offered_rank(items[i]) <= highest_offer(items, hash) by {
            if i < front.len() {
                assert(front[i] == items[i]);
            }
        }
        if highest_offer(items, hash) != -1 {
            if items.last().hash == hash && offered_rank(items.last()) > highest_offer(front, hash) {
                assert(items[items.len() - 1] == items.last());
            } else {
                let i = choose|i: int|
                    0 <= i < front.len() && (#[trigger] front[i]).hash == hash && offered_rank(
                        front[i],
                    ) == highest_offer(front, hash);
                assert(items[i] == front[i]);
            }
        } else {
            assert forall|i: int| 0 <= i < items.len() implies (#[trigger] items[i]).hash
                != hash by {
                if i < front.len() {
                    assert(front[i] == items[i]);
                }
            }
        }
    }
}

/// After any sequence of offers, the status stored for a hash is the highest
/// among the status stored before and the statuses offered for that hash.
pub proof fn lemma_update_keeps_highest(
    table: TaskTable,
    items: Seq<TorrentTaskInfoView>,
    hash: Seq<char>,
)
    ensures
        stored_rank(upsert_all(table, items), hash) == greater(
            stored_rank(table, hash),
            highest_offer(items, hash),
        ),
    decreases items.len(),
{
    if items.len() > 0 {
        lemma_update_keeps_highest(table, items.drop_last(), hash);
    }
}

/// The status stored after a sequence of offers does not depend on the order
/// in which the offers arrive: two sequences that hold the same items, each
/// as often as the other, leave every hash with the same status.
pub proof fn lemma_update_order_irrelevant(
    table: TaskTable,
    first: Seq<TorrentTaskInfoView>,
    second: Seq<TorrentTaskInfoView>,
)
    requires
        first.to_multiset() == second.to_multiset(),
    ensures
        forall|hash: Seq<char>|
            stored_rank(#[trigger] upsert_all(table, first), hash) == stored_rank(
                upsert_all(table, second),
                hash,
            ),
        upsert_all(table, first).dom() == upsert_all(table, second).dom(),
{
    assert forall|hash: Seq<char>|
        stored_rank(upsert_all(table, first), hash) == stored_rank(
            upsert_all(table, second),
            hash,
        ) by {
        lemma_same_items_same_offer(first, second, hash);
        lemma_update_keeps_highest(table, first, hash);
        lemma_update_keeps_highest(table, second, hash);
    }
    assert forall|hash: Seq<char>|
        upsert_all(table, first).dom().contains(hash) == upsert_all(table, second).dom().contains(
            hash,
        ) by {
        assert(stored_rank(upsert_all(table, first), hash) == stored_rank(
            upsert_all(table, second),
            hash,
        ));
    }
    assert(upsert_all(table, first).dom() =~= upsert_all(table, second).dom());
}

/// Two sequences with the same items offer the same highest rank for a hash.
proof fn lemma_same_items_same_offer(
    first: Seq<TorrentTaskInfoView>,
    second: Seq<TorrentTaskInfoView>,
    hash: Seq<char>,
)
    requires
        first.to_multiset() == second.to_multiset(),
    ensures
        highest_offer(first, hash) == highest_offer(second, hash),
{
    lemma_offer_bounded_by_superset(first, second, hash);
    lemma_offer_bounded_by_superset(second, first, hash);
}

/// If every item of `small` occurs in `large`, then `large` offers at least
/// as much for a hash as `small` does.
proof fn lemma_offer_bounded_by_superset(
    small: Seq<TorrentTaskInfoView>,
    large: Seq<TorrentTaskInfoView>,
    hash: Seq<char>,
)
    requires
        small.to_multiset() == large.to_multiset(),
    ensures
        highest_offer(small, hash) <= highest_offer(large, hash),
{
    lemma_highest_offer_is_max(small, hash);
    lemma_highest_offer_is_max(large, hash);
    if highest_offer(small, hash) != -1 {
        let i = choose|i: int|
            0 <= i < small.len() && (#[trigger] small[i]).hash == hash && offered_rank(small[i])
                == highest_offer(small, hash);
        let item = small[i];
        small.to_multiset_ensures();
        large.to_multiset_ensures();
        assert(small.contains(item));
        assert(large.to_multiset().count(item) > 0);
        assert(large.contains(item));
        let k = choose|k: int| 0 <= k < large.len() && large[k] == item;
        assert(large[k].hash == hash);
    }
}

/// Items that the table would pass over, each of them, leave it unchanged.
proof fn lemma_rejected_offers_change_nothing(table: TaskTable, items: Seq<TorrentTaskInfoView>)
    requires
        forall|i: int| 0 <= i < items.len() ==> !accepts(table, #[trigger] items[i]),
    ensures
        upsert_all(table, items) == table,
    decreases items.len(),
{
    if items.len() > 0 {
        let front = items.drop_last();
        assert forall|i: int| 0 <= i < front.len() implies !accepts(table, #[trigger] front[i]) by {
            assert(front[i] == items[i]);
        }
        lemma_rejected_offers_change_nothing(table, front);
        assert(items.last() == items[items.len() - 1]);
    }
}

/// Offering the same items a second time changes nothing.
pub proof fn lemma_update_idempotent(table: TaskTable, items: Seq<TorrentTaskInfoView>)
    ensures
        upsert_all(upsert_all(table, items), items) == upsert_all(table, items),
{
    let once = upsert_all(table, items);
    assert forall|i: int| 0 <= i < items.len() implies !accepts(once, #[trigger] items[i]) by {
        let hash = items[i].hash;
        lemma_update_keeps_highest(table, items, hash);
        lemma_highest_offer_is_max(items, hash);
    }
    lemma_rejected_offers_change_nothing(once, items);
}

/// No operation of the table loses a task or moves a status backwards.
pub proof fn lemma_status_never_decreases(
    table: TaskTable,
    items: Seq<TorrentTaskInfoView>,
    hash: Seq<char>,
)
    ensures
        advances(table, upsert_all(table, items)),
        advances(table, marked_ready(table, hash)),
        advances(table, finalized(table, hash)),
{
    crate::storage::lemma_upsert_all_advances(table, items);
}

/// An archived task stays archived whatever is offered, marked or finalized.
pub proof fn lemma_archived_is_terminal(
    table: TaskTable,
    items: Seq<TorrentTaskInfoView>,
    hash: Seq<char>,
    other: Seq<char>,
)
    requires
        has_status(table, hash, TaskStatus::Archived),
    ensures
        has_status(upsert_all(table, items), hash, TaskStatus::Archived),
        has_status(marked_ready(table, other), hash, TaskStatus::Archived),
        has_status(finalized(table, other), hash, TaskStatus::Archived),
{
    crate::storage::lemma_upsert_all_advances(table, items);
    let after = upsert_all(table, items);
    assert(table.contains_key(hash));
    crate::storage::lemma_rank_injective(after[hash].status, TaskStatus::Archived);
}

/// Archiving is idempotent in effect: the first attempt on a task that waits
/// at the relay archives it; a second attempt on the same hash reports that it
/// is already archived and leaves the table as it is, so nothing is reclaimed
/// twice.
pub proof fn lemma_finalize_twice(table: TaskTable, hash: Seq<char>)
    requires
        has_status(table, hash, TaskStatus::ArtifactReady),
    ensures
        finalize_verdict(table, hash) == FinalizeVerdict::Archived,
        has_status(finalized(table, hash), hash, TaskStatus::Archived),
        finalize_verdict(finalized(table, hash), hash) == FinalizeVerdict::AlreadyArchived,
        finalized(finalized(table, hash), hash) == finalized(table, hash),
{
}

/// Whatever the table holds, a second attempt to archive a hash changes
/// nothing more, and only an attempt on a task that waits at the relay is
/// answered with success.
pub proof fn lemma_finalize_settles(table: TaskTable, hash: Seq<char>)
    ensures
        finalized(finalized(table, hash), hash) == finalized(table, hash),
        finalize_verdict(finalized(table, hash), hash) != FinalizeVerdict::Archived,
        finalize_verdict(table, hash) == FinalizeVerdict::Archived <==> has_status(
            table,
            hash,
            TaskStatus::ArtifactReady,
        ),
{
}

/// Archiving a hash that the table does not know is answered with
/// `NotFound` and changes nothing.
pub proof fn lemma_finalize_unknown(table: TaskTable, hash: Seq<char>)
    requires
        !table.contains_key(hash),
    ensures
        finalize_verdict(table, hash) == FinalizeVerdict::NotFound,
        finalized(table, hash) == table,
{
}

/// Archiving touches no other task.
pub proof fn lemma_finalize_leaves_others(table: TaskTable, hash: Seq<char>, other: Seq<char>)
    requires
        other != hash,
    ensures
        finalized(table, hash).contains_key(other) == table.contains_key(other),
        table.contains_key(other) ==> finalized(table, hash)[other] == table[other],
{
}

/// One offer is written exactly when it is accepted.
pub proof fn lemma_single_offer(table: TaskTable, item: TorrentTaskInfoView)
    ensures
        upsert_all(table, seq![item]) == upsert(table, item),
{
    assert(seq![item].drop_last() =~= Seq::<TorrentTaskInfoView>::empty());
    reveal_with_fuel(upsert_all, 2);
}


/// Offers touch only the hashes they speak of: a hash that no item carries
/// keeps its record, or stays unknown.
pub proof fn lemma_update_touches_only_offered(
    table: TaskTable,
    items: Seq<TorrentTaskInfoView>,
    hash: Seq<char>,
)
    requires
        forall|i: int| 0 <= i < items.len() ==> (#[trigger] items[i]).hash != hash,
    ensures
        upsert_all(table, items).contains_key(hash) == table.contains_key(hash),
        table.contains_key(hash) ==> upsert_all(table, items)[hash] == table[hash],
    decreases items.len(),
{
    if items.len() > 0 {
        let front = items.drop_last();
        assert forall|i: int| 0 <= i < front.len() implies (#[trigger] front[i]).hash != hash by {
            assert(front[i] == items[i]);
        }
        lemma_update_touches_only_offered(table, front, hash);
        assert(items.last() == items[items.len() - 1]);
    }
}

} // verus!
