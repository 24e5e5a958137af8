//! The laws of the append-only model.
//!
//! These proof functions state, over the mathematical image of the stored
//! table, what the store's operations promise together: a write only ever
//! adds one record for its own key, the latest record of a key is unique,
//! and the last record of a ranked history is that latest record.

use vstd::prelude::*;

use crate::query::greatest_of;
use crate::query::sorted_recs;
use crate::record::RecordView;
use crate::record::distinct_ids;
use crate::record::lemma_rec_le_antisymmetric;
use crate::record::rec_le;
use crate::record::records_for_key;

verus! {

/// Appending a record changes nothing that was stored before: it adds the
/// record at the end of its own key's records, leaves every other key's
/// records as they were, and leaves every earlier record in place. Over a
/// run of writes this pins the count: each one grows its key's records by
/// exactly one.
pub proof fn lemma_append_only(s: Seq<RecordView>, r: RecordView)
    ensures
        records_for_key(s.push(r), r.key) == records_for_key(s, r.key).push(r),
        records_for_key(s.push(r), r.key).len() == records_for_key(s, r.key).len() + 1,
        forall|k: Seq<char>| k != r.key ==> #[trigger] records_for_key(s.push(r), k)
            == records_for_key(s, k),
        s.push(r).take(s.len() as int) == s,
{
    reveal_with_fuel(Seq::filter, 2);
    let own = |x: RecordView| x.key == r.key;
    assert(s.push(r) =~= s + seq![r]);
    Seq::filter_distributes_over_add(s, seq![r], own);
    assert(seq![r].drop_last() =~= Seq::<RecordView>::empty());
    assert(seq![r].filter(own) =~= seq![r]);
    assert(records_for_key(s.push(r), r.key) =~= records_for_key(s, r.key).push(r));
    assert forall|k: Seq<char>| k != r.key implies #[trigger] records_for_key(s.push(r), k)
        == records_for_key(s, k) by {
        let other = |x: RecordView| x.key == k;
        Seq::filter_distributes_over_add(s, seq![r], other);
        assert(seq![r].filter(other) =~= Seq::<RecordView>::empty());
        assert(records_for_key(s.push(r), k) =~= records_for_key(s, k));
    }
    assert(s.push(r).take(s.len() as int) =~= s);
}

/// Among records with pairwise distinct ids there is at most one greatest
/// record: whatever order the engine hands the records back in, a `get`
/// names one well-defined record.
pub proof fn lemma_latest_unique(recs: Seq<RecordView>, m1: RecordView, m2: RecordView)
    requires
        distinct_ids(recs),
        greatest_of(m1, recs),
        greatest_of(m2, recs),
    ensures
        m1 == m2,
{
    let i1 = choose|i: int| 0 <= i < recs.len() && recs[i] == m1;
    let i2 = choose|i: int| 0 <= i < recs.len() && recs[i] == m2;
    assert(rec_le(m1, m2));
    assert(rec_le(m2, m1));
    lemma_rec_le_antisymmetric(m1, m2);
    if i1 != i2 {
        assert(recs[i1].id != recs[i2].id);
    }
}

/// The last record of a ranked history is the latest record: for a key
/// with at least one record, `history`'s final line describes the same
/// record that `get` prints.
pub proof fn lemma_history_last_is_latest(
    fetched: Seq<RecordView>,
    hist: Seq<RecordView>,
    m: RecordView,
)
    requires
        distinct_ids(fetched),
        hist.to_multiset() == fetched.to_multiset(),
        sorted_recs(hist),
        greatest_of(m, fetched),
    ensures
        hist.len() > 0,
        hist.last() == m,
{
    broadcast use vstd::seq_lib::group_to_multiset_ensures;

    assert(fetched.contains(m));
    assert(fetched.to_multiset().count(m) > 0);
    assert(hist.to_multiset().count(m) > 0);
    assert(hist.contains(m));
    let i = choose|i: int| 0 <= i < hist.len() && hist[i] == m;
    let last = hist.last();
    assert(hist.contains(last));
    assert(hist.to_multiset().count(last) > 0);
    assert(fetched.to_multiset().count(last) > 0);
    assert(fetched.contains(last));
    assert(rec_le(last, m));
    assert(rec_le(m, last)) by {
        if i < hist.len() - 1 {
            assert(rec_le(hist[i], hist[hist.len() - 1]));
        }
    }
    lemma_rec_le_antisymmetric(m, last);
    let j1 = choose|j: int| 0 <= j < fetched.len() && fetched[j] == m;
    let j2 = choose|j: int| 0 <= j < fetched.len() && fetched[j] == last;
    if j1 != j2 {
        assert(fetched[j1].id != fetched[j2].id);
    }
}

} // verus!
