//! The two read projections over a key's records.
//!
//! The storage engine hands back the records of a key in no particular
//! order; these functions compute what the store promises: the single
//! latest record, and the full history ranked by creation time ascending
//! with the id as the tie-break.

use vstd::prelude::*;

use crate::record::Record;
use crate::record::RecordView;
use crate::record::rec_le;
use crate::record::lemma_rec_le_total;
use crate::record::lemma_rec_le_transitive;

verus! {

/// The images of a sequence of records.
pub open spec fn views_of(s: Seq<Record>) -> Seq<RecordView> {
    s.map_values(|r: Record| r@)
}

/// Every record ranks no later than every record after it.
pub open spec fn sorted_recs(s: Seq<RecordView>) -> bool {
    forall|i: int, j: int| 0 <= i < j < s.len() ==> rec_le(s[i], s[j])
}

/// `m` is among `recs` and every record of `recs` ranks no later than it.
pub open spec fn greatest_of(m: RecordView, recs: Seq<RecordView>) -> bool {
    recs.contains(m) && forall|j: int| 0 <= j < recs.len() ==> rec_le(#[trigger] recs[j], m)
}

/// The index of the latest record: the one every other record ranks no
/// later than. `None` exactly when there are no records.
pub fn latest_index(records: &Vec<Record>) -> (r: Option<usize>)
    ensures
        r is None <==> records@.len() == 0,
        r matches Some(i) ==> i < records@.len() && greatest_of(
            views_of(records@)[i as int],
            views_of(records@),
        ),
{
    if records.len() == 0 {
        return None;
    }
    let mut best: usize = 0;
    let mut k: usize = 1;
    while k < records.len()
        invariant
            best < k <= records@.len(),
            forall|j: int|
                0 <= j < k ==> rec_le(views_of(records@)[j], views_of(records@)[best as int]),
        decreases records@.len() - k,
    {
        if records[best].ranks_no_later_than(&records[k]) {
            proof {
                assert forall|j: int|
                    0 <= j < k + 1 implies rec_le(views_of(records@)[j], views_of(records@)[k as int]) by {
                    if j < k {
                        lemma_rec_le_transitive(
                            views_of(records@)[j],
                            views_of(records@)[best as int],
                            views_of(records@)[k as int],
                        );
                    }
                }
            }
            best = k;
        } else {
            proof {
                lemma_rec_le_total(views_of(records@)[best as int], views_of(records@)[k as int]);
            }
        }
        k = k + 1;
    }
    Some(best)
}

/// Inserting a record at `i` inserts its image at `i` in the images.
proof fn lemma_views_of_insert(s: Seq<Record>, i: int, r: Record)
    requires
        0 <= i <= s.len(),
    ensures
        views_of(s.insert(i, r)) =~= views_of(s).insert(i, r@),
{
    s.insert_ensures(i, r);
    views_of(s).insert_ensures(i, r@);
}

/// Place one record into an already ranked sequence, keeping it ranked.
fn insert_in_order(out: &mut Vec<Record>, rec: Record)
    requires
        sorted_recs(views_of(old(out)@)),
    ensures
        sorted_recs(views_of(final(out)@)),
        views_of(final(out)@).to_multiset() == views_of(old(out)@).to_multiset().insert(rec@),
{
    let ghost vs = views_of(out@);
    let mut j: usize = out.len();
    while j > 0 && !out[j - 1].ranks_no_later_than(&rec)
        invariant
            j <= out@.len(),
            out == old(out),
            forall|k: int| j <= k < out@.len() ==> rec_le(rec@, views_of(out@)[k]),
        decreases j,
    {
        proof {
            lemma_rec_le_total(views_of(out@)[j - 1], rec@);
        }
        j = j - 1;
    }
    proof {
        vstd::seq_lib::to_multiset_insert(views_of(out@), j as int, rec@);
        lemma_views_of_insert(out@, j as int, rec);
    }
    let ghost before = out@;
    out.insert(j, rec);
    proof {
        let nvs = views_of(out@);
        views_of(before).insert_ensures(j as int, rec@);
        assert forall|p: int, q: int| 0 <= p < q < nvs.len() implies rec_le(nvs[p], nvs[q]) by {
            let ovs = views_of(before);
            if q < j {
                assert(nvs[p] == ovs[p] && nvs[q] == ovs[q]);
            } else if p > j {
                assert(nvs[p] == ovs[p - 1] && nvs[q] == ovs[q - 1]);
            } else if p < j && q == j {
                assert(nvs[q] == rec@);
                assert(nvs[p] == ovs[p]);
                lemma_rec_le_transitive(ovs[p], ovs[j - 1], rec@);
            } else if p == j && q > j {
                assert(nvs[p] == rec@);
                assert(nvs[q] == ovs[q - 1]);
            } else if p < j && q > j {
                assert(nvs[p] == ovs[p] && nvs[q] == ovs[q - 1]);
                if p < j - 1 {
                    lemma_rec_le_transitive(ovs[p], ovs[j - 1], ovs[q - 1]);
                }
            }
        }
    }
}

/// Rank a key's records by creation time ascending, id ascending on ties.
/// The result carries exactly the records given, each exactly once.
pub fn sort_records(records: &Vec<Record>) -> (r: Vec<Record>)
    ensures
        sorted_recs(views_of(r@)),
        views_of(r@).to_multiset() == views_of(records@).to_multiset(),
{
    let mut out: Vec<Record> = Vec::new();
    let mut i: usize = 0;
    proof {
        assert(views_of(out@) =~= Seq::<RecordView>::empty());
        assert(views_of(records@.take(0)) =~= Seq::<RecordView>::empty());
    }
    while i < records.len()
        invariant
            i <= records@.len(),
            sorted_recs(views_of(out@)),
            views_of(out@).to_multiset() == views_of(records@.take(i as int)).to_multiset(),
        decreases records@.len() - i,
    {
        let rec = records[i].duplicate();
        proof {
            assert(views_of(records@.take(i + 1))
                =~= views_of(records@.take(i as int)).push(rec@));
            vstd::seq_lib::to_multiset_build(views_of(records@.take(i as int)), rec@);
        }
        insert_in_order(&mut out, rec);
        i = i + 1;
    }
    proof {
        assert(records@.take(records@.len() as int) =~= records@);
        assert(views_of(records@.take(records@.len() as int)) == views_of(records@));
    }
    out
}

} // verus!
