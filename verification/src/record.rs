//! The stored record and the order in which records rank.
//!
//! A record is one immutable fact: a surrogate id, the user's key, the stored
//! value, and the creation timestamp stamped at insertion. Records of one key
//! rank by creation time ascending, with the id as the tie-break.

use vstd::prelude::*;

use crate::order::lex_lt;
use crate::order::lemma_lex_asymmetric;
use crate::order::lemma_lex_connected;
use crate::order::lemma_lex_transitive;

verus! {

/// One persisted fact: never updated, never deleted.
pub struct Record {
    /// Surrogate id assigned by the storage engine, strictly increasing in
    /// insertion order; the only tie-break when timestamps collide.
    pub id: i64,
    /// The user-supplied key.
    pub key: String,
    /// The stored value (possibly space-joined from several tokens).
    pub value: String,
    /// Timestamp text stamped by the storage engine at insertion.
    pub created: String,
}

/// The mathematical image of a [`Record`].
pub struct RecordView {
    pub id: int,
    pub key: Seq<char>,
    pub value: Seq<char>,
    pub created: Seq<char>,
}

impl View for Record {
    type V = RecordView;

    open spec fn view(&self) -> RecordView {
        RecordView { id: self.id as int, key: self.key@, value: self.value@, created: self.created@ }
    }
}

/// `a` ranks strictly before `b`: earlier creation time, or the same time
/// with a smaller id.
pub open spec fn rec_before(a: RecordView, b: RecordView) -> bool {
    lex_lt(a.created, b.created) || (a.created == b.created && a.id < b.id)
}

/// `a` ranks no later than `b` (the reflexive companion of [`rec_before`]).
pub open spec fn rec_le(a: RecordView, b: RecordView) -> bool {
    lex_lt(a.created, b.created) || (a.created == b.created && a.id <= b.id)
}

/// Any two records are ranked one way or the other.
pub proof fn lemma_rec_le_total(a: RecordView, b: RecordView)
    ensures
        rec_le(a, b) || rec_le(b, a),
{
    lemma_lex_connected(a.created, b.created);
}

/// Ranking is transitive.
pub proof fn lemma_rec_le_transitive(a: RecordView, b: RecordView, c: RecordView)
    requires
        rec_le(a, b),
        rec_le(b, c),
    ensures
        rec_le(a, c),
{
    if lex_lt(a.created, b.created) && lex_lt(b.created, c.created) {
        lemma_lex_transitive(a.created, b.created, c.created);
    }
}

/// Two records ranked both ways share their timestamp and id.
pub proof fn lemma_rec_le_antisymmetric(a: RecordView, b: RecordView)
    requires
        rec_le(a, b),
        rec_le(b, a),
    ensures
        a.created == b.created,
        a.id == b.id,
{
    if lex_lt(a.created, b.created) {
        lemma_lex_asymmetric(a.created, b.created);
    }
    if lex_lt(b.created, a.created) {
        lemma_lex_asymmetric(b.created, a.created);
    }
}

impl Record {
    /// An owned copy with the same image.
    pub fn duplicate(&self) -> (r: Record)
        ensures
            r@ == self@,
    {
        let r = Record {
            id: self.id,
            key: self.key.clone(),
            value: self.value.clone(),
            created: self.created.clone(),
        };
        assert(r@ =~= self@);
        r
    }

    /// Decide [`rec_le`] on two records.
    pub fn ranks_no_later_than(&self, other: &Record) -> (r: bool)
        ensures
            r == rec_le(self@, other@),
    {
        if self.created == other.created {
            proof {
                if lex_lt(self.created@, other.created@) {
                    lemma_lex_asymmetric(self.created@, other.created@);
                }
            }
            self.id <= other.id
        } else {
            crate::order::str_lt(self.created.as_str(), other.created.as_str())
        }
    }
}

/// The records of `s` whose key is `k`, in their order in `s`.
pub open spec fn records_for_key(s: Seq<RecordView>, k: Seq<char>) -> Seq<RecordView> {
    s.filter(|r: RecordView| r.key == k)
}

/// No two records of `s` share an id.
pub open spec fn distinct_ids(s: Seq<RecordView>) -> bool {
    forall|i: int, j: int|
        0 <= i < s.len() && 0 <= j < s.len() && i != j ==> s[i].id != s[j].id
}

} // verus!
