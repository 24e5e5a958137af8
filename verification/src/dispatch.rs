//! The command dispatcher: one user intent becomes one store call, and the
//! results become lines of text.
//!
//! A `get` prints the latest value, or nothing when the key is unknown; a
//! `set` joins its value tokens with single spaces and appends one record,
//! reporting a storage failure as a diagnostic line rather than an error;
//! a `history` prints every value of a key in chronological order. A line
//! carries the record's creation time in front when asked for.

use vstd::prelude::*;

use crate::query::sorted_recs;
use crate::query::views_of;
use crate::record::Record;
use crate::record::RecordView;
use crate::store::Store;
use crate::store::StoreError;

verus! {

/// The tokens of a `set`, joined by a single space between neighbours.
pub open spec fn join_spaces(vs: Seq<Seq<char>>) -> Seq<char>
    decreases vs.len(),
{
    if vs.len() == 0 {
        Seq::empty()
    } else if vs.len() == 1 {
        vs[0]
    } else {
        join_spaces(vs.drop_last()) + seq![' '] + vs.last()
    }
}

/// The character sequences of a sequence of strings.
pub open spec fn string_views(vs: Seq<String>) -> Seq<Seq<char>> {
    vs.map_values(|s: String| s@)
}

/// Join value tokens with a single space between neighbours.
pub fn join_tokens(values: &Vec<String>) -> (r: String)
    ensures
        r@ == join_spaces(string_views(values@)),
{
    let ghost vs = string_views(values@);
    let mut out = String::new();
    let mut i: usize = 0;
    proof {
        assert(vs.take(0) =~= Seq::<Seq<char>>::empty());
    }
    while i < values.len()
        invariant
            i <= values@.len(),
            vs == string_views(values@),
            out@ == join_spaces(vs.take(i as int)),
        decreases values@.len() - i,
    {
        if i > 0 {
            out.append(" ");
            proof {
                reveal_strlit(" ");
                assert(" "@ =~= seq![' ']);
            }
        }
        out.append(values[i].as_str());
        proof {
            assert(vs.take(i + 1).drop_last() =~= vs.take(i as int));
            assert(vs.take(i + 1).last() == vs[i as int]);
            if i > 0 {
                assert(out@ == join_spaces(vs.take(i as int)) + seq![' '] + vs[i as int]);
            } else {
                assert(out@ =~= vs[0]);
            }
        }
        i = i + 1;
    }
    proof {
        assert(vs.take(values@.len() as int) =~= vs);
    }
    out
}

/// How one record renders: its value, with the creation time and one
/// space in front when `with_time` is set.
pub open spec fn line_view(rec: RecordView, with_time: bool) -> Seq<char> {
    if with_time {
        rec.created + seq![' '] + rec.value
    } else {
        rec.value
    }
}

/// Render one record as one output line.
pub fn render_line(rec: &Record, with_time: bool) -> (r: String)
    ensures
        r@ == line_view(rec@, with_time),
{
    if with_time {
        let mut out = rec.created.clone();
        out.append(" ");
        out.append(rec.value.as_str());
        proof {
            reveal_strlit(" ");
            assert(" "@ =~= seq![' ']);
        }
        out
    } else {
        rec.value.clone()
    }
}

/// Render every record as one line, in the order given.
pub fn render_lines(records: &Vec<Record>, with_time: bool) -> (r: Vec<String>)
    ensures
        r@.len() == records@.len(),
        forall|i: int|
            0 <= i < records@.len() ==> (#[trigger] r@[i])@ == line_view(
                views_of(records@)[i],
                with_time,
            ),
{
    let mut out: Vec<String> = Vec::new();
    let mut i: usize = 0;
    while i < records.len()
        invariant
            i <= records@.len(),
            out@.len() == i,
            forall|j: int|
                0 <= j < i ==> (#[trigger] out@[j])@ == line_view(views_of(records@)[j], with_time),
        decreases records@.len() - i,
    {
        let line = render_line(&records[i], with_time);
        out.push(line);
        i = i + 1;
    }
    out
}

/// The lines a `get` prints for what the store found: nothing at all for
/// an unknown key, else the one record's rendering.
pub fn get_lines(found: &Option<Record>, with_time: bool) -> (r: Vec<String>)
    ensures
        found is None ==> r@.len() == 0,
        found matches Some(m) ==> r@.len() == 1 && (r@[0])@ == line_view(m@, with_time),
{
    match found {
        None => Vec::new(),
        Some(m) => {
            let mut out: Vec<String> = Vec::new();
            out.push(render_line(m, with_time));
            out
        }
    }
}

/// `line` is the rendering, per `with_time`, of a record keyed `key`.
pub open spec fn renders_record_of(line: Seq<char>, key: Seq<char>, with_time: bool) -> bool {
    exists|m: RecordView| m.key == key && line == line_view(m, with_time)
}

/// Run a `get`: at most one line, the latest value of `key`, rendered per
/// `with_time`; no line at all when the key is unknown.
pub fn run_get(store: &Store, key: &str, with_time: bool) -> (r: Result<Vec<String>, StoreError>)
    ensures
        r matches Ok(lines) ==> lines@.len() <= 1 && forall|i: int|
            0 <= i < lines@.len() ==> renders_record_of((#[trigger] lines@[i])@, key@, with_time),
{
    let found = match store.latest(key) {
        Ok(f) => f,
        Err(e) => return Err(e),
    };
    let lines = get_lines(&found, with_time);
    match &found {
        Some(m) => {
            proof {
                assert(m@.key == key@ && lines@[0]@ == line_view(m@, with_time));
                assert(renders_record_of(lines@[0]@, key@, with_time));
            }
        }
        None => {}
    }
    Ok(lines)
}

/// `lines` renders, per `with_time` and line by line, a ranked sequence
/// of records all keyed `key`.
pub open spec fn renders_history_of(
    lines: Seq<Seq<char>>,
    key: Seq<char>,
    with_time: bool,
) -> bool {
    exists|recs: Seq<RecordView>|
        sorted_recs(recs) && recs.len() == lines.len() && forall|i: int|
            0 <= i < recs.len() ==> (#[trigger] recs[i]).key == key && lines[i] == line_view(
                recs[i],
                with_time,
            )
}

/// Run a `history`: one line per stored record of `key`, in chronological
/// order, each rendered per `with_time`.
pub fn run_history(store: &Store, key: &str, with_time: bool) -> (r: Result<
    Vec<String>,
    StoreError,
>)
    ensures
        r matches Ok(lines) ==> renders_history_of(string_views(lines@), key@, with_time),
{
    let records = match store.history(key) {
        Ok(v) => v,
        Err(e) => return Err(e),
    };
    let lines = render_lines(&records, with_time);
    proof {
        let recs = views_of(records@);
        let lv = string_views(lines@);
        assert(sorted_recs(recs) && recs.len() == lv.len() && forall|i: int|
            0 <= i < recs.len() ==> (#[trigger] recs[i]).key == key@ && lv[i] == line_view(
                recs[i],
                with_time,
            ));
    }
    Ok(lines)
}

/// The fixed front of a `set` failure diagnostic.
pub open spec fn diag_prefix() -> Seq<char> {
    "Could not insert key into database: "@
}

/// The diagnostic line for a failed `set`: the fixed front, then the
/// storage engine's message.
pub fn set_failure_line(e: &StoreError) -> (r: String)
    ensures
        r@ == diag_prefix() + e.message@,
{
    let mut out = String::new();
    out.append("Could not insert key into database: ");
    out.append(e.message.as_str());
    out
}

/// Run a `set`: join the value tokens with single spaces, append one
/// record for `key`, and hand back the diagnostic line to print when the
/// storage engine rejected the write (`None` on success, as a `set`
/// prints nothing then).
pub fn run_set(store: &Store, key: &str, values: &Vec<String>) -> (r: Option<String>)
    ensures
        r matches Some(line) ==> line@.len() >= diag_prefix().len() && line@.subrange(
            0,
            diag_prefix().len() as int,
        ) == diag_prefix(),
{
    let value = join_tokens(values);
    match store.append(key, value.as_str()) {
        Ok(()) => None,
        Err(e) => {
            let line = set_failure_line(&e);
            proof {
                assert(line@.subrange(0, diag_prefix().len() as int) =~= diag_prefix());
            }
            Some(line)
        }
    }
}

} // verus!
