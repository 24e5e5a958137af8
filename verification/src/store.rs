//! The persistence component: durable append-only storage of key/value
//! history, plus its two read projections.
//!
//! The store owns a single table of records. A write appends one new
//! record; nothing is ever updated or deleted. Reads fetch every record of
//! a key and compute the latest record or the ranked history in verified
//! code, so the ordering contract does not rest on the SQL engine.

use vstd::prelude::*;

use crate::query::greatest_of;
use crate::query::latest_index;
use crate::query::sort_records;
use crate::query::sorted_recs;
use crate::query::views_of;
use crate::record::Record;
use crate::sqlite_api::bind_text;
use crate::sqlite_api::error_text;
use crate::sqlite_api::execute_sql;
use crate::sqlite_api::open_connection;
use crate::sqlite_api::prepare_sql;
use crate::sqlite_api::read_int;
use crate::sqlite_api::read_text;
use crate::sqlite_api::step_row;

verus! {

/// A failure reported by the storage engine, carried as its message text.
#[derive(Debug)]
pub struct StoreError {
    pub message: String,
}

fn store_error(e: sqlite::Error) -> (r: StoreError) {
    StoreError { message: error_text(&e) }
}

/// A handle on the persistent table of records.
pub struct Store {
    conn: sqlite::Connection,
}

impl Store {
    /// Open the database at `path`, or report why it cannot be opened.
    pub fn open(path: &str) -> (r: Result<Store, StoreError>) {
        match open_connection(path) {
            Ok(conn) => Ok(Store { conn }),
            Err(e) => Err(store_error(e)),
        }
    }

    /// Ensure the record table and its key index exist. Idempotent: both
    /// statements create only what is absent, so calling this on every
    /// start neither duplicates anything nor errors once they exist.
    pub fn initialize(&self) -> (r: Result<(), StoreError>) {
        let sql =
            "CREATE TABLE IF NOT EXISTS kv(id INTEGER PRIMARY KEY, k TEXT, v TEXT, created DATETIME DEFAULT CURRENT_TIMESTAMP); CREATE INDEX IF NOT EXISTS k_index ON kv(k);";
        match execute_sql(&self.conn, sql) {
            Ok(u) => Ok(u),
            Err(e) => Err(store_error(e)),
        }
    }

    /// Append one new record for `key` holding `value`; the engine stamps
    /// the creation time and assigns the next id. Both texts are bound as
    /// statement parameters, never spliced into the SQL.
    pub fn append(&self, key: &str, value: &str) -> (r: Result<(), StoreError>) {
        let mut stmt = match prepare_sql(&self.conn, "INSERT INTO kv(k, v) VALUES (?, ?);") {
            Ok(s) => s,
            Err(e) => return Err(store_error(e)),
        };
        match bind_text(&mut stmt, 1, key) {
            Ok(u) => u,
            Err(e) => return Err(store_error(e)),
        };
        match bind_text(&mut stmt, 2, value) {
            Ok(u) => u,
            Err(e) => return Err(store_error(e)),
        };
        match step_row(&mut stmt) {
            Ok(_) => Ok(()),
            Err(e) => Err(store_error(e)),
        }
    }

    /// Every record stored for `key`, in whatever order the engine hands
    /// them back. Each returned record carries `key` as its key.
    pub fn records_for(&self, key: &str) -> (r: Result<Vec<Record>, StoreError>)
        ensures
            r matches Ok(recs) ==> forall|i: int|
                0 <= i < recs@.len() ==> (#[trigger] views_of(recs@)[i]).key == key@,
    {
        let mut stmt = match prepare_sql(&self.conn, "SELECT id, v, created FROM kv WHERE k = ?;") {
            Ok(s) => s,
            Err(e) => return Err(store_error(e)),
        };
        match bind_text(&mut stmt, 1, key) {
            Ok(u) => u,
            Err(e) => return Err(store_error(e)),
        };
        let mut recs: Vec<Record> = Vec::new();
        let mut steps: usize = 0;
        while steps < usize::MAX
            invariant
                forall|i: int|
                    0 <= i < recs@.len() ==> (#[trigger] views_of(recs@)[i]).key == key@,
            decreases usize::MAX - steps,
        {
            match step_row(&mut stmt) {
                Ok(true) => {
                    let id = match read_int(&stmt, 0) {
                        Ok(n) => n,
                        Err(e) => return Err(store_error(e)),
                    };
                    let value = match read_text(&stmt, 1) {
                        Ok(t) => t,
                        Err(e) => return Err(store_error(e)),
                    };
                    let created = match read_text(&stmt, 2) {
                        Ok(t) => t,
                        Err(e) => return Err(store_error(e)),
                    };
                    let rec = Record { id, key: key.to_owned(), value, created };
                    let ghost before = recs@;
                    recs.push(rec);
                    proof {
                        assert forall|i: int|
                            0 <= i < recs@.len() implies (#[trigger] views_of(recs@)[i]).key
                            == key@ by {
                            if i < before.len() {
                                assert(views_of(recs@)[i] == views_of(before)[i]);
                            } else {
                                assert(views_of(recs@)[i] == rec@);
                            }
                        }
                    }
                }
                Ok(false) => {
                    return Ok(recs);
                }
                Err(e) => {
                    return Err(store_error(e));
                }
            }
            steps = steps + 1;
        }
        Ok(recs)
    }

    /// The single latest record for `key`: the one with the greatest
    /// creation time, ties broken by the greatest id, as [`latest_index`]
    /// picks it from whatever records the engine handed back. `None` when
    /// the engine holds no record for `key`.
    pub fn latest(&self, key: &str) -> (r: Result<Option<Record>, StoreError>)
        ensures
            r matches Ok(Some(m)) ==> m@.key == key@,
    {
        let recs = match self.records_for(key) {
            Ok(v) => v,
            Err(e) => return Err(e),
        };
        match latest_index(&recs) {
            None => Ok(None),
            Some(i) => {
                let m = recs[i].duplicate();
                proof {
                    assert(views_of(recs@)[i as int] == m@);
                    assert(greatest_of(m@, views_of(recs@)));
                }
                Ok(Some(m))
            }
        }
    }

    /// The full history of `key`: every stored record, ranked by creation
    /// time ascending, id ascending on ties.
    pub fn history(&self, key: &str) -> (r: Result<Vec<Record>, StoreError>)
        ensures
            r matches Ok(recs) ==> sorted_recs(views_of(recs@)) && forall|i: int|
                0 <= i < recs@.len() ==> (#[trigger] views_of(recs@)[i]).key == key@,
    {
        let recs = match self.records_for(key) {
            Ok(v) => v,
            Err(e) => return Err(e),
        };
        let sorted = sort_records(&recs);
        proof {
            broadcast use vstd::seq_lib::group_to_multiset_ensures;

            let sv = views_of(sorted@);
            let rv = views_of(recs@);
            assert forall|i: int| 0 <= i < sv.len() implies (#[trigger] sv[i]).key == key@ by {
                assert(sv.contains(sv[i]));
                assert(sv.to_multiset().count(sv[i]) > 0);
                assert(rv.to_multiset().count(sv[i]) > 0);
                assert(rv.contains(sv[i]));
                let w = choose|w: int| 0 <= w < rv.len() && rv[w] == sv[i];
                assert(rv[w].key == key@);
            }
        }
        Ok(sorted)
    }
}

} // verus!
