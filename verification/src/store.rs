//! The event store: durable, ordered, per-stream append and replay over a
//! single embedded key-ordered table.
//!
//! Records live in one table of the backing database, keyed by the composite
//! string keys of [`crate::keys`], so each stream occupies one contiguous key
//! interval. An append runs a bounded range scan to find the stream's tip,
//! compares it with the version the caller expects, and only on a match
//! commits the record under the next version's key — the compare-and-append
//! discipline that makes exactly one of several racing writers win. A read
//! replays one stream's payloads in ascending key order, which is ascending
//! version order.
//!
//! The backing engine serializes write transactions globally; in addition,
//! appending through this handle requires exclusive access (`&mut self`), so
//! a scan-then-insert pair through one handle cannot interleave with another
//! writer of the same store.

use vstd::prelude::*;

use redb::ReadableDatabase;

use crate::keys::{key_of, make_key, make_range_end, make_range_start, version_from_key};
use crate::model::{
    is_last_stream_key, is_stream_history, is_stream_key, stream_listing, stream_tip, StoreModel,
};
use crate::order::{lex_le, lex_lt};

verus! {

/// A failure of the backing storage engine: fatal to the operation that hit
/// it, carrying the engine's description of what went wrong.
#[derive(Debug, Clone)]
pub struct StorageError {
    pub message: String,
}

/// Why an append was refused.
#[derive(Debug)]
pub enum AppendError {
    /// The stream's tip was not the version the caller expected: the caller
    /// lost a race and must re-read before retrying. The store is unchanged.
    ConcurrencyConflict { expected: u64, actual: u64 },
    /// The storage engine failed; the record is either durably stored in
    /// full or not stored at all, never partially.
    Storage(StorageError),
}

#[verifier::external_type_specification]
#[verifier::external_body]
pub struct ExDatabase(redb::Database);

#[verifier::external_type_specification]
#[verifier::external_body]
pub struct ExRedbError(redb::Error);

/// The contents of the events table of a database: every stored key with its
/// payload bytes.
pub uninterp spec fn db_view(db: redb::Database) -> StoreModel;

/// Relies on `redb::Builder::create` (opens or creates the database file at
/// the path) and on `WriteTransaction::open_table`/`commit` (creates the
/// events table if absent). What the table then holds depends on the file,
/// so nothing is stated of the contents.
#[verifier::external_body]
fn db_open(path: &str) -> (r: Result<redb::Database, redb::Error>) {
    let db = redb::Database::builder().create(path)?;
    let txn = db.begin_write()?;
    {
        let table_def: redb::TableDefinition<&str, &[u8]> = redb::TableDefinition::new("events");
        txn.open_table(table_def)?;
    }
    txn.commit()?;
    Ok(db)
}

/// Relies on `ReadTransaction` giving a consistent snapshot and on
/// `ReadOnlyTable::range` iterating the key interval `[start, end)` in
/// ascending key order: `&str` keys order as `str::cmp`, the byte order of
/// UTF-8, which equals code-point order, this crate's `lex_lt`. The rows
/// returned are exactly the table's rows in that interval.
#[verifier::external_body]
fn db_range(db: &redb::Database, start: &str, end: &str) -> (r: Result<
    Vec<(String, Vec<u8>)>,
    redb::Error,
>)
    ensures
        r matches Ok(entries) ==> {
            &&& forall|i: int|
                #![trigger entries@[i]]
                0 <= i < entries@.len() ==> {
                    &&& db_view(*db).dom().contains(entries@[i].0@)
                    &&& lex_le(start@, entries@[i].0@)
                    &&& lex_lt(entries@[i].0@, end@)
                    &&& db_view(*db)[entries@[i].0@] == entries@[i].1@
                }
            &&& forall|i: int, j: int|
                #![trigger entries@[i], entries@[j]]
                0 <= i < j < entries@.len() ==> lex_lt(entries@[i].0@, entries@[j].0@)
            &&& forall|k: Seq<char>|
                db_view(*db).dom().contains(k) && lex_le(start@, k) && lex_lt(k, end@)
                    ==> exists|i: int| 0 <= i < entries@.len() && #[trigger] entries@[i].0@ == k
        },
{
    let txn = db.begin_read()?;
    let table_def: redb::TableDefinition<&str, &[u8]> = redb::TableDefinition::new("events");
    let table = txn.open_table(table_def)?;
    let mut out: Vec<(String, Vec<u8>)> = Vec::new();
    for row in table.range(start..end)? {
        let (k, v) = row?;
        out.push((k.value().to_string(), v.value().to_vec()));
    }
    Ok(out)
}

/// Relies on `redb`'s transactions: a committed insert maps the key to the
/// value and leaves every other row as it was; a transaction dropped on an
/// early error is aborted. A failed commit applies the insert fully or not
/// at all (`WriteTransaction::commit`'s documented atomicity), hence the
/// disjunction in the failure case.
#[verifier::external_body]
fn db_insert(db: &mut redb::Database, key: &str, value: &[u8]) -> (r: Result<(), redb::Error>)
    ensures
        r is Ok ==> db_view(*final(db)) == db_view(*old(db)).insert(key@, value@),
        r is Err ==> db_view(*final(db)) == db_view(*old(db)) || db_view(*final(db))
            == db_view(*old(db)).insert(key@, value@),
{
    let txn = db.begin_write()?;
    {
        let table_def: redb::TableDefinition<&str, &[u8]> = redb::TableDefinition::new("events");
        let mut table = txn.open_table(table_def)?;
        table.insert(key, value)?;
    }
    txn.commit()?;
    Ok(())
}

/// Relies on `redb::Error`'s `Display` implementation for the failure text.
#[verifier::external_body]
fn redb_error_message(e: &redb::Error) -> (r: String) {
    e.to_string()
}

/// The library's storage error for an engine failure.
fn storage_error(e: redb::Error) -> (r: StorageError) {
    StorageError { message: redb_error_message(&e) }
}

/// An event store backed by one embedded database file.
pub struct RedbEventStore {
    db: redb::Database,
}

impl View for RedbEventStore {
    type V = StoreModel;

    closed spec fn view(&self) -> StoreModel {
        db_view(self.db)
    }
}

impl RedbEventStore {
    /// Opens the store at `path`, creating the backing file and its events
    /// table if absent; repeated calls on the same path find the same data.
    /// What the store then holds is whatever the file holds, so nothing is
    /// promised of the contents; a file this store cannot open or prepare is
    /// reported as a storage error.
    pub fn new(path: &str) -> (r: Result<RedbEventStore, StorageError>) {
        match db_open(path) {
            Ok(db) => Ok(RedbEventStore { db }),
            Err(e) => Err(storage_error(e)),
        }
    }

    /// Appends one record to stream `stream_id`, but only if the stream's
    /// current tip is exactly `expected_version` (0 for a stream not yet
    /// written): then the record is stored under the next version, which is
    /// returned. On a tip mismatch the append is refused with the conflict
    /// pair and the store is unchanged; on an engine failure the record is
    /// stored in full or not at all.
    pub fn append(&mut self, stream_id: &str, event_data: &[u8], expected_version: u64) -> (r:
        Result<u64, AppendError>)
        requires
            stream_id@.len() > 0,
            expected_version < u64::MAX,
        ensures
            match r {
                Ok(nv) => {
                    &&& nv == expected_version + 1
                    &&& stream_tip(old(self)@, stream_id@) == expected_version
                    &&& final(self)@ == old(self)@.insert(key_of(stream_id@, nv), event_data@)
                },
                Err(AppendError::ConcurrencyConflict { expected, actual }) => {
                    &&& expected == expected_version
                    &&& actual == stream_tip(old(self)@, stream_id@)
                    &&& actual != expected_version
                    &&& final(self)@ == old(self)@
                },
                Err(AppendError::Storage(_)) => final(self)@ == old(self)@ || (stream_tip(
                    old(self)@,
                    stream_id@,
                ) == expected_version && final(self)@ == old(self)@.insert(
                    key_of(stream_id@, (expected_version + 1) as u64),
                    event_data@,
                )),
            },
    {
        let ghost m = self@;
        let ghost sid = stream_id@;
        let start = make_range_start(stream_id);
        let end = make_range_end(stream_id);
        let entries = match db_range(&self.db, start.as_str(), end.as_str()) {
            Ok(entries) => entries,
            Err(e) => {
                return Err(AppendError::Storage(storage_error(e)));
            },
        };
        let tip: u64 = if entries.len() == 0 {
            proof {
                assert forall|k: Seq<char>| !is_last_stream_key(m, sid, k) by {
                    if is_stream_key(m, sid, k) {
                        let i = choose|i: int|
                            0 <= i < entries@.len() && #[trigger] entries@[i].0@ == k;
                        assert(false);
                    }
                }
                assert(stream_tip(m, sid) == 0);
            }
            0
        } else {
            let last = entries[entries.len() - 1].0.as_str();
            proof {
                let n = entries@.len();
                assert(is_stream_key(m, sid, last@)) by {
                    assert(entries@[n - 1].0@ == last@);
                }
                assert forall|k2: Seq<char>| #[trigger] is_stream_key(m, sid, k2) implies lex_le(
                    k2,
                    last@,
                ) by {
                    let i = choose|i: int|
                        0 <= i < entries@.len() && #[trigger] entries@[i].0@ == k2;
                    if i < n - 1 {
                        assert(lex_lt(entries@[i].0@, entries@[n - 1].0@));
                    }
                }
                assert(is_last_stream_key(m, sid, last@));
                let kc = choose|k: Seq<char>| is_last_stream_key(m, sid, k);
                crate::model::lemma_last_key_unique(m, sid, kc, last@);
            }
            version_from_key(last)
        };
        if tip != expected_version {
            return Err(AppendError::ConcurrencyConflict { expected: expected_version, actual: tip });
        }
        let new_version = expected_version + 1;
        let key = make_key(stream_id, new_version);
        match db_insert(&mut self.db, key.as_str(), event_data) {
            Ok(()) => Ok(new_version),
            Err(e) => Err(AppendError::Storage(storage_error(e))),
        }
    }

    /// Reads the full history of stream `stream_id`: the stored payloads in
    /// ascending version order, and the empty sequence — not an error — for
    /// a stream never written to.
    pub fn read_stream(&self, stream_id: &str) -> (r: Result<Vec<Vec<u8>>, StorageError>)
        ensures
            r matches Ok(h) ==> is_stream_history(self@, stream_id@, h.deep_view()),
    {
        let ghost m = self@;
        let ghost sid = stream_id@;
        let start = make_range_start(stream_id);
        let end = make_range_end(stream_id);
        let entries = match db_range(&self.db, start.as_str(), end.as_str()) {
            Ok(entries) => entries,
            Err(e) => {
                return Err(storage_error(e));
            },
        };
        let mut out: Vec<Vec<u8>> = Vec::new();
        let mut i: usize = 0;
        while i < entries.len()
            invariant
                0 <= i <= entries@.len(),
                out.deep_view().len() == i as nat,
                forall|j: int|
                    0 <= j < i ==> #[trigger] out.deep_view()[j] == entries@[j].1@,
            decreases entries@.len() - i,
        {
            let payload = entries[i].1.clone();
            proof {
                lemma_bytes_clone(&entries@[i as int].1, &payload);
            }
            let ghost prev = out@;
            let ghost prevdv = out.deep_view();
            out.push(payload);
            i += 1;
            proof {
                assert(out@ == prev.push(payload));
                assert(out.deep_view().len() == i as nat);
                assert forall|j: int| 0 <= j < i implies #[trigger] out.deep_view()[j]
                    == entries@[j].1@ by {
                    assert(out.deep_view()[j] == out@[j].deep_view());
                    if j < i - 1 {
                        assert(out@[j] == prev[j]);
                        assert(prevdv[j] == entries@[j].1@);
                        assert(prevdv[j] == prev[j].deep_view());
                    } else {
                        assert(out@[j] == payload);
                        assert(payload.deep_view() =~= payload@);
                    }
                }
            }
        }
        proof {
            let ks = Seq::new(entries@.len(), |j: int| entries@[j].0@);
            assert forall|k: Seq<char>| #[trigger] is_stream_key(m, sid, k) implies ks.contains(
                k,
            ) by {
                let j = choose|j: int| 0 <= j < entries@.len() && #[trigger] entries@[j].0@ == k;
                assert(ks[j] == k);
            }
            assert(stream_listing(m, sid, ks, out.deep_view()));
        }
        Ok(out)
    }
}

/// A clone of a byte vector holds the same bytes.
proof fn lemma_bytes_clone(v: &Vec<u8>, c: &Vec<u8>)
    requires
        c.len() == v.len(),
        forall|i: int| #![all_triggers] 0 <= i < v.len() ==> cloned::<u8>(v[i], c[i]),
    ensures
        c@ == v@,
{
    assert forall|i: int| 0 <= i < v@.len() implies c@[i] == v@[i] by {
        assert(cloned::<u8>(v[i], c[i]));
    }
    assert(c@ =~= v@);
}

} // verus!
