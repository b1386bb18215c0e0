//! The metadata store: three sled trees, one of object records keyed by
//! content identifier, one of name links, and one holding the statistics.

use vstd::prelude::*;
use vstd::utf8::*;
use crate::records::{
    ObjectRecord, RecordView, Stats, record_from_bytes, record_bytes, record_to_bytes,
    record_from_json, stats_from_bytes, stats_bytes, stats_to_bytes, stats_from_json,
};

verus! {

#[verifier::external_type_specification]
#[verifier::external_body]
pub struct ExSledDb(sled::Db);

#[verifier::external_type_specification]
#[verifier::external_body]
pub struct ExSledTree(sled::Tree);

#[verifier::external_type_specification]
#[verifier::external_body]
pub struct ExSledError(sled::Error);

/// What a sled tree holds: its keys, as bytes, to its values, as bytes. The
/// library holds the only handle of each tree it opens and changes a tree only
/// through a `&mut` borrow of that handle, so what the tree holds is read off
/// the handle; writes through another handle are not reflected.
pub uninterp spec fn tree_entries(tree: sled::Tree) -> Map<Seq<u8>, Seq<u8>>;

/// The name of a sled tree: the bytes it was opened under (`sled::Tree::name`).
pub uninterp spec fn tree_name(tree: sled::Tree) -> Seq<u8>;

/// `sled::open`: opens (or creates) the database at `path`. Nothing is claimed
/// of what it holds: that is on disk.
#[verifier::external_body]
fn sled_open(path: &str) -> Result<sled::Db, sled::Error> {
    sled::open(path)
}

/// `sled::Db::open_tree`: opens (or creates) the tree named `name`. Claimed:
/// the tree it gives is named `name` (sled keeps the name as the tree's id,
/// which `Tree::name` returns). Nothing is claimed of what it holds: that is on
/// disk.
#[verifier::external_body]
fn db_open_tree(db: &sled::Db, name: &str) -> (r: Result<sled::Tree, sled::Error>)
    ensures
        r matches Ok(t) ==> tree_name(t) == encode_utf8(name@),
{
    db.open_tree(name)
}

/// `sled::Tree::get`, the value copied out of its `IVec`. Claimed: where it
/// succeeds, it gives the value stored under `key`, or `None` where there is
/// none. When it fails (an I/O error) is not stated.
#[verifier::external_body]
fn tree_get(tree: &sled::Tree, key: &[u8]) -> (r: Result<Option<Vec<u8>>, sled::Error>)
    ensures
        r matches Ok(v) ==> match v {
            Some(b) => tree_entries(*tree).contains_key(key@) && tree_entries(*tree)[key@] == b@,
            None => !tree_entries(*tree).contains_key(key@),
        },
{
    match tree.get(key) {
        Ok(Some(v)) => Ok(Some(v.to_vec())),
        Ok(None) => Ok(None),
        Err(e) => Err(e),
    }
}

/// `sled::Tree::insert`, the previous value copied out of its `IVec`. Claimed:
/// the tree keeps its name; where it succeeds, `key` now maps to `value`, the
/// rest is unchanged, and it gives the value that was there before. When it fails, and what the tree
/// then holds, is not stated.
#[verifier::external_body]
fn tree_insert(tree: &mut sled::Tree, key: &[u8], value: &[u8]) -> (r: Result<Option<Vec<u8>>, sled::Error>)
    ensures
        tree_name(*final(tree)) == tree_name(*old(tree)),
        r is Ok ==> tree_entries(*final(tree)) == tree_entries(*old(tree)).insert(key@, value@),
        r matches Ok(prev) ==> match prev {
            Some(b) => tree_entries(*old(tree)).contains_key(key@) && tree_entries(*old(tree))[key@] == b@,
            None => !tree_entries(*old(tree)).contains_key(key@),
        },
{
    match tree.insert(key, value) {
        Ok(Some(v)) => Ok(Some(v.to_vec())),
        Ok(None) => Ok(None),
        Err(e) => Err(e),
    }
}

/// `sled::Tree::remove`, the removed value copied out of its `IVec`. Claimed:
/// the tree keeps its name; where it succeeds, `key` is gone, the rest is
/// unchanged, and it gives the value that was there. When it fails, and what the tree then holds, is not
/// stated.
#[verifier::external_body]
fn tree_remove(tree: &mut sled::Tree, key: &[u8]) -> (r: Result<Option<Vec<u8>>, sled::Error>)
    ensures
        tree_name(*final(tree)) == tree_name(*old(tree)),
        r is Ok ==> tree_entries(*final(tree)) == tree_entries(*old(tree)).remove(key@),
        r matches Ok(prev) ==> match prev {
            Some(b) => tree_entries(*old(tree)).contains_key(key@) && tree_entries(*old(tree))[key@] == b@,
            None => !tree_entries(*old(tree)).contains_key(key@),
        },
{
    match tree.remove(key) {
        Ok(Some(v)) => Ok(Some(v.to_vec())),
        Ok(None) => Ok(None),
        Err(e) => Err(e),
    }
}

/// `String::from_utf8` of std, its error dropped. Claimed: it succeeds exactly
/// on valid UTF-8, and then holds the characters that the bytes encode.
#[verifier::external_body]
fn string_from_utf8(bytes: Vec<u8>) -> (r: Option<String>)
    ensures
        r is Some <==> valid_utf8(bytes@),
        r matches Some(s) ==> s@ == decode_utf8(bytes@),
{
    String::from_utf8(bytes).ok()
}

#[verifier::external_type_specification]
#[verifier::external_body]
pub struct ExSystemTime(std::time::SystemTime);

/// `SystemTime::now` of std. Nothing is claimed of the value: it is the time.
#[verifier::external_body]
fn system_now() -> std::time::SystemTime {
    std::time::SystemTime::now()
}

/// `SystemTime::duration_since(UNIX_EPOCH)` of std, its error dropped: `None`
/// where `t` is before the epoch. Nothing is claimed of the value.
#[verifier::external_body]
fn since_unix_epoch(t: std::time::SystemTime) -> Option<std::time::Duration> {
    t.duration_since(std::time::UNIX_EPOCH).ok()
}

/// `Duration::as_secs` of std. Nothing is claimed of the value.
#[verifier::external_body]
fn whole_seconds(d: &std::time::Duration) -> u64 {
    d.as_secs()
}

/// Seconds since the Unix epoch by the system clock; `None` where the clock
/// is set before the epoch.
pub(crate) fn clock_seconds() -> Option<u64> {
    match since_unix_epoch(system_now()) {
        Some(d) => Some(whole_seconds(&d)),
        None => None,
    }
}

/// Why a metadata operation failed.
#[derive(Debug)]
pub enum MetadataError {
    /// The database reported an error.
    Db(sled::Error),
    /// A stored record could not be read back.
    Decode,
    /// The system clock is set before the Unix epoch.
    Clock,
    /// A counter would pass `u64::MAX`.
    Overflow,
}

/// The key of a string in a tree: its UTF-8 bytes.
pub open spec fn key_of(s: Seq<char>) -> Seq<u8> {
    encode_utf8(s)
}

/// The key under which the statistics are stored: `"stats"`.
pub open spec fn stats_key() -> Seq<u8> {
    encode_utf8(seq!['s', 't', 'a', 't', 's'])
}

/// The statistics that the entries of the statistics tree hold: all zero where
/// there are none or they cannot be read.
pub open spec fn stats_of_entries(entries: Map<Seq<u8>, Seq<u8>>) -> Stats {
    if entries.contains_key(stats_key()) {
        match stats_from_bytes(entries[stats_key()]) {
            Some(s) => s,
            None => Stats::zero(),
        }
    } else {
        Stats::zero()
    }
}

/// The key `"stats"` as bytes.
fn stats_key_bytes() -> (k: &'static [u8])
    ensures
        k@ == stats_key(),
{
    let key: &'static str = "stats";
    proof {
        reveal_strlit("stats");
        assert(key@ == seq!['s', 't', 'a', 't', 's']);
    }
    key.as_bytes()
}

/// The names of the three trees: `objects`, `names`, `stats`.
pub open spec fn standard_tree_names() -> (Seq<u8>, Seq<u8>, Seq<u8>) {
    (
        encode_utf8(seq!['o', 'b', 'j', 'e', 'c', 't', 's']),
        encode_utf8(seq!['n', 'a', 'm', 'e', 's']),
        encode_utf8(seq!['s', 't', 'a', 't', 's']),
    )
}

/// The record of `cid` after one more upload of `size` bytes at `now`: a
/// stored record gains a reference; otherwise a new record has one.
pub open spec fn record_after_upload(existing: Option<RecordView>, cid: Seq<char>, size: u64, now: u64) -> RecordView {
    match existing {
        Some(r) => RecordView { ref_count: (r.ref_count + 1) as u64, ..r },
        None => RecordView { cid, size, created_at: now, ref_count: 1 },
    }
}

/// The readable record among the outcomes of `stored_record`.
pub open spec fn readable(r: Option<Option<RecordView>>) -> Option<RecordView> {
    match r {
        Some(Some(rec)) => Some(rec),
        _ => None,
    }
}

/// The statistics that a count starts from, given how reading the stored ones
/// went: those read, or all zero where the read failed.
pub open spec fn spec_start_of_count(read: Result<Stats, MetadataError>) -> Stats {
    match read {
        Ok(s) => s,
        Err(_) => Stats::zero(),
    }
}

/// The statistics that a count starts from: those read, or all zero where the
/// read failed.
pub fn start_of_count(read: Result<Stats, MetadataError>) -> (s: Stats)
    ensures
        s == spec_start_of_count(read),
{
    match read {
        Ok(s) => s,
        Err(_) => Stats::default(),
    }
}

/// What counting an upload leaves: trees, records and links as they were, and
/// where it succeeds the stored statistics counted on by the upload; a failure
/// is the database's.
pub open spec fn put_counted(
    old: Metadata,
    new: Metadata,
    added: u64,
    unique_added: u64,
    new_object: bool,
    r: Result<(), MetadataError>,
) -> bool {
    &&& new.tree_names() == old.tree_names()
    &&& new.object_entries() == old.object_entries()
    &&& new.name_entries() == old.name_entries()
    &&& r is Ok ==> new.stored_stats() == old.stored_stats().after_put(added, unique_added, new_object)
    &&& r matches Err(e) ==> e is Db
}

/// What recording an upload of `size` bytes of `cid` (`upsert_object`) answers
/// and leaves. Success: the record of `cid` gains a reference, or a new one
/// with one reference is written (`true` when the record was there), and the
/// statistics count the upload on from the stored ones. A record that cannot
/// be read is `Decode`; a counter that would pass `u64::MAX` is `Overflow`; a
/// clock before the epoch can only stop a new record (`Clock`); these change
/// nothing. A failure of the database may leave anything.
pub open spec fn upsert_answer(old: Metadata, new: Metadata, cid: Seq<char>, size: u64, r: Result<bool, MetadataError>) -> bool {
    &&& new.tree_names() == old.tree_names()
    &&& new.name_entries() == old.name_entries()
    &&& !old.upsert_fits(cid, size) ==> r is Err
    &&& match r {
        Ok(deduped) => {
            &&& deduped == old.stored_record(cid) is Some
            &&& old.stored_record(cid) != Some(None::<RecordView>)
            &&& exists|now: u64| {
                let new_rec = #[trigger] record_after_upload(readable(old.stored_record(cid)), cid, size, now);
                &&& new.object_entries() == old.object_entries().insert(key_of(cid), record_bytes(new_rec))
                &&& new.stored_record(cid) == Some(Some(new_rec))
            }
            &&& new.stored_stats() == old.stored_stats().after_upload(size, deduped)
        },
        Err(MetadataError::Decode) => old.stored_record(cid) == Some(None::<RecordView>) && new == old,
        Err(MetadataError::Overflow) => !old.upsert_fits(cid, size) && new == old,
        Err(MetadataError::Clock) => old.stored_record(cid) is None && new == old,
        Err(MetadataError::Db(_)) => true,
    }
}

/// The persistent metadata of the store.
pub struct Metadata {
    db: sled::Db,
    objects: sled::Tree,
    names: sled::Tree,
    stats: sled::Tree,
}

impl Metadata {
    /// The object records: content identifier bytes to record JSON.
    pub closed spec fn object_entries(&self) -> Map<Seq<u8>, Seq<u8>> {
        tree_entries(self.objects)
    }

    /// The name links: name bytes to content identifier bytes.
    pub closed spec fn name_entries(&self) -> Map<Seq<u8>, Seq<u8>> {
        tree_entries(self.names)
    }

    /// The statistics tree.
    pub closed spec fn stat_entries(&self) -> Map<Seq<u8>, Seq<u8>> {
        tree_entries(self.stats)
    }

    /// The names of the object, name and statistics trees.
    pub closed spec fn tree_names(&self) -> (Seq<u8>, Seq<u8>, Seq<u8>) {
        (tree_name(self.objects), tree_name(self.names), tree_name(self.stats))
    }

    /// Recording an upload of `size` bytes of `cid`, counted as a duplicate
    /// or not, keeps every counter within `u64`.
    pub open spec fn upload_fits(&self, cid: Seq<char>, size: u64, deduped: bool) -> bool {
        &&& self.stored_stats().put_fits(size, if deduped { 0 } else { size }, !deduped)
        &&& self.stored_record(cid) matches Some(Some(r)) ==> r.ref_count < u64::MAX
    }

    /// The statistics as stored.
    pub open spec fn stored_stats(&self) -> Stats {
        stats_of_entries(self.stat_entries())
    }

    /// The bytes stored for the object `cid`, if any.
    pub open spec fn object_bytes(&self, cid: Seq<char>) -> Option<Seq<u8>> {
        self.object_entries().get(key_of(cid))
    }

    /// The record stored for the object `cid`: `None` where there is none,
    /// `Some(None)` where its bytes cannot be read as a record.
    pub open spec fn stored_record(&self, cid: Seq<char>) -> Option<Option<RecordView>> {
        match self.object_bytes(cid) {
            Some(b) => Some(record_from_bytes(b)),
            None => None,
        }
    }

    /// The bytes that the name `name` links to, if any.
    pub open spec fn link_target(&self, name: Seq<char>) -> Option<Seq<u8>> {
        self.name_entries().get(key_of(name))
    }

    /// Recording an upload of `size` bytes of the object `cid` keeps every
    /// counter within `u64`.
    pub open spec fn upsert_fits(&self, cid: Seq<char>, size: u64) -> bool {
        match self.stored_record(cid) {
            Some(Some(r)) => r.ref_count < u64::MAX && self.stored_stats().put_fits(size, 0, false),
            Some(None) => true,
            None => self.stored_stats().put_fits(size, size, true),
        }
    }

    /// Opens the metadata database at `path`, with its trees `objects`,
    /// `names` and `stats`. What they hold is what is on disk.
    pub fn open(path: &str) -> (r: Result<Metadata, MetadataError>)
        ensures
            r matches Ok(m) ==> m.tree_names() == standard_tree_names(),
            r matches Err(e) ==> e is Db,
    {
        let db = match sled_open(path) {
            Ok(db) => db,
            Err(e) => return Err(MetadataError::Db(e)),
        };
        let (n_objects, n_names, n_stats): (&str, &str, &str) = ("objects", "names", "stats");
        proof {
            reveal_strlit("objects");
            reveal_strlit("names");
            reveal_strlit("stats");
            assert(n_objects@ =~= seq!['o', 'b', 'j', 'e', 'c', 't', 's']);
            assert(n_names@ =~= seq!['n', 'a', 'm', 'e', 's']);
            assert(n_stats@ =~= seq!['s', 't', 'a', 't', 's']);
        }
        let objects = match db_open_tree(&db, n_objects) {
            Ok(t) => t,
            Err(e) => return Err(MetadataError::Db(e)),
        };
        let names = match db_open_tree(&db, n_names) {
            Ok(t) => t,
            Err(e) => return Err(MetadataError::Db(e)),
        };
        let stats = match db_open_tree(&db, n_stats) {
            Ok(t) => t,
            Err(e) => return Err(MetadataError::Db(e)),
        };
        let m = Metadata { db, objects, names, stats };
        Ok(m)
    }

    /// The stored statistics; an error where the read fails.
    fn load_stats(&self) -> (r: Result<Stats, MetadataError>)
        ensures
            r matches Ok(s) ==> s == self.stored_stats(),
            r matches Err(e) ==> e is Db,
    {
        match tree_get(&self.stats, stats_key_bytes()) {
            Ok(Some(bytes)) => match stats_from_json(bytes.as_slice()) {
                Some(s) => Ok(s),
                None => Ok(Stats::default()),
            },
            Ok(None) => Ok(Stats::default()),
            Err(e) => Err(MetadataError::Db(e)),
        }
    }

    /// The stored statistics, or all zero where they cannot be read.
    fn read_stats(&self) -> (s: Stats)
        ensures
            s == self.stored_stats() || s == Stats::zero(),
    {
        let read = self.load_stats();
        start_of_count(read)
    }

    /// Stores the statistics.
    pub(crate) fn write_stats(&mut self, s: &Stats) -> (r: Result<(), MetadataError>)
        ensures
            final(self).tree_names() == old(self).tree_names(),
            final(self).object_entries() == old(self).object_entries(),
            final(self).name_entries() == old(self).name_entries(),
            r is Ok ==> final(self).stat_entries() == old(self).stat_entries().insert(stats_key(), stats_bytes(*s)),
            r is Ok ==> final(self).stored_stats() == *s,
            r matches Err(e) ==> e is Db,
    {
        let bytes = stats_to_bytes(s);
        match tree_insert(&mut self.stats, stats_key_bytes(), bytes.as_slice()) {
            Ok(_) => {
                assert(self.stat_entries()[stats_key()] == stats_bytes(*s));
                Ok(())
            },
            Err(e) => Err(MetadataError::Db(e)),
        }
    }

    /// Counts an upload of `added` bytes, `unique_added` of them newly stored,
    /// `new_object` when it stored a new object, on top of the statistics that
    /// `read` gives (those read, or zero where the read failed).
    pub fn count_put(&mut self, read: Result<Stats, MetadataError>, added: u64, unique_added: u64, new_object: bool) -> (r: Result<(), MetadataError>)
        requires
            read matches Ok(s) ==> s == old(self).stored_stats(),
            spec_start_of_count(read).put_fits(added, unique_added, new_object),
        ensures
            final(self).tree_names() == old(self).tree_names(),
            final(self).object_entries() == old(self).object_entries(),
            final(self).name_entries() == old(self).name_entries(),
            r is Ok ==> final(self).stored_stats() == spec_start_of_count(read).after_put(added, unique_added, new_object),
            r matches Err(e) ==> e is Db,
    {
        let mut s = start_of_count(read);
        s.record_put(added, unique_added, new_object);
        self.write_stats(&s)
    }

    /// Counts a download on top of the statistics that `read` gives (those
    /// read, or zero where the read failed).
    pub fn count_get(&mut self, read: Result<Stats, MetadataError>) -> (r: Result<(), MetadataError>)
        requires
            read matches Ok(s) ==> s == old(self).stored_stats(),
            spec_start_of_count(read).get_fits(),
        ensures
            final(self).tree_names() == old(self).tree_names(),
            final(self).object_entries() == old(self).object_entries(),
            final(self).name_entries() == old(self).name_entries(),
            r is Ok ==> final(self).stored_stats() == spec_start_of_count(read).after_get(),
            r matches Err(e) ==> e is Db,
    {
        let mut s = start_of_count(read);
        s.record_get();
        self.write_stats(&s)
    }

    /// Counts an upload of `added` bytes, `unique_added` of them newly stored,
    /// `new_object` when it stored a new object, on top of the stored
    /// statistics; where those cannot be read, nothing is counted and the
    /// database error is passed on.
    pub fn inc_put(&mut self, added: u64, unique_added: u64, new_object: bool) -> (r: Result<(), MetadataError>)
        requires
            old(self).stored_stats().put_fits(added, unique_added, new_object),
        ensures
            put_counted(*old(self), *final(self), added, unique_added, new_object, r),
    {
        match self.load_stats() {
            Ok(s) => self.count_put(Ok(s), added, unique_added, new_object),
            Err(e) => Err(e),
        }
    }

    /// Counts a download on top of the stored statistics; where those cannot
    /// be read, nothing is counted and the database error is passed on.
    pub fn inc_get(&mut self) -> (r: Result<(), MetadataError>)
        requires
            old(self).stored_stats().get_fits(),
        ensures
            final(self).tree_names() == old(self).tree_names(),
            final(self).object_entries() == old(self).object_entries(),
            final(self).name_entries() == old(self).name_entries(),
            r is Ok ==> final(self).stored_stats() == old(self).stored_stats().after_get(),
            r matches Err(e) ==> e is Db,
    {
        match self.load_stats() {
            Ok(s) => self.count_get(Ok(s)),
            Err(e) => Err(e),
        }
    }

    /// The statistics, all zero where they cannot be read.
    pub fn stats(&self) -> (s: Stats)
        ensures
            s == self.stored_stats() || s == Stats::zero(),
    {
        self.read_stats()
    }

    /// Sets every statistic back to zero; objects and links are kept.
    pub fn reset_stats(&mut self) -> (r: Result<(), MetadataError>)
        ensures
            final(self).tree_names() == old(self).tree_names(),
            final(self).object_entries() == old(self).object_entries(),
            final(self).name_entries() == old(self).name_entries(),
            r is Ok ==> final(self).stored_stats() == Stats::zero(),
            r matches Err(e) ==> e is Db,
    {
        let zero = Stats::default();
        self.write_stats(&zero)
    }

    /// The stored statistics; an error where the read fails.
    pub fn try_stats(&self) -> (r: Result<Stats, MetadataError>)
        ensures
            r matches Ok(s) ==> s == self.stored_stats(),
            r matches Err(e) ==> e is Db,
    {
        self.load_stats()
    }

    /// The record stored for the object `cid`.
    pub fn get_object(&self, cid: &str) -> (r: Result<Option<ObjectRecord>, MetadataError>)
        ensures
            match r {
                Ok(None) => self.stored_record(cid@) is None,
                Ok(Some(rec)) => self.stored_record(cid@) == Some(Some(rec@)),
                Err(MetadataError::Decode) => self.stored_record(cid@) == Some(None::<RecordView>),
                Err(MetadataError::Db(_)) => true,
                Err(_) => false,
            },
    {
        match tree_get(&self.objects, cid.as_bytes()) {
            Ok(Some(bytes)) => match record_from_json(bytes.as_slice()) {
                Some(rec) => Ok(Some(rec)),
                None => Err(MetadataError::Decode),
            },
            Ok(None) => Ok(None),
            Err(e) => Err(MetadataError::Db(e)),
        }
    }

    /// Stores the record of `cid` after one more upload of `size` bytes at
    /// `now`, given the record read before (`existing`): that record gains a
    /// reference, or a new record with one reference is written.
    pub fn add_reference(&mut self, cid: &str, size: u64, now: u64, existing: Option<ObjectRecord>) -> (r: Result<(), MetadataError>)
        requires
            match existing {
                Some(rec) => old(self).stored_record(cid@) == Some(Some(rec@)) && rec.ref_count < u64::MAX,
                None => old(self).stored_record(cid@) is None,
            },
        ensures
            final(self).tree_names() == old(self).tree_names(),
            final(self).name_entries() == old(self).name_entries(),
            final(self).stat_entries() == old(self).stat_entries(),
            r is Ok ==> {
                let new_rec = record_after_upload(readable(old(self).stored_record(cid@)), cid@, size, now);
                &&& final(self).object_entries() == old(self).object_entries().insert(key_of(cid@), record_bytes(new_rec))
                &&& final(self).stored_record(cid@) == Some(Some(new_rec))
            },
            r matches Err(e) ==> e is Db,
    {
        let rec = match existing {
            Some(rec) => ObjectRecord { ref_count: rec.ref_count + 1, ..rec },
            None => ObjectRecord { cid: cid.to_owned(), size, created_at: now, ref_count: 1 },
        };
        let bytes = record_to_bytes(&rec);
        match tree_insert(&mut self.objects, cid.as_bytes(), bytes.as_slice()) {
            Ok(_) => Ok(()),
            Err(e) => Err(MetadataError::Db(e)),
        }
    }

    /// Records an upload of `size` bytes of the object `cid` at time `now`.
    /// A stored object gets one more reference (`Ok(true)`: deduplicated); a new
    /// one gets a record with one reference (`Ok(false)`). The statistics count
    /// the upload as `inc_put` does.
    pub fn upsert_object_at(&mut self, cid: &str, size: u64, now: u64) -> (r: Result<bool, MetadataError>)
        requires
            old(self).upsert_fits(cid@, size),
        ensures
            final(self).tree_names() == old(self).tree_names(),
            final(self).name_entries() == old(self).name_entries(),
            match r {
                Ok(deduped) => {
                    let new_rec = record_after_upload(readable(old(self).stored_record(cid@)), cid@, size, now);
                    &&& deduped == old(self).stored_record(cid@) is Some
                    &&& old(self).stored_record(cid@) != Some(None::<RecordView>)
                    &&& final(self).object_entries() == old(self).object_entries().insert(key_of(cid@), record_bytes(new_rec))
                    &&& final(self).stored_record(cid@) == Some(Some(new_rec))
                    &&& final(self).stored_stats() == old(self).stored_stats().after_upload(size, deduped)
                },
                Err(MetadataError::Decode) => {
                    &&& old(self).stored_record(cid@) == Some(None::<RecordView>)
                    &&& *final(self) == *old(self)
                },
                Err(MetadataError::Db(_)) => true,
                Err(_) => false,
            },
    {
        let existing = match self.get_object(cid) {
            Ok(e) => e,
            Err(e) => return Err(e),
        };
        let deduped = existing.is_some();
        match self.add_reference(cid, size, now, existing) {
            Ok(()) => {},
            Err(e) => return Err(e),
        }
        let unique_added = if deduped { 0 } else { size };
        match self.inc_put(size, unique_added, !deduped) {
            Ok(()) => Ok(deduped),
            Err(e) => Err(e),
        }
    }

    /// Records an upload of `size` bytes of the object `cid`, stamped with the
    /// system clock: a stored object gets one more reference (`Ok(true)`), a new
    /// one a record with one reference (`Ok(false)`), and the statistics count
    /// the upload on from the stored ones. Where a counter would pass
    /// `u64::MAX` nothing is changed and the result is `Overflow`; where the
    /// clock is before the epoch, `Clock`.
    pub fn upsert_object(&mut self, cid: &str, size: u64) -> (r: Result<bool, MetadataError>)
        ensures
            upsert_answer(*old(self), *final(self), cid@, size, r),
    {
        let mut s = match self.load_stats() {
            Ok(s) => s,
            Err(e) => return Err(e),
        };
        let existing = match self.get_object(cid) {
            Ok(e) => e,
            Err(e) => return Err(e),
        };
        let deduped = existing.is_some();
        let unique_added = if deduped { 0 } else { size };
        let fits = match &existing {
            Some(rec) => rec.ref_count < u64::MAX && s.can_record_put(size, 0, false),
            None => s.can_record_put(size, size, true),
        };
        if !fits {
            return Err(MetadataError::Overflow);
        }
        // Only a new record is stamped with the time.
        let now = if deduped {
            0
        } else {
            match clock_seconds() {
                Some(t) => t,
                None => return Err(MetadataError::Clock),
            }
        };
        match self.add_reference(cid, size, now, existing) {
            Ok(()) => {},
            Err(e) => return Err(e),
        }
        s.record_put(size, unique_added, !deduped);
        match self.write_stats(&s) {
            Ok(()) => {
                assert(self.stored_record(cid@) == Some(Some(record_after_upload(readable(old(self).stored_record(cid@)), cid@, size, now))));
                Ok(deduped)
            },
            Err(e) => Err(e),
        }
    }

    /// Links `name` to the content identifier `cid`, replacing any earlier link.
    pub fn link_name(&mut self, name: &str, cid: &str) -> (r: Result<(), MetadataError>)
        ensures
            final(self).tree_names() == old(self).tree_names(),
            final(self).object_entries() == old(self).object_entries(),
            final(self).stat_entries() == old(self).stat_entries(),
            r is Ok ==> final(self).name_entries() == old(self).name_entries().insert(key_of(name@), key_of(cid@)),
            r matches Err(e) ==> e is Db,
    {
        match tree_insert(&mut self.names, name.as_bytes(), cid.as_bytes()) {
            Ok(_) => Ok(()),
            Err(e) => Err(MetadataError::Db(e)),
        }
    }

    /// Removes the link of `name`; `Ok(true)` when there was one.
    pub fn unlink_name(&mut self, name: &str) -> (r: Result<bool, MetadataError>)
        ensures
            final(self).tree_names() == old(self).tree_names(),
            final(self).object_entries() == old(self).object_entries(),
            final(self).stat_entries() == old(self).stat_entries(),
            r matches Ok(existed) ==> {
                &&& existed == old(self).link_target(name@) is Some
                &&& final(self).name_entries() == old(self).name_entries().remove(key_of(name@))
            },
            r matches Err(e) ==> e is Db,
    {
        match tree_remove(&mut self.names, name.as_bytes()) {
            Ok(prev) => Ok(prev.is_some()),
            Err(e) => Err(MetadataError::Db(e)),
        }
    }

    /// The content identifier that `name` links to, if any.
    pub fn resolve_name(&self, name: &str) -> (r: Result<Option<String>, MetadataError>)
        ensures
            match r {
                Ok(None) => self.link_target(name@) is None,
                Ok(Some(cid)) => self.link_target(name@) matches Some(b) && valid_utf8(b) && cid@ == decode_utf8(b),
                Err(MetadataError::Decode) => self.link_target(name@) matches Some(b) && !valid_utf8(b),
                Err(MetadataError::Db(_)) => true,
                Err(_) => false,
            },
    {
        match tree_get(&self.names, name.as_bytes()) {
            Ok(Some(bytes)) => match string_from_utf8(bytes) {
                Some(cid) => Ok(Some(cid)),
                None => Err(MetadataError::Decode),
            },
            Ok(None) => Ok(None),
            Err(e) => Err(MetadataError::Db(e)),
        }
    }
}

/// Distinct strings have distinct keys.
pub proof fn lemma_key_of_injective(a: Seq<char>, b: Seq<char>)
    ensures
        key_of(a) == key_of(b) ==> a == b,
{
    encode_utf8_decode_utf8(a);
    encode_utf8_decode_utf8(b);
}

/// After a name is linked to `cid`, resolving it gives `cid` back, and every
/// other name resolves as before.
pub proof fn law_resolve_after_link(before: Metadata, after: Metadata, name: Seq<char>, cid: Seq<char>, other: Seq<char>)
    requires
        after.name_entries() == before.name_entries().insert(key_of(name), key_of(cid)),
    ensures
        after.link_target(name) matches Some(b) && valid_utf8(b) && decode_utf8(b) == cid,
        other != name ==> after.link_target(other) == before.link_target(other),
{
    encode_utf8_valid_utf8(cid);
    encode_utf8_decode_utf8(cid);
    lemma_key_of_injective(name, other);
}

/// After a name is unlinked, it resolves to nothing, and every other name
/// resolves as before.
pub proof fn law_resolve_after_unlink(before: Metadata, after: Metadata, name: Seq<char>, other: Seq<char>)
    requires
        after.name_entries() == before.name_entries().remove(key_of(name)),
    ensures
        after.link_target(name) is None,
        other != name ==> after.link_target(other) == before.link_target(other),
{
    lemma_key_of_injective(name, other);
}

/// Uploading a new object and then uploading it again leaves one record with
/// two references, its size and first time unchanged.
pub proof fn law_second_upload_adds_reference(
    before: Metadata,
    mid: Metadata,
    after: Metadata,
    cid: Seq<char>,
    size: u64,
    now: u64,
)
    requires
        before.stored_record(cid) is None,
        mid.stored_record(cid) == Some(Some(RecordView { cid, size, created_at: now, ref_count: 1 })),
        mid.stored_record(cid) matches Some(Some(rec))
            && after.stored_record(cid) == Some(Some(RecordView { ref_count: (rec.ref_count + 1) as u64, ..rec })),
    ensures
        after.stored_record(cid) == Some(Some(RecordView { cid, size, created_at: now, ref_count: 2 })),
{
}

/// Counting an upload keeps the stored statistics consistent, whether the
/// count started from the stored statistics or, their read having failed, from zero.
pub proof fn law_stored_upload_keeps_consistency(before: Metadata, after: Metadata, size: u64, deduped: bool)
    requires
        before.stored_stats().consistent(),
        before.stored_stats().put_fits(size, if deduped { 0 } else { size }, !deduped),
        after.stored_stats() == before.stored_stats().after_upload(size, deduped)
            || after.stored_stats() == Stats::zero().after_upload(size, deduped),
    ensures
        after.stored_stats().consistent(),
{
    crate::records::law_upload_keeps_consistency(before.stored_stats(), size, deduped);
    crate::records::law_upload_keeps_consistency(Stats::zero(), size, deduped);
}

/// Every upload of an object adds exactly one reference to its record: a new
/// object starts at one, a stored one counts on. So after `k` uploads of the
/// same content its record holds `k` references.
pub proof fn law_each_upload_adds_one_reference(
    before: Metadata,
    after: Metadata,
    cid: Seq<char>,
    size: u64,
    now: u64,
)
    requires
        after.stored_record(cid) == Some(Some(record_after_upload(readable(before.stored_record(cid)), cid, size, now))),
        before.stored_record(cid) matches Some(Some(r)) ==> r.ref_count < u64::MAX,
    ensures
        after.stored_record(cid) matches Some(Some(r)) && r.ref_count == match before.stored_record(cid) {
            Some(Some(old_rec)) => old_rec.ref_count + 1,
            _ => 1,
        },
        before.stored_record(cid) is None ==> after.stored_record(cid) == Some(Some(
            RecordView { cid, size, created_at: now, ref_count: 1 },
        )),
{
}

/// After `k` uploads of the same content, starting where it had no record,
/// its record holds `k` references, with the size and the time of the first
/// upload. `states[j]` is the store after `j` uploads, the `j`-th at `nows[j - 1]`.
pub proof fn law_k_uploads_k_references(states: Seq<Metadata>, cid: Seq<char>, size: u64, nows: Seq<u64>)
    requires
        states.len() >= 2,
        nows.len() == states.len() - 1,
        states.len() - 1 <= u64::MAX,
        states[0].stored_record(cid) is None,
        forall|j: int|
            1 <= j < states.len() ==> #[trigger] states[j].stored_record(cid) == Some(
                Some(record_after_upload(readable(states[j - 1].stored_record(cid)), cid, size, nows[j - 1])),
            ),
    ensures
        states.last().stored_record(cid) == Some(
            Some(RecordView { cid, size, created_at: nows[0], ref_count: (states.len() - 1) as u64 }),
        ),
    decreases states.len(),
{
    let n = states.len();
    if n > 2 {
        let prefix = states.drop_last();
        assert forall|j: int| 1 <= j < prefix.len() implies #[trigger] prefix[j].stored_record(cid) == Some(
            Some(record_after_upload(readable(prefix[j - 1].stored_record(cid)), cid, size, nows.drop_last()[j - 1])),
        ) by {
            assert(prefix[j] == states[j]);
            assert(prefix[j - 1] == states[j - 1]);
        }
        law_k_uploads_k_references(prefix, cid, size, nows.drop_last());
        assert(prefix.last() == states[n - 2]);
        assert(states[n - 1].stored_record(cid) == Some(
            Some(record_after_upload(readable(states[n - 2].stored_record(cid)), cid, size, nows[n - 2])),
        ));
    } else {
        assert(states[1].stored_record(cid) == Some(
            Some(record_after_upload(readable(states[0].stored_record(cid)), cid, size, nows[0])),
        ));
    }
}

/// Counting two uploads in turn adds both to the stored statistics: nothing
/// counted before is lost, whatever was stored.
pub proof fn law_puts_accumulate(
    s0: Metadata, s1: Metadata, s2: Metadata,
    a1: u64, u1: u64, n1: bool,
    a2: u64, u2: u64, n2: bool,
)
    requires
        s0.stored_stats().put_fits(a1, u1, n1),
        s1.stored_stats().put_fits(a2, u2, n2),
        put_counted(s0, s1, a1, u1, n1, Ok(())),
        put_counted(s1, s2, a2, u2, n2, Ok(())),
    ensures
        s2.stored_stats().logical_bytes == s0.stored_stats().logical_bytes + a1 + a2,
        s2.stored_stats().unique_bytes == s0.stored_stats().unique_bytes + u1 + u2,
        s2.stored_stats().put_count == s0.stored_stats().put_count + 2,
        s2.stored_stats().object_count == s0.stored_stats().object_count + (if n1 { 1int } else { 0 }) + (if n2 { 1int } else { 0 }),
        s2.stored_stats().get_count == s0.stored_stats().get_count,
{
}

/// Recording an upload of an object whose record is stored and readable,
/// with every counter in range, succeeds unless the database fails: it answers
/// that the upload was deduplicated, the record gains exactly one reference,
/// and the upload's bytes count as uploaded, not as stored.
pub proof fn law_upsert_of_stored_record_succeeds(
    old: Metadata,
    new: Metadata,
    cid: Seq<char>,
    size: u64,
    r: Result<bool, MetadataError>,
)
    requires
        upsert_answer(old, new, cid, size, r),
        old.stored_record(cid) matches Some(Some(_)),
        old.upsert_fits(cid, size),
    ensures
        r matches Ok(true) || r matches Err(MetadataError::Db(_)),
        r is Ok ==> (old.stored_record(cid) matches Some(Some(before)) && new.stored_record(cid) matches Some(Some(after))
            && after.ref_count == before.ref_count + 1 && after.size == before.size && after.created_at == before.created_at),
        r is Ok ==> new.stored_stats().logical_bytes == old.stored_stats().logical_bytes + size,
        r is Ok ==> new.stored_stats().unique_bytes == old.stored_stats().unique_bytes,
{
    if r is Ok {
        let now = choose|now: u64| {
            let new_rec = #[trigger] record_after_upload(readable(old.stored_record(cid)), cid, size, now);
            &&& new.object_entries() == old.object_entries().insert(key_of(cid), record_bytes(new_rec))
            &&& new.stored_record(cid) == Some(Some(new_rec))
        };
        assert(new.stored_record(cid) == Some(Some(record_after_upload(readable(old.stored_record(cid)), cid, size, now))));
    }
}

/// Three uploads of the same object into a store without it, all succeeding:
/// the last is a duplicate, the record holds three references, and the
/// statistics hold three uploads of its bytes, one of them stored.
pub proof fn law_three_upserts(
    s0: Metadata, s1: Metadata, s2: Metadata, s3: Metadata,
    cid: Seq<char>, size: u64,
    r1: Result<bool, MetadataError>, r2: Result<bool, MetadataError>, r3: Result<bool, MetadataError>,
)
    requires
        s0.stored_record(cid) is None,
        upsert_answer(s0, s1, cid, size, r1), r1 is Ok,
        upsert_answer(s1, s2, cid, size, r2), r2 is Ok,
        upsert_answer(s2, s3, cid, size, r3), r3 is Ok,
    ensures
        r1 == Ok::<bool, MetadataError>(false),
        r3 == Ok::<bool, MetadataError>(true),
        s3.stored_record(cid) matches Some(Some(rec)) && rec.ref_count == 3 && rec.size == size && rec.cid == cid,
        s3.stored_stats().put_count == s0.stored_stats().put_count + 3,
        s3.stored_stats().logical_bytes == s0.stored_stats().logical_bytes + 3 * size,
        s3.stored_stats().unique_bytes == s0.stored_stats().unique_bytes + size,
        s3.stored_stats().object_count == s0.stored_stats().object_count + 1,
{
    let n1 = choose|now: u64| {
        let new_rec = #[trigger] record_after_upload(readable(s0.stored_record(cid)), cid, size, now);
        &&& s1.object_entries() == s0.object_entries().insert(key_of(cid), record_bytes(new_rec))
        &&& s1.stored_record(cid) == Some(Some(new_rec))
    };
    assert(s1.stored_record(cid) == Some(Some(record_after_upload(readable(s0.stored_record(cid)), cid, size, n1))));
    let n2 = choose|now: u64| {
        let new_rec = #[trigger] record_after_upload(readable(s1.stored_record(cid)), cid, size, now);
        &&& s2.object_entries() == s1.object_entries().insert(key_of(cid), record_bytes(new_rec))
        &&& s2.stored_record(cid) == Some(Some(new_rec))
    };
    assert(s2.stored_record(cid) == Some(Some(record_after_upload(readable(s1.stored_record(cid)), cid, size, n2))));
    let n3 = choose|now: u64| {
        let new_rec = #[trigger] record_after_upload(readable(s2.stored_record(cid)), cid, size, now);
        &&& s3.object_entries() == s2.object_entries().insert(key_of(cid), record_bytes(new_rec))
        &&& s3.stored_record(cid) == Some(Some(new_rec))
    };
    assert(s3.stored_record(cid) == Some(Some(record_after_upload(readable(s2.stored_record(cid)), cid, size, n3))));
}

} // verus!
