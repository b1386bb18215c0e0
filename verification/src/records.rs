//! The records the metadata store keeps: one per stored object, and the
//! running statistics of the store; and how each is written as JSON.

use vstd::prelude::*;

verus! {

#[verifier::external_type_specification]
#[verifier::external_body]
pub struct ExJsonError(serde_json::Error);

/// The JSON text that `serde_json::to_vec` writes for the `serde_json::Map`
/// holding the string `v1` under `k1` and the integers `v2`, `v3`, `v4` under
/// `k2`, `k3`, `k4`, inserted in that order (with `preserve_order`, the map
/// writes its fields in the order they were inserted).
pub uninterp spec fn json_object_1s3u(
    k1: Seq<char>, v1: Seq<char>,
    k2: Seq<char>, v2: u64,
    k3: Seq<char>, v3: u64,
    k4: Seq<char>, v4: u64,
) -> Seq<u8>;

/// The JSON text that `serde_json::to_vec` writes for the `serde_json::Map`
/// holding the integers `v1` .. `v5` under `k1` .. `k5`, inserted in that order.
pub uninterp spec fn json_object_5u(
    k1: Seq<char>, v1: u64,
    k2: Seq<char>, v2: u64,
    k3: Seq<char>, v3: u64,
    k4: Seq<char>, v4: u64,
    k5: Seq<char>, v5: u64,
) -> Seq<u8>;

/// What `serde_json` reads from `bytes` as the field `key` of a JSON object,
/// taken as a `u64`: `None` where `bytes` is not a JSON object, has no such
/// field, or the field is not an integer that fits in `u64`.
pub uninterp spec fn json_u64_field(bytes: Seq<u8>, key: Seq<char>) -> Option<u64>;

/// What `serde_json` reads from `bytes` as the field `key` of a JSON object,
/// taken as a string: `None` where `bytes` is not a JSON object, has no such
/// field, or the field is not a string.
pub uninterp spec fn json_str_field(bytes: Seq<u8>, key: Seq<char>) -> Option<Seq<char>>;

/// `serde_json::to_vec` of a `serde_json::Map` built from one string field and
/// three integer fields, with distinct names. Claimed: it succeeds (its
/// documentation names as the only failures a `Serialize` impl that fails and a
/// map with non-string keys, and neither happens for a map of strings to
/// strings and integers), its bytes are `json_object_1s3u(..)` of the arguments,
/// and reading each field back from them gives the value put there.
#[verifier::external_body]
fn encode_json_object_1s3u(
    k1: &str, v1: &str,
    k2: &str, v2: u64,
    k3: &str, v3: u64,
    k4: &str, v4: u64,
) -> (r: Result<Vec<u8>, serde_json::Error>)
    requires
        k1@ != k2@, k1@ != k3@, k1@ != k4@, k2@ != k3@, k2@ != k4@, k3@ != k4@,
    ensures
        r is Ok,
        r matches Ok(b) ==> b@ == json_object_1s3u(k1@, v1@, k2@, v2, k3@, v3, k4@, v4),
        r matches Ok(b) ==> json_str_field(b@, k1@) == Some(v1@) && json_u64_field(b@, k2@) == Some(v2)
            && json_u64_field(b@, k3@) == Some(v3) && json_u64_field(b@, k4@) == Some(v4),
{
    let mut m = serde_json::Map::new();
    m.insert(k1.to_string(), serde_json::Value::from(v1));
    m.insert(k2.to_string(), serde_json::Value::from(v2));
    m.insert(k3.to_string(), serde_json::Value::from(v3));
    m.insert(k4.to_string(), serde_json::Value::from(v4));
    serde_json::to_vec(&m)
}

/// `serde_json::to_vec` of a `serde_json::Map` built from five integer fields
/// with distinct names. Claimed as for `encode_json_object_1s3u`: it succeeds,
/// its bytes are `json_object_5u(..)` of the arguments, and reading each field
/// back gives the value put there.
#[verifier::external_body]
fn encode_json_object_5u(
    k1: &str, v1: u64,
    k2: &str, v2: u64,
    k3: &str, v3: u64,
    k4: &str, v4: u64,
    k5: &str, v5: u64,
) -> (r: Result<Vec<u8>, serde_json::Error>)
    requires
        k1@ != k2@, k1@ != k3@, k1@ != k4@, k1@ != k5@, k2@ != k3@, k2@ != k4@, k2@ != k5@,
        k3@ != k4@, k3@ != k5@, k4@ != k5@,
    ensures
        r is Ok,
        r matches Ok(b) ==> b@ == json_object_5u(k1@, v1, k2@, v2, k3@, v3, k4@, v4, k5@, v5),
        r matches Ok(b) ==> json_u64_field(b@, k1@) == Some(v1) && json_u64_field(b@, k2@) == Some(v2)
            && json_u64_field(b@, k3@) == Some(v3) && json_u64_field(b@, k4@) == Some(v4)
            && json_u64_field(b@, k5@) == Some(v5),
{
    let mut m = serde_json::Map::new();
    m.insert(k1.to_string(), serde_json::Value::from(v1));
    m.insert(k2.to_string(), serde_json::Value::from(v2));
    m.insert(k3.to_string(), serde_json::Value::from(v3));
    m.insert(k4.to_string(), serde_json::Value::from(v4));
    m.insert(k5.to_string(), serde_json::Value::from(v5));
    serde_json::to_vec(&m)
}

/// `serde_json::from_slice` of a JSON object (`serde_json::Map`), then the
/// field `key` read with `serde_json::Value::as_u64`. Claimed: the result is
/// `json_u64_field(bytes, key)`.
#[verifier::external_body]
fn read_json_u64_field(bytes: &[u8], key: &str) -> (r: Option<u64>)
    ensures
        r == json_u64_field(bytes@, key@),
{
    match serde_json::from_slice::<serde_json::Map<String, serde_json::Value>>(bytes) {
        Ok(m) => m.get(key).and_then(serde_json::Value::as_u64),
        Err(_) => None,
    }
}

/// `serde_json::from_slice` of a JSON object (`serde_json::Map`), then the
/// field `key` read with `serde_json::Value::as_str`. Claimed: the result is
/// `json_str_field(bytes, key)`.
#[verifier::external_body]
fn read_json_str_field(bytes: &[u8], key: &str) -> (r: Option<String>)
    ensures
        match r {
            Some(s) => json_str_field(bytes@, key@) == Some(s@),
            None => json_str_field(bytes@, key@) is None,
        },
{
    match serde_json::from_slice::<serde_json::Map<String, serde_json::Value>>(bytes) {
        Ok(m) => m.get(key).and_then(serde_json::Value::as_str).map(String::from),
        Err(_) => None,
    }
}

pub open spec fn cid_field() -> Seq<char> {
    seq!['c', 'i', 'd']
}

pub open spec fn size_field() -> Seq<char> {
    seq!['s', 'i', 'z', 'e']
}

pub open spec fn created_at_field() -> Seq<char> {
    seq!['c', 'r', 'e', 'a', 't', 'e', 'd', '_', 'a', 't']
}

pub open spec fn ref_count_field() -> Seq<char> {
    seq!['r', 'e', 'f', '_', 'c', 'o', 'u', 'n', 't']
}

pub open spec fn object_count_field() -> Seq<char> {
    seq!['o', 'b', 'j', 'e', 'c', 't', '_', 'c', 'o', 'u', 'n', 't']
}

pub open spec fn logical_bytes_field() -> Seq<char> {
    seq!['l', 'o', 'g', 'i', 'c', 'a', 'l', '_', 'b', 'y', 't', 'e', 's']
}

pub open spec fn unique_bytes_field() -> Seq<char> {
    seq!['u', 'n', 'i', 'q', 'u', 'e', '_', 'b', 'y', 't', 'e', 's']
}

pub open spec fn put_count_field() -> Seq<char> {
    seq!['p', 'u', 't', '_', 'c', 'o', 'u', 'n', 't']
}

pub open spec fn get_count_field() -> Seq<char> {
    seq!['g', 'e', 't', '_', 'c', 'o', 'u', 'n', 't']
}

/// The field names of a record.
fn record_fields() -> (f: (&'static str, &'static str, &'static str, &'static str))
    ensures
        f.0@ == cid_field(),
        f.1@ == size_field(),
        f.2@ == created_at_field(),
        f.3@ == ref_count_field(),
{
    let f = ("cid", "size", "created_at", "ref_count");
    proof {
        reveal_strlit("cid");
        reveal_strlit("size");
        reveal_strlit("created_at");
        reveal_strlit("ref_count");
        assert(f.0@ =~= cid_field());
        assert(f.1@ =~= size_field());
        assert(f.2@ =~= created_at_field());
        assert(f.3@ =~= ref_count_field());
    }
    f
}

/// The field names of the statistics.
fn stats_fields() -> (f: (&'static str, &'static str, &'static str, &'static str, &'static str))
    ensures
        f.0@ == object_count_field(),
        f.1@ == logical_bytes_field(),
        f.2@ == unique_bytes_field(),
        f.3@ == put_count_field(),
        f.4@ == get_count_field(),
{
    let f = ("object_count", "logical_bytes", "unique_bytes", "put_count", "get_count");
    proof {
        reveal_strlit("object_count");
        reveal_strlit("logical_bytes");
        reveal_strlit("unique_bytes");
        reveal_strlit("put_count");
        reveal_strlit("get_count");
        assert(f.0@ =~= object_count_field());
        assert(f.1@ =~= logical_bytes_field());
        assert(f.2@ =~= unique_bytes_field());
        assert(f.3@ =~= put_count_field());
        assert(f.4@ =~= get_count_field());
    }
    f
}

/// What the store knows of one stored object.
#[derive(Debug, Clone)]
pub struct ObjectRecord {
    pub cid: String,
    pub size: u64,
    pub created_at: u64,
    pub ref_count: u64,
}

/// An object record with its identifier as a character sequence.
pub struct RecordView {
    pub cid: Seq<char>,
    pub size: u64,
    pub created_at: u64,
    pub ref_count: u64,
}

impl View for ObjectRecord {
    type V = RecordView;

    open spec fn view(&self) -> RecordView {
        RecordView {
            cid: self.cid@,
            size: self.size,
            created_at: self.created_at,
            ref_count: self.ref_count,
        }
    }
}

/// The record that a JSON text holds: an object with the string field `cid`
/// and the integer fields `size`, `created_at` and `ref_count`.
pub open spec fn record_from_bytes(bytes: Seq<u8>) -> Option<RecordView> {
    match (
        json_str_field(bytes, cid_field()),
        json_u64_field(bytes, size_field()),
        json_u64_field(bytes, created_at_field()),
        json_u64_field(bytes, ref_count_field()),
    ) {
        (Some(cid), Some(size), Some(created_at), Some(ref_count)) => Some(
            RecordView { cid, size, created_at, ref_count },
        ),
        _ => None,
    }
}

/// The JSON text of a record: an object with its four fields by name.
pub open spec fn record_bytes(r: RecordView) -> Seq<u8> {
    json_object_1s3u(
        cid_field(), r.cid,
        size_field(), r.size,
        created_at_field(), r.created_at,
        ref_count_field(), r.ref_count,
    )
}

/// Writes a record as JSON.
pub fn record_to_bytes(rec: &ObjectRecord) -> (b: Vec<u8>)
    ensures
        b@ == record_bytes(rec@),
        record_from_bytes(b@) == Some(rec@),
{
    let f = record_fields();
    match encode_json_object_1s3u(f.0, rec.cid.as_str(), f.1, rec.size, f.2, rec.created_at, f.3, rec.ref_count) {
        Ok(b) => b,
        Err(_) => Vec::new(),
    }
}

/// Reads a record from JSON.
pub fn record_from_json(bytes: &[u8]) -> (r: Option<ObjectRecord>)
    ensures
        match r {
            Some(rec) => record_from_bytes(bytes@) == Some(rec@),
            None => record_from_bytes(bytes@) is None,
        },
{
    let f = record_fields();
    let cid = read_json_str_field(bytes, f.0);
    let size = read_json_u64_field(bytes, f.1);
    let created_at = read_json_u64_field(bytes, f.2);
    let ref_count = read_json_u64_field(bytes, f.3);
    match (cid, size, created_at, ref_count) {
        (Some(cid), Some(size), Some(created_at), Some(ref_count)) => Some(
            ObjectRecord { cid, size, created_at, ref_count },
        ),
        _ => None,
    }
}

/// The running statistics of the store.
#[derive(Debug, Clone, Copy, PartialEq, Eq)]
pub struct Stats {
    /// Objects stored, each counted once however often it was uploaded.
    pub object_count: u64,
    /// Bytes uploaded, duplicates included.
    pub logical_bytes: u64,
    /// Bytes actually stored.
    pub unique_bytes: u64,
    pub put_count: u64,
    pub get_count: u64,
}

impl Default for Stats {
    fn default() -> (s: Stats)
        ensures
            s == Stats::zero(),
    {
        Stats { object_count: 0, logical_bytes: 0, unique_bytes: 0, put_count: 0, get_count: 0 }
    }
}

impl Stats {
    /// All counters at zero.
    pub open spec fn zero() -> Stats {
        Stats { object_count: 0, logical_bytes: 0, unique_bytes: 0, put_count: 0, get_count: 0 }
    }

    /// Recording an upload of `added` bytes, `unique_added` of them new, leaves
    /// every counter within `u64`.
    pub open spec fn put_fits(self, added: u64, unique_added: u64, new_object: bool) -> bool {
        &&& self.put_count < u64::MAX
        &&& self.logical_bytes + added <= u64::MAX
        &&& self.unique_bytes + unique_added <= u64::MAX
        &&& new_object ==> self.object_count < u64::MAX
    }

    /// The statistics after an upload of `added` bytes, of which
    /// `unique_added` were not stored before; `new_object` when it added an object.
    pub open spec fn after_put(self, added: u64, unique_added: u64, new_object: bool) -> Stats {
        Stats {
            object_count: if new_object { (self.object_count + 1) as u64 } else { self.object_count },
            logical_bytes: (self.logical_bytes + added) as u64,
            unique_bytes: (self.unique_bytes + unique_added) as u64,
            put_count: (self.put_count + 1) as u64,
            get_count: self.get_count,
        }
    }

    /// How an object upload of `size` bytes changes the statistics: a
    /// duplicate adds its bytes to the uploaded bytes only; a new object adds
    /// them to both and counts one object more.
    pub open spec fn after_upload(self, size: u64, deduped: bool) -> Stats {
        if deduped {
            self.after_put(size, 0, false)
        } else {
            self.after_put(size, size, true)
        }
    }

    pub open spec fn get_fits(self) -> bool {
        self.get_count < u64::MAX
    }

    /// The statistics after one download.
    pub open spec fn after_get(self) -> Stats {
        Stats { get_count: (self.get_count + 1) as u64, ..self }
    }

    /// Whether an upload can be recorded without a counter overflowing.
    pub fn can_record_put(&self, added: u64, unique_added: u64, new_object: bool) -> (r: bool)
        ensures
            r == self.put_fits(added, unique_added, new_object),
    {
        self.put_count < u64::MAX && added <= u64::MAX - self.logical_bytes
            && unique_added <= u64::MAX - self.unique_bytes
            && (!new_object || self.object_count < u64::MAX)
    }

    /// Whether a download can be recorded without a counter overflowing.
    pub fn can_record_get(&self) -> (r: bool)
        ensures
            r == self.get_fits(),
    {
        self.get_count < u64::MAX
    }

    /// Counts an upload.
    pub fn record_put(&mut self, added: u64, unique_added: u64, new_object: bool)
        requires
            old(self).put_fits(added, unique_added, new_object),
        ensures
            *final(self) == old(self).after_put(added, unique_added, new_object),
    {
        self.put_count += 1;
        self.logical_bytes += added;
        if unique_added > 0 {
            self.unique_bytes += unique_added;
        }
        if new_object {
            self.object_count += 1;
        }
    }

    /// Counts a download.
    pub fn record_get(&mut self)
        requires
            old(self).get_fits(),
        ensures
            *final(self) == old(self).after_get(),
    {
        self.get_count += 1;
    }

    /// Bytes that deduplication saved: uploaded minus stored, each taken as `i64`.
    pub open spec fn spec_bytes_saved(self) -> int {
        (self.logical_bytes as i64) - (self.unique_bytes as i64)
    }
}

/// The statistics that a JSON text holds: an object with the integer fields
/// `object_count`, `logical_bytes`, `unique_bytes`, `put_count` and `get_count`.
pub open spec fn stats_from_bytes(bytes: Seq<u8>) -> Option<Stats> {
    match (
        json_u64_field(bytes, object_count_field()),
        json_u64_field(bytes, logical_bytes_field()),
        json_u64_field(bytes, unique_bytes_field()),
        json_u64_field(bytes, put_count_field()),
        json_u64_field(bytes, get_count_field()),
    ) {
        (Some(o), Some(l), Some(u), Some(p), Some(g)) => Some(
            Stats { object_count: o, logical_bytes: l, unique_bytes: u, put_count: p, get_count: g },
        ),
        _ => None,
    }
}

/// The JSON text of the statistics: an object with its five fields by name.
pub open spec fn stats_bytes(s: Stats) -> Seq<u8> {
    json_object_5u(
        object_count_field(), s.object_count,
        logical_bytes_field(), s.logical_bytes,
        unique_bytes_field(), s.unique_bytes,
        put_count_field(), s.put_count,
        get_count_field(), s.get_count,
    )
}

/// Writes the statistics as JSON.
pub fn stats_to_bytes(s: &Stats) -> (b: Vec<u8>)
    ensures
        b@ == stats_bytes(*s),
        stats_from_bytes(b@) == Some(*s),
{
    let f = stats_fields();
    match encode_json_object_5u(
        f.0, s.object_count,
        f.1, s.logical_bytes,
        f.2, s.unique_bytes,
        f.3, s.put_count,
        f.4, s.get_count,
    ) {
        Ok(b) => b,
        Err(_) => Vec::new(),
    }
}

/// Reads the statistics from JSON.
pub fn stats_from_json(bytes: &[u8]) -> (r: Option<Stats>)
    ensures
        r == stats_from_bytes(bytes@),
{
    let f = stats_fields();
    let o = read_json_u64_field(bytes, f.0);
    let l = read_json_u64_field(bytes, f.1);
    let u = read_json_u64_field(bytes, f.2);
    let p = read_json_u64_field(bytes, f.3);
    let g = read_json_u64_field(bytes, f.4);
    match (o, l, u, p, g) {
        (Some(o), Some(l), Some(u), Some(p), Some(g)) => Some(
            Stats { object_count: o, logical_bytes: l, unique_bytes: u, put_count: p, get_count: g },
        ),
        _ => None,
    }
}

impl Stats {
    /// The accounting that every reachable state keeps: no more bytes stored
    /// than uploaded, and no more objects than uploads.
    pub open spec fn consistent(self) -> bool {
        &&& self.unique_bytes <= self.logical_bytes
        &&& self.object_count <= self.put_count
    }
}

/// The empty statistics are consistent.
pub proof fn law_zero_consistent()
    ensures
        Stats::zero().consistent(),
{
}

/// Counting an upload, duplicate or not, keeps the statistics consistent.
pub proof fn law_upload_keeps_consistency(s: Stats, size: u64, deduped: bool)
    requires
        s.consistent(),
        s.put_fits(size, if deduped { 0 } else { size }, !deduped),
    ensures
        s.after_upload(size, deduped).consistent(),
{
}

/// Counting a download keeps the statistics consistent and changes no byte count.
pub proof fn law_download_keeps_consistency(s: Stats)
    requires
        s.consistent(),
        s.get_fits(),
    ensures
        s.after_get().consistent(),
        s.after_get().logical_bytes == s.logical_bytes,
        s.after_get().unique_bytes == s.unique_bytes,
        s.after_get().object_count == s.object_count,
{
}

/// Uploading the same object twice stores it once: its bytes count twice as
/// uploaded, once as stored, and as saved once.
pub proof fn law_duplicate_upload_stored_once(s: Stats, size: u64)
    requires
        s.put_fits(size, size, true),
        s.after_upload(size, false).put_fits(size, 0, false),
    ensures
        s.after_upload(size, false).after_upload(size, true).logical_bytes == s.logical_bytes + 2 * size,
        s.after_upload(size, false).after_upload(size, true).unique_bytes == s.unique_bytes + size,
        s.after_upload(size, false).after_upload(size, true).object_count == s.object_count + 1,
        s.after_upload(size, false).after_upload(size, true).put_count == s.put_count + 2,
{
}

/// In a consistent state whose uploaded bytes fit in `i64`, the bytes saved fit
/// too and are the uploaded bytes less the stored ones, never negative.
pub proof fn law_bytes_saved(s: Stats)
    requires
        s.consistent(),
        s.logical_bytes <= i64::MAX,
    ensures
        i64::MIN <= s.spec_bytes_saved() <= i64::MAX,
        s.spec_bytes_saved() == s.logical_bytes - s.unique_bytes,
        s.spec_bytes_saved() >= 0,
{
}

} // verus!
