//! What each HTTP endpoint decides: given what the request carries and what
//! the store reports, the answer it gives and what it changes.

use vstd::prelude::*;
use crate::content::push_char;
use crate::metadata::{Metadata, MetadataError, key_of, record_after_upload, readable, clock_seconds};
use crate::records::{RecordView, record_bytes};
use crate::records::Stats;
use crate::storage::{FinalizeResult, Storage, is_partitionable_cid, spec_path_for_cid};
use vstd::string::StringExecFns;

verus! {

/// The query of an upload.
#[derive(Debug)]
pub struct UploadParams {
    pub name: Option<String>,
}

/// The answer to an upload.
#[derive(Debug)]
pub struct UploadResponse {
    pub cid: String,
    pub size: u64,
    pub deduped: bool,
}

/// The storage metrics.
#[derive(Debug)]
pub struct Metrics {
    pub object_count: u64,
    pub logical_bytes: u64,
    pub unique_bytes: u64,
    pub bytes_saved: i64,
    pub put_count: u64,
    pub get_count: u64,
    pub savings_percentage: String,
}

/// A name link, as requested and as answered.
#[derive(Debug)]
pub struct LinkReq {
    pub name: String,
    pub cid: String,
}

/// What a download serves: the file, and its entity tag.
#[derive(Debug)]
pub struct DownloadPlan {
    pub path: String,
    pub etag: String,
}

/// What a `HEAD` on an object answers in its headers.
#[derive(Debug)]
pub struct HeadInfo {
    pub etag: String,
    pub content_length: u64,
}

/// Why a request is refused.
#[derive(Debug)]
pub enum ApiError {
    /// 404.
    NotFound,
    /// 400, with a message.
    BadRequest(String),
    /// 500: the metadata store failed.
    Internal(MetadataError),
}

/// The entity tag of an object: `"sha256-<cid>"`, quotes included.
pub open spec fn etag_of(cid: Seq<char>) -> Seq<char> {
    seq!['"', 's', 'h', 'a', '2', '5', '6', '-'] + cid + seq!['"']
}

/// The message of a link to an object that is not stored.
pub open spec fn missing_cid_message() -> Seq<char> {
    seq!['C', 'I', 'D', ' ', 'd', 'o', 'e', 's', ' ', 'n', 'o', 't', ' ', 'e', 'x', 'i', 's', 't']
}

/// Builds the entity tag of `cid`.
pub fn etag_for(cid: &str) -> (e: String)
    ensures
        e@ == etag_of(cid@),
{
    let mut e = String::new();
    e.append("\"sha256-");
    e.append(cid);
    push_char(&mut e, '"');
    proof {
        reveal_strlit("\"sha256-");
        assert(e@ =~= etag_of(cid@));
    }
    e
}

/// The name an upload asks to be linked, if any.
pub open spec fn name_of(params: &UploadParams) -> Option<Seq<char>> {
    match params.name {
        Some(n) => Some(n@),
        None => None,
    }
}

/// What completing an upload of `size` bytes of `cid` (`complete_upload`)
/// answers and leaves, `duplicate` when its file was already stored. Success:
/// the answer is `cid`, `size` and `duplicate`; the record of `cid` gains a
/// reference, or a new one with one reference is written; the statistics
/// count the upload on from the stored ones; the name, if any, is linked to
/// `cid`. A record that cannot be read is `Decode`; a counter that would pass
/// `u64::MAX` is `Overflow`; a clock before the epoch can only stop a new record
/// (`Clock`); these change nothing. A failure of the database may leave anything.
pub open spec fn upload_answer(
    old: Metadata,
    new: Metadata,
    cid: Seq<char>,
    size: u64,
    duplicate: bool,
    name: Option<Seq<char>>,
    r: Result<UploadResponse, ApiError>,
) -> bool {
    &&& new.tree_names() == old.tree_names()
    &&& !old.upload_fits(cid, size, duplicate) ==> r is Err
    &&& match r {
        Ok(resp) => {
            &&& resp.cid@ == cid
            &&& resp.size == size
            &&& resp.deduped == duplicate
            &&& old.stored_record(cid) != Some(None::<RecordView>)
            &&& exists|now: u64| {
                let new_rec = #[trigger] record_after_upload(readable(old.stored_record(cid)), cid, size, now);
                &&& new.object_entries() == old.object_entries().insert(key_of(cid), record_bytes(new_rec))
                &&& new.stored_record(cid) == Some(Some(new_rec))
            }
            &&& new.stored_stats() == old.stored_stats().after_upload(size, duplicate)
            &&& match name {
                Some(n) => new.name_entries() == old.name_entries().insert(key_of(n), key_of(cid)),
                None => new.name_entries() == old.name_entries(),
            }
        },
        Err(ApiError::Internal(MetadataError::Decode)) => old.stored_record(cid) == Some(None::<RecordView>) && new == old,
        Err(ApiError::Internal(MetadataError::Overflow)) => !old.upload_fits(cid, size, duplicate) && new == old,
        Err(ApiError::Internal(MetadataError::Clock)) => old.stored_record(cid) is None && new == old,
        Err(ApiError::Internal(MetadataError::Db(_))) => true,
        Err(_) => false,
    }
}

/// Completes an upload of `size` bytes with content identifier `cid`, once its
/// file has been put in place with the outcome `outcome`: the object's record
/// gains a reference (or a new record with one reference is written, stamped
/// with the system clock), the statistics count the upload on from the stored
/// ones (a duplicate adds to the uploaded bytes only), the name of the upload,
/// if one is given, is linked to `cid`, and the answer is the identifier, the
/// size and whether the upload was a duplicate. Where a counter would pass
/// `u64::MAX`, nothing is changed and the answer is an internal error.
pub fn complete_upload(meta: &mut Metadata, cid: String, size: u64, outcome: &FinalizeResult, params: &UploadParams) -> (r: Result<UploadResponse, ApiError>)
    ensures
        upload_answer(*old(meta), *final(meta), cid@, size, outcome.spec_is_duplicate(), name_of(params), r),
{
    let duplicate = outcome.is_duplicate();
    let unique_added = if duplicate { 0 } else { size };
    let mut s = match meta.try_stats() {
        Ok(s) => s,
        Err(e) => return Err(ApiError::Internal(e)),
    };
    let existing = match meta.get_object(cid.as_str()) {
        Ok(e) => e,
        Err(e) => return Err(ApiError::Internal(e)),
    };
    let ref_fits = match &existing {
        Some(rec) => rec.ref_count < u64::MAX,
        None => true,
    };
    if !ref_fits || !s.can_record_put(size, unique_added, !duplicate) {
        return Err(ApiError::Internal(MetadataError::Overflow));
    }
    // Only a new record is stamped with the time.
    let now = if existing.is_some() {
        0
    } else {
        match clock_seconds() {
            Some(t) => t,
            None => return Err(ApiError::Internal(MetadataError::Clock)),
        }
    };
    match meta.add_reference(cid.as_str(), size, now, existing) {
        Ok(()) => {},
        Err(e) => return Err(ApiError::Internal(e)),
    }
    let ghost after_record = *meta;
    s.record_put(size, unique_added, !duplicate);
    match meta.write_stats(&s) {
        Ok(()) => {},
        Err(e) => return Err(ApiError::Internal(e)),
    }
    assert(meta.stored_record(cid@) == after_record.stored_record(cid@));
    match &params.name {
        Some(n) => match meta.link_name(n.as_str(), cid.as_str()) {
            Ok(()) => {},
            Err(e) => return Err(ApiError::Internal(e)),
        },
        None => {},
    }
    assert(meta.stored_record(cid@) == after_record.stored_record(cid@));
    assert(meta.stored_record(cid@) == Some(Some(record_after_upload(readable(old(meta).stored_record(cid@)), cid@, size, now))));
    Ok(UploadResponse { cid, size, deduped: duplicate })
}

/// Starts a download of the object `cid`, `found` telling whether its file is
/// on disk: not found is `NotFound`; otherwise the download is counted on from
/// the stored statistics and the answer is the file's path and the object's
/// entity tag. Where the download count would pass `u64::MAX`, nothing is
/// changed and the answer is an internal error.
pub fn get_object_by_cid(storage: &Storage, meta: &mut Metadata, cid: &str, found: bool) -> (r: Result<DownloadPlan, ApiError>)
    requires
        is_partitionable_cid(cid@),
    ensures
        final(meta).tree_names() == old(meta).tree_names(),
        final(meta).object_entries() == old(meta).object_entries(),
        final(meta).name_entries() == old(meta).name_entries(),
        found && !old(meta).stored_stats().get_fits() ==> r is Err,
        match r {
            Ok(plan) => {
                &&& found
                &&& plan.path@ == spec_path_for_cid(storage.root(), cid@)
                &&& plan.etag@ == etag_of(cid@)
                &&& final(meta).stored_stats() == old(meta).stored_stats().after_get()
            },
            Err(ApiError::NotFound) => !found && *final(meta) == *old(meta),
            Err(ApiError::Internal(MetadataError::Overflow)) => {
                &&& found
                &&& !old(meta).stored_stats().get_fits()
                &&& *final(meta) == *old(meta)
            },
            Err(ApiError::Internal(MetadataError::Db(_))) => found,
            Err(_) => false,
        },
{
    if !found {
        return Err(ApiError::NotFound);
    }
    let mut s = match meta.try_stats() {
        Ok(s) => s,
        Err(e) => return Err(ApiError::Internal(e)),
    };
    if !s.can_record_get() {
        return Err(ApiError::Internal(MetadataError::Overflow));
    }
    s.record_get();
    match meta.write_stats(&s) {
        Ok(()) => {},
        Err(e) => return Err(ApiError::Internal(e)),
    }
    let path = storage.path_for_cid(cid);
    let etag = etag_for(cid);
    Ok(DownloadPlan { path, etag })
}

/// Answers a `HEAD` on the object `cid`, `found` telling whether its file is
/// on disk: not found is `NotFound`; a stored record gives the entity tag of
/// the record's identifier and its size; no record gives no headers.
pub fn head_object_by_cid(meta: &Metadata, cid: &str, found: bool) -> (r: Result<Option<HeadInfo>, ApiError>)
    ensures
        match r {
            Ok(Some(h)) => found && (meta.stored_record(cid@) matches Some(Some(rec)) && h.etag@ == etag_of(rec.cid)
                && h.content_length == rec.size),
            Ok(None) => found && meta.stored_record(cid@) is None,
            Err(ApiError::NotFound) => !found,
            Err(ApiError::Internal(MetadataError::Decode)) => found && meta.stored_record(cid@) == Some(None::<crate::records::RecordView>),
            Err(ApiError::Internal(MetadataError::Db(_))) => found,
            Err(_) => false,
        },
{
    if !found {
        return Err(ApiError::NotFound);
    }
    match meta.get_object(cid) {
        Ok(Some(rec)) => {
            let etag = etag_for(rec.cid.as_str());
            Ok(Some(HeadInfo { etag, content_length: rec.size }))
        },
        Ok(None) => Ok(None),
        Err(e) => Err(ApiError::Internal(e)),
    }
}

impl Metrics {
    /// Whether the bytes saved can be computed in `i64`.
    pub open spec fn saved_fits(s: Stats) -> bool {
        i64::MIN <= s.spec_bytes_saved() <= i64::MAX
    }

    /// Whether the bytes saved of `s` can be computed in `i64`.
    pub fn can_report(s: &Stats) -> (r: bool)
        ensures
            r == Self::saved_fits(*s),
    {
        let l = s.logical_bytes as i64;
        let u = s.unique_bytes as i64;
        if u >= 0 {
            l >= i64::MIN + u
        } else {
            l <= i64::MAX + u
        }
    }

    /// The savings percentage when nothing has been uploaded: `0.0%`; `None`
    /// when bytes were uploaded, the share saved then being computed by the
    /// caller in floating point.
    pub fn savings_when_nothing_uploaded(s: &Stats) -> (r: Option<String>)
        ensures
            r is Some <==> s.logical_bytes == 0,
            r matches Some(t) ==> t@ == seq!['0', '.', '0', '%'],
    {
        if s.logical_bytes > 0 {
            None
        } else {
            let t: &str = "0.0%";
            proof {
                reveal_strlit("0.0%");
            }
            Some(t.to_owned())
        }
    }

    /// The metrics of the statistics `s`, with the savings percentage as given.
    pub fn from_stats(s: &Stats, savings_percentage: String) -> (m: Metrics)
        requires
            Self::saved_fits(*s),
        ensures
            m.object_count == s.object_count,
            m.logical_bytes == s.logical_bytes,
            m.unique_bytes == s.unique_bytes,
            m.bytes_saved == s.spec_bytes_saved(),
            m.put_count == s.put_count,
            m.get_count == s.get_count,
            m.savings_percentage@ == savings_percentage@,
    {
        Metrics {
            object_count: s.object_count,
            logical_bytes: s.logical_bytes,
            unique_bytes: s.unique_bytes,
            bytes_saved: s.logical_bytes as i64 - s.unique_bytes as i64,
            put_count: s.put_count,
            get_count: s.get_count,
            savings_percentage,
        }
    }
}

/// Links a name to a content identifier, `found` telling whether the object is
/// on disk: not found is a bad request; otherwise the link is stored and
/// echoed back.
pub fn link_name(meta: &mut Metadata, req: LinkReq, found: bool) -> (r: Result<LinkReq, ApiError>)
    ensures
        final(meta).tree_names() == old(meta).tree_names(),
        final(meta).object_entries() == old(meta).object_entries(),
        final(meta).stat_entries() == old(meta).stat_entries(),
        match r {
            Ok(echo) => {
                &&& found
                &&& echo.name@ == req.name@
                &&& echo.cid@ == req.cid@
                &&& final(meta).name_entries() == old(meta).name_entries().insert(key_of(req.name@), key_of(req.cid@))
            },
            Err(ApiError::BadRequest(msg)) => !found && msg@ == missing_cid_message() && *final(meta) == *old(meta),
            Err(ApiError::Internal(MetadataError::Db(_))) => found,
            Err(_) => false,
        },
{
    if !found {
        let msg: &str = "CID does not exist";
        proof {
            reveal_strlit("CID does not exist");
        }
        return Err(ApiError::BadRequest(msg.to_owned()));
    }
    match meta.link_name(req.name.as_str(), req.cid.as_str()) {
        Ok(()) => Ok(req),
        Err(e) => Err(ApiError::Internal(e)),
    }
}

/// Resolves a name: the link it has, or `NotFound`.
pub fn resolve_name(meta: &Metadata, name: String) -> (r: Result<LinkReq, ApiError>)
    ensures
        match r {
            Ok(link) => link.name@ == name@ && (meta.link_target(name@) matches Some(b)
                && vstd::utf8::valid_utf8(b) && link.cid@ == vstd::utf8::decode_utf8(b)),
            Err(ApiError::NotFound) => meta.link_target(name@) is None,
            Err(ApiError::Internal(MetadataError::Decode)) => meta.link_target(name@) matches Some(b)
                && !vstd::utf8::valid_utf8(b),
            Err(ApiError::Internal(MetadataError::Db(_))) => true,
            Err(_) => false,
        },
{
    match meta.resolve_name(name.as_str()) {
        Ok(Some(cid)) => Ok(LinkReq { name, cid }),
        Ok(None) => Err(ApiError::NotFound),
        Err(e) => Err(ApiError::Internal(e)),
    }
}

/// Removes a name's link: done, or `NotFound` where there was none.
pub fn unlink_name(meta: &mut Metadata, name: &str) -> (r: Result<(), ApiError>)
    ensures
        final(meta).tree_names() == old(meta).tree_names(),
        final(meta).object_entries() == old(meta).object_entries(),
        final(meta).stat_entries() == old(meta).stat_entries(),
        match r {
            Ok(()) => old(meta).link_target(name@) is Some
                && final(meta).name_entries() == old(meta).name_entries().remove(key_of(name@)),
            Err(ApiError::NotFound) => old(meta).link_target(name@) is None
                && final(meta).name_entries() == old(meta).name_entries().remove(key_of(name@)),
            Err(ApiError::Internal(MetadataError::Db(_))) => true,
            Err(_) => false,
        },
{
    match meta.unlink_name(name) {
        Ok(true) => Ok(()),
        Ok(false) => Err(ApiError::NotFound),
        Err(e) => Err(ApiError::Internal(e)),
    }
}

/// Uploading an object whose record is stored and readable, with every
/// counter in range, succeeds unless the database fails, and answers with the
/// identifier, the size and whether the file was a duplicate.
pub proof fn law_upload_of_stored_object_succeeds(
    old: Metadata,
    new: Metadata,
    cid: Seq<char>,
    size: u64,
    duplicate: bool,
    name: Option<Seq<char>>,
    r: Result<UploadResponse, ApiError>,
)
    requires
        upload_answer(old, new, cid, size, duplicate, name, r),
        old.stored_record(cid) matches Some(Some(_)),
        old.upload_fits(cid, size, duplicate),
    ensures
        r is Ok || r matches Err(ApiError::Internal(MetadataError::Db(_))),
        r matches Ok(resp) ==> resp.cid@ == cid && resp.size == size && resp.deduped == duplicate,
{
}

/// The same file uploaded twice into a store without it, both succeeding: the
/// second answer is a duplicate, the record holds two references and the
/// file's size, and the statistics hold its bytes twice as uploaded and once as
/// stored (twice 10 MiB uploaded, 10 MiB stored).
pub proof fn law_same_file_twice(
    s0: Metadata, s1: Metadata, s2: Metadata,
    cid: Seq<char>, size: u64,
    r1: Result<UploadResponse, ApiError>, r2: Result<UploadResponse, ApiError>,
)
    requires
        s0.stored_record(cid) is None,
        upload_answer(s0, s1, cid, size, false, None, r1), r1 is Ok,
        upload_answer(s1, s2, cid, size, true, None, r2), r2 is Ok,
    ensures
        r2 matches Ok(resp) && resp.deduped && resp.size == size && resp.cid@ == cid,
        s2.stored_record(cid) matches Some(Some(rec)) && rec.ref_count == 2 && rec.size == size && rec.cid == cid,
        s2.stored_stats().logical_bytes == s0.stored_stats().logical_bytes + 2 * size,
        s2.stored_stats().unique_bytes == s0.stored_stats().unique_bytes + size,
        s2.stored_stats().object_count == s0.stored_stats().object_count + 1,
        s2.stored_stats().put_count == s0.stored_stats().put_count + 2,
{
    let n1 = choose|now: u64| {
        let new_rec = #[trigger] record_after_upload(readable(s0.stored_record(cid)), cid, size, now);
        &&& s1.object_entries() == s0.object_entries().insert(key_of(cid), record_bytes(new_rec))
        &&& s1.stored_record(cid) == Some(Some(new_rec))
    };
    assert(s1.stored_record(cid) == Some(Some(record_after_upload(readable(s0.stored_record(cid)), cid, size, n1))));
    let n2 = choose|now: u64| {
        let new_rec = #[trigger] record_after_upload(readable(s1.stored_record(cid)), cid, size, now);
        &&& s2.object_entries() == s1.object_entries().insert(key_of(cid), record_bytes(new_rec))
        &&& s2.stored_record(cid) == Some(Some(new_rec))
    };
    assert(s2.stored_record(cid) == Some(Some(record_after_upload(readable(s1.stored_record(cid)), cid, size, n2))));
}

} // verus!
