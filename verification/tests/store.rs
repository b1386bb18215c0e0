use s3lite::api::{
    complete_upload, UploadParams, get_object_by_cid, head_object_by_cid, link_name, resolve_name, unlink_name, ApiError, LinkReq,
};
use s3lite::metadata::{Metadata, MetadataError};
use s3lite::records::Stats;
use s3lite::storage::{FinalizeResult, Storage};

fn fresh_meta() -> Metadata {
    let path = format!("/tmp/s3lite-test-{}", uuid::Uuid::new_v4());
    match Metadata::open(&path) {
        Ok(m) => m,
        Err(e) => panic!("cannot open {}: {:?}", path, e),
    }
}

const CID: &str = "2cf24dba5fb0a30e26e83b2ac5b9e29e1b161e5c1fa7425e73043362938b9824";

#[test]
fn fresh_store_is_empty() {
    let meta = fresh_meta();
    assert_eq!(meta.stats(), Stats::default());
    assert!(matches!(meta.get_object(CID), Ok(None)));
    assert!(matches!(meta.resolve_name("x"), Ok(None)));
}

#[test]
fn link_resolve_unlink() {
    let mut meta = fresh_meta();
    assert!(meta.link_name("my-data", CID).is_ok());
    assert_eq!(meta.resolve_name("my-data").unwrap(), Some(String::from(CID)));
    assert!(meta.link_name("my-data", "ffff").is_ok());
    assert_eq!(meta.resolve_name("my-data").unwrap(), Some(String::from("ffff")));
    assert!(matches!(meta.unlink_name("my-data"), Ok(true)));
    assert_eq!(meta.resolve_name("my-data").unwrap(), None);
    assert!(matches!(meta.unlink_name("my-data"), Ok(false)));
}

#[test]
fn upsert_counts_references() {
    let mut meta = fresh_meta();
    assert!(matches!(meta.upsert_object(CID, 10), Ok(false)));
    let rec = meta.get_object(CID).unwrap().unwrap();
    assert_eq!(rec.cid, CID);
    assert_eq!(rec.size, 10);
    assert_eq!(rec.ref_count, 1);
    assert!(matches!(meta.upsert_object(CID, 10), Ok(true)));
    let rec2 = meta.get_object(CID).unwrap().unwrap();
    assert_eq!(rec2.ref_count, 2);
    assert_eq!(rec2.created_at, rec.created_at);
    assert_eq!(
        meta.stats(),
        Stats { object_count: 1, logical_bytes: 20, unique_bytes: 10, put_count: 2, get_count: 0 }
    );
}

#[test]
fn upsert_at_uses_given_time() {
    let mut meta = fresh_meta();
    assert!(matches!(meta.upsert_object_at("abcd", 3, 42), Ok(false)));
    let rec = meta.get_object("abcd").unwrap().unwrap();
    assert_eq!(rec.created_at, 42);
}

#[test]
fn inc_put_and_get() {
    let mut meta = fresh_meta();
    assert!(meta.inc_put(5, 5, true).is_ok());
    assert!(meta.inc_get().is_ok());
    assert!(meta.inc_get().is_ok());
    assert_eq!(
        meta.try_stats().unwrap(),
        Stats { object_count: 1, logical_bytes: 5, unique_bytes: 5, put_count: 1, get_count: 2 }
    );
}

#[test]
fn upload_twice_is_deduplicated() {
    let mut meta = fresh_meta();
    let first = complete_upload(&mut meta, String::from(CID), 100, &FinalizeResult::Created(String::from("p")), &UploadParams { name: None }).unwrap();
    assert_eq!(first.cid, CID);
    assert_eq!(first.size, 100);
    assert!(!first.deduped);
    let second =
        complete_upload(&mut meta, String::from(CID), 100, &FinalizeResult::AlreadyExisted(String::from("p")), &UploadParams { name: None }).unwrap();
    assert!(second.deduped);
    assert_eq!(
        meta.stats(),
        Stats { object_count: 1, logical_bytes: 200, unique_bytes: 100, put_count: 2, get_count: 0 }
    );
}

#[test]
fn upload_refused_on_overflow() {
    let mut meta = fresh_meta();
    assert!(meta.inc_put(u64::MAX, 0, false).is_ok());
    let r = complete_upload(&mut meta, String::from(CID), 1, &FinalizeResult::Created(String::from("p")), &UploadParams { name: None });
    assert!(matches!(r, Err(ApiError::Internal(MetadataError::Overflow))));
    assert_eq!(meta.stats().logical_bytes, u64::MAX);
}

#[test]
fn download_of_missing_object_is_not_found() {
    let storage = Storage::new(String::from("./data"));
    let mut meta = fresh_meta();
    assert!(matches!(get_object_by_cid(&storage, &mut meta, CID, false), Err(ApiError::NotFound)));
    assert_eq!(meta.stats().get_count, 0);
}

#[test]
fn download_counts_and_serves_path() {
    let storage = Storage::new(String::from("./data"));
    let mut meta = fresh_meta();
    let plan = get_object_by_cid(&storage, &mut meta, CID, true).unwrap();
    assert_eq!(plan.path, format!("./data/objects/2c/f2/{}", CID));
    assert_eq!(plan.etag, format!("\"sha256-{}\"", CID));
    assert_eq!(meta.stats().get_count, 1);
}

#[test]
fn head_reports_record() {
    let mut meta = fresh_meta();
    assert!(matches!(head_object_by_cid(&meta, CID, false), Err(ApiError::NotFound)));
    assert!(matches!(head_object_by_cid(&meta, CID, true), Ok(None)));
    assert!(meta.upsert_object_at(CID, 77, 1).is_ok());
    let h = head_object_by_cid(&meta, CID, true).unwrap().unwrap();
    assert_eq!(h.etag, format!("\"sha256-{}\"", CID));
    assert_eq!(h.content_length, 77);
}

#[test]
fn link_endpoint_needs_stored_object() {
    let mut meta = fresh_meta();
    let req = LinkReq { name: String::from("n"), cid: String::from(CID) };
    match link_name(&mut meta, req, false) {
        Err(ApiError::BadRequest(msg)) => assert_eq!(msg, "CID does not exist"),
        other => panic!("unexpected {:?}", other),
    }
    let req = LinkReq { name: String::from("n"), cid: String::from(CID) };
    let echo = link_name(&mut meta, req, true).unwrap();
    assert_eq!(echo.name, "n");
    assert_eq!(echo.cid, CID);
    let link = resolve_name(&meta, String::from("n")).unwrap();
    assert_eq!(link.cid, CID);
    assert!(unlink_name(&mut meta, "n").is_ok());
    assert!(matches!(resolve_name(&meta, String::from("n")), Err(ApiError::NotFound)));
    assert!(matches!(unlink_name(&mut meta, "n"), Err(ApiError::NotFound)));
}

#[test]
fn upload_links_its_name_and_counts_references() {
    let mut meta = fresh_meta();
    let params = UploadParams { name: Some(String::from("my-data")) };
    let first = complete_upload(&mut meta, String::from(CID), 10, &FinalizeResult::Created(String::from("p")), &params);
    assert!(first.is_ok());
    assert_eq!(meta.resolve_name("my-data").unwrap(), Some(String::from(CID)));
    let rec = meta.get_object(CID).unwrap().unwrap();
    assert_eq!(rec.ref_count, 1);
    assert_eq!(rec.size, 10);
    for _ in 0..2 {
        let again = complete_upload(
            &mut meta,
            String::from(CID),
            10,
            &FinalizeResult::AlreadyExisted(String::from("p")),
            &UploadParams { name: None },
        );
        assert!(again.unwrap().deduped);
    }
    assert_eq!(meta.get_object(CID).unwrap().unwrap().ref_count, 3);
    assert_eq!(
        meta.stats(),
        Stats { object_count: 1, logical_bytes: 30, unique_bytes: 10, put_count: 3, get_count: 0 }
    );
}

#[test]
fn start_of_count_falls_back_to_zero() {
    let s = Stats { object_count: 1, logical_bytes: 2, unique_bytes: 3, put_count: 4, get_count: 5 };
    assert_eq!(s3lite::metadata::start_of_count(Ok(s)), s);
    assert_eq!(s3lite::metadata::start_of_count(Err(MetadataError::Decode)), Stats::default());
}
