use s3lite::api::{head_object_by_cid, resolve_name, ApiError};
use s3lite::metadata::{Metadata, MetadataError};
use s3lite::records::Stats;

/// A database path prepared with raw entries written through sled itself.
fn prepared(objects: &[(&str, &[u8])], names: &[(&str, &[u8])], stats: Option<&[u8]>) -> String {
    let path = format!("/tmp/s3lite-raw-{}", uuid::Uuid::new_v4());
    {
        let db = sled::open(&path).unwrap();
        let t = db.open_tree("objects").unwrap();
        for (k, v) in objects {
            t.insert(k, *v).unwrap();
        }
        let t = db.open_tree("names").unwrap();
        for (k, v) in names {
            t.insert(k, *v).unwrap();
        }
        if let Some(v) = stats {
            db.open_tree("stats").unwrap().insert("stats", v).unwrap();
        }
        db.flush().unwrap();
    }
    path
}

#[test]
fn unreadable_record_is_decode_error() {
    let path = prepared(&[("abcd", b"garbage")], &[], None);
    let mut meta = Metadata::open(&path).unwrap();
    assert!(matches!(meta.get_object("abcd"), Err(MetadataError::Decode)));
    assert!(matches!(meta.upsert_object("abcd", 1), Err(MetadataError::Decode)));
    assert!(matches!(
        head_object_by_cid(&meta, "abcd", true),
        Err(ApiError::Internal(MetadataError::Decode))
    ));
    assert_eq!(meta.stats(), Stats::default());
}

#[test]
fn reference_count_at_limit_is_overflow() {
    let path = prepared(&[("abcd", br#"{"cid":"abcd","size":1,"created_at":2,"ref_count":18446744073709551615}"#)], &[], None);
    let mut meta = Metadata::open(&path).unwrap();
    assert_eq!(meta.get_object("abcd").unwrap().unwrap().ref_count, u64::MAX);
    assert!(matches!(meta.upsert_object("abcd", 1), Err(MetadataError::Overflow)));
    assert_eq!(meta.get_object("abcd").unwrap().unwrap().ref_count, u64::MAX);
}

#[test]
fn link_to_invalid_utf8_is_decode_error() {
    let path = prepared(&[], &[("n", &[0xff, 0xfe])], None);
    let meta = Metadata::open(&path).unwrap();
    assert!(matches!(meta.resolve_name("n"), Err(MetadataError::Decode)));
    assert!(matches!(
        resolve_name(&meta, String::from("n")),
        Err(ApiError::Internal(MetadataError::Decode))
    ));
}

#[test]
fn unreadable_stats_read_as_zero() {
    let path = prepared(&[], &[], Some(b"{not json"));
    let mut meta = Metadata::open(&path).unwrap();
    assert_eq!(meta.stats(), Stats::default());
    assert!(meta.inc_get().is_ok());
    assert_eq!(meta.stats().get_count, 1);
}

#[test]
fn stored_stats_are_read_back() {
    let path = prepared(&[], &[], Some(br#"{"object_count":3,"logical_bytes":40,"unique_bytes":30,"put_count":5,"get_count":6}"#));
    let mut meta = Metadata::open(&path).unwrap();
    assert_eq!(
        meta.stats(),
        Stats { object_count: 3, logical_bytes: 40, unique_bytes: 30, put_count: 5, get_count: 6 }
    );
    assert!(meta.reset_stats().is_ok());
    assert_eq!(meta.stats(), Stats::default());
}
