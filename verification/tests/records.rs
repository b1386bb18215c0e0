use s3lite::api::Metrics;
use s3lite::records::{record_from_json, record_to_bytes, stats_from_json, stats_to_bytes, ObjectRecord, Stats};

#[test]
fn stats_default_is_zero() {
    let s = Stats::default();
    assert_eq!(s, Stats { object_count: 0, logical_bytes: 0, unique_bytes: 0, put_count: 0, get_count: 0 });
}

#[test]
fn record_put_counts_upload() {
    let mut s = Stats::default();
    s.record_put(100, 100, true);
    assert_eq!(s, Stats { object_count: 1, logical_bytes: 100, unique_bytes: 100, put_count: 1, get_count: 0 });
    s.record_put(100, 0, false);
    assert_eq!(s, Stats { object_count: 1, logical_bytes: 200, unique_bytes: 100, put_count: 2, get_count: 0 });
    s.record_get();
    assert_eq!(s.get_count, 1);
}

#[test]
fn duplicate_upload_saves_half() {
    // The same 10 MB file uploaded twice: 20 MB uploaded, 10 MB stored.
    let ten_mb: u64 = 10 * 1024 * 1024;
    let mut s = Stats::default();
    s.record_put(ten_mb, ten_mb, true);
    s.record_put(ten_mb, 0, false);
    assert_eq!(s.logical_bytes, 2 * ten_mb);
    assert_eq!(s.unique_bytes, ten_mb);
    assert_eq!(s.object_count, 1);
    let m = Metrics::from_stats(&s, String::from("50.0%"));
    assert_eq!(m.bytes_saved, ten_mb as i64);
    assert_eq!(m.savings_percentage, "50.0%");
}

#[test]
fn overflow_checks() {
    let s = Stats { object_count: 0, logical_bytes: u64::MAX - 5, unique_bytes: 0, put_count: 0, get_count: u64::MAX };
    assert!(s.can_record_put(5, 0, false));
    assert!(!s.can_record_put(6, 0, false));
    assert!(!s.can_record_get());
    let full = Stats { object_count: u64::MAX, logical_bytes: 0, unique_bytes: 0, put_count: 0, get_count: 0 };
    assert!(full.can_record_put(1, 1, false));
    assert!(!full.can_record_put(1, 1, true));
}

#[test]
fn metrics_bytes_saved_and_fit() {
    let s = Stats { object_count: 2, logical_bytes: 300, unique_bytes: 120, put_count: 3, get_count: 4 };
    assert!(Metrics::can_report(&s));
    let m = Metrics::from_stats(&s, String::from("60.0%"));
    assert_eq!(m.bytes_saved, 180);
    assert_eq!(m.object_count, 2);
    assert_eq!(m.put_count, 3);
    assert_eq!(m.get_count, 4);
    let odd = Stats { object_count: 0, logical_bytes: 0, unique_bytes: 5, put_count: 0, get_count: 0 };
    assert_eq!(Metrics::from_stats(&odd, String::new()).bytes_saved, -5);
    let huge = Stats { object_count: 0, logical_bytes: 1u64 << 63, unique_bytes: 1, put_count: 0, get_count: 0 };
    assert!(!Metrics::can_report(&huge));
}

#[test]
fn stats_json_round_trip() {
    let s = Stats { object_count: 1, logical_bytes: 2, unique_bytes: 3, put_count: 4, get_count: 5 };
    let bytes = stats_to_bytes(&s);
    assert_eq!(
        bytes,
        br#"{"object_count":1,"logical_bytes":2,"unique_bytes":3,"put_count":4,"get_count":5}"#.to_vec()
    );
    assert_eq!(stats_from_json(&bytes), Some(s));
    assert_eq!(stats_from_json(b"not json"), None);
}

#[test]
fn record_json_round_trip() {
    let rec = ObjectRecord { cid: String::from("ab\"cd"), size: 7, created_at: 1700000000, ref_count: 3 };
    let bytes = record_to_bytes(&rec);
    assert_eq!(bytes, br#"{"cid":"ab\"cd","size":7,"created_at":1700000000,"ref_count":3}"#.to_vec());
    let back = record_from_json(&bytes).unwrap();
    assert_eq!(back.cid, "ab\"cd");
    assert_eq!(back.size, 7);
    assert_eq!(back.created_at, 1700000000);
    assert_eq!(back.ref_count, 3);
    assert!(record_from_json(b"[1,2]").is_none());
    assert!(record_from_json(br#"{"cid":"x","size":1,"created_at":2}"#).is_none());
    assert!(record_from_json(br#"{"cid":"x","size":-1,"created_at":2,"ref_count":3}"#).is_none());
}

#[test]
fn field_order_does_not_matter() {
    let rec = record_from_json(br#"{"cid":"abcd","size":10,"created_at":20,"ref_count":2}"#).unwrap();
    assert_eq!(rec.cid, "abcd");
    assert_eq!(rec.size, 10);
    assert_eq!(rec.created_at, 20);
    assert_eq!(rec.ref_count, 2);
    let s = stats_from_json(
        br#"{"object_count":1,"logical_bytes":2,"unique_bytes":3,"put_count":4,"get_count":5}"#,
    );
    assert_eq!(s, Some(Stats { object_count: 1, logical_bytes: 2, unique_bytes: 3, put_count: 4, get_count: 5 }));
}

#[test]
fn savings_text_when_nothing_uploaded() {
    assert_eq!(Metrics::savings_when_nothing_uploaded(&Stats::default()), Some(String::from("0.0%")));
    let s = Stats { object_count: 1, logical_bytes: 5, unique_bytes: 5, put_count: 1, get_count: 0 };
    assert_eq!(Metrics::savings_when_nothing_uploaded(&s), None);
}
