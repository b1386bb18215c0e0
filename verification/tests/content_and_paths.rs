use s3lite::content::{content_id, to_lower_hex};
use s3lite::storage::{is_partitionable, join_path, FinalizeResult, Storage};

const HELLO_CID: &str = "2cf24dba5fb0a30e26e83b2ac5b9e29e1b161e5c1fa7425e73043362938b9824";

#[test]
fn content_id_of_hello() {
    assert_eq!(content_id(b"hello"), HELLO_CID);
}

#[test]
fn content_id_of_empty_object() {
    assert_eq!(
        content_id(b""),
        "e3b0c44298fc1c149afbf4c8996fb92427ae41e4649b934ca495991b7852b855"
    );
}

#[test]
fn same_bytes_same_cid_and_different_bytes_differ() {
    assert_eq!(content_id(b"hello world"), content_id(b"hello world"));
    assert_eq!(
        content_id(b"hello world"),
        "b94d27b9934d3e08a52e52d7da7dabfac484efe37a5380ee9088f7ace2efcde9"
    );
    assert_ne!(content_id(b"hello world"), content_id(b"hello"));
}

#[test]
fn content_id_is_64_lower_hex() {
    let cid = content_id(&[0u8, 255, 7, 42, 128]);
    assert_eq!(cid.len(), 64);
    assert!(cid.chars().all(|c| c.is_ascii_digit() || ('a'..='f').contains(&c)));
}

#[test]
fn lower_hex_two_digits_per_byte() {
    assert_eq!(to_lower_hex(&[10, 20, 30]), "0a141e");
    assert_eq!(to_lower_hex(&[0, 15, 16, 255]), "000f10ff");
    assert_eq!(to_lower_hex(&[]), "");
}

#[test]
fn join_adds_one_separator() {
    assert_eq!(join_path("data", "objects"), "data/objects");
    assert_eq!(join_path("data/", "objects"), "data/objects");
    assert_eq!(join_path("", "objects"), "objects");
    assert_eq!(join_path("data", ""), "data/");
}

#[test]
fn join_with_absolute_segment_replaces() {
    assert_eq!(join_path("data", "/etc"), "/etc");
}

#[test]
fn path_for_cid_partitions_by_first_four_chars() {
    let storage = Storage::new(String::from("./data"));
    assert_eq!(
        storage.path_for_cid(HELLO_CID),
        format!("./data/objects/2c/f2/{}", HELLO_CID)
    );
    let storage = Storage::new(String::from("/srv/store/"));
    assert_eq!(storage.path_for_cid("abcdef"), "/srv/store/objects/ab/cd/abcdef");
}

#[test]
fn tmp_paths() {
    let storage = Storage::new(String::from("./data"));
    assert_eq!(storage.tmp_dir(), "./data/tmp");
    assert_eq!(storage.temp_path("1234"), "./data/tmp/1234");
    assert_eq!(storage.root_dir(), "./data");
}

#[test]
fn partitionable_needs_two_cuts_at_char_boundaries() {
    assert!(is_partitionable(HELLO_CID));
    assert!(is_partitionable("abcd"));
    assert!(!is_partitionable("abc"));
    assert!(!is_partitionable("a"));
    assert!(!is_partitionable(""));
    // "é" is two bytes: the cuts fall after "é" and after the second "é".
    assert!(is_partitionable("éé"));
    assert!(!is_partitionable("aé"));
}

#[test]
fn path_for_non_ascii_cid_cuts_bytes() {
    let storage = Storage::new(String::from("d"));
    assert_eq!(storage.path_for_cid("ééx"), "d/objects/é/é/ééx");
}

#[test]
fn finalize_result_duplicate_flag() {
    assert!(FinalizeResult::AlreadyExisted(String::from("p")).is_duplicate());
    assert!(!FinalizeResult::Created(String::from("p")).is_duplicate());
}

#[test]
fn finalize_outcome_by_presence() {
    let storage = Storage::new(String::from("r"));
    match storage.finalize_outcome("abcdef", true) {
        FinalizeResult::AlreadyExisted(p) => assert_eq!(p, "r/objects/ab/cd/abcdef"),
        other => panic!("unexpected {:?}", other),
    }
    match storage.finalize_outcome("abcdef", false) {
        FinalizeResult::Created(p) => assert_eq!(p, "r/objects/ab/cd/abcdef"),
        other => panic!("unexpected {:?}", other),
    }
}
