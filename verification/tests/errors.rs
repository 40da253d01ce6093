use genestore::error::{pyerr, Error};
use genestore::text::{decimal_text, same_text, signed_text, size_text};

#[test]
fn kernel_message_is_kept() {
    let e = genegraph_storage::StorageError::Invalid("x".to_string());
    match pyerr(&e) {
        Error::Storage(text) => assert_eq!(text, "Invalid data: x"),
        _ => panic!("wrong variant"),
    }
}

#[test]
fn numbers_are_written_in_decimal() {
    assert_eq!(decimal_text(0), "0");
    assert_eq!(decimal_text(9), "9");
    assert_eq!(decimal_text(10), "10");
    assert_eq!(decimal_text(1_234_567_890), "1234567890");
    assert_eq!(decimal_text(u64::MAX), u64::MAX.to_string());
    assert_eq!(size_text(usize::MAX), usize::MAX.to_string());
    assert_eq!(signed_text(0), "0");
    assert_eq!(signed_text(-7), "-7");
    assert_eq!(signed_text(42), "42");
    assert_eq!(signed_text(i64::MIN), i64::MIN.to_string());
    assert_eq!(signed_text(i64::MAX), i64::MAX.to_string());
}

#[test]
fn texts_are_compared_by_characters() {
    assert!(same_text("", ""));
    assert!(same_text("ä-b", "ä-b"));
    assert!(!same_text("a", "A"));
    assert!(!same_text("a", "ab"));
}
