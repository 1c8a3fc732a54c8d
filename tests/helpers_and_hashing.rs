use papa_pet::clock::{format_id, generate_id, millis_from_nanos, now_ms};
use papa_pet::digest::sha256_hex;
use papa_pet::mime::{get_mime_type, is_image_type, mime_for_extension, same_text};
use papa_pet::text::{decimal_string, starts_with};

#[test]
fn mime_type_from_extension_ignores_case() {
    assert_eq!(get_mime_type("/tmp/photo.PNG"), Some("image/png".to_string()));
    assert_eq!(get_mime_type("/tmp/a.jpeg"), Some("image/jpeg".to_string()));
    assert_eq!(get_mime_type("/tmp/report.Pdf"), Some("application/pdf".to_string()));
    assert_eq!(get_mime_type("/tmp/archive.tar.gz"), Some("application/octet-stream".to_string()));
}

#[test]
fn mime_type_absent_without_extension() {
    assert_eq!(get_mime_type("/tmp/README"), None);
    assert_eq!(get_mime_type("/tmp/.bashrc"), None);
}

#[test]
fn mime_table_entries() {
    assert_eq!(mime_for_extension("htm"), "text/html");
    assert_eq!(mime_for_extension("svg"), "image/svg+xml");
    assert_eq!(
        mime_for_extension("docx"),
        "application/vnd.openxmlformats-officedocument.wordprocessingml.document"
    );
    assert_eq!(mime_for_extension("PNG"), "application/octet-stream");
}

#[test]
fn image_types_are_recognised() {
    assert!(is_image_type(&Some("image/png".to_string())));
    assert!(!is_image_type(&Some("application/pdf".to_string())));
    assert!(!is_image_type(&Some("imag".to_string())));
    assert!(!is_image_type(&None));
}

#[test]
fn text_helpers() {
    assert!(starts_with("image/gif", "image/"));
    assert!(!starts_with("ima", "image/"));
    assert!(same_text("abc", "abc"));
    assert!(!same_text("abc", "abd"));
    assert_eq!(decimal_string(0), "0");
    assert_eq!(decimal_string(1207), "1207");
}

#[test]
fn identifiers_have_time_then_random_part() {
    assert_eq!(format_id(255, 1), "ff00000001");
    assert_eq!(format_id(0, 0xdeadbeef), "0deadbeef");
    let id = generate_id();
    assert!(id.len() >= 9);
    assert!(id.chars().all(|c| c.is_ascii_hexdigit()));
}

#[test]
fn milliseconds_from_nanoseconds() {
    assert_eq!(millis_from_nanos(1_999_999), 1);
    assert_eq!(millis_from_nanos(1_700_000_000_000_000_000), 1_700_000_000_000);
    assert!(now_ms() > 1_600_000_000_000);
}

#[test]
fn empty_content_has_the_known_digest() {
    assert_eq!(
        sha256_hex(&[]),
        "e3b0c44298fc1c149afbf4c8996fb92427ae41e4649b934ca495991b7852b855"
    );
}

#[test]
fn hashing_is_stable() {
    let a = sha256_hex(b"abc");
    let b = sha256_hex(b"abc");
    assert_eq!(a, b);
    assert_eq!(a, "ba7816bf8f01cfea414140de5dae2223b00361a396177a9cb410ff61f20015ad");
    assert_ne!(a, sha256_hex(b"abd"));
}
