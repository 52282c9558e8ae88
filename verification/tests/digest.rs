//! Tests of content-identifier validation.

use oci_config::digest::{digest_text_is_valid, Digest};
use oci_config::schema::default_as_false;

#[test]
fn well_shaped_digests_are_accepted() {
    assert!(digest_text_is_valid(
        "sha256:c6f988f4874bb0add23a778f753c65efe992244e148a1d2ec2a8b664fb66bbd1"
    ));
    assert!(digest_text_is_valid("md5:00ff"));
    assert!(digest_text_is_valid("a:0"));
}

#[test]
fn digest_split_is_at_the_last_colon() {
    assert!(digest_text_is_valid("a:b:ff"));
    assert!(!digest_text_is_valid("a:ff:zz"));
}

#[test]
fn empty_hex_token_is_accepted() {
    assert!(digest_text_is_valid("sha256:"));
}

#[test]
fn malformed_digests_are_rejected() {
    assert!(!digest_text_is_valid(""));
    assert!(!digest_text_is_valid("sha256"));
    assert!(!digest_text_is_valid(":00ff"));
    assert!(!digest_text_is_valid("sha256:00FF"));
    assert!(!digest_text_is_valid("sha256:00 ff"));
    assert!(!digest_text_is_valid("sha256:xyz"));
}

#[test]
fn checked_constructor_follows_validity() {
    let ok = Digest::new_checked("sha256:abcdef0123456789".to_owned());
    assert_eq!(
        ok.unwrap().as_text().as_str(),
        "sha256:abcdef0123456789"
    );
    assert!(Digest::new_checked("no-colon-here".to_owned()).is_err());
}

#[test]
fn lenient_constructor_stores_text_as_given() {
    let d = Digest::new("anything at all".to_owned());
    assert_eq!(d.as_text().as_str(), "anything at all");
}

#[test]
fn omitted_layer_flag_defaults_to_false() {
    assert_eq!(default_as_false(), false);
}
