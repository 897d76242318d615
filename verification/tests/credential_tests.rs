use std::cmp::Ordering;
use std::collections::hash_map::DefaultHasher;
use std::hash::{Hash, Hasher};
use yubikey_oath::constants::OathType;
use yubikey_oath::{CredentialIDData, OathCredential};

fn id(name: &str, issuer: Option<&str>, oath_type: OathType, period: u32) -> CredentialIDData {
    CredentialIDData {
        name: name.to_string(),
        oath_type,
        issuer: issuer.map(|s| s.to_string()),
        period,
    }
}

#[test]
fn format_cred_id_default_period() {
    let c = id("alice@example.com", Some("Example"), OathType::Totp, 30);
    assert_eq!(c.format_cred_id(), b"Example:alice@example.com".to_vec());
}

#[test]
fn format_cred_id_custom_period_and_no_issuer() {
    assert_eq!(id("bob", Some("Corp"), OathType::Totp, 60).format_cred_id(), b"60/Corp:bob".to_vec());
    assert_eq!(id("bob", None, OathType::Totp, 15).format_cred_id(), b"15/bob".to_vec());
    // HOTP never writes a period.
    assert_eq!(id("bob", None, OathType::Hotp, 60).format_cred_id(), b"bob".to_vec());
    // Non-ASCII text is written in UTF-8.
    assert_eq!(id("é", None, OathType::Hotp, 0).format_cred_id(), vec![0xc3, 0xa9]);
}

#[test]
fn as_tlv_wraps_the_identifier() {
    let c = id("bob", Some("Corp"), OathType::Totp, 30);
    assert_eq!(c.as_tlv(), [vec![0x71, 8], b"Corp:bob".to_vec()].concat());
}

#[test]
fn totp_identifier_with_issuer_and_period() {
    let c = CredentialIDData::from_bytes(b"60/Corp:bob", 0x76);
    assert_eq!(c, id("bob", Some("Corp"), OathType::Totp, 60));
    let c = CredentialIDData::from_bytes(b"Corp:bob", 0x7c);
    assert_eq!(c, id("bob", Some("Corp"), OathType::Totp, 30));
    let c = CredentialIDData::from_tlv(b"a:b:c", 0x76);
    assert_eq!(c, id("b:c", Some("a"), OathType::Totp, 30));
}

#[test]
fn totp_period_that_does_not_fit_falls_back_to_default() {
    let c = CredentialIDData::from_bytes(b"99999999999/Corp:bob", 0x76);
    assert_eq!(c, id("bob", Some("Corp"), OathType::Totp, 30));
}

#[test]
fn totp_identifier_without_issuer_cannot_be_read() {
    assert_eq!(CredentialIDData::try_from_bytes(b"bob", 0x76), None);
    assert_eq!(CredentialIDData::try_from_bytes(b"60/bob", 0x76), None);
    assert_eq!(
        CredentialIDData::try_from_bytes(b"Corp:bob", 0x76),
        Some(id("bob", Some("Corp"), OathType::Totp, 30))
    );
}

#[test]
fn hotp_identifier_is_split_at_first_colon() {
    assert_eq!(CredentialIDData::from_bytes(b"Corp:bob:x", 0x77), id("bob:x", Some("Corp"), OathType::Hotp, 0));
    assert_eq!(CredentialIDData::from_bytes(b"bob", 0x77), id("bob", None, OathType::Hotp, 0));
}

#[test]
fn hotp_identifier_roundtrip() {
    for c in [id("bob", Some("Corp"), OathType::Hotp, 0), id("plain", None, OathType::Hotp, 0)] {
        assert_eq!(CredentialIDData::from_bytes(&c.format_cred_id(), 0x77), c);
    }
}

#[test]
fn invalid_utf8_reads_as_empty() {
    assert_eq!(CredentialIDData::from_bytes(&[0xff, 0xfe], 0x76), id("", None, OathType::Totp, 0));
    assert_eq!(CredentialIDData::from_bytes(&[0xff], 0x77), id("", None, OathType::Hotp, 0));
}

#[test]
fn identifier_display() {
    assert_eq!(id("bob", Some("Corp"), OathType::Totp, 30).to_display_string(), "Corp: bob");
    assert_eq!(id("bob", None, OathType::Totp, 30).to_display_string(), "bob");
}

fn cred(device: &str, name: &str, issuer: Option<&str>, touch: bool) -> OathCredential {
    OathCredential {
        device_id: device.to_string(),
        id_data: id(name, issuer, OathType::Totp, 30),
        touch_required: touch,
    }
}

#[test]
fn credentials_equal_by_device_and_identifier() {
    assert!(cred("d", "bob", Some("Corp"), false) == cred("d", "bob", Some("Corp"), true));
    assert!(cred("d", "bob", Some("Corp"), false) != cred("e", "bob", Some("Corp"), false));
    assert!(cred("d", "bob", Some("Corp"), false) != cred("d", "bob", None, false));
}

#[test]
fn credentials_order_by_lowercased_issuer_then_name() {
    let a = cred("d", "z", Some("apple"), false);
    let b = cred("d", "a", Some("Banana"), false);
    assert_eq!(a.partial_cmp(&b), Some(Ordering::Less));
    assert_eq!(b.partial_cmp(&a), Some(Ordering::Greater));
    // Without an issuer the name stands in for it.
    let c = cred("d", "Cherry", None, false);
    assert_eq!(b.partial_cmp(&c), Some(Ordering::Less));
    // Same issuer: the name decides.
    let d = cred("d", "B", Some("APPLE"), false);
    let e = cred("d", "a", Some("apple"), false);
    assert_eq!(d.partial_cmp(&e), Some(Ordering::Greater));
    assert_eq!(a.partial_cmp(&a), Some(Ordering::Equal));
}

#[test]
fn credential_hash_follows_device_and_identifier() {
    let h = |c: &OathCredential| {
        let mut s = DefaultHasher::new();
        c.hash(&mut s);
        s.finish()
    };
    assert_eq!(h(&cred("d", "bob", Some("Corp"), false)), h(&cred("d", "bob", Some("Corp"), true)));
}

#[test]
fn credential_order_is_transitive_on_examples() {
    let a = cred("d", "x", Some("alpha"), false);
    let b = cred("d", "x", Some("Beta"), false);
    let c = cred("d", "x", Some("gamma"), false);
    assert_eq!(a.partial_cmp(&b), Some(Ordering::Less));
    assert_eq!(b.partial_cmp(&c), Some(Ordering::Less));
    assert_eq!(a.partial_cmp(&c), Some(Ordering::Less));
}

#[test]
fn totp_period_of_other_script_digits_is_dropped() {
    // Arabic-Indic digits form the period prefix but are not ASCII digits,
    // so the default period stands.
    let c = CredentialIDData::from_bytes("\u{663}\u{660}/Corp:bob".as_bytes(), 0x76);
    assert_eq!(c, id("bob", Some("Corp"), OathType::Totp, 30));
}

#[test]
fn totp_identifier_with_line_feed() {
    // A line feed after the issuer keeps the identifier from reading: it is
    // all name.
    let c = CredentialIDData::from_bytes(b"Corp:a\nb", 0x76);
    assert_eq!(c, id("Corp:a\nb", None, OathType::Totp, 30));
    // A line feed in the issuer is accepted.
    let c = CredentialIDData::from_bytes(b"Co\nrp:bob", 0x76);
    assert_eq!(c, id("bob", Some("Co\nrp"), OathType::Totp, 30));
    // An empty name after the issuer: the whole text would be the name,
    // without an issuer, which cannot be read.
    assert_eq!(CredentialIDData::try_from_bytes(b"Corp:", 0x76), None);
    // A leading colon leaves no issuer.
    assert_eq!(CredentialIDData::try_from_bytes(b":bob", 0x76), None);
}

#[test]
fn totp_identifier_roundtrip() {
    for c in [
        id("bob", Some("Corp"), OathType::Totp, 30),
        id("bob:x", Some("Corp"), OathType::Totp, 60),
        id("b", Some("12"), OathType::Totp, 0),
    ] {
        assert_eq!(CredentialIDData::from_bytes(&c.format_cred_id(), 0x76), c);
    }
}
