use yubikey_oath::constants::{HashAlgo, OathType, Tag};
use yubikey_oath::session::{
    _derive_key, _get_challenge, _get_device_id, _hmac_sha1, _hmac_shorten_key, calculate_all_request,
    clone_with_lifetime, delete_request, parse_calculate_response, parse_list_response, rename_request,
    time_challenge,
};
use yubikey_oath::{to_tlv, CredentialIDData, Error, OathCodeDisplay, OathCredential, OathSession, RefreshableOathCredential};

fn id(name: &str, issuer: Option<&str>, oath_type: OathType, period: u32) -> CredentialIDData {
    CredentialIDData { name: name.to_string(), oath_type, issuer: issuer.map(|s| s.to_string()), period }
}

fn cred(device: &str, id_data: CredentialIDData) -> OathCredential {
    OathCredential { device_id: device.to_string(), id_data, touch_required: false }
}

#[test]
fn device_id_is_base64_of_sha256_prefix() {
    assert_eq!(_get_device_id(vec![1, 2, 3, 4, 5, 6, 7, 8]), "ZoQN2hVOihE8Md0K0y9_Og");
}

#[test]
fn hmac_sha1_known_vector() {
    assert_eq!(
        _hmac_sha1(b"key", b"The quick brown fox jumps over the lazy dog"),
        vec![222, 124, 155, 133, 184, 183, 138, 166, 188, 138, 122, 54, 247, 10, 144, 112, 28, 157, 180, 217]
    );
}

#[test]
fn derive_key_known_vector() {
    assert_eq!(
        _derive_key(b"salt", "password"),
        vec![110, 136, 190, 139, 173, 126, 174, 157, 158, 16, 170, 6, 18, 36, 3, 79]
    );
}

#[test]
fn long_hmac_keys_are_hashed() {
    let long: Vec<u8> = (0..70).collect();
    assert_eq!(
        _hmac_shorten_key(&long, HashAlgo::Sha1),
        vec![194, 72, 135, 146, 79, 146, 173, 172, 90, 227, 103, 153, 93, 18, 105, 28, 102, 43, 115, 98]
    );
    let short = vec![1u8; 20];
    assert_eq!(_hmac_shorten_key(&short, HashAlgo::Sha1), short);
}

#[test]
fn challenges_count_periods_big_endian() {
    assert_eq!(_get_challenge(59, 30), [0, 0, 0, 0, 0, 0, 0, 1]);
    assert_eq!(_get_challenge(0x1_0000_0000 * 7, 1), [0, 0, 0, 7, 0, 0, 0, 0]);
    assert_eq!(time_challenge(1_700_000_000), (1_700_000_000u64 / 30).to_be_bytes());
    assert_eq!(u64::from_be_bytes(_get_challenge(u64::MAX, 3)), u64::MAX / 3);
}

#[test]
fn clone_copies() {
    assert_eq!(clone_with_lifetime(&[1, 2, 3]), vec![1, 2, 3]);
}

#[test]
fn session_reads_select_reply() {
    let mut info = to_tlv(Tag::Version, &[5, 4, 3]);
    info.extend(to_tlv(Tag::Name, &[9, 9]));
    info.extend(to_tlv(Tag::Challenge, &[1, 2, 3, 4]));
    let s = OathSession::from_select_response("reader", info, ());
    assert_eq!(s.get_version(), &[5, 4, 3]);
    assert_eq!(s.name, "reader");
    let empty = OathSession::from_select_response("reader", vec![], 7u32);
    assert_eq!(empty.get_version(), &[] as &[u8]);
    assert_eq!(*empty.transaction_context(), 7);
}

#[test]
fn calculate_request_refuses_other_devices() {
    let s = OathSession::from_select_response("reader", vec![], ());
    let c = cred("other", id("bob", Some("Corp"), OathType::Totp, 30));
    assert_eq!(s.calculate_request(&c, 59), Err(Error::DeviceMismatch));
}

#[test]
fn calculate_request_carries_identifier_and_challenge() {
    let s = OathSession::from_select_response("reader", vec![], ());
    let c = cred("reader", id("bob", Some("Corp"), OathType::Totp, 30));
    let mut expected = to_tlv(Tag::Name, b"Corp:bob");
    expected.extend(to_tlv(Tag::Challenge, &[0, 0, 0, 0, 0, 0, 0, 1]));
    assert_eq!(s.calculate_request(&c, 59), Ok(expected));
    let h = cred("reader", id("bob", Some("Corp"), OathType::Hotp, 0));
    assert_eq!(s.calculate_request(&h, 59), Ok(to_tlv(Tag::Name, b"Corp:bob")));
}

#[test]
fn rename_and_delete_requests() {
    let old = id("bob", Some("Corp"), OathType::Totp, 30);
    let new = id("rob", None, OathType::Totp, 60);
    let mut expected = to_tlv(Tag::Name, b"Corp:bob");
    expected.extend(to_tlv(Tag::Name, b"60/rob"));
    assert_eq!(rename_request(&old, &new), expected);
    assert_eq!(delete_request(&cred("d", old)), to_tlv(Tag::Name, b"Corp:bob"));
}

#[test]
fn calculate_all_request_sends_thirty_second_challenge() {
    assert_eq!(calculate_all_request(95), to_tlv(Tag::Challenge, &[0, 0, 0, 0, 0, 0, 0, 3]));
}

#[test]
fn calculate_response_parsing() {
    assert_eq!(
        parse_calculate_response(vec![]),
        Err(Error::Parsing("No credentials to unpack found in response".to_string()))
    );
    assert_eq!(
        parse_calculate_response(to_tlv(Tag::Touch, &[])),
        Err(Error::Parsing("error parsing calculation response".to_string()))
    );
    let c = parse_calculate_response(to_tlv(Tag::TruncatedResponse, &[6, 0, 0, 0, 42])).unwrap();
    assert_eq!(c, OathCodeDisplay::new(&[6, 0, 0, 0, 42]));
}

#[test]
fn calculate_all_response_parsing() {
    let s = OathSession::from_select_response("reader", vec![], ());
    let mut resp = to_tlv(Tag::Name, b"Iss:acct");
    resp.extend(to_tlv(Tag::TruncatedResponse, &[6, 0, 0, 0, 42]));
    resp.extend(to_tlv(Tag::Name, b"Hiss:hacct"));
    resp.extend(to_tlv(Tag::Hotp, &[]));
    resp.extend(to_tlv(Tag::Name, b"T:touchy"));
    resp.extend(to_tlv(Tag::Touch, &[]));
    let creds = s.parse_calculate_all_response(resp, 100).unwrap();
    assert_eq!(creds.len(), 3);
    assert_eq!(creds[0].cred.id_data, id("acct", Some("Iss"), OathType::Totp, 30));
    assert_eq!(creds[0].code.unwrap().code(), 42);
    assert_eq!((creds[0].valid_from, creds[0].valid_to), (90, 120));
    assert!(!creds[0].cred.touch_required);
    assert_eq!(creds[0].cred.device_id, "reader");
    assert_eq!(creds[1].cred.id_data, id("hacct", Some("Hiss"), OathType::Hotp, 0));
    assert_eq!(creds[1].code, None);
    assert_eq!((creds[1].valid_from, creds[1].valid_to), (100, 0x7FFF_FFFF_FFFF_FFFF));
    assert!(creds[2].cred.touch_required);
    assert_eq!(creds[2].code, None);
    assert_eq!(creds[0].to_display_string(), "Iss: acct: 000042");
    assert_eq!(creds[2].to_display_string(), "T: touchy");
}

#[test]
fn calculate_all_response_with_unreadable_identifier() {
    let s = OathSession::from_select_response("reader", vec![], ());
    let mut resp = to_tlv(Tag::Name, b"noissuer");
    resp.extend(to_tlv(Tag::TruncatedResponse, &[6, 0, 0, 0, 42]));
    assert!(s.parse_calculate_all_response(resp, 100).is_none());
    // A TOTP period of zero leaves no validity span to compute.
    let mut resp = to_tlv(Tag::Name, b"0/Iss:acct");
    resp.extend(to_tlv(Tag::TruncatedResponse, &[6, 0, 0, 0, 42]));
    assert!(s.parse_calculate_all_response(resp, 100).is_none());
}

#[test]
fn list_response_parsing() {
    let mut item = vec![0x21u8];
    item.extend(b"Iss:acct");
    let resp = to_tlv(Tag::NameList, &item);
    let ids = parse_list_response(resp).unwrap();
    // The type byte is masked to its type bits, which never equal the HOTP
    // tag: listed identifiers are read as TOTP identifiers.
    assert_eq!(ids, vec![id("acct", Some("Iss"), OathType::Totp, 30)]);
    assert!(parse_list_response(to_tlv(Tag::NameList, &[])).is_none());
    assert_eq!(parse_list_response(vec![]), Some(vec![]));
}

#[test]
fn refreshable_credential_validity() {
    let c = cred("reader", id("acct", Some("Iss"), OathType::Totp, 30));
    let mut r = RefreshableOathCredential::new(c, ());
    assert_eq!((r.valid_from, r.valid_to), (0, 0));
    assert!(r.code.is_none());
    r.force_update(Some(OathCodeDisplay::new(&[6, 0, 0, 0, 1])), 65);
    assert_eq!((r.valid_from, r.valid_to), (60, 90));
    assert!(r.is_valid_at(65));
    assert!(r.is_valid_at(90));
    assert!(!r.is_valid_at(91));
    assert_eq!(r.format_validity_time_frame(31), (30, 60));
    let zero = RefreshableOathCredential::new(cred("reader", id("acct", Some("Iss"), OathType::Totp, 0)), ());
    assert_eq!(zero.checked_validity_time_frame(10), None);
    let late = RefreshableOathCredential::new(cred("reader", id("acct", Some("Iss"), OathType::Totp, 30)), ());
    assert_eq!(late.checked_validity_time_frame(u64::MAX), None);
    assert_eq!(late.checked_validity_time_frame(100), Some((90, 120)));
    let h = RefreshableOathCredential::new(cred("reader", id("acct", None, OathType::Hotp, 0)), ());
    assert_eq!(h.format_validity_time_frame(5), (5, 0x7FFF_FFFF_FFFF_FFFF));
}

#[test]
fn fresh_hotp_code_is_valid_from_its_moment_on() {
    let mut h = RefreshableOathCredential::new(cred("reader", id("acct", None, OathType::Hotp, 0)), ());
    h.force_update(None, 1000);
    assert!(h.is_valid_at(1000));
    assert!(h.is_valid_at(u64::MAX / 2));
    assert!(!h.is_valid_at(999));
    assert_eq!(h.refresh_provider(), &());
}

#[test]
fn shortening_twice_keeps_the_key() {
    let long: Vec<u8> = (0..100).collect();
    for algo in [HashAlgo::Sha1, HashAlgo::Sha256, HashAlgo::Sha512] {
        let once = _hmac_shorten_key(&long, algo);
        assert!(once.len() <= algo.digest_size());
        assert_eq!(_hmac_shorten_key(&once, algo), once);
    }
}
