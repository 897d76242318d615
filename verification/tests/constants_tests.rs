use yubikey_oath::constants::{ErrorResponse, HashAlgo, Instruction, Mask, OathCodeDisplay, OathDigits, OathType, SuccessResponse, Tag};
use yubikey_oath::Tlv;

#[test]
fn error_response_any_match_recognizes_each_status_word() {
    let all = [
        ErrorResponse::NoSpace,
        ErrorResponse::CommandAborted,
        ErrorResponse::InvalidInstruction,
        ErrorResponse::AuthRequired,
        ErrorResponse::WrongSyntax,
        ErrorResponse::GenericError,
        ErrorResponse::NoSuchObject,
    ];
    for e in all {
        assert_eq!(ErrorResponse::any_match(e.status()), Some(e));
    }
    assert_eq!(ErrorResponse::any_match(0x6a84), Some(ErrorResponse::NoSpace));
    assert_eq!(ErrorResponse::any_match(0x6f00), Some(ErrorResponse::CommandAborted));
    assert_eq!(ErrorResponse::any_match(0x6984), Some(ErrorResponse::NoSuchObject));
}

#[test]
fn error_response_any_match_rejects_other_words() {
    assert_eq!(ErrorResponse::any_match(0x9000), None);
    assert_eq!(ErrorResponse::any_match(0x0000), None);
    assert_eq!(ErrorResponse::any_match(0x6a85), None);
}

#[test]
fn error_response_descriptions() {
    assert_eq!(ErrorResponse::NoSpace.description(), "No Space left on device");
    assert_eq!(ErrorResponse::AuthRequired.description(), "Authentication required");
    assert_eq!(ErrorResponse::NoSuchObject.description(), "No such Object");
}

#[test]
fn success_response_any_match() {
    assert_eq!(SuccessResponse::any_match(0x61), Some(SuccessResponse::MoreData));
    assert_eq!(SuccessResponse::any_match(0x9000), Some(SuccessResponse::Okay));
    assert_eq!(SuccessResponse::any_match(0x6100), None);
    assert_eq!(SuccessResponse::any_match(0x9001), None);
}

#[test]
fn protocol_bytes() {
    assert_eq!(Instruction::Rename.byte(), 0x05);
    assert_eq!(Instruction::List.byte(), 0xa1);
    assert_eq!(Instruction::CalculateAll.byte(), 0xa4);
    assert_eq!(Instruction::SendRemaining.byte(), 0xa5);
    assert_eq!(Tag::Name.byte(), 0x71);
    assert_eq!(Tag::Challenge.byte(), 0x74);
    assert_eq!(Tag::TruncatedResponse.byte(), 0x76);
    assert_eq!(Tag::Touch.byte(), 0x7c);
    assert_eq!(Mask::Algo.bits(), 0x0f);
    assert_eq!(Mask::Type.bits(), 0xf0);
    assert_eq!(OathType::Totp.byte(), 0x10);
    assert_eq!(OathType::Hotp.byte(), 0x20);
    assert_eq!(OathDigits::Six.count(), 6);
    assert_eq!(OathDigits::Eight.count(), 8);
    assert_eq!(HashAlgo::Sha256.byte(), 0x02);
}

#[test]
fn digest_sizes() {
    assert_eq!(HashAlgo::Sha1.digest_size(), 20);
    assert_eq!(HashAlgo::Sha256.digest_size(), 32);
    assert_eq!(HashAlgo::Sha512.digest_size(), 64);
}

#[test]
fn hashes_of_abc() {
    assert_eq!(
        HashAlgo::Sha1.hash(b"abc"),
        vec![169, 153, 62, 54, 71, 6, 129, 106, 186, 62, 37, 113, 120, 80, 194, 108, 156, 208, 216, 157]
    );
    assert_eq!(
        HashAlgo::Sha256.hash(b"abc"),
        vec![
            186, 120, 22, 191, 143, 1, 207, 234, 65, 65, 64, 222, 93, 174, 34, 35, 176, 3, 97, 163,
            150, 23, 122, 156, 180, 16, 255, 97, 242, 0, 21, 173
        ]
    );
    let d = HashAlgo::Sha512.hash(b"abc");
    assert_eq!(d.len(), 64);
    assert_eq!(&d[..8], &[0xdd, 0xaf, 0x35, 0xa1, 0x93, 0x61, 0x7a, 0xba]);
}

#[test]
fn code_display_new_reads_digits_and_big_endian_code() {
    let c = OathCodeDisplay::new(&[6, 0x00, 0x01, 0xe2, 0x40]);
    assert_eq!(c.digits(), 6);
    assert_eq!(c.code(), 123456);
    let c = OathCodeDisplay::new(&[8, 0xff, 0xff, 0xff, 0xff]);
    assert_eq!(c.code(), u32::MAX);
}

#[test]
fn code_display_pads_with_zeros() {
    assert_eq!(OathCodeDisplay::new(&[6, 0, 0, 0x04, 0xd2]).to_display_string(), "001234");
    assert_eq!(OathCodeDisplay::new(&[8, 0, 0, 0, 7]).to_display_string(), "00000007");
    assert_eq!(OathCodeDisplay::new(&[2, 0, 0, 0x04, 0xd2]).to_display_string(), "1234");
}

#[test]
fn code_display_from_tlv() {
    let ok = Tlv { tag: 0x76, value: vec![6, 0, 0, 0x30, 0x39] };
    let c = OathCodeDisplay::from_tlv(ok).unwrap();
    assert_eq!(c.code(), 12345);
    assert_eq!(c.digits(), 6);
    assert_eq!(OathCodeDisplay::from_tlv(Tlv { tag: 0x77, value: vec![6, 0, 0, 0x30, 0x39] }), None);
    assert_eq!(OathCodeDisplay::from_tlv(Tlv { tag: 0x76, value: vec![6, 0, 0, 0x30] }), None);
    assert_eq!(OathCodeDisplay::from_tlv(Tlv { tag: 0x7c, value: vec![6] }), None);
}
