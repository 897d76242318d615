use yubikey_oath::constants::ErrorResponse;
use yubikey_oath::transaction::{build_command, process_response, ReadAll};
use yubikey_oath::{ApduResponse, Error};

#[test]
fn okay_trailer_is_accepted() {
    assert_eq!(Error::from_apdu_response(0x90, 0x00), Ok(()));
}

#[test]
fn more_data_trailer_is_accepted() {
    assert_eq!(Error::from_apdu_response(0x61, 0x20), Ok(()));
    assert_eq!(Error::from_apdu_response(0x61, 0x00), Ok(()));
}

#[test]
fn failures_named_by_the_or_of_the_trailer() {
    // The trailer bytes are OR-ed and moved to the high byte.
    assert_eq!(
        Error::from_apdu_response(0x6f, 0x00),
        Err(Error::Protocol(ErrorResponse::CommandAborted))
    );
    assert_eq!(
        Error::from_apdu_response(0x6d, 0x00),
        Err(Error::Protocol(ErrorResponse::InvalidInstruction))
    );
    // 0x6a | 0x84 is 0xee: no failure has the code 0xee00.
    assert_eq!(
        Error::from_apdu_response(0x6a, 0x84),
        Err(Error::Unknown("Unknown error".to_string()))
    );
}

#[test]
fn unknown_trailer_is_refused() {
    assert_eq!(Error::from_apdu_response(0x12, 0x34), Err(Error::Unknown("Unknown error".to_string())));
}

#[test]
fn commands_are_built_as_apdu_core_writes_them() {
    assert_eq!(build_command(0, 0xa1, 0, 0, None), vec![0, 0xa1, 0, 0]);
    assert_eq!(build_command(0, 0xa4, 0x04, 0, Some(&[1, 2, 3])), vec![0, 0xa4, 4, 0, 3, 1, 2, 3]);
}

#[test]
fn responses_are_split_into_data_and_trailer() {
    let r = process_response(&[1, 2, 3, 0x90, 0x00]).unwrap();
    assert_eq!(r.buf, vec![1, 2, 3]);
    assert_eq!((r.sw1, r.sw2), (0x90, 0x00));
    assert!(matches!(process_response(&[0x6d, 0x00]), Err(Error::Protocol(ErrorResponse::InvalidInstruction))));
    // Too short for a trailer: trailer (0, 0), which no status word accepts.
    assert!(matches!(process_response(&[0x90]), Err(Error::Unknown(_))));
}

#[test]
fn read_all_collects_parts_until_no_more_data() {
    let mut state = ReadAll::new();
    let next = state.on_response(ApduResponse { buf: vec![1, 2], sw1: 0x61, sw2: 0x05 });
    assert_eq!(next, Some(vec![0, 0xa5, 0, 0]));
    let next = state.on_response(ApduResponse { buf: vec![3], sw1: 0x61, sw2: 0x00 });
    assert_eq!(next, Some(vec![0, 0xa5, 0, 0]));
    let next = state.on_response(ApduResponse { buf: vec![4, 5], sw1: 0x90, sw2: 0x00 });
    assert_eq!(next, None);
    assert_eq!(state.finish(), vec![1, 2, 3, 4, 5]);
}
