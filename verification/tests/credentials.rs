use corsairmi_mqtt::psk::{load, LoadError, SelectError};

#[test]
fn basic() {
    let psks = load(b"helloworld:deadbeef").unwrap();

    assert_eq!(psks.get(b"helloworld"), Some(&vec![0xde, 0xad, 0xbe, 0xef]))
}

#[test]
fn single_record() {
    let psks = load(b"alice:deadbeef").unwrap();
    assert_eq!(psks.len(), 1);
    assert_eq!(psks.get(b"alice"), Some(&vec![0xde, 0xad, 0xbe, 0xef]));
    assert_eq!(psks.get(b"bob"), None);
}

#[test]
fn empty_file_fails() {
    assert_eq!(load(b"").unwrap_err(), LoadError::NoRecords);
}

#[test]
fn empty_line_fails() {
    assert_eq!(load(b"\n").unwrap_err(), LoadError::MissingSeparator);
}

#[test]
fn non_hex_key_fails() {
    assert_eq!(load(b"alice:zzzz").unwrap_err(), LoadError::KeyNotHex);
    assert_eq!(load(b"alice:abc").unwrap_err(), LoadError::KeyNotHex);
}

#[test]
fn empty_key_fails() {
    assert_eq!(load(b"alice:").unwrap_err(), LoadError::KeyEmpty);
}

#[test]
fn missing_separator_fails() {
    assert_eq!(load(b"alice").unwrap_err(), LoadError::MissingSeparator);
}

#[test]
fn empty_identity_fails() {
    assert_eq!(load(b":deadbeef").unwrap_err(), LoadError::IdentityInvalid);
}

#[test]
fn long_identity_fails() {
    let line = format!("{}:00", "x".repeat(24));
    assert_eq!(load(line.as_bytes()).unwrap_err(), LoadError::IdentityInvalid);
    let line = format!("{}:00", "x".repeat(23));
    assert!(load(line.as_bytes()).is_ok());
}

#[test]
fn second_colon_is_part_of_the_key() {
    assert_eq!(load(b"alice:de:ad").unwrap_err(), LoadError::KeyNotHex);
}

#[test]
fn duplicate_identity_last_wins() {
    let psks = load(b"a:01\nb:02\na:03").unwrap();
    assert_eq!(psks.len(), 2);
    assert_eq!(psks.get(b"a"), Some(&vec![0x03]));
    assert_eq!(psks.get(b"b"), Some(&vec![0x02]));
}

#[test]
fn crlf_and_trailing_newline() {
    let psks = load(b"a:01\r\nb:02\n").unwrap();
    assert_eq!(psks.len(), 2);
    assert_eq!(psks.get(b"a"), Some(&vec![0x01]));
    assert_eq!(psks.get(b"b"), Some(&vec![0x02]));
}

#[test]
fn mixed_case_hex() {
    let psks = load(b"a:DeadBEEF").unwrap();
    assert_eq!(psks.get(b"a"), Some(&vec![0xde, 0xad, 0xbe, 0xef]));
}

#[test]
fn select_prefers_the_hinted_identity() {
    let psks = load(b"a:01\nb:02").unwrap();
    let (identity, key) = psks.select(Some(b"b".as_slice()));
    assert_eq!(identity, b"b");
    assert_eq!(key, &vec![0x02]);
}

#[test]
fn select_falls_back_to_the_first_record() {
    let psks = load(b"a:01\nb:02").unwrap();
    let (identity, key) = psks.select(None);
    assert_eq!(identity, b"a");
    assert_eq!(key, &vec![0x01]);
    let (identity, key) = psks.select(Some(b"unknown".as_slice()));
    assert_eq!(identity, b"a");
    assert_eq!(key, &vec![0x01]);
}

#[test]
fn psk_response_appends_a_terminator() {
    let psks = load(b"ab:0102").unwrap();
    let (identity, key) = psks.psk_response(None, 16, 16).unwrap();
    assert_eq!(identity, vec![b'a', b'b', 0x00]);
    assert_eq!(key, vec![0x01, 0x02]);
}

#[test]
fn psk_response_refuses_a_tight_identity_buffer() {
    let psks = load(b"ab:0102").unwrap();
    // two identity bytes plus the terminator do not fit in two
    assert_eq!(psks.psk_response(None, 2, 16), Err(SelectError::CredentialTooLarge));
    assert!(psks.psk_response(None, 3, 16).is_ok());
}

#[test]
fn psk_response_refuses_a_tight_key_buffer() {
    let psks = load(b"ab:0102").unwrap();
    assert_eq!(psks.psk_response(None, 16, 1), Err(SelectError::CredentialTooLarge));
    assert!(psks.psk_response(None, 16, 2).is_ok());
}
