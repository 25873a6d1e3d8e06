use davy_jones_locker::secure_storage::codec::{decode_credentials, encode_credentials};
use davy_jones_locker::secure_storage::item::Credentials;
use davy_jones_locker::secure_storage::StorageError;

fn record(username: &str, password: &str, url: &str) -> Credentials {
    Credentials {
        username: username.to_string(),
        password: password.to_string(),
        url: url.to_string(),
    }
}

fn missing(name: &str) -> StorageError {
    StorageError::Serialization(format!("missing field `{}`", name))
}

#[test]
fn a_record_is_written_as_a_json_object() {
    let plaintext = encode_credentials(&record("alice", "s3cr3t", "https://example.com")).unwrap();
    assert_eq!(
        String::from_utf8(plaintext).unwrap(),
        "{\"password\":\"s3cr3t\",\"url\":\"https://example.com\",\"username\":\"alice\"}"
    );
}

#[test]
fn a_record_is_read_back_from_its_plaintext() {
    let credentials = record("alice", "s3cr3t", "https://example.com");
    let plaintext = encode_credentials(&credentials).unwrap();
    assert_eq!(decode_credentials(&plaintext), Ok(credentials));
}

#[test]
fn members_are_read_in_any_order() {
    let plaintext =
        b"{\"username\":\"alice\",\"password\":\"s3cr3t\",\"url\":\"https://example.com\"}";
    assert_eq!(
        decode_credentials(plaintext),
        Ok(record("alice", "s3cr3t", "https://example.com"))
    );
    let spaced = b" { \"url\" : \"u\" ,\n \"username\" : \"n\" , \"password\" : \"p\" } ";
    assert_eq!(decode_credentials(spaced), Ok(record("n", "p", "u")));
}

#[test]
fn other_members_are_passed_over() {
    let plaintext = b"{\"note\":\"x\",\"password\":\"p\",\"url\":\"u\",\"username\":\"n\"}";
    assert_eq!(decode_credentials(plaintext), Ok(record("n", "p", "u")));
}

#[test]
fn the_last_of_two_members_of_one_name_counts() {
    let plaintext = b"{\"password\":\"old\",\"password\":\"new\",\"url\":\"u\",\"username\":\"n\"}";
    assert_eq!(decode_credentials(plaintext), Ok(record("n", "new", "u")));
}

#[test]
fn quotes_escapes_and_other_scripts_survive() {
    let credentials = record("al\"ice\\", "p\u{e4}ss\n\tw\u{0}rd \u{1f511}", "https://example.com/?q=\u{3b1}");
    let plaintext = encode_credentials(&credentials).unwrap();
    assert_eq!(decode_credentials(&plaintext), Ok(credentials));
}

#[test]
fn empty_strings_survive() {
    let credentials = record("", "", "");
    let plaintext = encode_credentials(&credentials).unwrap();
    assert_eq!(
        String::from_utf8(plaintext.clone()).unwrap(),
        "{\"password\":\"\",\"url\":\"\",\"username\":\"\"}"
    );
    assert_eq!(decode_credentials(&plaintext), Ok(credentials));
}

#[test]
fn the_first_missing_member_is_reported() {
    assert_eq!(decode_credentials(b"{}"), Err(missing("username")));
    assert_eq!(decode_credentials(b"{\"url\":\"u\"}"), Err(missing("username")));
    assert_eq!(decode_credentials(b"{\"username\":\"n\"}"), Err(missing("password")));
    assert_eq!(
        decode_credentials(b"{\"username\":\"n\",\"password\":\"p\"}"),
        Err(missing("url"))
    );
}

#[test]
fn what_is_no_object_of_strings_is_refused() {
    let inputs: Vec<&[u8]> = vec![
        b"",
        b"not json",
        b"[\"n\",\"p\",\"u\"]",
        b"\"text\"",
        b"17",
        b"null",
        b"{\"username\":\"n\",\"password\":5,\"url\":\"u\"}",
        b"{\"username\":\"n\",\"password\":\"p\",\"url\":\"u\"",
        b"{\"username\":\"n\",\"password\":\"p\",\"url\":\"u\"} x",
        &[0xff, 0xfe, 0x00],
    ];
    for input in inputs {
        match decode_credentials(input) {
            Err(StorageError::Serialization(text)) => assert!(!text.starts_with("missing field")),
            other => panic!("a serialization failure was expected, not {:?}", other),
        }
    }
}
