use fspy_shm::address::{socket_address, MAX_NAME_LEN};
use fspy_shm::error::{Error, ErrorKind};
use fspy_shm::identifier::{decode_id, encode_id, invalid_id, split_id, ID_PREFIX};
use fspy_shm::wire::TOKEN_LEN;

#[test]
fn abstract_identifiers_round_trip() {
    let abstract_name = b"fspy-\0\xff".to_vec();
    let token = [42; TOKEN_LEN];
    let id = encode_id(&abstract_name, &token);
    assert!(id.is_ascii());
    assert_eq!(decode_id(&id).unwrap(), (abstract_name.clone(), token));
    assert_eq!(
        socket_address(&abstract_name).unwrap().abstract_name(),
        Some(abstract_name.as_slice())
    );
}

#[test]
fn identifiers_have_their_exact_text() {
    assert_eq!(ID_PREFIX, "fspy-memfd-v1");
    assert_eq!(
        encode_id(b"fspy-\0\xff", &[42; TOKEN_LEN]),
        "fspy-memfd-v1.ZnNweS0A_w.KioqKioqKioqKioqKioqKg"
    );
    assert_eq!(
        encode_id(&[0xfb, 0xef, 0xff], &[0; TOKEN_LEN]),
        "fspy-memfd-v1.--__.AAAAAAAAAAAAAAAAAAAAAA"
    );
    assert_eq!(encode_id(&[], &[255; TOKEN_LEN]), "fspy-memfd-v1.._____________________w");
}

#[test]
fn identifiers_round_trip_for_every_name_length() {
    for len in 1..=MAX_NAME_LEN {
        let name: Vec<u8> = (0..len).map(|i| (i * 7 + len) as u8).collect();
        let mut token = [0_u8; TOKEN_LEN];
        for (i, byte) in token.iter_mut().enumerate() {
            *byte = (i * 31 + len) as u8;
        }
        let id = encode_id(&name, &token);
        assert_eq!(decode_id(&id).unwrap(), (name, token));
    }
}

#[test]
fn different_brokers_have_different_identifiers() {
    let id = encode_id(b"one", &[1; TOKEN_LEN]);
    assert_ne!(id, encode_id(b"two", &[1; TOKEN_LEN]));
    assert_ne!(id, encode_id(b"one", &[2; TOKEN_LEN]));
}

#[test]
fn texts_that_lead_to_no_broker_are_refused() {
    let id = encode_id(b"name", &[7; TOKEN_LEN]);
    assert!(decode_id(&id).is_ok());
    let malformed = [
        String::new(),
        "not-a-broker-id".to_owned(),
        "fspy-memfd-v1".to_owned(),
        "fspy-memfd-v1.".to_owned(),
        "fspy-memfd-v1..".to_owned(),
        "fspy-memfd-v1...".to_owned(),
        // the name is empty
        encode_id(b"", &[7; TOKEN_LEN]),
        // another prefix
        id.replace("v1", "v2"),
        format!("x{id}"),
        // a fourth part
        format!("{id}."),
        // the token has the wrong length
        "fspy-memfd-v1.bmFtZQ.BwcH".to_owned(),
        format!("{id}BwcH"),
        // padding, a character outside the alphabet, bits that belong to no byte, a length that
        // no text has
        "fspy-memfd-v1.bmFtZQ==.BwcHBwcHBwcHBwcHBwcHBw".to_owned(),
        "fspy-memfd-v1.bm+tZQ.BwcHBwcHBwcHBwcHBwcHBw".to_owned(),
        "fspy-memfd-v1.bmFtZR.BwcHBwcHBwcHBwcHBwcHBw".to_owned(),
        "fspy-memfd-v1.bmFtZ.BwcHBwcHBwcHBwcHBwcHBw".to_owned(),
        "fspy-memfd-v1.bmFtZQ.BwcHBwcHBwcHBwcHBwcHBx".to_owned(),
        "fspy-memfd-v1.n\u{e4}me.BwcHBwcHBwcHBwcHBwcHBw".to_owned(),
    ];
    for text in malformed {
        assert_eq!(decode_id(&text), Err(Error::InvalidIdentifier), "{text}");
    }
    assert_eq!(
        decode_id("fspy-memfd-v1.bmFtZQ.BwcHBwcHBwcHBwcHBwcHBw").unwrap(),
        (b"name".to_vec(), [7; TOKEN_LEN])
    );
}

#[test]
fn invalid_identifiers_are_invalid_input() {
    let error = invalid_id();
    assert_eq!(error.kind(), ErrorKind::InvalidInput);
    assert_eq!(error.message(), "invalid shared-memory broker identifier");
}

#[test]
fn identifiers_are_split_at_their_dots() {
    assert_eq!(split_id("fspy-memfd-v1.a.b"), Some(("a", "b")));
    assert_eq!(split_id("fspy-memfd-v1..\u{e9}"), Some(("", "\u{e9}")));
    assert_eq!(split_id("fspy-memfd-v1.a"), None);
    assert_eq!(split_id("fspy-memfd-v1.a.b.c"), None);
    assert_eq!(split_id("other.a.b"), None);
}

#[test]
fn names_that_do_not_fit_have_no_address() {
    let longest = vec![9_u8; MAX_NAME_LEN];
    assert_eq!(socket_address(&longest).unwrap().abstract_name(), Some(longest.as_slice()));
    let number = socket_address(&vec![9_u8; MAX_NAME_LEN + 1]).unwrap_err();
    assert_eq!(number, libc::ENAMETOOLONG);
}
