use backup_core::cbor::{push_head, push_string, read_head, skip_item};
use backup_core::error::ErrorKind;
use backup_core::metadata::{
    BackupMetadata, KeyEntry, KEY_MARKETPLACE_URL, KEY_NETWORK_KEYS, KEY_TIMESTAMP, KEY_TOR_KEYS,
};
use backup_core::timestamp::Timestamp;

fn instant() -> Timestamp {
    Timestamp { year: 2023, month: 1, day: 2, hour: 3, minute: 4, second: 5, nanos: 0 }
}

fn sample() -> BackupMetadata {
    BackupMetadata {
        timestamp: Timestamp {
            year: 2024,
            month: 2,
            day: 29,
            hour: 23,
            minute: 59,
            second: 59,
            nanos: 123_000_000,
        },
        network_keys: vec![
            KeyEntry { interface: "main".to_string(), key: [7u8; 32] },
            KeyEntry { interface: "rpc".to_string(), key: [9u8; 32] },
        ],
        tor_keys: vec![
            KeyEntry { interface: "main".to_string(), key: [1u8; 64] },
            KeyEntry { interface: "rpc".to_string(), key: [2u8; 64] },
        ],
        marketplace_url: Some("https://registry.start9.com/".to_string()),
    }
}

fn minimal_bytes() -> Vec<u8> {
    let mut expected: Vec<u8> = vec![0xa4, 0x69];
    expected.extend_from_slice(b"timestamp");
    expected.push(0x74);
    expected.extend_from_slice(b"2023-01-02T03:04:05Z");
    expected.push(0x6c);
    expected.extend_from_slice(b"network-keys");
    expected.push(0xa0);
    expected.push(0x68);
    expected.extend_from_slice(b"tor-keys");
    expected.push(0xa0);
    expected.push(0x6f);
    expected.extend_from_slice(b"marketplace-url");
    expected.push(0xf6);
    expected
}

fn same(a: &BackupMetadata, b: &BackupMetadata) -> bool {
    a.timestamp == b.timestamp
        && a.marketplace_url == b.marketplace_url
        && a.network_keys.len() == b.network_keys.len()
        && a.tor_keys.len() == b.tor_keys.len()
        && a
            .network_keys
            .iter()
            .zip(b.network_keys.iter())
            .all(|(x, y)| x.interface == y.interface && x.key == y.key)
        && a
            .tor_keys
            .iter()
            .zip(b.tor_keys.iter())
            .all(|(x, y)| x.interface == y.interface && x.key == y.key)
}

#[test]
fn encode_gives_the_exact_bytes_of_a_small_envelope() {
    let m = BackupMetadata {
        timestamp: instant(),
        network_keys: vec![],
        tor_keys: vec![],
        marketplace_url: None,
    };
    assert_eq!(m.encode(), minimal_bytes());
}

#[test]
fn decode_reads_back_what_encode_wrote() {
    let m = sample();
    assert!(m.is_valid());
    let bytes = m.encode();
    let back = BackupMetadata::decode(&bytes).unwrap();
    assert!(same(&m, &back));
    assert_eq!(back.network_keys[1].interface, "rpc");
    assert_eq!(back.network_keys[1].key, [9u8; 32]);
    assert_eq!(back.tor_keys[0].key, [1u8; 64]);
    assert_eq!(back.marketplace_url.as_deref(), Some("https://registry.start9.com/"));
}

#[test]
fn encode_valid_refuses_what_could_not_be_read_back() {
    let mut m = sample();
    assert!(m.encode_valid().is_some());
    m.marketplace_url = Some("not a url".to_string());
    assert!(!m.is_valid());
    assert!(m.encode_valid().is_none());
    let mut m = sample();
    m.network_keys.push(KeyEntry { interface: "main".to_string(), key: [0u8; 32] });
    assert!(m.encode_valid().is_none());
    let mut m = sample();
    m.timestamp.month = 13;
    assert!(m.encode_valid().is_none());
}

#[test]
fn every_truncation_is_a_serialization_error() {
    let bytes = sample().encode();
    for cut in 0..bytes.len() {
        match BackupMetadata::decode(&bytes[..cut]) {
            Ok(_) => panic!("a buffer cut at {} was read", cut),
            Err(e) => {
                assert_eq!(e.kind, ErrorKind::Serialization);
                assert_eq!(e.message, "malformed backup metadata");
            }
        }
    }
}

#[test]
fn bytes_left_over_are_an_error() {
    let mut bytes = sample().encode();
    bytes.push(0xf6);
    assert_eq!(BackupMetadata::decode(&bytes).err().unwrap().kind, ErrorKind::Serialization);
}

#[test]
fn a_value_of_the_wrong_type_is_an_error() {
    // timestamp as an integer
    let mut bytes: Vec<u8> = vec![0xa1, 0x69];
    bytes.extend_from_slice(b"timestamp");
    bytes.push(0x05);
    assert_eq!(BackupMetadata::decode(&bytes).err().unwrap().kind, ErrorKind::Serialization);
    // a key of 31 bytes
    let mut bytes: Vec<u8> = vec![0xa2, 0x69];
    bytes.extend_from_slice(b"timestamp");
    bytes.push(0x74);
    bytes.extend_from_slice(b"2023-01-02T03:04:05Z");
    bytes.push(0x6c);
    bytes.extend_from_slice(b"network-keys");
    bytes.extend_from_slice(&[0xa1, 0x61, b'a', 0x58, 31]);
    bytes.extend_from_slice(&[0u8; 31]);
    assert_eq!(BackupMetadata::decode(&bytes).err().unwrap().kind, ErrorKind::Serialization);
    // the top level is an array
    assert_eq!(BackupMetadata::decode(&[0x80]).err().unwrap().kind, ErrorKind::Serialization);
    // nothing at all
    assert_eq!(BackupMetadata::decode(&[]).err().unwrap().kind, ErrorKind::Serialization);
}

#[test]
fn absent_fields_get_their_defaults() {
    let mut bytes: Vec<u8> = vec![0xa1, 0x69];
    bytes.extend_from_slice(b"timestamp");
    bytes.push(0x74);
    bytes.extend_from_slice(b"2023-01-02T03:04:05Z");
    let m = BackupMetadata::decode(&bytes).unwrap();
    assert_eq!(m.timestamp, instant());
    assert!(m.network_keys.is_empty());
    assert!(m.tor_keys.is_empty());
    assert!(m.marketplace_url.is_none());
}

#[test]
fn a_missing_timestamp_is_an_error() {
    let mut bytes: Vec<u8> = vec![0xa1, 0x6f];
    bytes.extend_from_slice(b"marketplace-url");
    bytes.push(0xf6);
    assert_eq!(BackupMetadata::decode(&bytes).err().unwrap().kind, ErrorKind::Serialization);
    assert_eq!(BackupMetadata::decode(&[0xa0]).err().unwrap().kind, ErrorKind::Serialization);
}

#[test]
fn unknown_fields_are_stepped_over_in_any_order() {
    let mut bytes: Vec<u8> = vec![0xa3];
    // "later": { "a": [1, "x", h'00'], "b": 1(1.5) }
    bytes.push(0x65);
    bytes.extend_from_slice(b"later");
    bytes.extend_from_slice(&[0xa2, 0x61, b'a', 0x83, 0x01, 0x61, b'x', 0x41, 0x00]);
    bytes.extend_from_slice(&[0x61, b'b', 0xc1, 0xf9, 0x3e, 0x00]);
    bytes.push(0x6f);
    bytes.extend_from_slice(b"marketplace-url");
    bytes.push(0x73);
    bytes.extend_from_slice(b"https://example.com");
    bytes.push(0x69);
    bytes.extend_from_slice(b"timestamp");
    bytes.push(0x78);
    bytes.push(24);
    bytes.extend_from_slice(b"2023-01-02T03:04:05.250Z");
    let m = BackupMetadata::decode(&bytes).unwrap();
    assert_eq!(m.timestamp.nanos, 250_000_000);
    assert_eq!(m.marketplace_url.as_deref(), Some("https://example.com"));
}

#[test]
fn a_field_twice_is_an_error() {
    let mut bytes: Vec<u8> = vec![0xa2];
    for _ in 0..2 {
        bytes.push(0x69);
        bytes.extend_from_slice(b"timestamp");
        bytes.push(0x74);
        bytes.extend_from_slice(b"2023-01-02T03:04:05Z");
    }
    assert_eq!(BackupMetadata::decode(&bytes).err().unwrap().kind, ErrorKind::Serialization);
}

#[test]
fn an_interface_twice_is_an_error() {
    let mut bytes: Vec<u8> = vec![0xa2, 0x69];
    bytes.extend_from_slice(b"timestamp");
    bytes.push(0x74);
    bytes.extend_from_slice(b"2023-01-02T03:04:05Z");
    bytes.push(0x6c);
    bytes.extend_from_slice(b"network-keys");
    bytes.push(0xa2);
    for _ in 0..2 {
        bytes.extend_from_slice(&[0x61, b'a', 0x58, 32]);
        bytes.extend_from_slice(&[3u8; 32]);
    }
    assert_eq!(BackupMetadata::decode(&bytes).err().unwrap().kind, ErrorKind::Serialization);
}

#[test]
fn a_name_that_is_not_utf8_is_an_error() {
    let mut bytes: Vec<u8> = vec![0xa2, 0x69];
    bytes.extend_from_slice(b"timestamp");
    bytes.push(0x74);
    bytes.extend_from_slice(b"2023-01-02T03:04:05Z");
    bytes.push(0x6c);
    bytes.extend_from_slice(b"network-keys");
    bytes.extend_from_slice(&[0xa1, 0x62, 0xc3, 0x28, 0x58, 32]);
    bytes.extend_from_slice(&[3u8; 32]);
    assert_eq!(BackupMetadata::decode(&bytes).err().unwrap().kind, ErrorKind::Serialization);
    // the same bytes with a name in UTF-8 are read
    let at = bytes.len() - 32 - 4;
    bytes[at] = 0xc3;
    bytes[at + 1] = 0xa9;
    let m = BackupMetadata::decode(&bytes).unwrap();
    assert_eq!(m.network_keys[0].interface, "\u{e9}");
}

#[test]
fn a_url_that_is_none_is_an_error() {
    let mut bytes: Vec<u8> = vec![0xa2, 0x69];
    bytes.extend_from_slice(b"timestamp");
    bytes.push(0x74);
    bytes.extend_from_slice(b"2023-01-02T03:04:05Z");
    bytes.push(0x6f);
    bytes.extend_from_slice(b"marketplace-url");
    bytes.push(0x69);
    bytes.extend_from_slice(b"not a url");
    assert_eq!(BackupMetadata::decode(&bytes).err().unwrap().kind, ErrorKind::Serialization);
}

#[test]
fn heads_are_written_in_the_shortest_form() {
    let cases: Vec<(u64, Vec<u8>)> = vec![
        (0, vec![0x40]),
        (23, vec![0x57]),
        (24, vec![0x58, 24]),
        (255, vec![0x58, 255]),
        (256, vec![0x59, 1, 0]),
        (65535, vec![0x59, 255, 255]),
        (65536, vec![0x5a, 0, 1, 0, 0]),
        (4294967295, vec![0x5a, 255, 255, 255, 255]),
        (4294967296, vec![0x5b, 0, 0, 0, 1, 0, 0, 0, 0]),
        (u64::MAX, vec![0x5b, 255, 255, 255, 255, 255, 255, 255, 255]),
    ];
    for (arg, expected) in cases {
        let mut out = Vec::new();
        push_head(&mut out, 2, arg);
        assert_eq!(out, expected);
        let head = read_head(&out, 0).unwrap();
        assert_eq!((head.major, head.arg, head.next), (2, arg, expected.len()));
    }
}

#[test]
fn a_head_that_is_cut_or_reserved_is_not_read() {
    assert!(read_head(&[], 0).is_none());
    assert!(read_head(&[0x59, 1], 0).is_none());
    assert!(read_head(&[0x5c], 0).is_none());
    assert!(read_head(&[0x5f], 0).is_none());
    assert!(read_head(&[0x40], 1).is_none());
}

#[test]
fn strings_are_written_with_their_length() {
    let mut out = vec![0xffu8];
    push_string(&mut out, 3, b"abc");
    assert_eq!(out, vec![0xff, 0x63, b'a', b'b', b'c']);
}

#[test]
fn skip_item_steps_over_nested_items() {
    // [1, [2, 3], {"a": h'0102'}] and then a 7
    let bytes = [0x83, 0x01, 0x82, 0x02, 0x03, 0xa1, 0x61, b'a', 0x42, 1, 2, 0x07];
    assert_eq!(skip_item(&bytes, 0), Some(11));
    assert_eq!(skip_item(&bytes, 2), Some(5));
    assert_eq!(skip_item(&bytes, 11), Some(12));
    assert_eq!(skip_item(&bytes, 12), None);
    // an array that says it holds more than there is
    assert_eq!(skip_item(&[0x82, 0x01], 0), None);
    assert_eq!(skip_item(&[0x9b, 255, 255, 255, 255, 255, 255, 255, 255, 0x01], 0), None);
    // a string that says it is longer than the bytes
    assert_eq!(skip_item(&[0x45, 1, 2], 0), None);
    // an indefinite length is not read
    assert_eq!(skip_item(&[0x9f, 0x01, 0xff], 0), None);
    // a tag and what it tags are one item
    assert_eq!(skip_item(&[0xc1, 0x1a, 0, 0, 0, 1, 0x00], 0), Some(6));
}

#[test]
fn an_envelope_with_onion_service_keys_alone_is_read() {
    let mut bytes: Vec<u8> = vec![0xa2, 0x68];
    bytes.extend_from_slice(b"tor-keys");
    bytes.extend_from_slice(&[0xa1, 0x64]);
    bytes.extend_from_slice(b"main");
    bytes.extend_from_slice(&[0x58, 64]);
    bytes.extend_from_slice(&[5u8; 64]);
    bytes.push(0x69);
    bytes.extend_from_slice(b"timestamp");
    bytes.push(0x74);
    bytes.extend_from_slice(b"2023-01-02T03:04:05Z");
    let m = BackupMetadata::decode(&bytes).unwrap();
    assert!(m.network_keys.is_empty());
    assert_eq!(m.tor_keys.len(), 1);
    assert_eq!(m.tor_keys[0].interface, "main");
    assert_eq!(m.tor_keys[0].key, [5u8; 64]);
    // a head that is longer than it need be is read all the same
    let at = bytes.len() - 21;
    assert_eq!(bytes[at], 0x74);
    bytes.splice(at..at + 1, [0x79, 0x00, 0x14]);
    assert_eq!(BackupMetadata::decode(&bytes).unwrap().timestamp, instant());
}

#[test]
fn the_keys_of_the_fields_are_their_texts() {
    assert_eq!(&KEY_TIMESTAMP, b"timestamp");
    assert_eq!(&KEY_NETWORK_KEYS, b"network-keys");
    assert_eq!(&KEY_TOR_KEYS, b"tor-keys");
    assert_eq!(&KEY_MARKETPLACE_URL, b"marketplace-url");
}
