use zeroconf::error::Error;
use zeroconf::txt_record::TxtRecord;

#[test]
fn insert_and_get() {
    let mut r = TxtRecord::new();
    assert!(r.is_empty());
    r.insert(b"foo".to_vec(), b"bar".to_vec()).unwrap();
    assert_eq!(r.len(), 1);
    assert_eq!(r.get(b"foo").unwrap().as_slice(), b"bar");
    assert!(r.get(b"missing").is_none());
}

#[test]
fn insert_replaces_existing_key() {
    let mut r = TxtRecord::new();
    r.insert(b"k".to_vec(), b"v1".to_vec()).unwrap();
    r.insert(b"k".to_vec(), b"v2".to_vec()).unwrap();
    assert_eq!(r.len(), 1);
    assert_eq!(r.get(b"k").unwrap().as_slice(), b"v2");
}

#[test]
fn remove_reports_presence() {
    let mut r = TxtRecord::new();
    r.insert(b"k".to_vec(), b"v".to_vec()).unwrap();
    assert!(r.remove(b"k"));
    assert!(!r.remove(b"k"));
    assert!(r.get(b"k").is_none());
    assert!(r.is_empty());
}

#[test]
fn oversized_insert_fails_and_leaves_record_unchanged() {
    let mut r = TxtRecord::new();
    r.insert(b"keep".to_vec(), b"me".to_vec()).unwrap();
    // key + value + 1 = 4 + 251 + 1 = 256 > 255
    let big = vec![0u8; 251];
    assert_eq!(r.insert(b"huge".to_vec(), big), Err(Error::EncodingError));
    assert_eq!(r.len(), 1);
    assert_eq!(r.get(b"keep").unwrap().as_slice(), b"me");
    assert!(r.get(b"huge").is_none());
}

#[test]
fn largest_entry_is_accepted() {
    let mut r = TxtRecord::new();
    // key + value + 1 = 4 + 250 + 1 = 255, exactly at the limit
    r.insert(b"huge".to_vec(), vec![7u8; 250]).unwrap();
    assert_eq!(r.get(b"huge").unwrap().len(), 250);
}

#[test]
fn empty_key_is_rejected() {
    let mut r = TxtRecord::new();
    assert_eq!(r.insert(Vec::new(), b"v".to_vec()), Err(Error::EncodingError));
    assert!(r.is_empty());
}

#[test]
fn key_with_separator_is_rejected() {
    let mut r = TxtRecord::new();
    assert_eq!(r.insert(b"a=b".to_vec(), b"v".to_vec()), Err(Error::EncodingError));
    assert!(r.is_empty());
}

#[test]
fn encode_produces_length_prefixed_pairs() {
    let mut r = TxtRecord::new();
    r.insert(b"foo".to_vec(), b"bar".to_vec()).unwrap();
    let bytes = r.encode();
    assert_eq!(bytes, b"\x07foo=bar".to_vec());
}

#[test]
fn encode_empty_value() {
    let mut r = TxtRecord::new();
    r.insert(b"k".to_vec(), Vec::new()).unwrap();
    assert_eq!(r.encode(), b"\x02k=".to_vec());
}

#[test]
fn decode_reverses_encode() {
    let mut r = TxtRecord::new();
    r.insert(b"foo".to_vec(), b"bar".to_vec()).unwrap();
    r.insert(b"alpha".to_vec(), b"beta".to_vec()).unwrap();
    r.insert(b"empty".to_vec(), Vec::new()).unwrap();
    let decoded = TxtRecord::decode(&r.encode()).unwrap();
    assert_eq!(decoded.len(), 3);
    assert_eq!(decoded.get(b"foo").unwrap().as_slice(), b"bar");
    assert_eq!(decoded.get(b"alpha").unwrap().as_slice(), b"beta");
    assert_eq!(decoded.get(b"empty").unwrap().as_slice(), b"");
}

#[test]
fn decode_of_empty_buffer_is_empty_record() {
    let r = TxtRecord::decode(&Vec::new()).unwrap();
    assert_eq!(r.len(), 0);
}

#[test]
fn decode_fails_when_length_prefix_runs_past_end() {
    // prefix says 7 bytes follow, but only 3 do
    let buf = b"\x07foo".to_vec();
    assert_eq!(TxtRecord::decode(&buf).unwrap_err(), Error::MalformedRecord);
}

#[test]
fn decode_fails_without_separator() {
    let buf = b"\x03foo".to_vec();
    assert_eq!(TxtRecord::decode(&buf).unwrap_err(), Error::MalformedRecord);
}

#[test]
fn decode_fails_on_empty_key() {
    let buf = b"\x02=v".to_vec();
    assert_eq!(TxtRecord::decode(&buf).unwrap_err(), Error::MalformedRecord);
}

#[test]
fn decode_fails_on_repeated_key() {
    let buf = b"\x03k=a\x03k=b".to_vec();
    assert_eq!(TxtRecord::decode(&buf).unwrap_err(), Error::MalformedRecord);
}

#[test]
fn entries_iterate_in_store_order() {
    let mut r = TxtRecord::new();
    r.insert(b"a".to_vec(), b"1".to_vec()).unwrap();
    r.insert(b"b".to_vec(), b"2".to_vec()).unwrap();
    let entries = r.entries();
    assert_eq!(entries.len(), 2);
    assert_eq!(entries[0].key, b"a".to_vec());
    assert_eq!(entries[0].value, b"1".to_vec());
    assert_eq!(entries[1].key, b"b".to_vec());
    assert_eq!(entries[1].value, b"2".to_vec());
}
