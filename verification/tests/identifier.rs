use uberallfs::b64;
use uberallfs::identifier_kind::{IdentifierKind, Mutability, ObjectType, SharingPolicy};
use uberallfs::rev_cursor::{flip_bytes, ReadCursor, WriteCursor};
use uberallfs::{Flipbase64, Identifier, IdentifierBin};

fn dir_kind() -> IdentifierKind {
    IdentifierKind::create(
        ObjectType::Directory,
        SharingPolicy::Private,
        Mutability::Mutable,
    )
}

fn id_with_payload(kind: IdentifierKind, payload: Vec<u8>) -> Identifier {
    Identifier::from_binary(kind, IdentifierBin(payload))
}

#[test]
fn base64_known_vector() {
    let encoded = b64::encode(&vec![77u8, 97, 110]);
    assert_eq!(encoded, b"TWFu".to_vec());
    let decoded = b64::decode(&encoded).expect("valid");
    assert_eq!(decoded, vec![77u8, 97, 110]);
}

#[test]
fn base64_rejects_foreign_characters() {
    assert!(b64::decode(&vec![b'%', b'A', b'A', b'A']).is_none());
    assert!(b64::decode(&vec![b'T', b'W', b'F', b'\n']).is_none());
}

#[test]
fn base64_round_trip_many_lengths() {
    for n in [3usize, 6, 33, 48] {
        let bytes: Vec<u8> = (0..n).map(|i| (i * 37 % 256) as u8).collect();
        let encoded = b64::encode(&bytes);
        assert_eq!(encoded.len(), n / 3 * 4);
        assert_eq!(b64::decode(&encoded).expect("valid"), bytes);
    }
}

#[test]
fn kind_byte_packs_directory_private_mutable() {
    // Directory = 1 in the upper three bits.
    assert_eq!(dir_kind().0, 32);
    let (t, s, m) = dir_kind().components();
    assert_eq!(t, ObjectType::Directory);
    assert_eq!(s, SharingPolicy::Private);
    assert_eq!(m, Mutability::Mutable);
}

#[test]
fn kind_byte_round_trips_for_every_byte() {
    for k in 0..=255u8 {
        let kind = IdentifierKind(k);
        let (t, s, m) = kind.components();
        assert_eq!(IdentifierKind::create(t, s, m).0, k);
    }
}

#[test]
fn triple_round_trips_through_kind_byte() {
    let cases = [
        (ObjectType::File, SharingPolicy::Private, Mutability::Mutable),
        (ObjectType::Directory, SharingPolicy::Anonymous, Mutability::Immutable),
        (ObjectType::File, SharingPolicy::PublicAcl, Mutability::Immutable),
    ];
    for (t, s, m) in cases {
        let kind = IdentifierKind::create(t, s, m);
        assert_eq!(kind.components(), (t, s, m));
    }
}

#[test]
fn zero_payload_directory_text() {
    let id = id_with_payload(dir_kind(), vec![0u8; 32]);
    let text = &id.id_base64().0;
    assert_eq!(text.len(), 44);
    // kind byte 32 encodes into the first base64 quartet, which reversal
    // puts at the end of the string.
    let mut expected = vec![b'A'; 43];
    expected.push(b'I');
    assert_eq!(text, &expected);
}

#[test]
fn identifier_parse_format_round_trip() {
    let payload: Vec<u8> = (0..32).map(|i| (i * 11 + 3) as u8).collect();
    let id = id_with_payload(dir_kind(), payload);
    let text = id.id_base64().0.clone();
    let parsed = Identifier::from_filename(text.as_slice()).expect("parses");
    assert_eq!(parsed, id);
    assert_eq!(parsed.object_type(), ObjectType::Directory);
    assert_eq!(parsed.sharing_policy(), SharingPolicy::Private);
    assert_eq!(parsed.mutability(), Mutability::Mutable);
}

#[test]
fn identifier_binary_round_trip() {
    let payload: Vec<u8> = (0..32).map(|i| (255 - i * 5) as u8).collect();
    let id = id_with_payload(dir_kind(), payload.clone());
    assert_eq!(id.id_bin().0, payload);
}

#[test]
fn identifier_rejects_bad_length() {
    assert!(Identifier::from_filename(b"short").is_err());
    assert!(Identifier::from_filename(&[b'A'; 43]).is_err());
    assert!(Identifier::from_filename(&[b'A'; 45]).is_err());
}

#[test]
fn identifier_rejects_foreign_characters() {
    let mut text = vec![b'A'; 44];
    text[10] = b'/';
    assert!(Identifier::from_filename(text.as_slice()).is_err());
    text[10] = b'*';
    assert!(Identifier::from_flipbase64(Flipbase64(text)).is_err());
}

#[test]
fn ensure_dir_and_ensure_file() {
    let dir = id_with_payload(dir_kind(), vec![7u8; 32]);
    assert!(dir.ensure_dir().is_ok());
    assert!(dir.ensure_file().is_err());

    let file_kind = IdentifierKind::create(
        ObjectType::File,
        SharingPolicy::Private,
        Mutability::Mutable,
    );
    let file = id_with_payload(file_kind, vec![9u8; 32]);
    assert!(file.ensure_file().is_ok());
    assert!(file.ensure_dir().is_err());
}

#[test]
fn write_cursor_reverses() {
    assert_eq!(flip_bytes(&[1u8, 2, 3, 4]), vec![4u8, 3, 2, 1]);
    let mut cursor = WriteCursor::new(4);
    cursor.write(&[9, 8]);
    assert_eq!(cursor.remaining(), 2);
    cursor.write(&[7, 6]);
    assert_eq!(cursor.into_vec(), vec![6u8, 7, 8, 9]);
}

#[test]
fn read_cursor_reads_from_the_back() {
    let mut cursor = ReadCursor::from(&[1u8, 2, 3]);
    assert_eq!(cursor.read_byte(), Some(3));
    assert_eq!(cursor.read_byte(), Some(2));
    assert_eq!(cursor.read_byte(), Some(1));
    assert_eq!(cursor.read_byte(), None);
}
