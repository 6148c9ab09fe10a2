use uberallfs::identifier_kind::{IdentifierKind, Mutability, ObjectType, SharingPolicy};
use uberallfs::objectpath::{link_target, parse_link_target, reserved_prefix};
use uberallfs::store::{check_version, parse_root_link, set_root_request, shard_names, PathStart};
use uberallfs::{Identifier, IdentifierBin, OPath, ObjectStoreError};

fn dir_id(seed: u8) -> Identifier {
    let kind = IdentifierKind::create(
        ObjectType::Directory,
        SharingPolicy::Private,
        Mutability::Mutable,
    );
    Identifier::from_binary(kind, IdentifierBin(vec![seed; 32]))
}

#[test]
fn normalize_drops_dot_and_resolves_dotdot() {
    let p = OPath::prefix(b"a/./b/../c");
    let q = p.normalize().expect("normalizes");
    assert_eq!(q.as_bytes(), b"a/c".to_vec());
}

#[test]
fn normalize_refuses_to_ascend_past_the_root() {
    let p = OPath::prefix(b"..");
    assert!(matches!(p.normalize(), Err(ObjectStoreError::NoParent)));
    let p = OPath::prefix(b"a/../..");
    assert!(matches!(p.normalize(), Err(ObjectStoreError::NoParent)));
}

#[test]
fn normalize_is_idempotent_on_samples() {
    for raw in [&b"a/./b/../c"[..], b"x//y/", b".", b"a/b/c/.."] {
        let once = OPath::prefix(raw).normalize().expect("normalizes");
        let twice = once.clone().normalize().expect("normalizes again");
        assert_eq!(once.as_bytes(), twice.as_bytes());
    }
}

#[test]
fn split_collapses_repeated_separators() {
    let p = OPath::prefix(b"//a///b/");
    let comps = p.components();
    assert_eq!(comps.len(), 2);
    assert_eq!(comps[0], b"a".to_vec());
    assert_eq!(comps[1], b"b".to_vec());
    assert_eq!(p.as_bytes(), b"a/b".to_vec());
}

#[test]
fn parse_path_accepts_root_form() {
    let (start, rest) = uberallfs::store::parse_path(b"/").expect("root form");
    assert!(matches!(start, PathStart::Root));
    assert!(rest.is_empty());

    let (start, rest) = uberallfs::store::parse_path(b"/a/b").expect("root form");
    assert!(matches!(start, PathStart::Root));
    assert_eq!(rest.as_bytes(), b"a/b".to_vec());
}

#[test]
fn parse_path_accepts_prefix_form() {
    let (start, rest) = uberallfs::store::parse_path(b"abcd//x").expect("prefix form");
    match start {
        PathStart::Prefix(p) => assert_eq!(p, b"abcd".to_vec()),
        PathStart::Root => panic!("expected prefix form"),
    }
    assert_eq!(rest.as_bytes(), b"x".to_vec());

    let (_, rest) = uberallfs::store::parse_path(b"abcd//").expect("prefix form");
    assert!(rest.is_empty());
}

#[test]
fn parse_path_rejects_other_shapes() {
    assert!(uberallfs::store::parse_path(b"").is_err());
    assert!(uberallfs::store::parse_path(b"hasnoslash").is_err());
    assert!(uberallfs::store::parse_path(b"ab//x").is_err());
    assert!(uberallfs::store::parse_path(b"abcd/x").is_err());
}

#[test]
fn object_path_uses_leading_shard() {
    let id = dir_id(0);
    let path = id.to_pathbuf();
    let text = id.id_base64().0.clone();
    let comps = path.components().clone();
    assert_eq!(comps.len(), 2);
    assert_eq!(comps[0], text[0..2].to_vec());
    assert_eq!(comps[1], text);
}

#[test]
fn link_target_round_trip() {
    let child = dir_id(5);
    let target = link_target(&child);
    let mut expected = reserved_prefix();
    expected.extend_from_slice(child.id_base64().0.as_slice());
    assert_eq!(target, expected);
    let parsed = parse_link_target(target.as_slice()).expect("parses back");
    assert_eq!(parsed, child);
}

#[test]
fn link_target_rejects_foreign_bytes() {
    assert!(parse_link_target(b"not-a-link").is_err());
    assert!(parse_link_target(b".uberallfs.short").is_err());
}

#[test]
fn root_pointer_round_trip() {
    let root = dir_id(9);
    let target = set_root_request(&root).expect("directory");
    let parsed = parse_root_link(target.as_slice()).expect("parses back");
    assert_eq!(parsed, root);
}

#[test]
fn root_pointer_rejects_garbage() {
    assert!(matches!(
        parse_root_link(b"aa/garbage"),
        Err(ObjectStoreError::ObjectStoreFatal(_))
    ));
}

#[test]
fn set_root_requires_a_directory() {
    let kind = IdentifierKind::create(
        ObjectType::File,
        SharingPolicy::Private,
        Mutability::Mutable,
    );
    let file = Identifier::from_binary(kind, IdentifierBin(vec![1u8; 32]));
    assert!(matches!(
        set_root_request(&file),
        Err(ObjectStoreError::ObjectType { .. })
    ));
}

#[test]
fn version_line_checks() {
    assert_eq!(check_version(b"0\n").expect("current version"), 0);
    assert!(matches!(
        check_version(b"1\n"),
        Err(ObjectStoreError::UnsupportedObjectStore(1))
    ));
    assert_eq!(check_version(b"00\n").expect("still zero"), 0);
    assert!(matches!(
        check_version(b"x\n"),
        Err(ObjectStoreError::ObjectStoreFatal(_))
    ));
    assert!(check_version(b"0").is_err());
    assert!(matches!(
        check_version(b"4294967295\n"),
        Err(ObjectStoreError::UnsupportedObjectStore(4294967295))
    ));
    assert!(matches!(
        check_version(b"99999999999\n"),
        Err(ObjectStoreError::UnsupportedObjectStore(_))
    ));
}

#[test]
fn version_file_holds_zero_line() {
    assert_eq!(uberallfs::store::version_file_content(), b"0\n".to_vec());
}

#[test]
fn shard_names_cover_the_alphabet_squared() {
    let names = shard_names();
    assert_eq!(names.len(), 4096);
    assert_eq!(names[0], b"AA".to_vec());
    assert_eq!(names[27], b"Ab".to_vec());
    assert_eq!(names[4095], b"__".to_vec());
    assert!(names.iter().all(|n| n.len() == 2));
}
