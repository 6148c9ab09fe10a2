use uberallfs::identifier_kind::{IdentifierKind, Mutability, ObjectType, SharingPolicy};
use uberallfs::mkdir::mkdir_plan;
use uberallfs::object::ObjectImpl;
use uberallfs::store::{create_link_request, sub_object_request, Traversal};
use uberallfs::{
    DeleteMethod, Identifier, IdentifierBin, OPath, Object, ObjectStoreError, SubObject,
};

fn make_id(t: ObjectType, s: SharingPolicy, m: Mutability, seed: u8) -> Identifier {
    let kind = IdentifierKind::create(t, s, m);
    Identifier::from_binary(kind, IdentifierBin(vec![seed; 32]))
}

fn dir_id(seed: u8) -> Identifier {
    make_id(
        ObjectType::Directory,
        SharingPolicy::Private,
        Mutability::Mutable,
        seed,
    )
}

#[test]
fn traversal_of_empty_path_is_the_root() {
    let root = dir_id(1);
    let walk = Traversal::start(root.clone(), &OPath::new());
    assert!(walk.next_lookup().is_none());
    let (deepest, rest) = walk.finish();
    assert_eq!(deepest, root);
    assert!(rest.is_empty());
}

#[test]
fn traversal_stops_at_the_first_missing_component() {
    let root = dir_id(1);
    let path = OPath::prefix(b"nonexistent");
    let mut walk = Traversal::start(root.clone(), &path);
    {
        let (at, name) = walk.next_lookup().expect("one component pending");
        assert_eq!(*at, root);
        assert_eq!(name, &b"nonexistent".to_vec());
    }
    walk.not_found();
    assert!(walk.next_lookup().is_none());
    let (deepest, rest) = walk.finish();
    assert_eq!(deepest, root);
    assert_eq!(rest.as_bytes(), b"nonexistent".to_vec());
}

#[test]
fn traversal_descends_through_found_children() {
    let root = dir_id(1);
    let a = dir_id(2);
    let c = dir_id(3);
    let path = OPath::prefix(b"a/b/c");
    let mut walk = Traversal::start(root.clone(), &path);
    {
        let (at, name) = walk.next_lookup().expect("pending");
        assert_eq!(*at, root);
        assert_eq!(name, &b"a".to_vec());
    }
    walk.found(a.clone());
    {
        let (at, name) = walk.next_lookup().expect("pending");
        assert_eq!(*at, a);
        assert_eq!(name, &b"b".to_vec());
    }
    walk.found(c.clone());
    walk.not_found();
    let (deepest, rest) = walk.finish();
    assert_eq!(deepest, c);
    assert_eq!(rest.as_bytes(), b"c".to_vec());
}

#[test]
fn lookup_normalizes_before_walking() {
    let root = dir_id(1);
    let a = dir_id(2);
    let c = dir_id(3);
    let (start, rest) = uberallfs::store::parse_path(b"/a/./b/../c").expect("root form");
    assert!(matches!(start, uberallfs::store::PathStart::Root));
    let rest = rest.normalize().expect("normalizes");
    assert_eq!(rest.as_bytes(), b"a/c".to_vec());
    let mut walk = Traversal::start(root, &rest);
    walk.found(a);
    walk.found(c.clone());
    let (deepest, remaining) = walk.finish();
    assert_eq!(deepest, c);
    assert!(remaining.is_empty());

    let (_, rest) = uberallfs::store::parse_path(b"/..").expect("root form");
    assert!(matches!(
        rest.normalize(),
        Err(ObjectStoreError::NoParent)
    ));
}

#[test]
fn mkdir_of_existing_object_is_refused() {
    let plan = mkdir_plan(&OPath::new(), false, b"/");
    assert!(matches!(plan, Err(ObjectStoreError::ObjectExists(_))));
}

#[test]
fn mkdir_of_single_component() {
    let remaining = OPath::prefix(b"testdir");
    let plan = mkdir_plan(&remaining, false, b"/testdir").expect("single component");
    assert!(plan.intermediate.is_empty());
    assert_eq!(plan.last, b"testdir".to_vec());
}

#[test]
fn mkdir_without_parents_needs_them() {
    let remaining = OPath::prefix(b"test/dir/inner");
    match mkdir_plan(&remaining, false, b"/test/dir/inner") {
        Err(ObjectStoreError::ObjectNotFound(name)) => assert_eq!(name, b"test".to_vec()),
        _ => panic!("expected the missing parent to be named"),
    }
}

#[test]
fn mkdir_with_parents_chains_directories() {
    let remaining = OPath::prefix(b"test/dir/inner");
    let plan = mkdir_plan(&remaining, true, b"/test/dir/inner").expect("parents requested");
    assert_eq!(plan.intermediate, vec![b"test".to_vec(), b"dir".to_vec()]);
    assert_eq!(plan.last, b"inner".to_vec());
}

#[test]
fn create_link_writes_a_parseable_target() {
    let parent = dir_id(1);
    let child = dir_id(2);
    let req = create_link_request(&child, &SubObject(parent.clone(), b"testdir".to_vec()))
        .expect("legal link");
    let comps = req.source.components().clone();
    assert_eq!(comps.len(), 3);
    assert_eq!(comps[2], b"testdir".to_vec());
    let parsed = uberallfs::objectpath::parse_link_target(req.target.as_slice())
        .expect("target parses");
    assert_eq!(parsed, child);
}

#[test]
fn create_link_rejects_reserved_names() {
    let parent = dir_id(1);
    let child = dir_id(2);
    let name = b".uberallfs.sneaky".to_vec();
    assert!(matches!(
        create_link_request(&child, &SubObject(parent, name)),
        Err(ObjectStoreError::IllegalFileName(_))
    ));
}

#[test]
fn create_link_rejects_file_parents() {
    let parent = make_id(
        ObjectType::File,
        SharingPolicy::Private,
        Mutability::Mutable,
        1,
    );
    let child = dir_id(2);
    assert!(matches!(
        create_link_request(&child, &SubObject(parent, b"x".to_vec())),
        Err(ObjectStoreError::ObjectType { .. })
    ));
}

#[test]
fn sub_object_request_names_the_entry() {
    let parent = dir_id(1);
    let path = sub_object_request(&SubObject(parent.clone(), b"x".to_vec())).expect("directory");
    let comps = path.components().clone();
    assert_eq!(comps[0], parent.id_base64().0[0..2].to_vec());
    assert_eq!(comps[1], parent.id_base64().0.clone());
    assert_eq!(comps[2], b"x".to_vec());
}

#[test]
fn realize_private_mutable_directory() {
    let object = Object::build(
        ObjectType::Directory,
        SharingPolicy::Private,
        Mutability::Mutable,
    )
    .acl(&None)
    .realize()
    .expect("private mutable realizes");
    assert_eq!(object.identifier().object_type(), ObjectType::Directory);
    assert_eq!(object.identifier().sharing_policy(), SharingPolicy::Private);
    assert!(matches!(object.delete_method(), DeleteMethod::Immediate));
}

#[test]
fn realized_identifiers_are_distinct() {
    let a = Object::build(
        ObjectType::Directory,
        SharingPolicy::Private,
        Mutability::Mutable,
    )
    .realize()
    .expect("realizes");
    let b = Object::build(
        ObjectType::Directory,
        SharingPolicy::Private,
        Mutability::Mutable,
    )
    .realize()
    .expect("realizes");
    assert_ne!(a.identifier(), b.identifier());
}

#[test]
fn realize_refuses_unsupported_kinds() {
    let builder = Object::build(
        ObjectType::File,
        SharingPolicy::Anonymous,
        Mutability::Mutable,
    );
    match builder.realize() {
        Err(ObjectStoreError::UnsupportedObjectType(t)) => {
            assert_eq!(t.0, ObjectType::File);
            assert_eq!(t.1, SharingPolicy::Anonymous);
        }
        _ => panic!("expected an unsupported kind"),
    }
}

#[test]
fn delete_methods_follow_the_kind() {
    let private = Object::from(dir_id(1));
    assert!(matches!(private.delete_method(), DeleteMethod::Immediate));

    let shared = Object::from(make_id(
        ObjectType::File,
        SharingPolicy::PublicAcl,
        Mutability::Immutable,
        2,
    ));
    assert!(matches!(shared.delete_method(), DeleteMethod::Expire));

    let odd = Object::from(make_id(
        ObjectType::File,
        SharingPolicy::Anonymous,
        Mutability::Mutable,
        3,
    ));
    assert!(matches!(odd.delete_method(), DeleteMethod::Unknown));
}

#[test]
fn delete_method_labels() {
    assert_eq!(DeleteMethod::Immediate.label(), "delete immediate");
    assert_eq!(DeleteMethod::Expire.label(), "delayed expire");
    assert_eq!(DeleteMethod::Unknown.label(), "keep unknown");
}

#[test]
fn object_impl_selection() {
    let kind = IdentifierKind::create(
        ObjectType::File,
        SharingPolicy::PublicAcl,
        Mutability::Immutable,
    );
    assert!(matches!(
        ObjectImpl::new(kind),
        ObjectImpl::PublicImmutableFile
    ));
}
