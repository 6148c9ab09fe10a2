use uberallfs::gc::{delete_plan, DeleteAction, GcScan};
use uberallfs::identifier_kind::{IdentifierKind, Mutability, ObjectType, SharingPolicy};
use uberallfs::{Identifier, IdentifierBin, Object, ObjectStoreError};

fn make_id(t: ObjectType, seed: u8) -> Identifier {
    let kind = IdentifierKind::create(t, SharingPolicy::Private, Mutability::Mutable);
    Identifier::from_binary(kind, IdentifierBin(vec![seed; 32]))
}

#[test]
fn scan_walks_directories_breadth_first() {
    let root = make_id(ObjectType::Directory, 1);
    let subdir = make_id(ObjectType::Directory, 2);
    let file = make_id(ObjectType::File, 3);
    let unreferenced = make_id(ObjectType::Directory, 4);

    let mut scan = GcScan::new();
    scan.seed(root.clone());

    let visit = scan.next_directory().expect("root to visit");
    assert_eq!(visit, root);
    scan.note_children(&vec![subdir.clone()]).expect("children noted");

    let visit = scan.next_directory().expect("subdir queued");
    assert_eq!(visit, subdir);
    scan.note_children(&vec![file.clone()]).expect("children noted");

    assert!(scan.next_directory().is_none());

    assert!(scan.is_reachable(&root.id_bin()));
    assert!(scan.is_reachable(&subdir.id_bin()));
    assert!(scan.is_reachable(&file.id_bin()));
    assert!(!scan.is_reachable(&unreferenced.id_bin()));

    let all = vec![
        root.clone(),
        subdir.clone(),
        file.clone(),
        unreferenced.clone(),
    ];
    let dead = scan.unreachable_filter(&all);
    assert_eq!(dead.len(), 1);
    assert_eq!(dead[0], unreferenced);
}

#[test]
fn scan_skips_directories_already_visited() {
    let root = make_id(ObjectType::Directory, 1);
    let mut scan = GcScan::new();
    scan.seed(root.clone());
    scan.seed(root.clone());
    assert_eq!(scan.next_directory().expect("first visit"), root);
    assert!(scan.next_directory().is_none());
}

#[test]
fn scan_refuses_reserved_child_kinds() {
    let root = make_id(ObjectType::Directory, 1);
    let odd_kind = IdentifierKind::create(
        ObjectType::_PartialFile,
        SharingPolicy::Private,
        Mutability::Mutable,
    );
    let odd = Identifier::from_binary(odd_kind, IdentifierBin(vec![8u8; 32]));

    let mut scan = GcScan::new();
    scan.seed(root.clone());
    let _ = scan.next_directory().expect("root");
    assert!(matches!(
        scan.note_children(&vec![odd]),
        Err(ObjectStoreError::UnsupportedObjectType(_))
    ));
}

#[test]
fn delete_plans_follow_the_delete_method() {
    let private = Object::from(make_id(ObjectType::Directory, 1));
    match delete_plan(&private).expect("immediate") {
        DeleteAction::RemoveRecursive(path) => {
            let comps = path.components().clone();
            assert_eq!(comps[1], private.identifier().id_base64().0.clone());
        }
        DeleteAction::Tombstone(_) => panic!("private mutable deletes immediately"),
    }

    let shared_kind = IdentifierKind::create(
        ObjectType::File,
        SharingPolicy::PublicAcl,
        Mutability::Immutable,
    );
    let shared = Object::from(Identifier::from_binary(shared_kind, IdentifierBin(vec![2u8; 32])));
    assert!(matches!(
        delete_plan(&shared).expect("expires"),
        DeleteAction::Tombstone(_)
    ));

    let odd_kind = IdentifierKind::create(
        ObjectType::File,
        SharingPolicy::Anonymous,
        Mutability::Mutable,
    );
    let odd = Object::from(Identifier::from_binary(odd_kind, IdentifierBin(vec![3u8; 32])));
    assert!(matches!(
        delete_plan(&odd),
        Err(ObjectStoreError::UnsupportedObjectType(_))
    ));
}

#[test]
fn dry_run_keeps_everything() {
    // A dry garbage collection only reports: the scan itself never
    // removes anything, so every stored object is still offered to the
    // caller afterwards.
    let root = make_id(ObjectType::Directory, 1);
    let stray = make_id(ObjectType::Directory, 2);
    let mut scan = GcScan::new();
    scan.seed(root.clone());
    let _ = scan.next_directory();
    scan.note_children(&vec![]).expect("no children");
    let all = vec![root.clone(), stray.clone()];
    let dead = scan.unreachable_filter(&all);
    assert_eq!(dead, vec![stray]);
    assert_eq!(all.len(), 2);
}
