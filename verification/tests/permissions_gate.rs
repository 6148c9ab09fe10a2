use uberallfs::identifier_kind::{IdentifierKind, Mutability, ObjectType, SharingPolicy};
use uberallfs::permissions::{AccessError, KeyExpirePolicy, PermissionController};
use uberallfs::{Identifier, IdentifierBin};

fn make_id(t: ObjectType, s: SharingPolicy, m: Mutability) -> Identifier {
    Identifier::from_binary(IdentifierKind::create(t, s, m), IdentifierBin(vec![1u8; 32]))
}

#[test]
fn private_files_read_and_write() {
    let ctl = PermissionController::new();
    let id = make_id(
        ObjectType::File,
        SharingPolicy::Private,
        Mutability::Mutable,
    );
    let check = ctl.permission_check(&id, Some(0));
    assert!(check.read().is_ok());
    assert!(check.write().is_ok());
    assert!(check.append().is_ok());
}

#[test]
fn anonymous_files_read_but_never_write() {
    let ctl = PermissionController::new();
    let id = make_id(
        ObjectType::File,
        SharingPolicy::Anonymous,
        Mutability::Mutable,
    );
    let check = ctl.permission_check(&id, Some(0));
    assert!(check.read().is_ok());
    assert_eq!(check.write(), Err(AccessError::PermissionDenied));
    assert_eq!(check.append(), Err(AccessError::PermissionDenied));
}

#[test]
fn immutable_files_refuse_writes() {
    let ctl = PermissionController::new();
    let id = make_id(
        ObjectType::File,
        SharingPolicy::Private,
        Mutability::Immutable,
    );
    let check = ctl.permission_check(&id, Some(0));
    assert!(check.read().is_ok());
    assert_eq!(check.write(), Err(AccessError::PermissionDenied));
}

#[test]
fn directories_list_but_do_not_read() {
    let ctl = PermissionController::new();
    let id = make_id(
        ObjectType::Directory,
        SharingPolicy::Private,
        Mutability::Mutable,
    );
    let check = ctl.permission_check(&id, Some(0));
    assert_eq!(check.read(), Err(AccessError::InvalidInput));
    assert!(check.list().is_ok());
    assert!(check.add().is_ok());
    assert!(check.rename().is_ok());
    assert!(check.delete().is_ok());
}

#[test]
fn anonymous_directories_list_but_never_change() {
    let ctl = PermissionController::new();
    let id = make_id(
        ObjectType::Directory,
        SharingPolicy::Anonymous,
        Mutability::Mutable,
    );
    let check = ctl.permission_check(&id, Some(0));
    assert!(check.list().is_ok());
    assert_eq!(check.add(), Err(AccessError::PermissionDenied));
    assert_eq!(check.rename(), Err(AccessError::PermissionDenied));
    assert_eq!(check.delete(), Err(AccessError::PermissionDenied));
}

#[test]
fn files_are_not_listed() {
    let ctl = PermissionController::new();
    let id = make_id(
        ObjectType::File,
        SharingPolicy::Private,
        Mutability::Mutable,
    );
    let check = ctl.permission_check(&id, Some(0));
    assert_eq!(check.list(), Err(AccessError::InvalidInput));
    assert_eq!(check.add(), Err(AccessError::InvalidInput));
}

#[test]
fn authenticated_keys_are_found() {
    let mut ctl = PermissionController::new();
    ctl.authenticate(7, KeyExpirePolicy::Never, 100);
    assert_eq!(ctl.lookup(7), Some(KeyExpirePolicy::Never));
    assert_eq!(ctl.lookup(8), None);
}

#[test]
fn expired_keys_leave_at_the_sweep() {
    let mut ctl = PermissionController::new();
    // The first sweep runs on the 63rd insertion; everything below is
    // already expired by then.
    ctl.authenticate(1000, KeyExpirePolicy::Exact { at: 5 }, 10);
    for i in 0..61 {
        ctl.authenticate(
            2000 + i,
            KeyExpirePolicy::Idle { at: 5, idle_time: 1 },
            10,
        );
    }
    assert_eq!(
        ctl.lookup(1000),
        Some(KeyExpirePolicy::Exact { at: 5 })
    );
    ctl.authenticate(3000, KeyExpirePolicy::Never, 10);
    assert_eq!(ctl.lookup(3000), Some(KeyExpirePolicy::Never));
    assert_eq!(ctl.lookup(1000), None);
    assert_eq!(ctl.lookup(2000), None);
}

#[test]
fn keys_that_never_expire_survive_the_sweep() {
    let mut ctl = PermissionController::new();
    ctl.authenticate(42, KeyExpirePolicy::Never, 10);
    for i in 0..62 {
        ctl.authenticate(5000 + i, KeyExpirePolicy::Exact { at: 1 }, 10);
    }
    assert_eq!(ctl.lookup(42), Some(KeyExpirePolicy::Never));
}
