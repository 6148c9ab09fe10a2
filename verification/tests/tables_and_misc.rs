use uberallfs::daemon::{error_to_exitcode, CallbackMessage, EEXIST, EXIT_FAILURE};
use uberallfs::handledb::{HandleDb, EBADF};
use uberallfs::identifier_kind::{IdentifierKind, Mutability, ObjectType, SharingPolicy};
use uberallfs::inodedb::InodeDb;
use uberallfs::lock::{lock_try_decision, lock_wait_decision, LockStep, EINTR, EWOULDBLOCK};
use uberallfs::store::{directory_entry, identifier_lookup_scan, init_precheck, InitAction, O_CLOEXEC};
use uberallfs::{
    DirectoryPermissions, FileAccess, FileAttributes, FilePermissions, Identifier, IdentifierBin,
    LockingMethod, ObjectStoreError,
};

fn dir_id(seed: u8) -> Identifier {
    let kind = IdentifierKind::create(
        ObjectType::Directory,
        SharingPolicy::Private,
        Mutability::Mutable,
    );
    Identifier::from_binary(kind, IdentifierBin(vec![seed; 32]))
}

#[test]
fn handles_are_stored_fetched_and_reused() {
    let mut db: HandleDb<u32> = HandleDb::with_capacity(8);
    let a = db.store(10);
    let b = db.store(20);
    assert_eq!(a, 1);
    assert_eq!(b, 2);
    assert_eq!(db.get(a), Some(&10));
    assert_eq!(db.get(b), Some(&20));
    assert_eq!(db.get(0), None);
    assert_eq!(db.get(99), None);

    assert!(db.drop_handle(a).is_ok());
    assert_eq!(db.get(a), None);
    assert_eq!(db.drop_handle(a), Err(EBADF));

    // The freed slot is reused before the table grows.
    let c = db.store(30);
    assert_eq!(c, a);
    assert_eq!(db.get(c), Some(&30));
    assert_eq!(db.get(b), Some(&20));
}

#[test]
fn freed_handles_chain_in_last_freed_first_reused_order() {
    let mut db: HandleDb<u32> = HandleDb::with_capacity(8);
    let a = db.store(1);
    let b = db.store(2);
    let c = db.store(3);
    assert!(db.drop_handle(a).is_ok());
    assert!(db.drop_handle(c).is_ok());
    assert_eq!(db.store(4), c);
    assert_eq!(db.store(5), a);
    assert_eq!(db.store(6), 4);
    assert_eq!(db.get(b), Some(&2));
}

#[test]
fn inodes_map_to_identifiers() {
    let mut db = InodeDb::new();
    let root = dir_id(1);
    db.store(1, root.clone());
    assert_eq!(db.get(1), Some(root.clone()));
    assert_eq!(db.get(2), None);
    let other = dir_id(2);
    db.store(1, other.clone());
    assert_eq!(db.get(1), Some(other));
}

#[test]
fn lock_decisions_follow_the_method() {
    assert!(matches!(
        lock_try_decision(0, &LockingMethod::TryLock),
        LockStep::Locked
    ));
    assert!(matches!(
        lock_try_decision(EINTR, &LockingMethod::TryLock),
        LockStep::Retry
    ));
    assert!(matches!(
        lock_try_decision(EWOULDBLOCK, &LockingMethod::WaitForLock),
        LockStep::WaitBlocking
    ));
    assert!(matches!(
        lock_try_decision(EWOULDBLOCK, &LockingMethod::TryLock),
        LockStep::Fail(ObjectStoreError::NoLock)
    ));
    assert!(matches!(
        lock_try_decision(13, &LockingMethod::TryLock),
        LockStep::Fail(ObjectStoreError::IoError(13))
    ));
    assert!(matches!(lock_wait_decision(0), LockStep::Locked));
    assert!(matches!(lock_wait_decision(EINTR), LockStep::Retry));
    assert!(matches!(
        lock_wait_decision(5),
        LockStep::Fail(ObjectStoreError::IoError(5))
    ));
}

#[test]
fn exit_codes_preserve_posix_errors() {
    assert_eq!(error_to_exitcode(&ObjectStoreError::IoError(13)), 13);
    assert_eq!(
        error_to_exitcode(&ObjectStoreError::ObjectExists(b"x".to_vec())),
        EEXIST
    );
    assert_eq!(error_to_exitcode(&ObjectStoreError::NoParent), EXIT_FAILURE);
}

#[test]
fn callback_messages_carry_the_outcome() {
    let ok = CallbackMessage::success();
    assert!(!ok.is_error);
    assert_eq!(ok.os_error, None);

    let faulty = CallbackMessage::faulty();
    assert!(faulty.is_error);
    assert_eq!(faulty.os_error, None);
    assert_eq!(faulty.message, "No reply from child");

    let io = CallbackMessage::from_io_error(Some(2), String::from("gone"));
    assert!(io.is_error);
    assert_eq!(io.os_error, Some(2));
}

#[test]
fn access_and_permission_bits() {
    assert_eq!(FileAccess::new().readonly().get(), O_CLOEXEC);
    assert_eq!(FileAccess::new().readwrite().get_no_cloexec(), 2);
    assert_eq!(FileAccess::new().append().get_no_cloexec(), 1024);
    assert_eq!(FileAccess::new().extra_flags(64).get_no_cloexec(), 64);
    assert_eq!(FilePermissions::new().read().write().get(), 0o660);
    assert_eq!(FilePermissions::new().full().get(), 0o660);
    assert_eq!(FileAttributes::new().execute().get(), 0o110);
    assert_eq!(DirectoryPermissions::new().full().get(), 0o770);
    assert_eq!(
        DirectoryPermissions::new().list().read().change().get(),
        0o770
    );
}

#[test]
fn init_precheck_guards_reinitialization() {
    // A fresh directory is created.
    assert!(matches!(
        init_precheck(false, false, false, false, false, b"ubatest"),
        Ok(InitAction::CreateBaseDir)
    ));
    // An existing store is refused without force and accepted with it.
    assert!(matches!(
        init_precheck(true, true, true, false, false, b"ubatest"),
        Err(ObjectStoreError::ObjectStoreExists(_))
    ));
    assert!(matches!(
        init_precheck(true, true, true, false, true, b"ubatest"),
        Ok(InitAction::UseExisting)
    ));
    // A non-empty foreign directory and a non-directory are refused.
    assert!(matches!(
        init_precheck(true, true, false, false, false, b"ubatest"),
        Err(ObjectStoreError::ObjectStoreForeignExists(_))
    ));
    assert!(matches!(
        init_precheck(true, false, false, false, true, b"ubatest"),
        Err(ObjectStoreError::ObjectStoreNoDir(_))
    ));
    // An empty directory is usable as it stands.
    assert!(matches!(
        init_precheck(true, true, false, true, false, b"ubatest"),
        Ok(InitAction::UseExisting)
    ));
}

#[test]
fn directory_entries_need_the_reserved_prefix() {
    let child = dir_id(3);
    let target = uberallfs::objectpath::link_target(&child);
    let entry = directory_entry(&b"name".to_vec(), target.as_slice()).expect("child link");
    assert_eq!(entry.0, b"name".to_vec());
    assert_eq!(entry.1, child);
    assert!(directory_entry(&b"name".to_vec(), b"/somewhere/else").is_none());
}

#[test]
fn prefix_lookup_resolves_unique_abbreviations() {
    let id = dir_id(0);
    let text = id.id_base64().0.clone();
    let entries = vec![text.clone()];
    let abbrev = &text[0..4];
    let found = identifier_lookup_scan(abbrev, &entries).expect("unique");
    assert_eq!(found, id);
}

#[test]
fn prefix_lookup_reports_ambiguity() {
    let a = dir_id(0).id_base64().0.clone();
    // A second identifier sharing the first four characters.
    let mut payload = vec![0u8; 32];
    payload[0] = 1;
    let kind = IdentifierKind::create(
        ObjectType::Directory,
        SharingPolicy::Private,
        Mutability::Mutable,
    );
    let b = Identifier::from_binary(kind, IdentifierBin(payload))
        .id_base64()
        .0
        .clone();
    assert_eq!(&a[0..4], &b[0..4]);
    let entries = vec![a.clone(), b];
    match identifier_lookup_scan(&a[0..4], &entries) {
        Err(ObjectStoreError::IdentifierAmbiguous(p)) => assert_eq!(p, a[0..4].to_vec()),
        _ => panic!("expected ambiguity"),
    }
}

#[test]
fn prefix_lookup_rejects_bad_lengths_and_misses() {
    let entries: Vec<Vec<u8>> = Vec::new();
    assert!(matches!(
        identifier_lookup_scan(b"abc", &entries),
        Err(ObjectStoreError::InvalidIdentifier(_))
    ));
    assert!(matches!(
        identifier_lookup_scan(&[b'A'; 45], &entries),
        Err(ObjectStoreError::InvalidIdentifier(_))
    ));
    assert!(matches!(
        identifier_lookup_scan(b"AAAA", &entries),
        Err(ObjectStoreError::ObjectNotFound(_))
    ));
}
