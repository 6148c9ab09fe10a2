//! Error taxonomy of the object store.
//!
//! Names carried by errors (identifiers, file names, store paths) are kept
//! as raw bytes, the form in which the store handles them.  Host I/O errors
//! pass through as their POSIX error code.

use vstd::prelude::*;

use crate::identifier_kind::{Mutability, ObjectType, SharingPolicy};

verus! {

/// Everything that can go wrong inside the object store core.
#[derive(Debug)]
pub enum ObjectStoreError {
    /// The store on disk uses an on-disk format this build does not know.
    UnsupportedObjectStore(u32),
    /// A store invariant does not hold; the message names it.
    ObjectStoreFatal(Vec<u8>),
    /// An argument given by a caller was malformed.
    OptArgError(Vec<u8>),
    /// The given text is not a well-formed identifier.
    InvalidIdentifier(Vec<u8>),
    /// More than one stored identifier starts with the given prefix.
    IdentifierAmbiguous(Vec<u8>),
    /// The kind triple names a reserved or unknown realization.
    UnsupportedObjectType((ObjectType, SharingPolicy, Mutability)),
    /// The target directory already holds an object store.
    ObjectStoreExists(Vec<u8>),
    /// The target directory holds something that is not an object store.
    ObjectStoreForeignExists(Vec<u8>),
    /// The target path is not a directory.
    ObjectStoreNoDir(Vec<u8>),
    /// An object had the wrong type for the requested operation.
    ObjectType { have: ObjectType, want: ObjectType },
    /// A path tried to ascend above the effective root.
    NoParent,
    /// The store lock could not be acquired without waiting.
    NoLock,
    /// The object exists already.
    ObjectExists(Vec<u8>),
    /// No object with the given name or prefix exists.
    ObjectNotFound(Vec<u8>),
    /// A user-chosen name starts with the reserved prefix.
    IllegalFileName(Vec<u8>),
    /// A host I/O failure, carried as its POSIX error code.
    IoError(i32),
}

} // verus!
