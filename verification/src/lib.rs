//! Core of a content-addressed object store backing a distributed filesystem.
//!
//! Objects are named by 256-bit identifiers carrying a kind byte; the textual
//! form is a 44-character url-safe base64 string written in reverse byte order
//! ("flipbase64").  This crate holds the verified logic: identifier encoding,
//! kind packing, store path construction, path normalization and traversal,
//! garbage-collection planning, the permission gate, and the bridge-side
//! inode and handle tables.  Disk access itself is left to the surrounding
//! application, which executes the requests this library computes.

use vstd::prelude::*;

pub mod b64;
pub mod daemon;
pub mod errors;
pub mod gc;
pub mod handledb;
pub mod identifier;
pub mod identifier_kind;
pub mod inodedb;
pub mod lock;
pub mod mkdir;
pub mod object;
pub mod objectpath;
pub mod opath;
pub mod permissions;
pub mod rev_cursor;
pub mod store;

pub use errors::ObjectStoreError;
pub use handledb::HandleDb;
pub use identifier::{Flipbase64, Identifier, IdentifierBin};
pub use identifier_kind::{IdentifierKind, Mutability, ObjectType, SharingPolicy};
pub use inodedb::InodeDb;
pub use lock::LockingMethod;
pub use object::{DeleteMethod, Object};
pub use opath::OPath;
pub use permissions::{PermissionCheck, PermissionController};
pub use store::{
    DirectoryPermissions, FileAccess, FileAttributes, FilePermissions, Meta, SubObject,
};

verus! {

/// Numeric user id as authenticated by the permission layer.
pub type UserId = u32;

/// On-disk format version of the object store.
pub const VERSION: u32 = 0;

/// Length in bytes of the binary identifier payload.
pub const BINARY_ID_LEN: usize = 32;

/// Length in bytes of the kind prefix of the binary identifier.
pub const KIND_ID_LEN: usize = 1;

/// Length in characters of the textual (flipbase64) identifier.
pub const FLIPBASE64_LEN: usize = 44;

/// A fresh vector holding the same bytes as `data`.
pub fn copy_bytes(data: &[u8]) -> (r: Vec<u8>)
    ensures
        r@ == data@,
{
    let n = data.len();
    let mut out: Vec<u8> = Vec::new();
    let mut i: usize = 0;
    while i < n
        invariant
            n == data@.len(),
            i <= n,
            out@ =~= data@.subrange(0, i as int),
        decreases n - i,
    {
        out.push(data[i]);
        i = i + 1;
    }
    proof {
        assert(out@ =~= data@);
    }
    out
}

/// Whether two byte strings hold the same bytes.
pub fn bytes_eq(a: &[u8], b: &[u8]) -> (r: bool)
    ensures
        r <==> a@ == b@,
{
    let n = a.len();
    if n != b.len() {
        proof {
            assert(a@.len() != b@.len());
        }
        return false;
    }
    let mut i: usize = 0;
    while i < n
        invariant
            n == a@.len(),
            n == b@.len(),
            i <= n,
            forall|j: int| 0 <= j < i ==> a@[j] == b@[j],
        decreases n - i,
    {
        if a[i] != b[i] {
            return false;
        }
        i = i + 1;
    }
    proof {
        assert(a@ =~= b@);
    }
    true
}

} // verus!
