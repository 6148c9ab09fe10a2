//! The inode table: kernel inode numbers mapped to identifiers.
//!
//! Populated lazily as objects become visible to the kernel; inode 1 is
//! conventionally the root.  The table lives for the lifetime of the
//! mount and only ever grows or replaces entries.

use vstd::prelude::*;

use crate::identifier::Identifier;

verus! {

broadcast use vstd::std_specs::hash::group_hash_axioms;

/// Relates local inode numbers to object identifiers.
pub struct InodeDb {
    inode_to_identifier: std::collections::HashMap<u64, Identifier>,
}

impl InodeDb {
    /// The mapping held.
    pub closed spec fn map_spec(&self) -> Map<u64, Identifier> {
        self.inode_to_identifier@
    }

    /// An empty table.
    pub fn new() -> (r: InodeDb)
        ensures
            r.map_spec() == Map::<u64, Identifier>::empty(),
    {
        InodeDb { inode_to_identifier: std::collections::HashMap::new() }
    }

    /// Registers an identifier under an inode number, replacing whatever
    /// the number named before.
    pub fn store(&mut self, inode: u64, identifier: Identifier)
        ensures
            final(self).map_spec() == old(self).map_spec().insert(inode, identifier),
    {
        self.inode_to_identifier.insert(inode, identifier);
    }

    /// The identifier an inode number names, as a fresh copy.
    pub fn get(&self, inode: u64) -> (r: Option<Identifier>)
        ensures
            r is Some <==> self.map_spec().contains_key(inode),
            r matches Some(id) ==> id.text_spec() == self.map_spec()[inode].text_spec()
                && id.kind_spec() == self.map_spec()[inode].kind_spec() && id.wf()
                == self.map_spec()[inode].wf(),
    {
        match self.inode_to_identifier.get(&inode) {
            Some(id) => Some(id.clone()),
            None => None,
        }
    }
}

} // verus!
