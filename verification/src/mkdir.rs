//! Planning a `mkdir` against the store.
//!
//! After path lookup has resolved the deepest existing directory, the
//! remaining components decide what happens: nothing may remain (the
//! object exists), the last component alone is created, or — with the
//! parents option — a chain of directories, each linked into the one
//! before it.

use vstd::prelude::*;

use crate::copy_bytes;
use crate::errors::ObjectStoreError;
use crate::opath::{comps_view, OPath};

verus! {

/// The directories a `mkdir` must create: every intermediate component in
/// order, each linked into its predecessor, then the final one.
pub struct MkdirPlan {
    /// Components in front of the last one; empty unless parents are
    /// requested.
    pub intermediate: Vec<Vec<u8>>,
    /// The name the final directory is linked under.
    pub last: Vec<u8>,
}

/// Decides what a `mkdir` with the given unresolved remainder creates.
/// An empty remainder means the object already exists; more than one
/// component without the parents option names a missing parent.
pub fn mkdir_plan(remaining: &OPath, parents: bool, path_name: &[u8]) -> (r: Result<
    MkdirPlan,
    ObjectStoreError,
>)
    ensures
        r is Ok <==> remaining.components_spec().len() == 1 || (remaining.components_spec().len()
            > 1 && parents),
        r matches Ok(plan) ==> comps_view(plan.intermediate@) == remaining.components_spec(
        ).drop_last() && plan.last@ == remaining.components_spec().last(),
        r matches Err(e) ==> if remaining.components_spec().len() == 0 {
            e matches ObjectStoreError::ObjectExists(p) && p@ == path_name@
        } else {
            e matches ObjectStoreError::ObjectNotFound(n) && n@ == remaining.components_spec()[0]
        },
{
    let n = remaining.depth();
    if n == 0 {
        return Err(ObjectStoreError::ObjectExists(copy_bytes(path_name)));
    }
    let comps = remaining.iter();
    if n > 1 && !parents {
        return Err(ObjectStoreError::ObjectNotFound(copy_bytes(comps[0].as_slice())));
    }
    let mut intermediate: Vec<Vec<u8>> = Vec::new();
    let mut i: usize = 0;
    while i < n - 1
        invariant
            n == comps@.len(),
            n >= 1,
            comps_view(comps@) == remaining.components_spec(),
            i <= n - 1,
            comps_view(intermediate@) =~= remaining.components_spec().subrange(0, i as int),
        decreases n - 1 - i,
    {
        let ghost before = comps_view(intermediate@);
        intermediate.push(copy_bytes(comps[i].as_slice()));
        proof {
            assert(comps_view(intermediate@) =~= before.push(comps@[i as int]@));
        }
        i = i + 1;
    }
    let last = copy_bytes(comps[n - 1].as_slice());
    proof {
        assert(comps_view(intermediate@) =~= remaining.components_spec().drop_last());
        assert(last@ == remaining.components_spec().last());
    }
    Ok(MkdirPlan { intermediate, last })
}

} // verus!
