//! The permission gate.
//!
//! Every filesystem-facing operation is decided by a dense table keyed on
//! the identifier's kind triple.  Shared (`PublicAcl`) objects are a
//! capability hook: deciding them needs the authenticated-key table,
//! whose evaluation is outside this core, so callers of the decision table keep
//! those kinds away from it.  The key table itself, with its lazy
//! insertion-driven expiry sweep, is verified here.

use vstd::prelude::*;

use crate::identifier::Identifier;
use crate::identifier_kind::{Mutability, ObjectType, SharingPolicy};
use crate::UserId;

verus! {

/// When an authenticated key expires.
#[derive(Debug, Clone, Copy, PartialEq, Eq, Structural)]
pub enum KeyExpirePolicy {
    /// Kept forever.
    Never,
    /// Expires at the given instant.
    Exact { at: u64 },
    /// Expires when unused past the given instant.
    Idle { at: u64, idle_time: u64 },
}

/// Whether a key with this policy is expired at instant `now`.
pub open spec fn expired(policy: KeyExpirePolicy, now: u64) -> bool {
    match policy {
        KeyExpirePolicy::Never => false,
        KeyExpirePolicy::Exact { at } => at <= now,
        KeyExpirePolicy::Idle { at, idle_time } => at <= now,
    }
}

/// The policy stored for a user, scanning from the front.
pub open spec fn lookup_spec(keys: Seq<(UserId, KeyExpirePolicy)>, uid: UserId) -> Option<
    KeyExpirePolicy,
>
    decreases keys.len(),
{
    if keys.len() == 0 {
        None
    } else if keys[0].0 == uid {
        Some(keys[0].1)
    } else {
        lookup_spec(keys.subrange(1, keys.len() as int), uid)
    }
}

/// What one cell of the decision table says.
#[derive(Debug, Clone, Copy, PartialEq, Eq, Structural)]
pub enum Gate {
    /// The operation proceeds.
    Allow,
    /// The operation is refused: permission denied.
    Deny,
    /// The kind does not support the operation: invalid input.
    Invalid,
    /// Deciding needs the authenticated-key table.
    AclCheck,
}

/// Why the decision table refused an operation.
#[derive(Debug, Clone, Copy, PartialEq, Eq, Structural)]
pub enum AccessError {
    /// The kind does not support the operation.
    InvalidInput,
    /// The kind supports it but forbids it.
    PermissionDenied,
}

/// The read column: files may be read when private or anonymous; shared
/// files need the key table.
pub open spec fn gate_read(t: (ObjectType, SharingPolicy, Mutability)) -> Gate {
    if t.0 != ObjectType::File {
        Gate::Invalid
    } else if t.1 == SharingPolicy::Private || t.1 == SharingPolicy::Anonymous {
        Gate::Allow
    } else if t.1 == SharingPolicy::PublicAcl {
        Gate::AclCheck
    } else {
        Gate::Invalid
    }
}

/// The write and append column: immutable files refuse, private files
/// allow, anonymous files refuse, shared files need the key table.
pub open spec fn gate_write(t: (ObjectType, SharingPolicy, Mutability)) -> Gate {
    if t.0 != ObjectType::File {
        Gate::Invalid
    } else if t.2 == Mutability::Immutable {
        Gate::Deny
    } else if t.1 == SharingPolicy::Private {
        Gate::Allow
    } else if t.1 == SharingPolicy::Anonymous {
        Gate::Deny
    } else if t.1 == SharingPolicy::PublicAcl {
        Gate::AclCheck
    } else {
        Gate::Invalid
    }
}

/// The list column: directories may be listed when private or anonymous;
/// shared directories need the key table.
pub open spec fn gate_list(t: (ObjectType, SharingPolicy, Mutability)) -> Gate {
    if t.0 != ObjectType::Directory {
        Gate::Invalid
    } else if t.1 == SharingPolicy::Private || t.1 == SharingPolicy::Anonymous {
        Gate::Allow
    } else if t.1 == SharingPolicy::PublicAcl {
        Gate::AclCheck
    } else {
        Gate::Invalid
    }
}

/// The change column (add, rename, delete): private directories allow,
/// anonymous refuse, shared need the key table.
pub open spec fn gate_change(t: (ObjectType, SharingPolicy, Mutability)) -> Gate {
    if t.0 != ObjectType::Directory {
        Gate::Invalid
    } else if t.1 == SharingPolicy::Private {
        Gate::Allow
    } else if t.1 == SharingPolicy::Anonymous {
        Gate::Deny
    } else if t.1 == SharingPolicy::PublicAcl {
        Gate::AclCheck
    } else {
        Gate::Invalid
    }
}

/// Stores authenticated keys and sweeps out expired ones as new keys
/// arrive.
pub struct PermissionController {
    authenticated: Vec<(UserId, KeyExpirePolicy)>,
    gc_countdown: usize,
}

impl PermissionController {
    /// The stored keys.
    pub closed spec fn keys_spec(&self) -> Seq<(UserId, KeyExpirePolicy)> {
        self.authenticated@
    }

    /// Insertions left until the next expiry sweep.
    pub closed spec fn countdown_spec(&self) -> int {
        self.gc_countdown as int
    }

    /// A sweep is always pending.
    pub open spec fn wf(&self) -> bool {
        self.countdown_spec() >= 1
    }

    /// A fresh controller with no authenticated keys.
    pub fn new() -> (r: Self)
        ensures
            r.wf(),
            r.keys_spec() == Seq::<(UserId, KeyExpirePolicy)>::empty(),
            r.countdown_spec() == 63,
    {
        let r = PermissionController { authenticated: Vec::new(), gc_countdown: 63 };
        proof {
            assert(r.keys_spec() =~= Seq::<(UserId, KeyExpirePolicy)>::empty());
        }
        r
    }

    /// The policy currently stored for a user.
    pub fn lookup(&self, uid: UserId) -> (r: Option<KeyExpirePolicy>)
        ensures
            r == lookup_spec(self.keys_spec(), uid),
    {
        let n = self.authenticated.len();
        proof {
            assert(self.keys_spec().subrange(0, n as int) =~= self.keys_spec());
        }
        let mut i: usize = 0;
        while i < n
            invariant
                n == self.keys_spec().len(),
                i <= n,
                lookup_spec(self.keys_spec().subrange(i as int, n as int), uid) == lookup_spec(
                    self.keys_spec(),
                    uid,
                ),
                forall|j: int| 0 <= j < i ==> (#[trigger] self.keys_spec()[j]).0 != uid,
            decreases n - i,
        {
            let ghost rest = self.keys_spec().subrange(i as int, n as int);
            proof {
                assert(rest[0] == self.keys_spec()[i as int]);
                assert(rest.subrange(1, rest.len() as int) =~= self.keys_spec().subrange(
                    i as int + 1,
                    n as int,
                ));
            }
            let entry = &self.authenticated[i];
            if entry.0 == uid {
                return Some(entry.1);
            }
            i = i + 1;
        }
        proof {
            assert(self.keys_spec().subrange(n as int, n as int)
                =~= Seq::<(UserId, KeyExpirePolicy)>::empty());
        }
        None
    }

    /// Counts down to the sweep and runs it when due: expired keys leave,
    /// and the next sweep comes after about half the table size, but not
    /// sooner than 63 insertions.
    fn garbage_collect(&mut self, now: u64)
        requires
            old(self).wf(),
        ensures
            final(self).wf(),
            old(self).countdown_spec() > 1 ==> final(self).keys_spec() == old(self).keys_spec()
                && final(self).countdown_spec() == old(self).countdown_spec() - 1,
            old(self).countdown_spec() == 1 ==> final(self).keys_spec() == old(self).keys_spec(
            ).filter(|e: (UserId, KeyExpirePolicy)| !expired(e.1, now)),
    {
        self.gc_countdown = self.gc_countdown - 1;
        if self.gc_countdown == 0 {
            let ghost pred = |e: (UserId, KeyExpirePolicy)| !expired(e.1, now);
            let n = self.authenticated.len();
            let mut kept: Vec<(UserId, KeyExpirePolicy)> = Vec::new();
            proof {
                reveal(Seq::filter);
                assert(kept@ =~= old(self).keys_spec().subrange(0, 0).filter(pred));
            }
            let mut i: usize = 0;
            while i < n
                invariant
                    n == self.authenticated@.len(),
                    self.authenticated@ == old(self).keys_spec(),
                    i <= n,
                    kept@ == old(self).keys_spec().subrange(0, i as int).filter(pred),
                    pred == (|e: (UserId, KeyExpirePolicy)| !expired(e.1, now)),
                decreases n - i,
            {
                let entry = self.authenticated[i];
                let keep = match entry.1 {
                    KeyExpirePolicy::Never => true,
                    KeyExpirePolicy::Exact { at } => at > now,
                    KeyExpirePolicy::Idle { at, idle_time: _ } => at > now,
                };
                proof {
                    let upto = old(self).keys_spec().subrange(0, i as int + 1);
                    assert(upto.drop_last() =~= old(self).keys_spec().subrange(0, i as int));
                    assert(upto.last() == old(self).keys_spec()[i as int]);
                    reveal(Seq::filter);
                    assert(keep <==> pred(old(self).keys_spec()[i as int]));
                }
                if keep {
                    kept.push(entry);
                }
                i = i + 1;
            }
            proof {
                assert(old(self).keys_spec().subrange(0, n as int) =~= old(self).keys_spec());
            }
            self.authenticated = kept;
            let len = self.authenticated.len();
            let base = if len > 128 {
                len
            } else {
                128
            };
            self.gc_countdown = base / 2 - 1;
        }
    }

    /// Authenticates a key for a user: runs the insertion-driven sweep,
    /// then stores the policy in front of the table, where lookups find
    /// it first.
    pub fn authenticate(&mut self, uid: UserId, policy: KeyExpirePolicy, now: u64)
        requires
            old(self).wf(),
        ensures
            final(self).wf(),
            lookup_spec(final(self).keys_spec(), uid) == Some(policy),
            old(self).countdown_spec() > 1 ==> final(self).keys_spec() == seq![(uid, policy)]
                + old(self).keys_spec(),
            old(self).countdown_spec() == 1 ==> final(self).keys_spec() == seq![(uid, policy)]
                + old(self).keys_spec().filter(
                |e: (UserId, KeyExpirePolicy)| !expired(e.1, now),
            ),
    {
        self.garbage_collect(now);
        self.authenticated.insert(0, (uid, policy));
        proof {
            let keys = self.keys_spec();
            assert(keys[0] == (uid, policy));
            assert(lookup_spec(keys, uid) == Some(policy));
        }
    }

    /// A pending permission check for one identifier on behalf of a user.
    pub fn permission_check(&self, identifier: &Identifier, uid: Option<UserId>) -> (r:
        PermissionCheck)
        ensures
            r.identifier_spec().text_spec() == identifier.text_spec(),
            r.identifier_spec().kind_spec() == identifier.kind_spec(),
            r.uid_spec() == uid,
    {
        PermissionCheck { identifier: identifier.clone(), uid }
    }
}

/// Temporary state for checking one identifier against the decision table.
pub struct PermissionCheck {
    identifier: Identifier,
    uid: Option<UserId>,
}

impl PermissionCheck {
    /// The identifier under check.
    pub closed spec fn identifier_spec(&self) -> Identifier {
        self.identifier
    }

    /// The authenticated user the check runs for.
    pub closed spec fn uid_spec(&self) -> Option<UserId> {
        self.uid
    }

    /// The kind triple under check.
    pub open spec fn triple(&self) -> (ObjectType, SharingPolicy, Mutability) {
        self.identifier_spec().components_spec()
    }

    /// Gate for reading the object.
    pub fn read(&self) -> (r: Result<(), AccessError>)
        requires
            gate_read(self.triple()) != Gate::AclCheck,
        ensures
            r is Ok <==> gate_read(self.triple()) == Gate::Allow,
            r == Err::<(), AccessError>(AccessError::PermissionDenied) <==> gate_read(
                self.triple(),
            ) == Gate::Deny,
            r == Err::<(), AccessError>(AccessError::InvalidInput) <==> gate_read(self.triple())
                == Gate::Invalid,
    {
        decide(gate_of_read(&self.identifier))
    }

    /// Gate for writing the object.
    pub fn write(&self) -> (r: Result<(), AccessError>)
        requires
            gate_write(self.triple()) != Gate::AclCheck,
        ensures
            r is Ok <==> gate_write(self.triple()) == Gate::Allow,
            r == Err::<(), AccessError>(AccessError::PermissionDenied) <==> gate_write(
                self.triple(),
            ) == Gate::Deny,
            r == Err::<(), AccessError>(AccessError::InvalidInput) <==> gate_write(self.triple())
                == Gate::Invalid,
    {
        decide(gate_of_write(&self.identifier))
    }

    /// Gate for appending to the object; the table is the write column.
    pub fn append(&self) -> (r: Result<(), AccessError>)
        requires
            gate_write(self.triple()) != Gate::AclCheck,
        ensures
            r is Ok <==> gate_write(self.triple()) == Gate::Allow,
            r == Err::<(), AccessError>(AccessError::PermissionDenied) <==> gate_write(
                self.triple(),
            ) == Gate::Deny,
            r == Err::<(), AccessError>(AccessError::InvalidInput) <==> gate_write(self.triple())
                == Gate::Invalid,
    {
        decide(gate_of_write(&self.identifier))
    }

    /// Gate for listing the directory.
    pub fn list(&self) -> (r: Result<(), AccessError>)
        requires
            gate_list(self.triple()) != Gate::AclCheck,
        ensures
            r is Ok <==> gate_list(self.triple()) == Gate::Allow,
            r == Err::<(), AccessError>(AccessError::PermissionDenied) <==> gate_list(
                self.triple(),
            ) == Gate::Deny,
            r == Err::<(), AccessError>(AccessError::InvalidInput) <==> gate_list(self.triple())
                == Gate::Invalid,
    {
        decide(gate_of_list(&self.identifier))
    }

    /// Gate for adding an entry to the directory.
    pub fn add(&self) -> (r: Result<(), AccessError>)
        requires
            gate_change(self.triple()) != Gate::AclCheck,
        ensures
            r is Ok <==> gate_change(self.triple()) == Gate::Allow,
            r == Err::<(), AccessError>(AccessError::PermissionDenied) <==> gate_change(
                self.triple(),
            ) == Gate::Deny,
            r == Err::<(), AccessError>(AccessError::InvalidInput) <==> gate_change(self.triple())
                == Gate::Invalid,
    {
        decide(gate_of_change(&self.identifier))
    }

    /// Gate for renaming an entry of the directory.
    pub fn rename(&self) -> (r: Result<(), AccessError>)
        requires
            gate_change(self.triple()) != Gate::AclCheck,
        ensures
            r is Ok <==> gate_change(self.triple()) == Gate::Allow,
            r == Err::<(), AccessError>(AccessError::PermissionDenied) <==> gate_change(
                self.triple(),
            ) == Gate::Deny,
            r == Err::<(), AccessError>(AccessError::InvalidInput) <==> gate_change(self.triple())
                == Gate::Invalid,
    {
        decide(gate_of_change(&self.identifier))
    }

    /// Gate for deleting an entry of the directory.
    pub fn delete(&self) -> (r: Result<(), AccessError>)
        requires
            gate_change(self.triple()) != Gate::AclCheck,
        ensures
            r is Ok <==> gate_change(self.triple()) == Gate::Allow,
            r == Err::<(), AccessError>(AccessError::PermissionDenied) <==> gate_change(
                self.triple(),
            ) == Gate::Deny,
            r == Err::<(), AccessError>(AccessError::InvalidInput) <==> gate_change(self.triple())
                == Gate::Invalid,
    {
        decide(gate_of_change(&self.identifier))
    }
}

/// The read cell for an identifier, as executable code.
fn gate_of_read(identifier: &Identifier) -> (r: Gate)
    ensures
        r == gate_read(identifier.components_spec()),
{
    let (t, s, _m) = identifier.components();
    if !matches!(t, ObjectType::File) {
        Gate::Invalid
    } else if matches!(s, SharingPolicy::Private) || matches!(s, SharingPolicy::Anonymous) {
        Gate::Allow
    } else if matches!(s, SharingPolicy::PublicAcl) {
        Gate::AclCheck
    } else {
        Gate::Invalid
    }
}

/// The write cell for an identifier, as executable code.
fn gate_of_write(identifier: &Identifier) -> (r: Gate)
    ensures
        r == gate_write(identifier.components_spec()),
{
    let (t, s, m) = identifier.components();
    if !matches!(t, ObjectType::File) {
        Gate::Invalid
    } else if matches!(m, Mutability::Immutable) {
        Gate::Deny
    } else if matches!(s, SharingPolicy::Private) {
        Gate::Allow
    } else if matches!(s, SharingPolicy::Anonymous) {
        Gate::Deny
    } else if matches!(s, SharingPolicy::PublicAcl) {
        Gate::AclCheck
    } else {
        Gate::Invalid
    }
}

/// The list cell for an identifier, as executable code.
fn gate_of_list(identifier: &Identifier) -> (r: Gate)
    ensures
        r == gate_list(identifier.components_spec()),
{
    let (t, s, _m) = identifier.components();
    if !matches!(t, ObjectType::Directory) {
        Gate::Invalid
    } else if matches!(s, SharingPolicy::Private) || matches!(s, SharingPolicy::Anonymous) {
        Gate::Allow
    } else if matches!(s, SharingPolicy::PublicAcl) {
        Gate::AclCheck
    } else {
        Gate::Invalid
    }
}

/// The change cell for an identifier, as executable code.
fn gate_of_change(identifier: &Identifier) -> (r: Gate)
    ensures
        r == gate_change(identifier.components_spec()),
{
    let (t, s, _m) = identifier.components();
    if !matches!(t, ObjectType::Directory) {
        Gate::Invalid
    } else if matches!(s, SharingPolicy::Private) {
        Gate::Allow
    } else if matches!(s, SharingPolicy::Anonymous) {
        Gate::Deny
    } else if matches!(s, SharingPolicy::PublicAcl) {
        Gate::AclCheck
    } else {
        Gate::Invalid
    }
}

/// Turns a decided cell into the caller-facing result.
fn decide(gate: Gate) -> (r: Result<(), AccessError>)
    requires
        gate != Gate::AclCheck,
    ensures
        r is Ok <==> gate == Gate::Allow,
        r == Err::<(), AccessError>(AccessError::PermissionDenied) <==> gate == Gate::Deny,
        r == Err::<(), AccessError>(AccessError::InvalidInput) <==> gate == Gate::Invalid,
{
    match gate {
        Gate::Allow => Ok(()),
        Gate::Deny => Err(AccessError::PermissionDenied),
        Gate::Invalid => Err(AccessError::InvalidInput),
        Gate::AclCheck => Err(AccessError::InvalidInput),
    }
}

} // verus!
