//! Objects and their per-kind realization policy.
//!
//! Kinds split into realization strategies: private mutable objects are
//! directories with a fresh random payload; public immutable files are a
//! reserved strategy; everything else is unsupported.  The delete method
//! is a pure function of the kind triple.

use vstd::prelude::*;

use crate::errors::ObjectStoreError;
use crate::identifier::{Identifier, IdentifierBin, IdentifierBuilder};
use crate::identifier_kind::{IdentifierKind, Mutability, ObjectType, SharingPolicy};

verus! {

/// Access-control list attached to shared objects; evaluation is outside
/// the core.
#[derive(Debug)]
pub struct Acl;

/// Creator metadata of shared immutable objects.
#[derive(Debug)]
pub struct Creator;

/// Policy for how an unreachable object is disposed of.
#[derive(Debug, Clone, Copy, PartialEq, Eq, Structural)]
pub enum DeleteMethod {
    /// Remove the object's data now.
    Immediate,
    /// Move the object to the tombstone area until it expires.
    Expire,
    /// No known disposal: the store is inconsistent.
    Unknown,
}

impl DeleteMethod {
    /// A short human-readable label.
    pub fn label(&self) -> (r: &'static str)
        ensures
            *self == DeleteMethod::Immediate ==> r@ == "delete immediate"@,
            *self == DeleteMethod::Expire ==> r@ == "delayed expire"@,
            *self == DeleteMethod::Unknown ==> r@ == "keep unknown"@,
    {
        match self {
            DeleteMethod::Immediate => "delete immediate",
            DeleteMethod::Expire => "delayed expire",
            DeleteMethod::Unknown => "keep unknown",
        }
    }
}

/// The realization strategy a kind triple selects.
#[derive(Debug, Clone, Copy, PartialEq, Eq, Structural)]
pub enum ObjectImpl {
    /// No strategy exists for this kind.
    NotSupported,
    /// A directory with full owner permissions and a random payload.
    PrivateMutable,
    /// A content-addressed shared file; reserved, not realizable yet.
    PublicImmutableFile,
}

/// The strategy for a kind: any private mutable object is a directory,
/// a public immutable file is the shared strategy, the rest is
/// unsupported.
pub open spec fn object_impl_of(kind: IdentifierKind) -> ObjectImpl {
    let t = kind.components_spec();
    if t.1 == SharingPolicy::Private && t.2 == Mutability::Mutable {
        ObjectImpl::PrivateMutable
    } else if t.0 == ObjectType::File && t.1 == SharingPolicy::PublicAcl && t.2
        == Mutability::Immutable {
        ObjectImpl::PublicImmutableFile
    } else {
        ObjectImpl::NotSupported
    }
}

/// The delete method of a strategy.
pub open spec fn delete_method_of(opts: ObjectImpl) -> DeleteMethod {
    match opts {
        ObjectImpl::PrivateMutable => DeleteMethod::Immediate,
        ObjectImpl::PublicImmutableFile => DeleteMethod::Expire,
        ObjectImpl::NotSupported => DeleteMethod::Unknown,
    }
}

impl ObjectImpl {
    /// Selects the strategy for a kind.
    pub fn new(kind: IdentifierKind) -> (r: ObjectImpl)
        ensures
            r == object_impl_of(kind),
    {
        let (t, s, m) = kind.components();
        if matches!(s, SharingPolicy::Private) && matches!(m, Mutability::Mutable) {
            ObjectImpl::PrivateMutable
        } else if matches!(t, ObjectType::File) && matches!(s, SharingPolicy::PublicAcl)
            && matches!(m, Mutability::Immutable) {
            ObjectImpl::PublicImmutableFile
        } else {
            ObjectImpl::NotSupported
        }
    }

    /// How objects of this strategy are deleted.
    pub fn delete_method(&self) -> (r: DeleteMethod)
        ensures
            r == delete_method_of(*self),
    {
        match self {
            ObjectImpl::PrivateMutable => DeleteMethod::Immediate,
            ObjectImpl::PublicImmutableFile => DeleteMethod::Expire,
            ObjectImpl::NotSupported => DeleteMethod::Unknown,
        }
    }
}

/// An object of the store, bound to its identifier.
#[derive(Debug)]
pub struct Object {
    /// The identifier naming this object.
    pub identifier: Identifier,
    /// The realization strategy its kind selects.
    pub opts: ObjectImpl,
}

/// Builder for an object whose identifier does not exist yet.
pub struct ObjectBuilder {
    identifier: IdentifierBuilder,
    opts: ObjectImpl,
}

impl Object {
    /// The object is consistent: a well-formed identifier whose kind
    /// selects the stored strategy.
    pub open spec fn wf(&self) -> bool {
        self.identifier.wf() && self.opts == object_impl_of(self.identifier.kind_spec())
    }

    /// Starts building an object of the given kind.
    pub fn build(object_type: ObjectType, sharing_policy: SharingPolicy, mutability: Mutability)
        -> (r: ObjectBuilder)
        ensures
            r.kind_spec() == IdentifierKind(crate::identifier_kind::pack_kind(
                object_type,
                sharing_policy,
                mutability,
            )),
            r.wf(),
            r.kind_spec().components_spec() == (object_type, sharing_policy, mutability),
    {
        let kind = IdentifierKind::create(object_type, sharing_policy, mutability);
        ObjectBuilder { identifier: Identifier::build(kind), opts: ObjectImpl::new(kind) }
    }

    /// Wraps an existing identifier as an object.
    pub fn from(identifier: Identifier) -> (r: Object)
        requires
            identifier.wf(),
        ensures
            r.wf(),
            r.identifier == identifier,
    {
        let kind = identifier.kind();
        Object { identifier, opts: ObjectImpl::new(kind) }
    }

    /// The identifier naming this object.
    pub fn identifier(&self) -> (r: &Identifier)
        ensures
            r == &self.identifier,
    {
        &self.identifier
    }

    /// How this object is deleted once unreachable.
    pub fn delete_method(&self) -> (r: DeleteMethod)
        ensures
            r == delete_method_of(self.opts),
            self.wf() ==> r == delete_method_of(object_impl_of(self.identifier.kind_spec())),
    {
        self.opts.delete_method()
    }
}

impl ObjectBuilder {
    /// The kind every identifier from this builder will carry.
    pub closed spec fn kind_spec(&self) -> IdentifierKind {
        self.identifier.kind_spec()
    }

    /// The builder is consistent with its kind.
    pub open spec fn wf(&self) -> bool {
        self.opts_spec() == object_impl_of(self.kind_spec())
    }

    /// The strategy the builder will realize.
    pub closed spec fn opts_spec(&self) -> ObjectImpl {
        self.opts
    }

    /// May attach an access-control list; only the absent case is
    /// realizable here.
    pub fn acl(self, acl: &Option<Acl>) -> (r: Self)
        requires
            acl is None,
        ensures
            r == self,
    {
        self
    }

    /// Realizes the object: draws a fresh random payload and binds the
    /// identifier.  Only private mutable kinds can be realized; the
    /// shared immutable file strategy is not implemented, and the rest
    /// is rejected as unsupported.
    pub fn realize(self) -> (r: Result<Object, ObjectStoreError>)
        requires
            self.wf(),
            self.opts_spec() != ObjectImpl::PublicImmutableFile,
        ensures
            r is Ok <==> object_impl_of(self.kind_spec()) == ObjectImpl::PrivateMutable,
            r matches Ok(o) ==> o.wf() && o.identifier.kind_spec() == self.kind_spec(),
            r matches Err(e) ==> e matches ObjectStoreError::UnsupportedObjectType(t) && t
                == self.kind_spec().components_spec(),
    {
        match self.opts {
            ObjectImpl::PrivateMutable => {
                let payload = rng_identifier();
                let identifier = self.identifier.with_binary(payload);
                Ok(Object { identifier, opts: ObjectImpl::PrivateMutable })
            },
            _ => {
                Err(ObjectStoreError::UnsupportedObjectType(self.identifier.components()))
            },
        }
    }

    /// The kind triple of the objects this builder makes.
    pub fn components(&self) -> (r: (ObjectType, SharingPolicy, Mutability))
        ensures
            r == self.kind_spec().components_spec(),
    {
        self.identifier.components()
    }
}

/// Relies on `rand::rngs::ThreadRng` (a CSPRNG reseeded from the
/// operating system) through `RngCore::fill_bytes`, which fills the
/// whole 32-byte buffer.  Nothing can be promised about random contents.
#[verifier::external_body]
pub(crate) fn rng_identifier() -> (r: IdentifierBin)
    ensures
        r.wf(),
{
    let mut buf = [0u8; 32];
    rand::RngCore::fill_bytes(&mut rand::thread_rng(), &mut buf);
    IdentifierBin(buf.to_vec())
}

} // verus!
