//! The kind byte of an identifier: object type, sharing policy and
//! mutability packed into a single byte.
//!
//! Every possible byte value decodes to some triple; reserved variants are
//! representable so that unknown bit patterns survive a load/store cycle and
//! only fail when an operation tries to realize them.

use vstd::prelude::*;

verus! {

/// Object type, stored in the upper three bits of the kind byte.
#[derive(Debug, Clone, Copy, PartialEq, Eq, Structural)]
pub enum ObjectType {
    File,
    Directory,
    _PartialFile,
    _FecBlock,
    _DirectoryWithParent,
    _Reserved3,
    _Reserved4,
    _Reserved5,
}

/// Sharing policy, stored in the middle three bits of the kind byte.
#[derive(Debug, Clone, Copy, PartialEq, Eq, Structural)]
pub enum SharingPolicy {
    Private,
    PublicAcl,
    Anonymous,
    _Reserved1,
    _Reserved2,
    _Reserved3,
    _Reserved4,
    _Reserved5,
}

/// Mutability, stored in the lower two bits of the kind byte.
#[derive(Debug, Clone, Copy, PartialEq, Eq, Structural)]
pub enum Mutability {
    Mutable,
    Immutable,
    _Versioned,
    _Reserved,
}

/// Three-bit code of an object type.
pub open spec fn object_type_code(t: ObjectType) -> u8 {
    match t {
        ObjectType::File => 0,
        ObjectType::Directory => 1,
        ObjectType::_PartialFile => 2,
        ObjectType::_FecBlock => 3,
        ObjectType::_DirectoryWithParent => 4,
        ObjectType::_Reserved3 => 5,
        ObjectType::_Reserved4 => 6,
        ObjectType::_Reserved5 => 7,
    }
}

/// Object type denoted by the lower three bits of `c`.
pub open spec fn object_type_of_code(c: u8) -> ObjectType {
    let c = c & 7;
    if c == 0 {
        ObjectType::File
    } else if c == 1 {
        ObjectType::Directory
    } else if c == 2 {
        ObjectType::_PartialFile
    } else if c == 3 {
        ObjectType::_FecBlock
    } else if c == 4 {
        ObjectType::_DirectoryWithParent
    } else if c == 5 {
        ObjectType::_Reserved3
    } else if c == 6 {
        ObjectType::_Reserved4
    } else {
        ObjectType::_Reserved5
    }
}

/// Three-bit code of a sharing policy.
pub open spec fn sharing_policy_code(s: SharingPolicy) -> u8 {
    match s {
        SharingPolicy::Private => 0,
        SharingPolicy::PublicAcl => 1,
        SharingPolicy::Anonymous => 2,
        SharingPolicy::_Reserved1 => 3,
        SharingPolicy::_Reserved2 => 4,
        SharingPolicy::_Reserved3 => 5,
        SharingPolicy::_Reserved4 => 6,
        SharingPolicy::_Reserved5 => 7,
    }
}

/// Sharing policy denoted by the lower three bits of `c`.
pub open spec fn sharing_policy_of_code(c: u8) -> SharingPolicy {
    let c = c & 7;
    if c == 0 {
        SharingPolicy::Private
    } else if c == 1 {
        SharingPolicy::PublicAcl
    } else if c == 2 {
        SharingPolicy::Anonymous
    } else if c == 3 {
        SharingPolicy::_Reserved1
    } else if c == 4 {
        SharingPolicy::_Reserved2
    } else if c == 5 {
        SharingPolicy::_Reserved3
    } else if c == 6 {
        SharingPolicy::_Reserved4
    } else {
        SharingPolicy::_Reserved5
    }
}

/// Two-bit code of a mutability.
pub open spec fn mutability_code(m: Mutability) -> u8 {
    match m {
        Mutability::Mutable => 0,
        Mutability::Immutable => 1,
        Mutability::_Versioned => 2,
        Mutability::_Reserved => 3,
    }
}

/// Mutability denoted by the lower two bits of `c`.
pub open spec fn mutability_of_code(c: u8) -> Mutability {
    let c = c & 3;
    if c == 0 {
        Mutability::Mutable
    } else if c == 1 {
        Mutability::Immutable
    } else if c == 2 {
        Mutability::_Versioned
    } else {
        Mutability::_Reserved
    }
}

/// The kind byte packing a `(ObjectType, SharingPolicy, Mutability)` triple.
pub open spec fn pack_kind(t: ObjectType, s: SharingPolicy, m: Mutability) -> u8 {
    (object_type_code(t) << 5) | (sharing_policy_code(s) << 2) | mutability_code(m)
}

/// Packs the three aspects of an identifier kind into one byte.
#[derive(Debug, Clone, Copy, PartialEq, Eq, Structural)]
pub struct IdentifierKind(pub u8);

impl IdentifierKind {
    /// The triple a kind byte denotes.
    pub open spec fn components_spec(&self) -> (ObjectType, SharingPolicy, Mutability) {
        (
            object_type_of_code(self.0 >> 5),
            sharing_policy_of_code(self.0 >> 2),
            mutability_of_code(self.0),
        )
    }

    /// Pack a triple into a kind byte.
    pub fn create(object_type: ObjectType, sharing_policy: SharingPolicy, mutability: Mutability) -> (r:
        IdentifierKind)
        ensures
            r.0 == pack_kind(object_type, sharing_policy, mutability),
            r.components_spec() == (object_type, sharing_policy, mutability),
    {
        let t = object_type_value(object_type);
        let s = sharing_policy_value(sharing_policy);
        let m = mutability_value(mutability);
        proof {
            lemma_pack_unpack(object_type, sharing_policy, mutability);
        }
        IdentifierKind((t << 5) | (s << 2) | m)
    }

    /// The object type stored in the upper three bits.
    pub fn object_type(&self) -> (r: ObjectType)
        ensures
            r == self.components_spec().0,
    {
        decode_object_type(self.0 >> 5)
    }

    /// The sharing policy stored in the middle three bits.
    pub fn sharing_policy(&self) -> (r: SharingPolicy)
        ensures
            r == self.components_spec().1,
    {
        decode_sharing_policy(self.0 >> 2)
    }

    /// The mutability stored in the lower two bits.
    pub fn mutability(&self) -> (r: Mutability)
        ensures
            r == self.components_spec().2,
    {
        decode_mutability(self.0)
    }

    /// All three aspects at once.
    pub fn components(&self) -> (r: (ObjectType, SharingPolicy, Mutability))
        ensures
            r == self.components_spec(),
    {
        (self.object_type(), self.sharing_policy(), self.mutability())
    }
}

/// Three-bit code of an object type, as executable code.
fn object_type_value(t: ObjectType) -> (r: u8)
    ensures
        r == object_type_code(t),
{
    match t {
        ObjectType::File => 0,
        ObjectType::Directory => 1,
        ObjectType::_PartialFile => 2,
        ObjectType::_FecBlock => 3,
        ObjectType::_DirectoryWithParent => 4,
        ObjectType::_Reserved3 => 5,
        ObjectType::_Reserved4 => 6,
        ObjectType::_Reserved5 => 7,
    }
}

/// Three-bit code of a sharing policy, as executable code.
fn sharing_policy_value(s: SharingPolicy) -> (r: u8)
    ensures
        r == sharing_policy_code(s),
{
    match s {
        SharingPolicy::Private => 0,
        SharingPolicy::PublicAcl => 1,
        SharingPolicy::Anonymous => 2,
        SharingPolicy::_Reserved1 => 3,
        SharingPolicy::_Reserved2 => 4,
        SharingPolicy::_Reserved3 => 5,
        SharingPolicy::_Reserved4 => 6,
        SharingPolicy::_Reserved5 => 7,
    }
}

/// Two-bit code of a mutability, as executable code.
fn mutability_value(m: Mutability) -> (r: u8)
    ensures
        r == mutability_code(m),
{
    match m {
        Mutability::Mutable => 0,
        Mutability::Immutable => 1,
        Mutability::_Versioned => 2,
        Mutability::_Reserved => 3,
    }
}

/// Object type denoted by the lower three bits of `c`, as executable code.
fn decode_object_type(c: u8) -> (r: ObjectType)
    ensures
        r == object_type_of_code(c),
{
    let c = c & 7;
    if c == 0 {
        ObjectType::File
    } else if c == 1 {
        ObjectType::Directory
    } else if c == 2 {
        ObjectType::_PartialFile
    } else if c == 3 {
        ObjectType::_FecBlock
    } else if c == 4 {
        ObjectType::_DirectoryWithParent
    } else if c == 5 {
        ObjectType::_Reserved3
    } else if c == 6 {
        ObjectType::_Reserved4
    } else {
        ObjectType::_Reserved5
    }
}

/// Sharing policy denoted by the lower three bits of `c`, as executable code.
fn decode_sharing_policy(c: u8) -> (r: SharingPolicy)
    ensures
        r == sharing_policy_of_code(c),
{
    let c = c & 7;
    if c == 0 {
        SharingPolicy::Private
    } else if c == 1 {
        SharingPolicy::PublicAcl
    } else if c == 2 {
        SharingPolicy::Anonymous
    } else if c == 3 {
        SharingPolicy::_Reserved1
    } else if c == 4 {
        SharingPolicy::_Reserved2
    } else if c == 5 {
        SharingPolicy::_Reserved3
    } else if c == 6 {
        SharingPolicy::_Reserved4
    } else {
        SharingPolicy::_Reserved5
    }
}

/// Mutability denoted by the lower two bits of `c`, as executable code.
fn decode_mutability(c: u8) -> (r: Mutability)
    ensures
        r == mutability_of_code(c),
{
    let c = c & 3;
    if c == 0 {
        Mutability::Mutable
    } else if c == 1 {
        Mutability::Immutable
    } else if c == 2 {
        Mutability::_Versioned
    } else {
        Mutability::_Reserved
    }
}

/// Bit-level shape of packing three small codes into one byte.
proof fn lemma_bits_pack_unpack(tc: u8, sc: u8, mc: u8)
    requires
        tc < 8,
        sc < 8,
        mc < 4,
    ensures
        ((((tc << 5) | (sc << 2) | mc) as u8) >> 5) & 7 == tc,
        ((((tc << 5) | (sc << 2) | mc) as u8) >> 2) & 7 == sc,
        ((((tc << 5) | (sc << 2) | mc) as u8) & 3) == mc,
{
    assert(tc < 8 && sc < 8 && mc < 4 ==> ((((tc << 5) | (sc << 2) | mc) as u8) >> 5) & 7 == tc
        && ((((tc << 5) | (sc << 2) | mc) as u8) >> 2) & 7 == sc && ((((tc << 5) | (sc << 2)
        | mc) as u8) & 3) == mc) by (bit_vector);
}

/// Bit-level shape of re-packing the three fields of a byte.
proof fn lemma_bits_unpack_pack(b: u8)
    ensures
        ((((b >> 5) & 7) << 5) | (((b >> 2) & 7) << 2) | (b & 3)) == b,
        (b >> 5) & 7 < 8,
        (b >> 2) & 7 < 8,
        b & 3 < 4,
        (b >> 5) & 7 == b >> 5,
{
    assert(((((b >> 5) & 7) << 5) | (((b >> 2) & 7) << 2) | (b & 3)) == b && (b >> 5) & 7 < 8 && (b
        >> 2) & 7 < 8 && b & 3 < 4 && (b >> 5) & 7 == b >> 5) by (bit_vector);
}

/// A masked code stays below the width of its field.
proof fn lemma_mask_bounds(x: u8)
    ensures
        x & 7 < 8,
        x & 3 < 4,
        x < 8 ==> x & 7 == x,
        x < 4 ==> x & 3 == x,
{
    assert(x & 7 < 8 && x & 3 < 4 && (x < 8 ==> x & 7 == x) && (x < 4 ==> x & 3 == x))
        by (bit_vector);
}

/// Encoding a triple and decoding the code gives the triple back.
proof fn lemma_code_roundtrip(t: ObjectType, s: SharingPolicy, m: Mutability)
    ensures
        object_type_of_code(object_type_code(t)) == t,
        sharing_policy_of_code(sharing_policy_code(s)) == s,
        mutability_of_code(mutability_code(m)) == m,
{
    lemma_mask_bounds(object_type_code(t));
    lemma_mask_bounds(sharing_policy_code(s));
    lemma_mask_bounds(mutability_code(m));
}

/// Unpacking a packed triple gives the triple back.
pub proof fn lemma_pack_unpack(t: ObjectType, s: SharingPolicy, m: Mutability)
    ensures
        IdentifierKind(pack_kind(t, s, m)).components_spec() == (t, s, m),
{
    let tc = object_type_code(t);
    let sc = sharing_policy_code(s);
    let mc = mutability_code(m);
    lemma_bits_pack_unpack(tc, sc, mc);
    lemma_code_roundtrip(t, s, m);
    let b = pack_kind(t, s, m);
    lemma_mask_bounds(b >> 5);
    lemma_mask_bounds(b >> 2);
    lemma_mask_bounds(b);
    assert((b >> 5) & 7 == tc && (b >> 2) & 7 == sc && b & 3 == mc);
    assert(object_type_of_code(b >> 5) == object_type_of_code(tc));
    assert(sharing_policy_of_code(b >> 2) == sharing_policy_of_code(sc));
    assert(mutability_of_code(b) == mutability_of_code(mc));
}

/// Re-packing the components of any kind byte gives the byte back.
pub proof fn lemma_unpack_pack(b: u8)
    ensures
        pack_kind(
            IdentifierKind(b).components_spec().0,
            IdentifierKind(b).components_spec().1,
            IdentifierKind(b).components_spec().2,
        ) == b,
{
    let t = IdentifierKind(b).components_spec().0;
    let s = IdentifierKind(b).components_spec().1;
    let m = IdentifierKind(b).components_spec().2;
    lemma_bits_unpack_pack(b);
    lemma_mask_bounds(b >> 5);
    lemma_mask_bounds(b >> 2);
    lemma_mask_bounds(b);
    assert(object_type_code(t) == (b >> 5) & 7);
    assert(sharing_policy_code(s) == (b >> 2) & 7);
    assert(mutability_code(m) == b & 3);
}

} // verus!
