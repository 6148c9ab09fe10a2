//! Identifiers of stored objects.
//!
//! An identifier is generated from an `IdentifierKind` descriptor and a
//! 256-bit payload.  Its textual form is "flipbase64": the url-safe base64
//! encoding of the 33-byte (kind, payload) blob, written in reverse byte
//! order.  The reversal puts the kind byte into the trailing four
//! characters of the 44-character string and the low-entropy end of the
//! payload into the leading two, which index the shard directories.

use vstd::prelude::*;

use crate::b64;
use crate::b64::{b64_decode, b64_encode, b64_valid, is_b64_char};
use crate::bytes_eq;
use crate::copy_bytes;
use crate::errors::ObjectStoreError;
use crate::identifier_kind::{IdentifierKind, Mutability, ObjectType, SharingPolicy};
use crate::rev_cursor::{flip_bytes, flipped, lemma_flipped_involution};
use vstd::std_specs::cmp::PartialEqSpec;

verus! {

/// The binary payload of an identifier: 256 bits as 32 bytes.
#[derive(Debug, PartialEq)]
pub struct IdentifierBin(pub Vec<u8>);

impl IdentifierBin {
    /// The payload holds exactly 32 bytes.
    pub open spec fn wf(&self) -> bool {
        self.0@.len() == crate::BINARY_ID_LEN
    }
}

impl Clone for IdentifierBin {
    /// A copy holding the same bytes.
    fn clone(&self) -> (r: Self)
        ensures
            r.0@ == self.0@,
    {
        IdentifierBin(copy_bytes(self.0.as_slice()))
    }
}

/// The textual form of an identifier: 44 reverse-order base64 characters.
#[derive(Debug, PartialEq)]
pub struct Flipbase64(pub Vec<u8>);

/// Whether `t` is a well-formed identifier text: exactly 44 characters,
/// all from the url-safe base64 alphabet.
pub open spec fn text_wf(t: Seq<u8>) -> bool {
    t.len() == crate::FLIPBASE64_LEN && b64_valid(t)
}

/// The 33 decoded bytes behind an identifier text.
pub open spec fn decoded_of_text(t: Seq<u8>) -> Seq<u8> {
    b64_decode(flipped(t))
}

/// The kind byte stored in an identifier text.
pub open spec fn kind_byte_of_text(t: Seq<u8>) -> u8 {
    decoded_of_text(t)[0]
}

/// The 32-byte payload stored in an identifier text.
pub open spec fn payload_of_text(t: Seq<u8>) -> Seq<u8> {
    decoded_of_text(t).subrange(1, 33)
}

/// The identifier text written for a kind byte and a payload.
pub open spec fn flipbase64_of(k: u8, p: Seq<u8>) -> Seq<u8> {
    flipped(b64_encode(seq![k] + p))
}

impl Flipbase64 {
    /// The text is well-formed.
    pub open spec fn wf(&self) -> bool {
        text_wf(self.0@)
    }
}

impl Clone for Flipbase64 {
    /// A copy holding the same characters.
    fn clone(&self) -> (r: Self)
        ensures
            r.0@ == self.0@,
    {
        Flipbase64(copy_bytes(self.0.as_slice()))
    }
}

/// An object identifier: a kind byte plus 256 payload bits, carried in
/// textual flipbase64 form.  The kind is kept unpacked beside the text so
/// that kind queries read a field instead of decoding.
#[derive(Debug)]
pub struct Identifier {
    kind: IdentifierKind,
    base64: Flipbase64,
}

/// Builds identifiers of one fixed kind from binary payloads.
pub struct IdentifierBuilder(IdentifierKind);

impl Identifier {
    /// The textual form.
    pub closed spec fn text_spec(&self) -> Seq<u8> {
        self.base64.0@
    }

    /// The unpacked kind byte.
    pub closed spec fn kind_spec(&self) -> IdentifierKind {
        self.kind
    }

    /// The text is well formed and the kind field matches the kind byte
    /// stored in the text.
    pub open spec fn wf(&self) -> bool {
        text_wf(self.text_spec()) && self.kind_spec().0 == kind_byte_of_text(self.text_spec())
    }

    /// The kind triple of this identifier.
    pub open spec fn components_spec(&self) -> (ObjectType, SharingPolicy, Mutability) {
        self.kind_spec().components_spec()
    }

    /// Succeeds exactly on directories.
    pub fn ensure_dir(&self) -> (r: Result<&Self, ObjectStoreError>)
        ensures
            r is Ok <==> self.components_spec().0 == ObjectType::Directory,
            r matches Err(e) ==> e matches ObjectStoreError::ObjectType { have, want }
                && have == self.components_spec().0 && want == ObjectType::Directory,
    {
        if matches!(self.object_type(), ObjectType::Directory) {
            Ok(self)
        } else {
            Err(ObjectStoreError::ObjectType { have: self.object_type(), want: ObjectType::Directory })
        }
    }

    /// Succeeds exactly on plain files.
    pub fn ensure_file(&self) -> (r: Result<&Self, ObjectStoreError>)
        ensures
            r is Ok <==> self.components_spec().0 == ObjectType::File,
            r matches Err(e) ==> e matches ObjectStoreError::ObjectType { have, want }
                && have == self.components_spec().0 && want == ObjectType::File,
    {
        if matches!(self.object_type(), ObjectType::File) {
            Ok(self)
        } else {
            Err(ObjectStoreError::ObjectType { have: self.object_type(), want: ObjectType::File })
        }
    }

    /// Encodes a kind and a payload into an identifier.
    pub fn from_binary(kind: IdentifierKind, binary: IdentifierBin) -> (r: Identifier)
        requires
            binary.wf(),
        ensures
            r.wf(),
            r.kind_spec() == kind,
            r.text_spec() == flipbase64_of(kind.0, binary.0@),
    {
        let n = binary.0.len();
        let mut input: Vec<u8> = Vec::new();
        input.push(kind.0);
        let mut i: usize = 0;
        while i < n
            invariant
                n == binary.0@.len(),
                i <= n,
                input@ =~= seq![kind.0] + binary.0@.subrange(0, i as int),
            decreases n - i,
        {
            input.push(binary.0[i]);
            i = i + 1;
        }
        proof {
            assert(input@ =~= seq![kind.0] + binary.0@);
            assert(input@.len() == 33);
        }
        let enc = b64::encode(&input);
        let text = flip_bytes(enc.as_slice());
        proof {
            lemma_flipbase64_roundtrip(kind.0, binary.0@);
            assert(text@ == flipbase64_of(kind.0, binary.0@));
        }
        Identifier { kind, base64: Flipbase64(text) }
    }

    /// Starts building identifiers of the given kind.
    pub fn build(kind: IdentifierKind) -> (r: IdentifierBuilder)
        ensures
            r.kind_spec() == kind,
    {
        IdentifierBuilder(kind)
    }

    /// Reads an identifier back from its textual form.  Fails when the text
    /// is not 44 characters or holds a character outside the url-safe
    /// base64 alphabet.
    pub fn from_flipbase64(base64: Flipbase64) -> (r: Result<Identifier, ObjectStoreError>)
        ensures
            r is Ok <==> text_wf(base64.0@),
            r matches Ok(id) ==> id.wf() && id.text_spec() == base64.0@,
            r matches Err(e) ==> e is InvalidIdentifier,
    {
        if base64.0.len() != 44 {
            return Err(ObjectStoreError::InvalidIdentifier(base64.0));
        }
        let rev = flip_bytes(base64.0.as_slice());
        proof {
            lemma_valid_flip(base64.0@);
        }
        match b64::decode(&rev) {
            Some(d) => {
                proof {
                    assert(d@.len() == 33);
                }
                let k = d[0];
                proof {
                    assert(k == kind_byte_of_text(base64.0@));
                }
                Ok(Identifier { kind: IdentifierKind(k), base64 })
            },
            None => Err(ObjectStoreError::InvalidIdentifier(base64.0)),
        }
    }

    /// Parses a directory entry name as an identifier.
    pub fn from_filename(name: &[u8]) -> (r: Result<Identifier, ObjectStoreError>)
        ensures
            r is Ok <==> text_wf(name@),
            r matches Ok(id) ==> id.wf() && id.text_spec() == name@,
            r matches Err(e) ==> e is InvalidIdentifier,
    {
        if name.len() != 44 {
            return Err(ObjectStoreError::InvalidIdentifier(copy_bytes(name)));
        }
        Identifier::from_flipbase64(Flipbase64(copy_bytes(name)))
    }

    /// The textual form of this identifier.
    pub fn id_base64(&self) -> (r: &Flipbase64)
        ensures
            r.0@ == self.text_spec(),
    {
        &self.base64
    }

    /// Decodes the binary payload back out of the text.
    pub fn id_bin(&self) -> (r: IdentifierBin)
        requires
            self.wf(),
        ensures
            r.wf(),
            r.0@ == payload_of_text(self.text_spec()),
    {
        let rev = flip_bytes(self.base64.0.as_slice());
        proof {
            lemma_valid_flip(self.base64.0@);
        }
        match b64::decode(&rev) {
            Some(d) => {
                let mut out: Vec<u8> = Vec::new();
                let mut i: usize = 1;
                while i < 33
                    invariant
                        1 <= i <= 33,
                        d@.len() == 33,
                        out@ =~= d@.subrange(1, i as int),
                    decreases 33 - i,
                {
                    out.push(d[i]);
                    i = i + 1;
                }
                proof {
                    assert(out@ =~= payload_of_text(self.text_spec()));
                }
                IdentifierBin(out)
            },
            None => {
                proof {
                    assert(false);
                }
                IdentifierBin(Vec::new())
            },
        }
    }

    /// The unpacked kind.
    pub fn kind(&self) -> (r: IdentifierKind)
        ensures
            r == self.kind_spec(),
    {
        self.kind
    }

    /// The object type of this identifier.
    pub fn object_type(&self) -> (r: ObjectType)
        ensures
            r == self.components_spec().0,
    {
        self.kind.object_type()
    }

    /// The sharing policy of this identifier.
    pub fn sharing_policy(&self) -> (r: SharingPolicy)
        ensures
            r == self.components_spec().1,
    {
        self.kind.sharing_policy()
    }

    /// The mutability of this identifier.
    pub fn mutability(&self) -> (r: Mutability)
        ensures
            r == self.components_spec().2,
    {
        self.kind.mutability()
    }

    /// All three kind aspects at once.
    pub fn components(&self) -> (r: (ObjectType, SharingPolicy, Mutability))
        ensures
            r == self.components_spec(),
    {
        self.kind.components()
    }
}

impl Clone for Identifier {
    /// A copy naming the same object.
    fn clone(&self) -> (r: Self)
        ensures
            r.text_spec() == self.text_spec(),
            r.kind_spec() == self.kind_spec(),
            r.wf() == self.wf(),
    {
        Identifier { kind: self.kind, base64: self.base64.clone() }
    }
}

impl PartialEq for Identifier {
    /// Two identifiers are the same object exactly when their textual
    /// forms agree.
    fn eq(&self, other: &Self) -> (r: bool) {
        bytes_eq(self.base64.0.as_slice(), other.base64.0.as_slice())
    }
}

impl vstd::std_specs::cmp::PartialEqSpecImpl for Identifier {
    open spec fn obeys_eq_spec() -> bool {
        true
    }

    open spec fn eq_spec(&self, other: &Identifier) -> bool {
        self.text_spec() == other.text_spec()
    }
}

impl IdentifierBuilder {
    /// The kind every identifier from this builder will carry.
    pub closed spec fn kind_spec(&self) -> IdentifierKind {
        self.0
    }

    /// Finishes an identifier with the given payload.
    pub fn with_binary(self, binary: IdentifierBin) -> (r: Identifier)
        requires
            binary.wf(),
        ensures
            r.wf(),
            r.kind_spec() == self.kind_spec(),
            r.text_spec() == flipbase64_of(self.kind_spec().0, binary.0@),
    {
        Identifier::from_binary(self.0, binary)
    }

    /// The kind triple of the identifiers this builder makes.
    pub fn components(&self) -> (r: (ObjectType, SharingPolicy, Mutability))
        ensures
            r == self.kind_spec().components_spec(),
    {
        self.0.components()
    }
}

/// A text is valid exactly when its reversal is.
pub proof fn lemma_valid_flip(t: Seq<u8>)
    ensures
        b64_valid(t) <==> b64_valid(flipped(t)),
{
    if b64_valid(t) {
        assert forall|i: int| 0 <= i < flipped(t).len() implies is_b64_char(flipped(t)[i]) by {
            assert(flipped(t)[i] == t[t.len() - 1 - i]);
        }
    }
    if b64_valid(flipped(t)) {
        assert forall|i: int| 0 <= i < t.len() implies is_b64_char(t[i]) by {
            assert(flipped(t)[t.len() - 1 - i] == t[i]);
        }
    }
}

/// Writing a kind and a payload and reading them back through the text is
/// the identity: the text is 44 valid characters, its kind byte is the
/// kind written, and its payload bytes are the payload written.
pub proof fn lemma_flipbase64_roundtrip(k: u8, p: Seq<u8>)
    requires
        p.len() == crate::BINARY_ID_LEN,
    ensures
        flipbase64_of(k, p).len() == crate::FLIPBASE64_LEN,
        text_wf(flipbase64_of(k, p)),
        kind_byte_of_text(flipbase64_of(k, p)) == k,
        payload_of_text(flipbase64_of(k, p)) == p,
{
    let input = seq![k] + p;
    assert(input.len() == 33);
    b64::lemma_b64_roundtrip(input);
    let enc = b64_encode(input);
    assert(enc.len() == 44);
    let t = flipbase64_of(k, p);
    assert(t == flipped(enc));
    lemma_flipped_involution(enc);
    assert(decoded_of_text(t) == b64_decode(enc));
    assert(b64_decode(enc) == input);
    assert(kind_byte_of_text(t) == input[0]);
    assert(payload_of_text(t) =~= p);
    lemma_valid_flip(t);
}

/// The kind byte is already determined by the last four characters of the
/// text: reversal puts the first base64 quartet there.
pub proof fn lemma_kind_from_tail(t: Seq<u8>)
    requires
        text_wf(t),
    ensures
        kind_byte_of_text(t) == b64::dec0(
            b64::sextet_value(t[43]) as u8,
            b64::sextet_value(t[42]) as u8,
        ),
{
    let s = flipped(t);
    assert(s[0] == t[43]);
    assert(s[1] == t[42]);
    assert(kind_byte_of_text(t) == b64::b64_byte_at(s, 0));
}

/// A well-formed identifier is determined by its text alone: the unpacked
/// kind field repeats what the text stores.  Together with the contract
/// of `from_flipbase64` — which succeeds on every well-formed text and
/// returns an identifier carrying exactly that text — this says that
/// parsing the written form of any stored identifier gives the identifier
/// back.
pub proof fn lemma_text_determines_identifier(a: Identifier, b: Identifier)
    requires
        a.wf(),
        b.wf(),
        a.text_spec() == b.text_spec(),
    ensures
        a.kind_spec() == b.kind_spec(),
        a.eq_spec(&b),
{
}

} // verus!
