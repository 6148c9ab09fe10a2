//! The reserved symlink-target convention for child links.
//!
//! A directory object references a child by a symlink whose target is the
//! 11-byte reserved prefix `.uberallfs.` followed by the 44-character child
//! identifier.  The prefix makes child entries distinguishable from any
//! lawful user-chosen name, and is therefore also banned as the start of a
//! user name.

use vstd::prelude::*;
use vstd::slice::slice_subrange;

use crate::copy_bytes;
use crate::errors::ObjectStoreError;
use crate::identifier::{text_wf, Identifier};

verus! {

/// The reserved 11-byte prefix `.uberallfs.` of child-link targets.
pub open spec fn reserved_prefix_spec() -> Seq<u8> {
    seq![46u8, 117u8, 98u8, 101u8, 114u8, 97u8, 108u8, 108u8, 102u8, 115u8, 46u8]
}

/// Number of bytes in the reserved prefix.
pub const RESERVED_PREFIX_LEN: usize = 11;

/// The reserved prefix as bytes.
pub fn reserved_prefix() -> (r: Vec<u8>)
    ensures
        r@ == reserved_prefix_spec(),
{
    let mut v: Vec<u8> = Vec::new();
    v.push(46);
    v.push(117);
    v.push(98);
    v.push(101);
    v.push(114);
    v.push(97);
    v.push(108);
    v.push(108);
    v.push(102);
    v.push(115);
    v.push(46);
    proof {
        assert(v@ =~= reserved_prefix_spec());
    }
    v
}

/// Whether `s` starts with `p`.
pub open spec fn starts_with_spec(s: Seq<u8>, p: Seq<u8>) -> bool {
    s.len() >= p.len() && s.subrange(0, p.len() as int) == p
}

/// Whether the byte string starts with the reserved prefix.
pub fn starts_with_reserved_prefix(bytes: &[u8]) -> (r: bool)
    ensures
        r <==> starts_with_spec(bytes@, reserved_prefix_spec()),
{
    let prefix = reserved_prefix();
    if bytes.len() < 11 {
        return false;
    }
    let head = slice_subrange(bytes, 0, 11);
    let r = crate::bytes_eq(head, prefix.as_slice());
    proof {
        assert(head@ == bytes@.subrange(0, 11));
    }
    r
}

/// The symlink target written for a child: reserved prefix plus the
/// child's textual identifier.
pub open spec fn link_target_spec(t: Seq<u8>) -> Seq<u8> {
    reserved_prefix_spec() + t
}

/// The target bytes of a child link to `identifier`.
pub fn link_target(identifier: &Identifier) -> (r: Vec<u8>)
    requires
        identifier.wf(),
    ensures
        r@ == link_target_spec(identifier.text_spec()),
{
    let mut out = reserved_prefix();
    let text = identifier.id_base64();
    let n = text.0.len();
    let mut i: usize = 0;
    while i < n
        invariant
            n == text.0@.len(),
            i <= n,
            out@ =~= reserved_prefix_spec() + text.0@.subrange(0, i as int),
        decreases n - i,
    {
        out.push(text.0[i]);
        i = i + 1;
    }
    proof {
        assert(out@ =~= link_target_spec(identifier.text_spec()));
    }
    out
}

/// Reads the child identifier back out of a link target.  Fails unless the
/// target carries the reserved prefix followed by a well-formed identifier.
pub fn parse_link_target(bytes: &[u8]) -> (r: Result<Identifier, ObjectStoreError>)
    ensures
        r is Ok <==> starts_with_spec(bytes@, reserved_prefix_spec()) && text_wf(
            bytes@.subrange(RESERVED_PREFIX_LEN as int, bytes@.len() as int),
        ),
        r matches Ok(id) ==> id.wf() && id.text_spec() == bytes@.subrange(
            RESERVED_PREFIX_LEN as int,
            bytes@.len() as int,
        ),
        r matches Err(e) ==> e is InvalidIdentifier,
{
    if !starts_with_reserved_prefix(bytes) {
        return Err(ObjectStoreError::InvalidIdentifier(copy_bytes(bytes)));
    }
    let rest = slice_subrange(bytes, 11, bytes.len());
    Identifier::from_filename(rest)
}

/// The link target written for an identifier parses back to that
/// identifier's text: the prefix is recognized and stripping it leaves
/// exactly the text.
pub proof fn lemma_link_target_roundtrip(t: Seq<u8>)
    requires
        text_wf(t),
    ensures
        starts_with_spec(link_target_spec(t), reserved_prefix_spec()),
        link_target_spec(t).subrange(RESERVED_PREFIX_LEN as int, link_target_spec(t).len() as int)
            == t,
{
    let s = link_target_spec(t);
    assert(s.subrange(0, 11) =~= reserved_prefix_spec());
    assert(s.subrange(11, s.len() as int) =~= t);
}

/// A user name that starts with the reserved prefix is illegal; this is
/// the exact test `create_link` applies.
pub fn name_is_reserved(name: &[u8]) -> (r: bool)
    ensures
        r <==> starts_with_spec(name@, reserved_prefix_spec()),
{
    starts_with_reserved_prefix(name)
}

} // verus!
