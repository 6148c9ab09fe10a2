//! On-disk layout logic of the object store.
//!
//! Every store operation is split into a verified computation and a thin
//! I/O step: this module computes the exact paths, link targets, version
//! bytes and decisions, and parses what the disk hands back.  The
//! surrounding application only executes the requests (mkdir, symlink,
//! readlink, readdir) these functions describe.

use vstd::prelude::*;

use crate::b64;
use crate::copy_bytes;
use crate::errors::ObjectStoreError;
use crate::identifier::{text_wf, Identifier};
use crate::identifier_kind::ObjectType;
use crate::objectpath::{link_target_spec, reserved_prefix_spec, starts_with_spec};
use crate::opath::{comp_wf, comps_view, OPath, SEPARATOR};
use crate::rev_cursor::flipped;

verus! {

/// Value of an ASCII decimal digit string, most significant first.
pub open spec fn dec_value(s: Seq<u8>) -> int
    decreases s.len(),
{
    if s.len() == 0 {
        0
    } else {
        dec_value(s.drop_last()) * 10 + (s.last() - 48)
    }
}

/// Whether every byte of `s` is an ASCII decimal digit.
pub open spec fn all_digits(s: Seq<u8>) -> bool {
    forall|i: int| 0 <= i < s.len() ==> 48 <= #[trigger] s[i] <= 57
}

/// Digit strings denote non-negative values.
proof fn lemma_dec_value_nonneg(s: Seq<u8>)
    requires
        all_digits(s),
    ensures
        dec_value(s) >= 0,
    decreases s.len(),
{
    if s.len() > 0 {
        assert(all_digits(s.drop_last())) by {
            assert(forall|i: int| 0 <= i < s.len() - 1 ==> s.drop_last()[i] == #[trigger] s[i]);
        }
        lemma_dec_value_nonneg(s.drop_last());
    }
}

/// A digit string is worth at least any of its prefixes.
proof fn lemma_dec_value_prefix(s: Seq<u8>, i: int)
    requires
        all_digits(s),
        0 <= i <= s.len(),
    ensures
        dec_value(s.subrange(0, i)) <= dec_value(s),
    decreases s.len() - i,
{
    if i == s.len() {
        assert(s.subrange(0, i) =~= s);
    } else {
        let p = s.subrange(0, i);
        let q = s.subrange(0, i + 1);
        assert(q.drop_last() =~= p);
        assert(48 <= q.last() <= 57);
        assert(all_digits(p)) by {
            assert(forall|m: int| 0 <= m < i ==> p[m] == #[trigger] s[m]);
        }
        lemma_dec_value_nonneg(p);
        assert(dec_value(q) == dec_value(p) * 10 + (q.last() - 48));
        assert(dec_value(p) * 10 >= dec_value(p)) by (nonlinear_arith)
            requires dec_value(p) >= 0;
        lemma_dec_value_prefix(s, i + 1);
    }
}

/// The version line this build writes: the digit `0` and a newline.
pub open spec fn version_line_spec() -> Seq<u8> {
    seq![48u8, 10u8]
}

/// The bytes of the `objects/version` file.
pub fn version_file_content() -> (r: Vec<u8>)
    ensures
        r@ == version_line_spec(),
{
    let mut v: Vec<u8> = Vec::new();
    v.push(48);
    v.push(10);
    proof {
        assert(v@ =~= version_line_spec());
    }
    v
}

/// Whether a version file is well formed: at least one digit followed by
/// a final byte that the reader strips.
pub open spec fn version_line_wf(line: Seq<u8>) -> bool {
    line.len() >= 2 && all_digits(line.subrange(0, line.len() - 1))
}

/// The version number a well-formed line denotes.
pub open spec fn version_of_line(line: Seq<u8>) -> int {
    dec_value(line.subrange(0, line.len() - 1))
}

/// Reads the store version from the `objects/version` line and rejects
/// everything but the version this build writes.  A malformed line is a
/// fatal store error; a well-formed one with another version reports that
/// version.
pub fn check_version(line: &[u8]) -> (r: Result<u32, ObjectStoreError>)
    ensures
        r matches Ok(v) <==> version_line_wf(line@) && version_of_line(line@) == crate::VERSION,
        r matches Ok(v) ==> v == crate::VERSION,
        r matches Err(e) ==> if version_line_wf(line@) && version_of_line(line@)
            <= u32::MAX {
            e matches ObjectStoreError::UnsupportedObjectStore(w) && w == version_of_line(line@)
        } else {
            e is UnsupportedObjectStore || e is ObjectStoreFatal
        },
{
    let n = line.len();
    if n < 2 {
        return Err(ObjectStoreError::ObjectStoreFatal(copy_bytes(line)));
    }
    let body_len = n - 1;
    let ghost body = line@.subrange(0, n as int - 1);
    let mut acc: u64 = 0;
    let mut i: usize = 0;
    while i < body_len
        invariant
            n == line@.len(),
            2 <= n,
            body_len == n - 1,
            body == line@.subrange(0, n as int - 1),
            i <= body_len,
            all_digits(body.subrange(0, i as int)),
            acc == dec_value(body.subrange(0, i as int)),
            acc <= u32::MAX,
        decreases body_len - i,
    {
        let c = line[i];
        if c < 48 || c > 57 {
            proof {
                assert(body[i as int] == line@[i as int]);
                assert(!all_digits(body));
                assert(!version_line_wf(line@));
            }
            return Err(ObjectStoreError::ObjectStoreFatal(copy_bytes(line)));
        }
        let next: u64 = acc * 10 + ((c - 48) as u64);
        proof {
            let p = body.subrange(0, i as int);
            let q = body.subrange(0, i as int + 1);
            assert(q.drop_last() =~= p);
            assert(q.last() == body[i as int]);
            assert(body[i as int] == line@[i as int]);
            assert(all_digits(q)) by {
                assert(forall|m: int| 0 <= m < i ==> q[m] == #[trigger] p[m]);
            }
            assert(next == dec_value(q));
        }
        if next > 0xFFFF_FFFF {
            proof {
                if version_line_wf(line@) {
                    lemma_dec_value_prefix(body, i as int + 1);
                    assert(body.subrange(0, body.len() as int) =~= body);
                    assert(version_of_line(line@) >= dec_value(body.subrange(0, i as int + 1)));
                }
            }
            return Err(ObjectStoreError::UnsupportedObjectStore(u32::MAX));
        }
        acc = next;
        i = i + 1;
    }
    proof {
        assert(body.subrange(0, body_len as int) =~= body);
    }
    let version = acc as u32;
    if version != crate::VERSION {
        return Err(ObjectStoreError::UnsupportedObjectStore(version));
    }
    Ok(version)
}

/// The 4096 shard directory names, in alphabet order: every two-character
/// combination of the url-safe base64 alphabet.
pub fn shard_names() -> (r: Vec<Vec<u8>>)
    ensures
        r@.len() == 4096,
        forall|i: int|
            0 <= i < 4096 ==> (#[trigger] r@[i])@ =~= seq![
                b64::alphabet(i / 64),
                b64::alphabet(i % 64),
            ],
{
    let mut out: Vec<Vec<u8>> = Vec::new();
    let mut i: usize = 0;
    while i < 4096
        invariant
            i <= 4096,
            out@.len() == i,
            forall|j: int|
                0 <= j < i ==> (#[trigger] out@[j])@ =~= seq![
                    b64::alphabet(j / 64),
                    b64::alphabet(j % 64),
                ],
        decreases 4096 - i,
    {
        let hi = (i / 64) as u8;
        let lo = (i % 64) as u8;
        let mut name: Vec<u8> = Vec::new();
        name.push(b64::sextet_to_char(hi));
        name.push(b64::sextet_to_char(lo));
        proof {
            assert(name@ =~= seq![b64::alphabet(i as int / 64), b64::alphabet(i as int % 64)]);
        }
        out.push(name);
        i = i + 1;
    }
    out
}

/// Placeholder for object metadata selectors.
pub struct Meta;

/// An identifier/name pair naming one entry of a directory object.
pub struct SubObject(pub Identifier, pub Vec<u8>);

impl SubObject {
    /// Both halves are well formed: a directory-capable identifier text
    /// and a single path component as name.
    pub open spec fn wf(&self) -> bool {
        self.0.wf() && comp_wf(self.1@)
    }

    /// The store-relative path of the entry: shard, directory, name.
    pub fn to_pathbuf(&self) -> (r: OPath)
        requires
            self.wf(),
        ensures
            r.components_spec() == seq![
                self.0.text_spec().subrange(0, 2),
                self.0.text_spec(),
                self.1@,
            ],
            r.wf(),
    {
        let r = OPath::new().push_identifier(&self.0).push(self.1.as_slice());
        proof {
            crate::opath::lemma_single_comp_split(self.1@);
            assert(r.components_spec() =~= seq![
                self.0.text_spec().subrange(0, 2),
                self.0.text_spec(),
                self.1@,
            ]);
        }
        r
    }
}

/// The store-relative path of an object: its shard directory, then its
/// full name.  The shard directory name is exactly the first two
/// characters of the identifier text.
pub fn object_path(identifier: &Identifier) -> (r: OPath)
    requires
        identifier.wf(),
    ensures
        r.components_spec() == seq![
            identifier.text_spec().subrange(0, 2),
            identifier.text_spec(),
        ],
        r.wf(),
{
    let r = OPath::new().push_identifier(identifier);
    proof {
        assert(r.components_spec() =~= seq![
            identifier.text_spec().subrange(0, 2),
            identifier.text_spec(),
        ]);
    }
    r
}

/// What a `create_link` call must write: a symlink at `source` whose
/// target is `target`.
pub struct LinkRequest {
    /// Store-relative path of the symlink: shard, parent, name.
    pub source: OPath,
    /// Target bytes: the reserved prefix followed by the child text.
    pub target: Vec<u8>,
}

/// Computes the symlink a new child link must create.  Fails when the
/// parent is no directory or the name begins with the reserved prefix.
pub fn create_link_request(identifier: &Identifier, parent: &SubObject) -> (r: Result<
    LinkRequest,
    ObjectStoreError,
>)
    requires
        identifier.wf(),
        parent.wf(),
    ensures
        r is Ok <==> parent.0.components_spec().0 == ObjectType::Directory && !starts_with_spec(
            parent.1@,
            reserved_prefix_spec(),
        ),
        r matches Ok(req) ==> req.source.components_spec() == seq![
            parent.0.text_spec().subrange(0, 2),
            parent.0.text_spec(),
            parent.1@,
        ] && req.target@ == link_target_spec(identifier.text_spec()),
        r matches Err(e) ==> if parent.0.components_spec().0 != ObjectType::Directory {
            e is ObjectType
        } else {
            e matches ObjectStoreError::IllegalFileName(name) && name@ == parent.1@
        },
{
    match parent.0.ensure_dir() {
        Ok(_) => {},
        Err(e) => {
            return Err(e);
        },
    }
    if crate::objectpath::name_is_reserved(parent.1.as_slice()) {
        return Err(ObjectStoreError::IllegalFileName(copy_bytes(parent.1.as_slice())));
    }
    let source = parent.to_pathbuf();
    let target = crate::objectpath::link_target(identifier);
    Ok(LinkRequest { source, target })
}

/// Computes the path whose symlink holds a child's identifier; reading
/// and parsing that link is `sub_object_id`.  Fails when the claimed
/// parent is no directory.
pub fn sub_object_request(sub_object: &SubObject) -> (r: Result<OPath, ObjectStoreError>)
    requires
        sub_object.wf(),
    ensures
        r is Ok <==> sub_object.0.components_spec().0 == ObjectType::Directory,
        r matches Ok(p) ==> p.components_spec() == seq![
            sub_object.0.text_spec().subrange(0, 2),
            sub_object.0.text_spec(),
            sub_object.1@,
        ],
        r matches Err(e) ==> e is ObjectType,
{
    match sub_object.0.ensure_dir() {
        Ok(_) => {},
        Err(e) => {
            return Err(e);
        },
    }
    Ok(sub_object.to_pathbuf())
}

/// Interprets one directory entry as a child link: an entry counts only
/// if its symlink target carries the reserved prefix and a well-formed
/// identifier.
pub fn directory_entry(name: &Vec<u8>, target: &[u8]) -> (r: Option<(Vec<u8>, Identifier)>)
    ensures
        r is Some <==> starts_with_spec(target@, reserved_prefix_spec()) && text_wf(
            target@.subrange(
                crate::objectpath::RESERVED_PREFIX_LEN as int,
                target@.len() as int,
            ),
        ),
        r matches Some(p) ==> p.0@ == name@ && p.1.wf() && p.1.text_spec() == target@.subrange(
            crate::objectpath::RESERVED_PREFIX_LEN as int,
            target@.len() as int,
        ),
{
    match crate::objectpath::parse_link_target(target) {
        Ok(id) => Some((copy_bytes(name.as_slice()), id)),
        Err(_) => None,
    }
}

/// The target bytes of the `objects/root` symlink for a root directory:
/// the store-relative path of the object.  Fails unless the object is a
/// directory.
pub fn set_root_request(identifier: &Identifier) -> (r: Result<Vec<u8>, ObjectStoreError>)
    requires
        identifier.wf(),
    ensures
        r is Ok <==> identifier.components_spec().0 == ObjectType::Directory,
        r matches Ok(t) ==> t@ == identifier.text_spec().subrange(0, 2) + seq![SEPARATOR]
            + identifier.text_spec(),
        r matches Err(e) ==> e is ObjectType,
{
    match identifier.ensure_dir() {
        Ok(_) => {},
        Err(e) => {
            return Err(e);
        },
    }
    let path = object_path(identifier);
    let bytes = path.as_bytes();
    proof {
        let shard = identifier.text_spec().subrange(0, 2);
        let comps = path.components_spec();
        assert(comps.len() == 2);
        let dl = comps.drop_last();
        assert(dl =~= seq![shard]);
        assert(crate::opath::joined(dl) == dl[0]);
        assert(dl[0] == shard);
        assert(comps.last() == identifier.text_spec());
        assert(crate::opath::joined(comps) == crate::opath::joined(dl) + seq![SEPARATOR]
            + comps.last());
    }
    Ok(bytes)
}

/// The maximal separator-free suffix of `s`: what a root link's final
/// path component holds.
pub open spec fn final_component(s: Seq<u8>) -> Seq<u8> {
    flipped(flipped(s).subrange(0, crate::opath::first_sep(flipped(s))))
}

/// Reads the root identifier out of the `objects/root` link target.
/// Anything but a well-formed identifier in the final component is a
/// fatal store error.
pub fn parse_root_link(link: &[u8]) -> (r: Result<Identifier, ObjectStoreError>)
    ensures
        r is Ok <==> text_wf(final_component(link@)),
        r matches Ok(id) ==> id.wf() && id.text_spec() == final_component(link@),
        r matches Err(e) ==> e is ObjectStoreFatal,
{
    let n = link.len();
    let mut j: usize = n;
    while j > 0 && link[j - 1] != SEPARATOR
        invariant
            n == link@.len(),
            j <= n,
            forall|m: int| j <= m < n ==> link@[m] != SEPARATOR,
        decreases j,
    {
        j = j - 1;
    }
    proof {
        let f = flipped(link@);
        assert forall|m: int| 0 <= m < n - j implies f[m] != SEPARATOR by {
            assert(f[m] == link@[n - 1 - m]);
        }
        if j > 0 {
            assert(f[n - j] == link@[j as int - 1]);
        }
        crate::opath::lemma_first_sep_at(f, n - j as int);
        assert(final_component(link@) =~= link@.subrange(j as int, n as int));
    }
    let tail = vstd::slice::slice_subrange(link, j, n);
    match Identifier::from_filename(tail) {
        Ok(id) => Ok(id),
        Err(_) => Err(ObjectStoreError::ObjectStoreFatal(copy_bytes(link))),
    }
}

/// Setting the root and reading it back yields the same identifier text:
/// the final component of the written target is exactly the text.
pub proof fn lemma_root_roundtrip(t: Seq<u8>)
    requires
        text_wf(t),
    ensures
        final_component(t.subrange(0, 2) + seq![SEPARATOR] + t) == t,
{
    let s = t.subrange(0, 2) + seq![SEPARATOR] + t;
    let f = flipped(s);
    assert(s.len() == 47);
    assert forall|m: int| 0 <= m < 44 implies f[m] != SEPARATOR by {
        assert(f[m] == s[46 - m]);
        assert(s[46 - m] == t[43 - m]);
        assert(crate::b64::is_b64_char(t[43 - m]));
    }
    assert(f[44] == s[2]);
    assert(s[2] == SEPARATOR);
    crate::opath::lemma_first_sep_at(f, 44);
    assert(final_component(s) =~= t);
}

/// Whether a stored entry name matches an abbreviated identifier: full
/// identifier length and the abbreviation as prefix.
pub open spec fn prefix_match(entry: Seq<u8>, abbrev: Seq<u8>) -> bool {
    entry.len() == crate::FLIPBASE64_LEN && starts_with_spec(entry, abbrev)
}

/// Resolves an abbreviated identifier against the entries of its shard
/// directory.  The abbreviation must be 4 to 44 characters; exactly one
/// entry may match it.
pub fn identifier_lookup_scan(abbrev: &[u8], entries: &Vec<Vec<u8>>) -> (r: Result<
    Identifier,
    ObjectStoreError,
>)
    ensures
        !(4 <= abbrev@.len() <= 44) ==> (r matches Err(e) && e is InvalidIdentifier),
        4 <= abbrev@.len() <= 44 ==> {
            let es = comps_view(entries@);
            {
                &&& (forall|i: int| 0 <= i < es.len() ==> !prefix_match(#[trigger] es[i], abbrev@))
                    ==> (r matches Err(e) && e matches ObjectStoreError::ObjectNotFound(a) && a@
                    == abbrev@)
                &&& (exists|i: int, k: int|
                    0 <= i < k < es.len() && prefix_match(#[trigger] es[i], abbrev@)
                        && prefix_match(#[trigger] es[k], abbrev@)) ==> (r matches Err(e)
                    && e matches ObjectStoreError::IdentifierAmbiguous(a) && a@ == abbrev@)
                &&& r matches Ok(id) ==> id.wf() && starts_with_spec(id.text_spec(), abbrev@)
                    && (exists|i: int|
                    0 <= i < es.len() && prefix_match(#[trigger] es[i], abbrev@) && id.text_spec()
                        == es[i])
                &&& (exists|i: int|
                    0 <= i < es.len() && prefix_match(#[trigger] es[i], abbrev@) && text_wf(es[i])
                        && (forall|j: int|
                        0 <= j < es.len() && prefix_match(#[trigger] es[j], abbrev@) ==> j == i))
                    ==> r is Ok
            }
        },
{
    let len = abbrev.len();
    if len < 4 || len > 44 {
        return Err(ObjectStoreError::InvalidIdentifier(copy_bytes(abbrev)));
    }
    let n = entries.len();
    let mut found: Option<usize> = None;
    let mut i: usize = 0;
    while i < n
        invariant
            n == entries@.len(),
            i <= n,
            4 <= abbrev@.len() <= 44,
            found is None ==> forall|k: int|
                0 <= k < i ==> !prefix_match(#[trigger] comps_view(entries@)[k], abbrev@),
            found matches Some(f) ==> f < i && prefix_match(comps_view(entries@)[f as int], abbrev@)
                && forall|k: int|
                0 <= k < i && k != f ==> !prefix_match(#[trigger] comps_view(entries@)[k], abbrev@),
        decreases n - i,
    {
        let entry = &entries[i];
        let is_match = if entry.len() == 44 {
            let head = vstd::slice::slice_subrange(entry.as_slice(), 0, abbrev.len());
            crate::bytes_eq(head, abbrev)
        } else {
            false
        };
        proof {
            assert(comps_view(entries@)[i as int] == entries@[i as int]@);
            if entry@.len() == 44 {
                assert(entry@.subrange(0, abbrev@.len() as int) == abbrev@ <==> starts_with_spec(
                    entry@,
                    abbrev@,
                ));
            }
            assert(is_match <==> prefix_match(comps_view(entries@)[i as int], abbrev@));
        }
        if is_match {
            match found {
                Some(_) => {
                    return Err(ObjectStoreError::IdentifierAmbiguous(copy_bytes(abbrev)));
                },
                None => {
                    found = Some(i);
                },
            }
        }
        i = i + 1;
    }
    match found {
        Some(f) => {
            let entry = &entries[f];
            match Identifier::from_filename(entry.as_slice()) {
                Ok(id) => {
                    proof {
                        assert(prefix_match(comps_view(entries@)[f as int], abbrev@));
                        assert(id.text_spec().subrange(0, abbrev@.len() as int) == abbrev@);
                    }
                    Ok(id)
                },
                Err(e) => Err(e),
            }
        },
        None => Err(ObjectStoreError::ObjectNotFound(copy_bytes(abbrev))),
    }
}

/// How a path starts: at the store root, or at an abbreviated identifier.
pub enum PathStart {
    /// A leading `/`: traversal starts at the root identifier.
    Root,
    /// `<prefix>//`: traversal starts at the object the prefix resolves to.
    Prefix(Vec<u8>),
}

/// Whether the path bytes name the root form: a leading separator.
pub open spec fn is_root_form(p: Seq<u8>) -> bool {
    p.len() >= 1 && p[0] == SEPARATOR
}

/// Whether the path bytes name the prefix form: 4 to 44 non-separator
/// characters, then two separators.
pub open spec fn is_prefix_form(p: Seq<u8>) -> bool {
    let k = crate::opath::first_sep(p);
    &&& 4 <= k <= 44
    &&& k + 1 < p.len()
    &&& p[k] == SEPARATOR
    &&& p[k + 1] == SEPARATOR
}

/// Splits a user path into its start and its relative remainder,
/// following the accepted grammar.  Any other shape is an invalid path.
pub fn parse_path(path: &[u8]) -> (r: Result<(PathStart, OPath), ObjectStoreError>)
    ensures
        r is Ok <==> is_root_form(path@) || is_prefix_form(path@),
        r matches Ok(p) ==> (if is_root_form(path@) {
            p.0 is Root && p.1.components_spec() == crate::opath::split_comps(
                path@.subrange(1, path@.len() as int),
            )
        } else {
            let k = crate::opath::first_sep(path@);
            p.0 matches PathStart::Prefix(pre) && pre@ == path@.subrange(0, k)
                && p.1.components_spec() == crate::opath::split_comps(
                path@.subrange(k + 2, path@.len() as int),
            )
        }) && p.1.wf(),
        r matches Err(e) ==> e is ObjectStoreFatal,
{
    let n = path.len();
    if n >= 1 && path[0] == SEPARATOR {
        let rest = vstd::slice::slice_subrange(path, 1, n);
        let p = OPath::prefix(rest);
        return Ok((PathStart::Root, p));
    }
    let mut j: usize = 0;
    while j < n && path[j] != SEPARATOR
        invariant
            n == path@.len(),
            j <= n,
            forall|m: int| 0 <= m < j ==> path@[m] != SEPARATOR,
        decreases n - j,
    {
        j = j + 1;
    }
    proof {
        crate::opath::lemma_first_sep_at(path@, j as int);
    }
    if j >= 4 && j <= 44 && j + 1 < n && path[j + 1] == SEPARATOR {
        let prefix = copy_bytes(vstd::slice::slice_subrange(path, 0, j));
        let rest = vstd::slice::slice_subrange(path, j + 2, n);
        let p = OPath::prefix(rest);
        Ok((PathStart::Prefix(prefix), p))
    } else {
        proof {
            if j < n {
                assert(path@[j as int] == SEPARATOR);
            }
            assert(!is_root_form(path@));
            assert(!is_prefix_form(path@));
        }
        Err(ObjectStoreError::ObjectStoreFatal(copy_bytes(path)))
    }
}

/// A path traversal in progress: the deepest identifier reached so far
/// and the components still unresolved.  The surrounding store feeds it
/// one looked-up child at a time.
pub struct Traversal {
    current: Identifier,
    comps: Vec<Vec<u8>>,
    index: usize,
    halted: bool,
}

impl Traversal {
    /// The identifier reached so far.
    pub closed spec fn current_spec(&self) -> Identifier {
        self.current
    }

    /// All components of the path being walked.
    pub closed spec fn comps_spec(&self) -> Seq<Seq<u8>> {
        comps_view(self.comps@)
    }

    /// How many components have been resolved.
    pub closed spec fn index_spec(&self) -> int {
        self.index as int
    }

    /// Whether a lookup came back `NotFound` and the walk stopped.
    pub closed spec fn halted_spec(&self) -> bool {
        self.halted
    }

    /// The walk state is consistent.
    pub open spec fn wf(&self) -> bool {
        self.current_spec().wf() && 0 <= self.index_spec() <= self.comps_spec().len()
    }

    /// Starts a walk over the normalized components of `path` from
    /// `root`.
    pub fn start(root: Identifier, path: &OPath) -> (r: Traversal)
        requires
            root.wf(),
        ensures
            r.wf(),
            r.current_spec() == root,
            r.comps_spec() == path.components_spec(),
            r.index_spec() == 0,
            !r.halted_spec(),
    {
        Traversal { current: root, comps: path.iter(), index: 0, halted: false }
    }

    /// The next lookup the walk needs: the current identifier and the
    /// component to resolve under it, or nothing once the walk is done.
    pub fn next_lookup(&self) -> (r: Option<(&Identifier, &Vec<u8>)>)
        ensures
            r is Some <==> !self.halted_spec() && self.index_spec() < self.comps_spec().len(),
            r matches Some(p) ==> *p.0 == self.current_spec() && p.1@ == self.comps_spec()[
                self.index_spec()],
    {
        if !self.halted && self.index < self.comps.len() {
            Some((&self.current, &self.comps[self.index]))
        } else {
            None
        }
    }

    /// Records that the pending component resolved to `child`: the walk
    /// descends.
    pub fn found(&mut self, child: Identifier)
        requires
            old(self).wf(),
            child.wf(),
            !old(self).halted_spec(),
            old(self).index_spec() < old(self).comps_spec().len(),
        ensures
            final(self).wf(),
            final(self).current_spec() == child,
            final(self).comps_spec() == old(self).comps_spec(),
            final(self).index_spec() == old(self).index_spec() + 1,
            !final(self).halted_spec(),
    {
        let len = self.comps.len();
        proof {
            assert(old(self).comps_spec().len() == self.comps@.len());
            assert(self.index < len);
        }
        self.current = child;
        self.index = self.index + 1;
    }

    /// Records that the pending component does not exist: the walk stops
    /// and everything from here on is remainder.
    pub fn not_found(&mut self)
        requires
            old(self).wf(),
        ensures
            final(self).wf(),
            final(self).current_spec() == old(self).current_spec(),
            final(self).comps_spec() == old(self).comps_spec(),
            final(self).index_spec() == old(self).index_spec(),
            final(self).halted_spec(),
    {
        self.halted = true;
    }

    /// Ends the walk: the deepest identifier resolved and the unconsumed
    /// suffix of the path.
    pub fn finish(self) -> (r: (Identifier, OPath))
        requires
            self.wf(),
        ensures
            r.0 == self.current_spec(),
            r.1.components_spec() == self.comps_spec().subrange(
                self.index_spec(),
                self.comps_spec().len() as int,
            ),
            r.0.wf(),
    {
        let n = self.comps.len();
        let mut rest: Vec<Vec<u8>> = Vec::new();
        let mut i = self.index;
        proof {
            assert(comps_view(rest@) =~= Seq::<Seq<u8>>::empty());
        }
        while i < n
            invariant
                n == self.comps@.len(),
                self.index <= i <= n,
                comps_view(rest@) =~= comps_view(self.comps@).subrange(
                    self.index as int,
                    i as int,
                ),
            decreases n - i,
        {
            let ghost before = comps_view(rest@);
            rest.push(copy_bytes(self.comps[i].as_slice()));
            proof {
                assert(comps_view(rest@) =~= before.push(self.comps@[i as int]@));
            }
            i = i + 1;
        }
        let remainder = OPath::from_components(rest);
        (self.current, remainder)
    }
}

/// What initialization does with the target directory.
#[derive(Debug, Clone, Copy, PartialEq, Eq, Structural)]
pub enum InitAction {
    /// The directory does not exist yet and is created first.
    CreateBaseDir,
    /// The directory exists and may be initialized in place.
    UseExisting,
}

/// Decides whether a store may be initialized at a directory, from what
/// the host reports about it: a missing directory is created; an
/// existing store needs the force option; a non-empty foreign directory
/// and a non-directory are refused.
pub fn init_precheck(
    exists: bool,
    is_dir: bool,
    has_version: bool,
    is_empty: bool,
    force: bool,
    name: &[u8],
) -> (r: Result<InitAction, ObjectStoreError>)
    ensures
        !exists ==> r == Ok::<InitAction, ObjectStoreError>(InitAction::CreateBaseDir),
        exists && !is_dir ==> (r matches Err(e) && e matches ObjectStoreError::ObjectStoreNoDir(p)
            && p@ == name@),
        exists && is_dir && has_version && !force ==> (r matches Err(e)
            && e matches ObjectStoreError::ObjectStoreExists(p) && p@ == name@),
        exists && is_dir && has_version && force ==> r == Ok::<InitAction, ObjectStoreError>(
            InitAction::UseExisting,
        ),
        exists && is_dir && !has_version && !is_empty ==> (r matches Err(e)
            && e matches ObjectStoreError::ObjectStoreForeignExists(p) && p@ == name@),
        exists && is_dir && !has_version && is_empty ==> r == Ok::<InitAction, ObjectStoreError>(
            InitAction::UseExisting,
        ),
{
    if !exists {
        Ok(InitAction::CreateBaseDir)
    } else if !is_dir {
        Err(ObjectStoreError::ObjectStoreNoDir(copy_bytes(name)))
    } else if has_version {
        if force {
            Ok(InitAction::UseExisting)
        } else {
            Err(ObjectStoreError::ObjectStoreExists(copy_bytes(name)))
        }
    } else if !is_empty {
        Err(ObjectStoreError::ObjectStoreForeignExists(copy_bytes(name)))
    } else {
        Ok(InitAction::UseExisting)
    }
}

/// Open for reading only.
pub const O_RDONLY: i32 = 0;

/// Open for writing only.
pub const O_WRONLY: i32 = 1;

/// Open for reading and writing.
pub const O_RDWR: i32 = 2;

/// Append on each write.
pub const O_APPEND: i32 = 1024;

/// Close the descriptor on exec.
pub const O_CLOEXEC: i32 = 524288;

/// Owner may read.
pub const S_IRUSR: u32 = 256;

/// Owner may write.
pub const S_IWUSR: u32 = 128;

/// Owner may execute or search.
pub const S_IXUSR: u32 = 64;

/// Group may read.
pub const S_IRGRP: u32 = 32;

/// Group may write.
pub const S_IWGRP: u32 = 16;

/// Group may execute or search.
pub const S_IXGRP: u32 = 8;

/// How a file handle is opened, abstracted from the host flags.
pub struct FileAccess(pub i32);

impl FileAccess {
    /// No access chosen yet.
    pub fn new() -> (r: Self)
        ensures
            r.0 == 0,
    {
        FileAccess(0)
    }

    /// Read-only access.
    pub fn readonly(self) -> (r: Self)
        requires
            self.0 == 0,
        ensures
            r.0 == O_RDONLY,
    {
        FileAccess(O_RDONLY)
    }

    /// Write-only access.
    pub fn writeonly(self) -> (r: Self)
        requires
            self.0 == 0,
        ensures
            r.0 == O_WRONLY,
    {
        FileAccess(O_WRONLY)
    }

    /// Read and write access.
    pub fn readwrite(self) -> (r: Self)
        requires
            self.0 == 0,
        ensures
            r.0 == O_RDWR,
    {
        FileAccess(O_RDWR)
    }

    /// Appending writes.
    pub fn append(self) -> (r: Self)
        requires
            self.0 == 0,
        ensures
            r.0 == O_APPEND,
    {
        FileAccess(O_APPEND)
    }

    /// Extra host flags, verbatim.
    pub fn extra_flags(self, flags: i32) -> (r: Self)
        requires
            self.0 == 0,
        ensures
            r.0 == flags,
    {
        FileAccess(flags)
    }

    /// The host flags, with close-on-exec added.
    pub fn get(self) -> (r: i32)
        ensures
            r == self.0 | O_CLOEXEC,
    {
        self.0 | O_CLOEXEC
    }

    /// The host flags as chosen, without close-on-exec.
    pub fn get_no_cloexec(self) -> (r: i32)
        ensures
            r == self.0,
    {
        self.0
    }
}

/// Permission bits of a file object.
pub struct FilePermissions(pub u32);

impl FilePermissions {
    /// No permissions yet.
    pub fn new() -> (r: Self)
        ensures
            r.0 == 0,
    {
        FilePermissions(0)
    }

    /// Owner and group may read.
    pub fn read(self) -> (r: Self)
        ensures
            r.0 == self.0 | S_IRUSR | S_IRGRP,
    {
        FilePermissions(self.0 | S_IRUSR | S_IRGRP)
    }

    /// Owner and group may write.
    pub fn write(self) -> (r: Self)
        ensures
            r.0 == self.0 | S_IWUSR | S_IWGRP,
    {
        FilePermissions(self.0 | S_IWUSR | S_IWGRP)
    }

    /// Owner and group may read and write.
    pub fn full(self) -> (r: Self)
        ensures
            r.0 == self.0 | S_IRUSR | S_IRGRP | S_IWUSR | S_IWGRP,
    {
        FilePermissions(self.0 | S_IRUSR | S_IRGRP | S_IWUSR | S_IWGRP)
    }

    /// The host mode bits.
    pub fn get(self) -> (r: u32)
        ensures
            r == self.0,
    {
        self.0
    }
}

/// Attribute bits of a file object beyond its permissions.
pub struct FileAttributes(pub u32);

impl FileAttributes {
    /// No attributes yet.
    pub fn new() -> (r: Self)
        ensures
            r.0 == 0,
    {
        FileAttributes(0)
    }

    /// Owner and group may execute.
    pub fn execute(self) -> (r: Self)
        ensures
            r.0 == self.0 | S_IXUSR | S_IXGRP,
    {
        FileAttributes(self.0 | S_IXUSR | S_IXGRP)
    }

    /// The host mode bits.
    pub fn get(self) -> (r: u32)
        ensures
            r == self.0,
    {
        self.0
    }
}

/// Permission bits of a directory object.
pub struct DirectoryPermissions(pub u32);

impl DirectoryPermissions {
    /// No permissions yet.
    pub fn new() -> (r: Self)
        ensures
            r.0 == 0,
    {
        DirectoryPermissions(0)
    }

    /// Owner and group may list entries.
    pub fn list(self) -> (r: Self)
        ensures
            r.0 == self.0 | S_IRUSR | S_IRGRP,
    {
        DirectoryPermissions(self.0 | S_IRUSR | S_IRGRP)
    }

    /// Owner and group may enter and read entries.
    pub fn read(self) -> (r: Self)
        ensures
            r.0 == self.0 | S_IXUSR | S_IXGRP,
    {
        DirectoryPermissions(self.0 | S_IXUSR | S_IXGRP)
    }

    /// Owner and group may change entries.
    pub fn change(self) -> (r: Self)
        ensures
            r.0 == self.0 | S_IWUSR | S_IWGRP,
    {
        DirectoryPermissions(self.0 | S_IWUSR | S_IWGRP)
    }

    /// Owner and group may list, enter and change entries.
    pub fn full(self) -> (r: Self)
        ensures
            r.0 == self.0 | S_IRUSR | S_IRGRP | S_IXUSR | S_IXGRP | S_IWUSR | S_IWGRP,
    {
        DirectoryPermissions(self.0 | S_IRUSR | S_IRGRP | S_IXUSR | S_IXGRP | S_IWUSR | S_IWGRP)
    }

    /// The host mode bits.
    pub fn get(self) -> (r: u32)
        ensures
            r == self.0,
    {
        self.0
    }
}

} // verus!
