//! Store-relative path handling.
//!
//! An `OPath` is a relative path kept as its list of components: non-empty
//! byte strings free of the separator.  Splitting raw bytes, joining back,
//! and normalization (dropping `.`, resolving `..`, refusing to ascend
//! above the root) are all verified against recursive specifications.

use vstd::prelude::*;

use crate::copy_bytes;
use crate::errors::ObjectStoreError;
use crate::identifier::Identifier;
use crate::objectpath::{link_target, reserved_prefix_spec};

verus! {

/// The path separator byte `/`.
pub const SEPARATOR: u8 = 47;

/// A single component: non-empty and free of separators.
pub open spec fn comp_wf(c: Seq<u8>) -> bool {
    c.len() > 0 && forall|i: int| 0 <= i < c.len() ==> c[i] != SEPARATOR
}

/// Index of the first separator in `s`, or its length if none occurs.
pub open spec fn first_sep(s: Seq<u8>) -> int
    decreases s.len(),
{
    if s.len() == 0 {
        0
    } else if s[0] == SEPARATOR {
        0
    } else {
        1 + first_sep(s.subrange(1, s.len() as int))
    }
}

/// The component list a byte string splits into: maximal non-empty runs
/// between separators.
pub open spec fn split_comps(s: Seq<u8>) -> Seq<Seq<u8>>
    decreases s.len(),
    via split_comps_decreases
{
    if s.len() == 0 {
        Seq::empty()
    } else if s[0] == SEPARATOR {
        split_comps(s.subrange(1, s.len() as int))
    } else {
        let k = first_sep(s);
        seq![s.subrange(0, k)] + split_comps(s.subrange(k, s.len() as int))
    }
}

/// The recursion of `split_comps` always advances the scan.
#[via_fn]
proof fn split_comps_decreases(s: Seq<u8>) {
    if s.len() > 0 && s[0] != SEPARATOR {
        lemma_first_sep_bounds(s);
        assert(first_sep(s) >= 1);
    }
}

/// The first separator index lies within the string, behind no other
/// separator, and on one unless the string has none.
proof fn lemma_first_sep_bounds(s: Seq<u8>)
    ensures
        0 <= first_sep(s) <= s.len(),
        forall|m: int| 0 <= m < first_sep(s) ==> s[m] != SEPARATOR,
        first_sep(s) < s.len() ==> s[first_sep(s)] == SEPARATOR,
    decreases s.len(),
{
    if s.len() == 0 {
    } else if s[0] == SEPARATOR {
    } else {
        let t = s.subrange(1, s.len() as int);
        lemma_first_sep_bounds(t);
        assert forall|m: int| 0 <= m < first_sep(s) implies s[m] != SEPARATOR by {
            if m > 0 {
                assert(s[m] == t[m - 1]);
            }
        }
        if first_sep(s) < s.len() {
            assert(s[first_sep(s)] == t[first_sep(s) - 1]);
        }
    }
}

/// A position in front of which no separator occurs, and which holds one
/// or ends the string, is the first separator index.
pub proof fn lemma_first_sep_at(s: Seq<u8>, j: int)
    requires
        0 <= j <= s.len(),
        forall|m: int| 0 <= m < j ==> s[m] != SEPARATOR,
        j < s.len() ==> s[j] == SEPARATOR,
    ensures
        first_sep(s) == j,
    decreases s.len(),
{
    if s.len() == 0 {
    } else if s[0] == SEPARATOR {
        assert(j == 0);
    } else {
        let t = s.subrange(1, s.len() as int);
        assert(j >= 1);
        assert forall|m: int| 0 <= m < j - 1 implies t[m] != SEPARATOR by {
            assert(t[m] == s[m + 1]);
        }
        if j - 1 < t.len() {
            assert(t[j - 1] == s[j]);
        }
        lemma_first_sep_at(t, j - 1);
    }
}

/// Splitting ignores a separator at the scan position.
proof fn lemma_split_skip_sep(s: Seq<u8>, i: int)
    requires
        0 <= i < s.len(),
        s[i] == SEPARATOR,
    ensures
        split_comps(s.subrange(i, s.len() as int)) == split_comps(
            s.subrange(i + 1, s.len() as int),
        ),
{
    let a = s.subrange(i, s.len() as int);
    assert(a[0] == SEPARATOR);
    assert(a.subrange(1, a.len() as int) =~= s.subrange(i + 1, s.len() as int));
}

/// Splitting takes the whole separator-free run at the scan position as
/// its next component.
proof fn lemma_split_take_comp(s: Seq<u8>, i: int, j: int)
    requires
        0 <= i < j <= s.len(),
        forall|m: int| i <= m < j ==> s[m] != SEPARATOR,
        j < s.len() ==> s[j] == SEPARATOR,
    ensures
        split_comps(s.subrange(i, s.len() as int)) == seq![s.subrange(i, j)] + split_comps(
            s.subrange(j, s.len() as int),
        ),
{
    let a = s.subrange(i, s.len() as int);
    assert forall|m: int| 0 <= m < j - i implies a[m] != SEPARATOR by {
        assert(a[m] == s[i + m]);
    }
    if j - i < a.len() {
        assert(a[j - i] == s[j]);
    }
    lemma_first_sep_at(a, j - i);
    assert(a[0] != SEPARATOR);
    assert(a.subrange(0, j - i) =~= s.subrange(i, j));
    assert(a.subrange(j - i, a.len() as int) =~= s.subrange(j, s.len() as int));
}

/// A single well-formed component splits into itself alone.
pub proof fn lemma_single_comp_split(c: Seq<u8>)
    requires
        comp_wf(c),
    ensures
        split_comps(c) == seq![c],
{
    lemma_first_sep_at(c, c.len() as int);
    assert(c.subrange(0, c.len() as int) =~= c);
    assert(c.subrange(c.len() as int, c.len() as int) =~= Seq::<u8>::empty());
    assert(split_comps(Seq::<u8>::empty()) =~= Seq::<Seq<u8>>::empty());
    assert(seq![c] + Seq::<Seq<u8>>::empty() =~= seq![c]);
}

/// The bytes a component list joins back into, separator-delimited.
pub open spec fn joined(comps: Seq<Seq<u8>>) -> Seq<u8>
    decreases comps.len(),
{
    if comps.len() == 0 {
        Seq::empty()
    } else if comps.len() == 1 {
        comps[0]
    } else {
        joined(comps.drop_last()) + seq![SEPARATOR] + comps.last()
    }
}

/// One normalization step folded over the components: `.` vanishes, `..`
/// removes the last accumulated component or fails, anything else is kept.
pub open spec fn norm_rec(acc: Seq<Seq<u8>>, rest: Seq<Seq<u8>>) -> Option<Seq<Seq<u8>>>
    decreases rest.len(),
{
    if rest.len() == 0 {
        Some(acc)
    } else {
        let c = rest[0];
        if c == seq![46u8] {
            norm_rec(acc, rest.subrange(1, rest.len() as int))
        } else if c == seq![46u8, 46u8] {
            if acc.len() == 0 {
                None
            } else {
                norm_rec(acc.drop_last(), rest.subrange(1, rest.len() as int))
            }
        } else {
            norm_rec(acc.push(c), rest.subrange(1, rest.len() as int))
        }
    }
}

/// The normalized form of a component list, or nothing when it ascends
/// above its root.
pub open spec fn normalize_spec(comps: Seq<Seq<u8>>) -> Option<Seq<Seq<u8>>> {
    norm_rec(Seq::empty(), comps)
}

/// No component of `comps` is `.` or `..`.
pub open spec fn no_specials(comps: Seq<Seq<u8>>) -> bool {
    forall|i: int|
        0 <= i < comps.len() ==> #[trigger] comps[i] != seq![46u8] && comps[i] != seq![46u8, 46u8]
}

/// Normalizing from a special-free accumulator leaves no specials behind.
proof fn lemma_norm_rec_no_specials(acc: Seq<Seq<u8>>, rest: Seq<Seq<u8>>)
    requires
        no_specials(acc),
        norm_rec(acc, rest) is Some,
    ensures
        no_specials(norm_rec(acc, rest).unwrap()),
    decreases rest.len(),
{
    if rest.len() == 0 {
    } else {
        let c = rest[0];
        let tail = rest.subrange(1, rest.len() as int);
        if c == seq![46u8] {
            lemma_norm_rec_no_specials(acc, tail);
        } else if c == seq![46u8, 46u8] {
            assert(no_specials(acc.drop_last())) by {
                assert(forall|i: int|
                    0 <= i < acc.len() - 1 ==> acc.drop_last()[i] == #[trigger] acc[i]);
                assert forall|i: int|
                    0 <= i < acc.drop_last().len() implies #[trigger] acc.drop_last()[i] != seq![
                    46u8,
                ] && acc.drop_last()[i] != seq![46u8, 46u8] by {
                    assert(acc.drop_last()[i] == acc[i]);
                }
            }
            lemma_norm_rec_no_specials(acc.drop_last(), tail);
        } else {
            assert(no_specials(acc.push(c))) by {
                assert forall|i: int|
                    0 <= i < acc.push(c).len() implies #[trigger] acc.push(c)[i] != seq![46u8]
                    && acc.push(c)[i] != seq![46u8, 46u8] by {
                    if i < acc.len() {
                        assert(acc.push(c)[i] == acc[i]);
                    } else {
                        assert(acc.push(c)[i] == c);
                    }
                }
            }
            lemma_norm_rec_no_specials(acc.push(c), tail);
        }
    }
}

/// Folding a special-free list only appends it.
proof fn lemma_norm_rec_appends(acc: Seq<Seq<u8>>, rest: Seq<Seq<u8>>)
    requires
        no_specials(rest),
    ensures
        norm_rec(acc, rest) == Some(acc + rest),
    decreases rest.len(),
{
    if rest.len() == 0 {
        assert(acc + rest =~= acc);
    } else {
        let c = rest[0];
        let tail = rest.subrange(1, rest.len() as int);
        assert(c != seq![46u8] && c != seq![46u8, 46u8]);
        assert(no_specials(tail)) by {
            assert forall|i: int|
                0 <= i < tail.len() implies #[trigger] tail[i] != seq![46u8] && tail[i] != seq![
                46u8,
                46u8,
            ] by {
                assert(tail[i] == rest[i + 1]);
            }
        }
        lemma_norm_rec_appends(acc.push(c), tail);
        assert(acc.push(c) + tail =~= acc + rest);
    }
}

/// Normalization is idempotent: normalizing a normalized path changes
/// nothing.
pub proof fn lemma_normalize_idempotent(comps: Seq<Seq<u8>>)
    requires
        normalize_spec(comps) is Some,
    ensures
        normalize_spec(normalize_spec(comps).unwrap()) == normalize_spec(comps),
{
    let q = normalize_spec(comps).unwrap();
    lemma_norm_rec_no_specials(Seq::empty(), comps);
    lemma_norm_rec_appends(Seq::empty(), q);
    assert(Seq::<Seq<u8>>::empty() + q =~= q);
}

/// A store-relative path, kept as its component list.
#[derive(Debug, PartialEq)]
pub struct OPath {
    comps: Vec<Vec<u8>>,
}

/// The abstract component list of a component vector.
pub open spec fn comps_view(v: Seq<Vec<u8>>) -> Seq<Seq<u8>> {
    v.map_values(|c: Vec<u8>| c@)
}

impl OPath {
    /// The component list of this path.
    pub closed spec fn components_spec(&self) -> Seq<Seq<u8>> {
        comps_view(self.comps@)
    }

    /// Every component is non-empty and separator-free.
    pub open spec fn wf(&self) -> bool {
        forall|i: int|
            0 <= i < self.components_spec().len() ==> comp_wf(#[trigger] self.components_spec()[i])
    }

    /// The empty path.
    pub fn new() -> (r: OPath)
        ensures
            r.components_spec() == Seq::<Seq<u8>>::empty(),
            r.wf(),
    {
        let r = OPath { comps: Vec::new() };
        proof {
            assert(r.components_spec() =~= Seq::<Seq<u8>>::empty());
        }
        r
    }

    /// A path made of the given components.
    pub fn from_components(comps: Vec<Vec<u8>>) -> (r: OPath)
        ensures
            r.components_spec() == comps_view(comps@),
    {
        OPath { comps }
    }

    /// The path whose bytes are `prefix`.
    pub fn prefix(prefix: &[u8]) -> (r: OPath)
        ensures
            r.components_spec() == split_comps(prefix@),
            r.wf(),
    {
        let r = OPath::new().push(prefix);
        proof {
            assert(Seq::<Seq<u8>>::empty() + split_comps(prefix@) =~= split_comps(prefix@));
        }
        r
    }

    /// Asks for room for more components; contents are unchanged.
    pub fn reserve(self, _c: usize) -> (r: OPath)
        ensures
            r == self,
    {
        self
    }

    /// Appends the components `name` splits into.
    pub fn push(self, name: &[u8]) -> (r: OPath)
        ensures
            r.components_spec() == self.components_spec() + split_comps(name@),
            self.wf() ==> r.wf(),
    {
        let ghost orig = self.components_spec();
        let mut comps = self.comps;
        let n = name.len();
        proof {
            assert(comps_view(comps@) == orig);
            assert(name@.subrange(0, n as int) =~= name@);
            assert(comps_view(comps@) + split_comps(name@) =~= orig + split_comps(name@));
        }
        let mut i: usize = 0;
        while i < n
            invariant
                n == name@.len(),
                i <= n,
                comps_view(comps@) + split_comps(name@.subrange(i as int, n as int)) =~= orig
                    + split_comps(name@),
                comps_view(comps@).len() >= orig.len(),
                forall|k: int| 0 <= k < orig.len() ==> comps_view(comps@)[k] == orig[k],
                forall|k: int|
                    orig.len() <= k < comps_view(comps@).len() ==> comp_wf(
                        #[trigger] comps_view(comps@)[k],
                    ),
            decreases n - i,
        {
            proof {
                assert(name@.subrange(i as int, n as int)[0] == name@[i as int]);
            }
            if name[i] == SEPARATOR {
                proof {
                    lemma_split_skip_sep(name@, i as int);
                }
                i = i + 1;
            } else {
                let start = i;
                let mut j = i;
                while j < n && name[j] != SEPARATOR
                    invariant
                        n == name@.len(),
                        start <= j <= n,
                        forall|m: int| start <= m < j ==> name@[m] != SEPARATOR,
                    decreases n - j,
                {
                    j = j + 1;
                }
                proof {
                    lemma_split_take_comp(name@, start as int, j as int);
                }
                let mut comp: Vec<u8> = Vec::new();
                let mut m = start;
                while m < j
                    invariant
                        start <= m <= j <= n,
                        n == name@.len(),
                        comp@ =~= name@.subrange(start as int, m as int),
                    decreases j - m,
                {
                    comp.push(name[m]);
                    m = m + 1;
                }
                proof {
                    assert(comp@ =~= name@.subrange(start as int, j as int));
                }
                let ghost before = comps_view(comps@);
                comps.push(comp);
                proof {
                    assert(comps_view(comps@) =~= before.push(name@.subrange(
                        start as int,
                        j as int,
                    )));
                    assert(comp_wf(name@.subrange(start as int, j as int)));
                    assert(before.push(name@.subrange(start as int, j as int)) + split_comps(
                        name@.subrange(j as int, n as int),
                    ) =~= before + split_comps(name@.subrange(start as int, n as int)));
                }
                i = j;
            }
        }
        let ghost fv = comps_view(comps@);
        proof {
            assert(split_comps(name@.subrange(n as int, n as int)) =~= Seq::<Seq<u8>>::empty());
            assert(fv + split_comps(name@.subrange(n as int, n as int)) =~= fv);
            assert(fv =~= orig + split_comps(name@));
        }
        let r = OPath { comps };
        proof {
            assert(r.components_spec() == fv);
            if self.wf() {
                assert forall|k: int|
                    0 <= k < r.components_spec().len() implies comp_wf(
                    #[trigger] r.components_spec()[k]) by {
                    assert(r.components_spec()[k] == fv[k]);
                    if k < orig.len() {
                        assert(fv[k] == orig[k]);
                        assert(comp_wf(self.components_spec()[k]));
                    } else {
                        assert(comp_wf(fv[k]));
                    }
                }
            }
        }
        r
    }

    /// Removes `.` components and resolves `..` against what was
    /// accumulated; ascending above the start of the path is an error.
    pub fn normalize(self) -> (r: Result<OPath, ObjectStoreError>)
        ensures
            r is Ok <==> normalize_spec(self.components_spec()) is Some,
            r matches Ok(q) ==> q.components_spec() == normalize_spec(
                self.components_spec(),
            ).unwrap() && (self.wf() ==> q.wf()),
            r matches Err(e) ==> e is NoParent,
    {
        let n = self.comps.len();
        let mut acc: Vec<Vec<u8>> = Vec::new();
        proof {
            assert(comps_view(acc@) =~= Seq::<Seq<u8>>::empty());
            assert(comps_view(self.comps@).subrange(0, n as int) =~= comps_view(self.comps@));
        }
        let mut i: usize = 0;
        while i < n
            invariant
                n == self.comps@.len(),
                i <= n,
                norm_rec(comps_view(acc@), comps_view(self.comps@).subrange(i as int, n as int))
                    == normalize_spec(self.components_spec()),
                self.wf() ==> forall|k: int|
                    0 <= k < comps_view(acc@).len() ==> comp_wf(#[trigger] comps_view(acc@)[k]),
            decreases n - i,
        {
            let ghost rest = comps_view(self.comps@).subrange(i as int, n as int);
            let ghost acc_before = comps_view(acc@);
            proof {
                assert(rest[0] == self.comps@[i as int]@);
                assert(rest.subrange(1, rest.len() as int) =~= comps_view(self.comps@).subrange(
                    i as int + 1,
                    n as int,
                ));
            }
            let c = &self.comps[i];
            if c.len() == 1 && c[0] == 46 {
                proof {
                    assert(c@ =~= seq![46u8]);
                }
            } else if c.len() == 2 && c[0] == 46 && c[1] == 46 {
                proof {
                    assert(c@ =~= seq![46u8, 46u8]);
                }
                if acc.len() == 0 {
                    proof {
                        assert(acc_before.len() == 0);
                        assert(normalize_spec(self.components_spec()) is None);
                    }
                    return Err(ObjectStoreError::NoParent);
                }
                let _dropped = acc.pop();
                proof {
                    assert(comps_view(acc@) =~= acc_before.drop_last());
                }
            } else {
                proof {
                    if c@.len() == 1 {
                        assert(c@[0] != 46);
                        assert(c@ != seq![46u8]);
                    } else {
                        assert(c@.len() != 1);
                        assert(c@ != seq![46u8]);
                    }
                    if c@.len() == 2 {
                        assert(c@[0] != 46 || c@[1] != 46);
                        assert(c@ != seq![46u8, 46u8]);
                    } else {
                        assert(c@ != seq![46u8, 46u8]);
                    }
                }
                let cc = copy_bytes(c.as_slice());
                acc.push(cc);
                proof {
                    assert(comps_view(acc@) =~= acc_before.push(c@));
                }
            }
            i = i + 1;
        }
        proof {
            assert(comps_view(self.comps@).subrange(n as int, n as int)
                =~= Seq::<Seq<u8>>::empty());
        }
        Ok(OPath { comps: acc })
    }

    /// Appends the shard directory and full name of an identifier: the
    /// two-character shard the object lives in, then the object itself.
    pub fn push_identifier(self, identifier: &Identifier) -> (r: OPath)
        requires
            identifier.wf(),
        ensures
            r.components_spec() == self.components_spec() + seq![
                identifier.text_spec().subrange(0, 2),
                identifier.text_spec(),
            ],
            self.wf() ==> r.wf(),
    {
        let ghost orig = self.components_spec();
        let text = identifier.id_base64();
        let mut comps = self.comps;
        let mut shard: Vec<u8> = Vec::new();
        shard.push(text.0[0]);
        shard.push(text.0[1]);
        proof {
            assert(shard@ =~= identifier.text_spec().subrange(0, 2));
        }
        comps.push(shard);
        let full = copy_bytes(text.0.as_slice());
        comps.push(full);
        let r = OPath { comps };
        proof {
            assert(r.components_spec() =~= orig + seq![
                identifier.text_spec().subrange(0, 2),
                identifier.text_spec(),
            ]);
            lemma_text_comps_wf(identifier.text_spec());
            if self.wf() {
                assert forall|k: int|
                    0 <= k < r.components_spec().len() implies comp_wf(
                    #[trigger] r.components_spec()[k]) by {
                    if k < orig.len() {
                        assert(r.components_spec()[k] == orig[k]);
                        assert(comp_wf(self.components_spec()[k]));
                    } else if k == orig.len() {
                        assert(r.components_spec()[k] == identifier.text_spec().subrange(0, 2));
                    } else {
                        assert(r.components_spec()[k] == identifier.text_spec());
                    }
                }
            }
        }
        r
    }

    /// Appends the reserved-prefixed link component for an identifier: the
    /// target a child symlink carries.
    pub fn push_link(self, identifier: &Identifier) -> (r: OPath)
        requires
            identifier.wf(),
        ensures
            r.components_spec() == self.components_spec().push(
                reserved_prefix_spec() + identifier.text_spec(),
            ),
            self.wf() ==> r.wf(),
    {
        let ghost orig = self.components_spec();
        let mut comps = self.comps;
        let target = link_target(identifier);
        comps.push(target);
        let r = OPath { comps };
        proof {
            assert(r.components_spec() =~= orig.push(
                reserved_prefix_spec() + identifier.text_spec(),
            ));
            lemma_link_comp_wf(identifier.text_spec());
            if self.wf() {
                assert forall|k: int|
                    0 <= k < r.components_spec().len() implies comp_wf(
                    #[trigger] r.components_spec()[k]) by {
                    if k < orig.len() {
                        assert(r.components_spec()[k] == orig[k]);
                        assert(comp_wf(self.components_spec()[k]));
                    } else {
                        assert(r.components_spec()[k] == reserved_prefix_spec()
                            + identifier.text_spec());
                    }
                }
            }
        }
        r
    }

    /// The path as one byte string, separator-delimited.
    pub fn as_bytes(&self) -> (r: Vec<u8>)
        ensures
            r@ == joined(self.components_spec()),
    {
        let n = self.comps.len();
        let mut out: Vec<u8> = Vec::new();
        let mut i: usize = 0;
        while i < n
            invariant
                n == self.comps@.len(),
                i <= n,
                out@ =~= joined(comps_view(self.comps@).subrange(0, i as int)),
            decreases n - i,
        {
            if i > 0 {
                out.push(SEPARATOR);
            }
            let c = &self.comps[i];
            let m = c.len();
            let mut k: usize = 0;
            while k < m
                invariant
                    m == c@.len(),
                    k <= m,
                    i < n,
                    n == self.comps@.len(),
                    c@ == comps_view(self.comps@)[i as int],
                    out@ =~= joined(comps_view(self.comps@).subrange(0, i as int)) + (if i > 0 {
                        seq![SEPARATOR]
                    } else {
                        Seq::<u8>::empty()
                    }) + c@.subrange(0, k as int),
                decreases m - k,
            {
                out.push(c[k]);
                k = k + 1;
            }
            proof {
                let upto = comps_view(self.comps@).subrange(0, i as int + 1);
                assert(upto.drop_last() =~= comps_view(self.comps@).subrange(0, i as int));
                assert(upto.last() == c@);
                assert(c@.subrange(0, m as int) =~= c@);
                assert(out@ =~= joined(upto));
            }
            i = i + 1;
        }
        proof {
            assert(comps_view(self.comps@).subrange(0, n as int) =~= self.components_spec());
        }
        out
    }

    /// How many components the path has.
    pub fn depth(&self) -> (r: usize)
        ensures
            r == self.components_spec().len(),
    {
        self.comps.len()
    }

    /// Whether the path has no components left.
    pub fn is_empty(&self) -> (r: bool)
        ensures
            r <==> self.components_spec().len() == 0,
    {
        self.comps.len() == 0
    }

    /// The components themselves.
    pub fn components(&self) -> (r: &Vec<Vec<u8>>)
        ensures
            comps_view(r@) == self.components_spec(),
    {
        &self.comps
    }

    /// A fresh copy of the component list, for callers that walk it.
    pub fn iter(&self) -> (r: Vec<Vec<u8>>)
        ensures
            comps_view(r@) == self.components_spec(),
    {
        let n = self.comps.len();
        let mut out: Vec<Vec<u8>> = Vec::new();
        let mut i: usize = 0;
        while i < n
            invariant
                n == self.comps@.len(),
                i <= n,
                comps_view(out@) =~= comps_view(self.comps@).subrange(0, i as int),
            decreases n - i,
        {
            let ghost before = comps_view(out@);
            out.push(copy_bytes(self.comps[i].as_slice()));
            proof {
                assert(comps_view(out@) =~= before.push(self.comps@[i as int]@));
            }
            i = i + 1;
        }
        proof {
            assert(comps_view(out@) =~= self.components_spec());
        }
        out
    }
}

impl Clone for OPath {
    /// A copy holding the same components.
    fn clone(&self) -> (r: Self)
        ensures
            r.components_spec() == self.components_spec(),
    {
        OPath { comps: self.iter() }
    }
}

impl Identifier {
    /// The store-relative path of this identifier's object: its shard
    /// directory — named by the first two characters of the text — then
    /// the full name.
    pub fn to_pathbuf(&self) -> (r: OPath)
        requires
            self.wf(),
        ensures
            r.components_spec() == seq![self.text_spec().subrange(0, 2), self.text_spec()],
            r.wf(),
    {
        let r = OPath::new().push_identifier(self);
        proof {
            assert(r.components_spec() =~= seq![
                self.text_spec().subrange(0, 2),
                self.text_spec(),
            ]);
        }
        r
    }
}

/// The two leading characters and the whole text of a well-formed
/// identifier are both valid path components.
proof fn lemma_text_comps_wf(t: Seq<u8>)
    requires
        crate::identifier::text_wf(t),
    ensures
        comp_wf(t.subrange(0, 2)),
        comp_wf(t),
{
    assert forall|i: int| 0 <= i < t.len() implies t[i] != SEPARATOR by {
        assert(crate::b64::is_b64_char(t[i]));
    }
    assert(forall|i: int| 0 <= i < 2 ==> t.subrange(0, 2)[i] == t[i]);
}

/// The target of a child link is one valid path component.
proof fn lemma_link_comp_wf(t: Seq<u8>)
    requires
        crate::identifier::text_wf(t),
    ensures
        comp_wf(reserved_prefix_spec() + t),
{
    let s = reserved_prefix_spec() + t;
    assert forall|i: int| 0 <= i < s.len() implies s[i] != SEPARATOR by {
        if i < 11 {
        } else {
            assert(s[i] == t[i - 11]);
            assert(crate::b64::is_b64_char(t[i - 11]));
        }
    }
}

} // verus!
