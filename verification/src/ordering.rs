//! The order of paths: component by component, as `Path`'s `Ord` compares
//! them, with the root before `.` before `..` before named components, and
//! named components compared byte by byte.

use vstd::prelude::*;
use crate::names::is_slash;

verus! {

/// The outcome of a comparison.
#[derive(Clone, Copy, PartialEq, Eq, Structural, Debug)]
pub enum Order {
    Less,
    Equal,
    Greater,
}

/// The opposite outcome.
pub open spec fn flip(o: Order) -> Order {
    match o {
        Order::Less => Order::Greater,
        Order::Equal => Order::Equal,
        Order::Greater => Order::Less,
    }
}

/// Compares two integers.
pub open spec fn int_order(a: int, b: int) -> Order {
    if a < b {
        Order::Less
    } else if a > b {
        Order::Greater
    } else {
        Order::Equal
    }
}

/// Compares byte strings lexicographically, a proper prefix first.
pub open spec fn bytes_order(a: Seq<u8>, b: Seq<u8>) -> Order
    decreases a.len(),
{
    if a.len() == 0 {
        if b.len() == 0 {
            Order::Equal
        } else {
            Order::Less
        }
    } else if b.len() == 0 {
        Order::Greater
    } else if a[0] < b[0] {
        Order::Less
    } else if a[0] > b[0] {
        Order::Greater
    } else {
        bytes_order(a.skip(1), b.skip(1))
    }
}

/// A path component: its rank (root 0, current directory 1, parent
/// directory 2, named 3) and, for a named one, its bytes.
pub type Part = (u8, Seq<u8>);

/// Compares components: by rank, then by name.
pub open spec fn part_order(a: Part, b: Part) -> Order {
    if a.0 < b.0 {
        Order::Less
    } else if a.0 > b.0 {
        Order::Greater
    } else {
        bytes_order(a.1, b.1)
    }
}

/// Compares component lists lexicographically.
pub open spec fn parts_order(a: Seq<Part>, b: Seq<Part>) -> Order
    decreases a.len(),
{
    if a.len() == 0 {
        if b.len() == 0 {
            Order::Equal
        } else {
            Order::Less
        }
    } else if b.len() == 0 {
        Order::Greater
    } else if part_order(a[0], b[0]) != Order::Equal {
        part_order(a[0], b[0])
    } else {
        parts_order(a.skip(1), b.skip(1))
    }
}

/// The longest prefix of `s` without a separator.
pub open spec fn leading_segment(s: Seq<u8>) -> Seq<u8>
    decreases s.len(),
{
    if s.len() == 0 || is_slash(s[0]) {
        seq![]
    } else {
        seq![s[0]] + leading_segment(s.skip(1))
    }
}

/// The component that a segment between separators stands for: none for an
/// empty segment or `.`, the parent directory for `..`, else a named one.
pub open spec fn segment_part(seg: Seq<u8>) -> Seq<Part> {
    if seg.len() == 0 || seg == seq![46u8] {
        seq![]
    } else if seg == seq![46u8, 46u8] {
        seq![(2u8, Seq::<u8>::empty())]
    } else {
        seq![(3u8, seg)]
    }
}

/// The components of the part of a path after its root or leading `.`.
pub open spec fn body_parts(s: Seq<u8>) -> Seq<Part>
    decreases s.len(),
{
    if s.len() == 0 {
        seq![]
    } else {
        let seg = leading_segment(s);
        if seg.len() < s.len() {
            segment_part(seg) + body_parts(s.skip(seg.len() + 1int))
        } else {
            segment_part(seg)
        }
    }
}

/// Whether a path starts with the root.
pub open spec fn has_root(p: Seq<u8>) -> bool {
    p.len() > 0 && is_slash(p[0])
}

/// Whether a relative path starts with a `.` component, which it keeps.
pub open spec fn has_cur_dir(p: Seq<u8>) -> bool {
    !has_root(p) && p.len() > 0 && p[0] == 46 && (p.len() == 1 || is_slash(p[1]))
}

/// The components of a Unix path, as `Path::components` yields them.
pub open spec fn components(p: Seq<u8>) -> Seq<Part> {
    if has_root(p) {
        seq![(0u8, Seq::<u8>::empty())] + body_parts(p.skip(1))
    } else if has_cur_dir(p) {
        seq![(1u8, Seq::<u8>::empty())] + body_parts(p.skip(1))
    } else {
        body_parts(p)
    }
}

/// The order of two paths, as `Path`'s `Ord` gives it.
pub open spec fn path_order(a: Seq<u8>, b: Seq<u8>) -> Order {
    parts_order(components(a), components(b))
}

} // verus!

verus! {

/// Byte strings compare equal exactly when they are equal, and swapping
/// them flips the outcome.
pub proof fn lemma_bytes_order_basics(a: Seq<u8>, b: Seq<u8>)
    ensures
        (bytes_order(a, b) == Order::Equal) == (a == b),
        bytes_order(b, a) == flip(bytes_order(a, b)),
    decreases a.len(),
{
    if a.len() > 0 && b.len() > 0 && a[0] == b[0] {
        lemma_bytes_order_basics(a.skip(1), b.skip(1));
        if a.skip(1) == b.skip(1) {
            assert(a =~= seq![a[0]] + a.skip(1));
            assert(b =~= seq![b[0]] + b.skip(1));
        }
        if a == b {
            assert(a.skip(1) =~= b.skip(1));
        }
    }
    if a.len() == 0 && b.len() == 0 {
        assert(a =~= b);
    }
}

/// The byte order is transitive.
pub proof fn lemma_bytes_order_trans(a: Seq<u8>, b: Seq<u8>, c: Seq<u8>)
    requires
        bytes_order(a, b) == Order::Less,
        bytes_order(b, c) == Order::Less,
    ensures
        bytes_order(a, c) == Order::Less,
    decreases a.len(),
{
    if a.len() > 0 && b.len() > 0 && c.len() > 0 && a[0] == b[0] && b[0] == c[0] {
        lemma_bytes_order_trans(a.skip(1), b.skip(1), c.skip(1));
    }
}

/// Components compare equal exactly when they are equal, and swapping them
/// flips the outcome.
pub proof fn lemma_part_order_basics(a: Part, b: Part)
    ensures
        (part_order(a, b) == Order::Equal) == (a == b),
        part_order(b, a) == flip(part_order(a, b)),
{
    lemma_bytes_order_basics(a.1, b.1);
}

/// The component order is transitive.
pub proof fn lemma_part_order_trans(a: Part, b: Part, c: Part)
    requires
        part_order(a, b) == Order::Less,
        part_order(b, c) == Order::Less,
    ensures
        part_order(a, c) == Order::Less,
{
    if a.0 == b.0 && b.0 == c.0 {
        lemma_bytes_order_trans(a.1, b.1, c.1);
    }
}

/// Component lists compare equal exactly when they are equal, and swapping
/// them flips the outcome.
pub proof fn lemma_parts_order_basics(a: Seq<Part>, b: Seq<Part>)
    ensures
        (parts_order(a, b) == Order::Equal) == (a == b),
        parts_order(b, a) == flip(parts_order(a, b)),
    decreases a.len(),
{
    if a.len() > 0 && b.len() > 0 {
        lemma_part_order_basics(a[0], b[0]);
        if a[0] == b[0] {
            lemma_parts_order_basics(a.skip(1), b.skip(1));
            if a.skip(1) == b.skip(1) {
                assert(a =~= seq![a[0]] + a.skip(1));
                assert(b =~= seq![b[0]] + b.skip(1));
            }
            if a == b {
                assert(a.skip(1) =~= b.skip(1));
            }
        }
    }
    if a.len() == 0 && b.len() == 0 {
        assert(a =~= b);
    }
}

/// The order of component lists is transitive.
pub proof fn lemma_parts_order_trans(a: Seq<Part>, b: Seq<Part>, c: Seq<Part>)
    requires
        parts_order(a, b) == Order::Less,
        parts_order(b, c) == Order::Less,
    ensures
        parts_order(a, c) == Order::Less,
    decreases a.len(),
{
    if a.len() > 0 && b.len() > 0 && c.len() > 0 {
        lemma_part_order_basics(a[0], b[0]);
        lemma_part_order_basics(b[0], c[0]);
        lemma_part_order_basics(a[0], c[0]);
        if a[0] == b[0] && b[0] == c[0] {
            lemma_parts_order_trans(a.skip(1), b.skip(1), c.skip(1));
        } else if a[0] == b[0] {
        } else if b[0] == c[0] {
        } else {
            lemma_part_order_trans(a[0], b[0], c[0]);
        }
    }
}

/// Paths compare equal exactly when their components are equal; the order
/// is antisymmetric and transitive, so it totally orders component lists.
pub proof fn lemma_path_order(a: Seq<u8>, b: Seq<u8>, c: Seq<u8>)
    ensures
        (path_order(a, b) == Order::Equal) == (components(a) == components(b)),
        path_order(b, a) == flip(path_order(a, b)),
        path_order(a, b) == Order::Less && path_order(b, c) == Order::Less ==> path_order(a, c)
            == Order::Less,
{
    lemma_parts_order_basics(components(a), components(b));
    if path_order(a, b) == Order::Less && path_order(b, c) == Order::Less {
        lemma_parts_order_trans(components(a), components(b), components(c));
    }
}

} // verus!

verus! {

/// A path component as computed: rank and name bytes.
pub struct PathPart {
    pub rank: u8,
    pub name: Vec<u8>,
}

/// The components a computed list stands for.
pub open spec fn parts_view(v: Seq<PathPart>) -> Seq<Part> {
    v.map_values(|pp: PathPart| (pp.rank, pp.name@))
}

proof fn lemma_leading_segment(s: Seq<u8>, k: int)
    requires
        0 <= k <= s.len(),
        forall|i: int| 0 <= i < k ==> !is_slash(#[trigger] s[i]),
        k == s.len() || is_slash(s[k]),
    ensures
        leading_segment(s) == s.take(k),
    decreases s.len(),
{
    if k == 0 {
        assert(s.take(k) =~= Seq::<u8>::empty());
    } else {
        let t = s.skip(1);
        assert forall|i: int| 0 <= i < k - 1 implies !is_slash(#[trigger] t[i]) by {
            assert(t[i] == s[i + 1]);
        }
        if k < s.len() {
            assert(t[k - 1] == s[k]);
        }
        lemma_leading_segment(t, k - 1);
        assert(s.take(k) =~= seq![s[0]] + t.take(k - 1));
    }
}

fn copy_range(p: &[u8], from: usize, to: usize) -> (v: Vec<u8>)
    requires
        from <= to <= p@.len(),
    ensures
        v@ == p@.subrange(from as int, to as int),
{
    let mut v: Vec<u8> = Vec::new();
    let mut i = from;
    while i < to
        invariant
            from <= i <= to <= p@.len(),
            v@ == p@.subrange(from as int, i as int),
        decreases to - i,
    {
        v.push(p[i]);
        i = i + 1;
        assert(v@ =~= p@.subrange(from as int, i as int));
    }
    v
}

/// The components of a path (`Path::components` on its bytes).
pub fn path_components(p: &[u8]) -> (parts: Vec<PathPart>)
    ensures
        parts_view(parts@) == components(p@),
{
    let mut out: Vec<PathPart> = Vec::new();
    let mut pos: usize = 0;
    if p.len() > 0 && p[0] == 47 {
        out.push(PathPart { rank: 0, name: Vec::new() });
        pos = 1;
        assert(parts_view(out@) =~= seq![(0u8, Seq::<u8>::empty())]);
    } else if p.len() > 0 && p[0] == 46 && (p.len() == 1 || p[1] == 47) {
        out.push(PathPart { rank: 1, name: Vec::new() });
        pos = 1;
        assert(parts_view(out@) =~= seq![(1u8, Seq::<u8>::empty())]);
    } else {
        assert(p@.skip(0) =~= p@);
        assert(parts_view(out@) =~= Seq::<Part>::empty());
    }
    assert(parts_view(out@) + body_parts(p@.skip(pos as int)) =~= components(p@));
    while pos < p.len()
        invariant
            pos <= p@.len(),
            parts_view(out@) + body_parts(p@.skip(pos as int)) == components(p@),
        decreases p@.len() - pos,
    {
        let ghost s = p@.skip(pos as int);
        let mut j = pos;
        while j < p.len() && p[j] != 47
            invariant
                pos <= j <= p@.len(),
                forall|i: int| pos <= i < j ==> !is_slash(#[trigger] p@[i]),
            decreases p@.len() - j,
        {
            j = j + 1;
        }
        proof {
            assert forall|i: int| 0 <= i < j - pos implies !is_slash(#[trigger] s[i]) by {
                assert(s[i] == p@[pos + i]);
            }
            if j < p.len() {
                assert(s[j - pos] == p@[j as int]);
            }
            lemma_leading_segment(s, j - pos);
        }
        let seg = copy_range(p, pos, j);
        assert(seg@ =~= leading_segment(s));
        let ghost before = parts_view(out@);
        if seg.len() == 0 {
        } else if seg.len() == 1 && seg[0] == 46 {
            assert(seg@ =~= seq![46u8]);
        } else if seg.len() == 2 && seg[0] == 46 && seg[1] == 46 {
            assert(seg@ =~= seq![46u8, 46u8]);
            out.push(PathPart { rank: 2, name: Vec::new() });
            assert(parts_view(out@) =~= before + segment_part(seg@));
        } else {
            assert(seg@ != seq![46u8]) by {
                if seg@ == seq![46u8] {
                    assert(seg@.len() == 1 && seg@[0] == 46);
                }
            }
            assert(seg@ != seq![46u8, 46u8]) by {
                if seg@ == seq![46u8, 46u8] {
                    assert(seg@.len() == 2 && seg@[0] == 46 && seg@[1] == 46);
                }
            }
            out.push(PathPart { rank: 3, name: seg });
            assert(parts_view(out@) =~= before + segment_part(leading_segment(s)));
        }
        assert(parts_view(out@) == before + segment_part(leading_segment(s)));
        if j < p.len() {
            assert(s.skip(j - pos + 1) =~= p@.skip(j + 1));
            pos = j + 1;
        } else {
            assert(p@.skip(j as int) =~= Seq::<u8>::empty());
            pos = j;
        }
    }
    assert(p@.skip(pos as int) =~= Seq::<u8>::empty());
    assert(parts_view(out@) =~= components(p@));
    out
}

/// Compares byte strings lexicographically.
pub fn compare_bytes(a: &Vec<u8>, b: &Vec<u8>) -> (o: Order)
    ensures
        o == bytes_order(a@, b@),
{
    let mut i: usize = 0;
    assert(a@.skip(0) =~= a@);
    assert(b@.skip(0) =~= b@);
    while i < a.len() && i < b.len() && a[i] == b[i]
        invariant
            i <= a@.len(),
            i <= b@.len(),
            bytes_order(a@, b@) == bytes_order(a@.skip(i as int), b@.skip(i as int)),
        decreases a@.len() - i,
    {
        assert(a@.skip(i as int).skip(1) =~= a@.skip(i + 1));
        assert(b@.skip(i as int).skip(1) =~= b@.skip(i + 1));
        i = i + 1;
    }
    if i == a.len() {
        if i == b.len() {
            Order::Equal
        } else {
            Order::Less
        }
    } else if i == b.len() {
        Order::Greater
    } else if a[i] < b[i] {
        Order::Less
    } else {
        Order::Greater
    }
}

/// Compares two components.
fn compare_part(a: &PathPart, b: &PathPart) -> (o: Order)
    ensures
        o == part_order((a.rank, a.name@), (b.rank, b.name@)),
{
    if a.rank < b.rank {
        Order::Less
    } else if a.rank > b.rank {
        Order::Greater
    } else {
        compare_bytes(&a.name, &b.name)
    }
}

/// Compares two paths as `Path`'s `Ord` does.
pub fn compare_paths(a: &[u8], b: &[u8]) -> (o: Order)
    ensures
        o == path_order(a@, b@),
{
    let pa = path_components(a);
    let pb = path_components(b);
    let ghost va = parts_view(pa@);
    let ghost vb = parts_view(pb@);
    let mut i: usize = 0;
    assert(va.skip(0) =~= va);
    assert(vb.skip(0) =~= vb);
    while i < pa.len() && i < pb.len()
        invariant
            i <= pa@.len(),
            i <= pb@.len(),
            va == parts_view(pa@),
            vb == parts_view(pb@),
            va == components(a@),
            vb == components(b@),
            parts_order(va, vb) == parts_order(va.skip(i as int), vb.skip(i as int)),
        decreases pa@.len() - i,
    {
        let o = compare_part(&pa[i], &pb[i]);
        assert(va[i as int] == (pa@[i as int].rank, pa@[i as int].name@));
        assert(vb[i as int] == (pb@[i as int].rank, pb@[i as int].name@));
        assert(va.skip(i as int).len() > 0 && vb.skip(i as int).len() > 0);
        assert(va.skip(i as int)[0] == va[i as int]);
        assert(vb.skip(i as int)[0] == vb[i as int]);
        if o != Order::Equal {
            assert(parts_order(va.skip(i as int), vb.skip(i as int)) == o);
            assert(parts_order(va, vb) == o);
            return o;
        }
        assert(va.skip(i as int).skip(1) =~= va.skip(i + 1));
        assert(vb.skip(i as int).skip(1) =~= vb.skip(i + 1));
        i = i + 1;
    }
    if i == pa.len() {
        if i == pb.len() {
            Order::Equal
        } else {
            Order::Less
        }
    } else {
        Order::Greater
    }
}

} // verus!

verus! {

/// Byte strings compare byte by byte, as unsigned numbers: where they first
/// differ, the smaller byte comes first; a proper prefix comes before the
/// longer string; equal strings compare equal.
pub proof fn lemma_bytes_order_first_difference(a: Seq<u8>, b: Seq<u8>, i: int)
    requires
        0 <= i <= a.len(),
        i <= b.len(),
        forall|j: int| 0 <= j < i ==> a[j] == b[j],
    ensures
        i < a.len() && i < b.len() && a[i] < b[i] ==> bytes_order(a, b) == Order::Less,
        i < a.len() && i < b.len() && a[i] > b[i] ==> bytes_order(a, b) == Order::Greater,
        i == a.len() && i < b.len() ==> bytes_order(a, b) == Order::Less,
        i < a.len() && i == b.len() ==> bytes_order(a, b) == Order::Greater,
        i == a.len() && i == b.len() ==> bytes_order(a, b) == Order::Equal,
    decreases i,
{
    if i > 0 {
        assert(a[0] == b[0]);
        lemma_bytes_order_first_difference(a.skip(1), b.skip(1), i - 1);
    }
}

proof fn lemma_leading_segment_whole(s: Seq<u8>)
    requires
        forall|j: int| 0 <= j < s.len() ==> !is_slash(#[trigger] s[j]),
    ensures
        leading_segment(s) == s,
    decreases s.len(),
{
    if s.len() > 0 {
        lemma_leading_segment_whole(s.skip(1));
        assert(seq![s[0]] + s.skip(1) =~= s);
    }
}

/// A plain file name (not empty, without a separator, neither `.` nor `..`)
/// is a single named component, and two such names are in the order of
/// their bytes.
pub proof fn lemma_plain_names_order_by_bytes(a: Seq<u8>, b: Seq<u8>)
    requires
        a.len() > 0 && a != seq![46u8] && a != seq![46u8, 46u8],
        b.len() > 0 && b != seq![46u8] && b != seq![46u8, 46u8],
        forall|j: int| 0 <= j < a.len() ==> !is_slash(#[trigger] a[j]),
        forall|j: int| 0 <= j < b.len() ==> !is_slash(#[trigger] b[j]),
    ensures
        components(a) == seq![(3u8, a)],
        path_order(a, b) == bytes_order(a, b),
{
    lemma_leading_segment_whole(a);
    lemma_leading_segment_whole(b);
    assert(!is_slash(a[0]));
    assert(!is_slash(b[0]));
    if a.len() > 1 {
        assert(!is_slash(a[1]));
    }
    if b.len() > 1 {
        assert(!is_slash(b[1]));
    }
    if a.len() == 1 && a[0] == 46 {
        assert(a =~= seq![46u8]);
    }
    if b.len() == 1 && b[0] == 46 {
        assert(b =~= seq![46u8]);
    }
    assert(components(a) == seq![(3u8, a)]);
    assert(components(b) == seq![(3u8, b)]);
    let ca = components(a);
    let cb = components(b);
    assert(ca.skip(1) =~= Seq::<Part>::empty());
    assert(cb.skip(1) =~= Seq::<Part>::empty());
    assert(ca[0] == (3u8, a));
    assert(cb[0] == (3u8, b));
    assert(part_order(ca[0], cb[0]) == bytes_order(a, b));
    assert(parts_order(ca.skip(1), cb.skip(1)) == Order::Equal);
    assert(parts_order(ca, cb) == bytes_order(a, b));
}

} // verus!
