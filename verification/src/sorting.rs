//! The order of a listing: by name, by modification or access time, or by
//! size, always stable, optionally reversed.

use vstd::prelude::*;
use crate::options::Opts;
use crate::ordering::{Order, flip, int_order, path_order, lemma_path_order, compare_paths};

verus! {

/// What a listing sorts one path by: its bytes and the times and size that
/// were read for it (zero where they could not be read).
pub struct SortEntry {
    pub path: Vec<u8>,
    pub mtime: i64,
    pub atime: i64,
    pub size: u64,
}

/// The sort keys a listing can use.
#[derive(Clone, Copy, PartialEq, Eq, Structural, Debug)]
pub enum SortBy {
    /// Newest modification first, ties by name.
    Mtime,
    /// By name.
    Name,
    /// Oldest access first.
    Atime,
    /// Largest first, ties by name.
    Size,
}

/// The key that the options select: `-t`, then `-c` (by name), then `-u`,
/// then `-S`, and by name otherwise.
pub open spec fn sort_key_for(opts: Opts) -> SortBy {
    if opts.t {
        SortBy::Mtime
    } else if opts.c {
        SortBy::Name
    } else if opts.u {
        SortBy::Atime
    } else if opts.s_upper {
        SortBy::Size
    } else {
        SortBy::Name
    }
}

/// The order of two entries under a key. With `reverse_ties`, entries with
/// equal modification times compare by name in reverse.
pub open spec fn entry_order(a: SortEntry, b: SortEntry, by: SortBy, reverse_ties: bool) -> Order {
    match by {
        SortBy::Mtime => {
            let k = int_order(b.mtime as int, a.mtime as int);
            if k == Order::Equal {
                if reverse_ties {
                    path_order(b.path@, a.path@)
                } else {
                    path_order(a.path@, b.path@)
                }
            } else {
                k
            }
        },
        SortBy::Name => path_order(a.path@, b.path@),
        SortBy::Atime => int_order(a.atime as int, b.atime as int),
        SortBy::Size => {
            let k = int_order(b.size as int, a.size as int);
            if k == Order::Equal {
                path_order(a.path@, b.path@)
            } else {
                k
            }
        },
    }
}

/// Every entry order is a total preorder: swapping the entries flips the
/// outcome, and "not after" is transitive.
pub proof fn lemma_entry_order_preorder(
    a: SortEntry,
    b: SortEntry,
    c: SortEntry,
    by: SortBy,
    reverse_ties: bool,
)
    ensures
        entry_order(b, a, by, reverse_ties) == flip(entry_order(a, b, by, reverse_ties)),
        entry_order(a, b, by, reverse_ties) != Order::Greater && entry_order(b, c, by, reverse_ties)
            != Order::Greater ==> entry_order(a, c, by, reverse_ties) != Order::Greater,
{
    lemma_path_order(a.path@, b.path@, c.path@);
    lemma_path_order(c.path@, b.path@, a.path@);
    lemma_path_order(a.path@, c.path@, b.path@);
    lemma_path_order(b.path@, a.path@, c.path@);
}

/// The order of two entries under a key.
pub fn compare_entries(a: &SortEntry, b: &SortEntry, by: SortBy, reverse_ties: bool) -> (o: Order)
    ensures
        o == entry_order(*a, *b, by, reverse_ties),
{
    match by {
        SortBy::Mtime => {
            if b.mtime < a.mtime {
                Order::Less
            } else if b.mtime > a.mtime {
                Order::Greater
            } else if reverse_ties {
                compare_paths(b.path.as_slice(), a.path.as_slice())
            } else {
                compare_paths(a.path.as_slice(), b.path.as_slice())
            }
        },
        SortBy::Name => compare_paths(a.path.as_slice(), b.path.as_slice()),
        SortBy::Atime => {
            if a.atime < b.atime {
                Order::Less
            } else if a.atime > b.atime {
                Order::Greater
            } else {
                Order::Equal
            }
        },
        SortBy::Size => {
            if b.size < a.size {
                Order::Less
            } else if b.size > a.size {
                Order::Greater
            } else {
                compare_paths(a.path.as_slice(), b.path.as_slice())
            }
        },
    }
}

/// Whether position `v` appears in `p`.
pub open spec fn hits(p: Seq<int>, v: int) -> bool {
    exists|k: int| 0 <= k < p.len() && p[k] == v
}

/// `p` rearranges `n` positions: each position appears exactly once.
pub open spec fn is_arrangement(p: Seq<int>, n: nat) -> bool {
    &&& p.len() == n
    &&& forall|k: int| 0 <= k < n ==> 0 <= #[trigger] p[k] < n
    &&& forall|k: int, l: int| 0 <= k < l < n ==> #[trigger] p[k] != #[trigger] p[l]
    &&& forall|v: int| 0 <= v < n ==> #[trigger] hits(p, v)
}

/// `sorted` is `orig` sorted stably under the key: a rearrangement of it
/// in which no entry comes after one that orders after it, and entries that
/// order equal keep their relative order.
pub open spec fn stable_sort_of(
    orig: Seq<SortEntry>,
    sorted: Seq<SortEntry>,
    by: SortBy,
    reverse_ties: bool,
) -> bool {
    exists|p: Seq<int>|
        {
            &&& #[trigger] is_arrangement(p, orig.len())
            &&& sorted.len() == orig.len()
            &&& forall|k: int| 0 <= k < sorted.len() ==> sorted[k] == orig[p[k]]
            &&& forall|k: int, l: int|
                #![trigger sorted[k], sorted[l]]
                0 <= k < l < sorted.len() ==> entry_order(sorted[k], sorted[l], by, reverse_ties)
                    != Order::Greater
            &&& forall|k: int, l: int|
                #![trigger sorted[k], sorted[l]]
                0 <= k < l < sorted.len() && entry_order(sorted[k], sorted[l], by, reverse_ties)
                    == Order::Equal ==> p[k] < p[l]
        }
}

/// The state of the insertion sort after `i` entries are in place.
spec fn sort_state(
    v: Seq<SortEntry>,
    p: Seq<int>,
    orig: Seq<SortEntry>,
    i: int,
    by: SortBy,
    rt: bool,
) -> bool {
    &&& v.len() == orig.len()
    &&& 0 <= i <= v.len()
    &&& is_arrangement(p, orig.len())
    &&& forall|k: int| 0 <= k < v.len() ==> v[k] == orig[p[k]]
    &&& forall|k: int| i <= k < v.len() ==> p[k] == k
    &&& forall|k: int| 0 <= k < i ==> p[k] < i
    &&& forall|k: int, l: int|
        #![trigger v[k], v[l]]
        0 <= k < l < i ==> entry_order(v[k], v[l], by, rt) != Order::Greater
    &&& forall|k: int, l: int|
        #![trigger v[k], v[l]]
        0 <= k < l < i && entry_order(v[k], v[l], by, rt) == Order::Equal ==> p[k] < p[l]
}

/// Where the entry at position `k` came from when the entry at `i` moves
/// to `j <= i`.
spec fn source_index(k: int, i: int, j: int) -> int {
    if k < j {
        k
    } else if k == j {
        i
    } else if k <= i {
        k - 1
    } else {
        k
    }
}

proof fn lemma_insert_arrangement(p0: Seq<int>, i: int, j: int)
    requires
        is_arrangement(p0, p0.len()),
        0 <= j <= i < p0.len(),
        p0[i] == i,
    ensures
        is_arrangement(p0.remove(i).insert(j, i), p0.len()),
{
    let n = p0.len() as int;
    let p1 = p0.remove(i).insert(j, i);
    assert forall|k: int| 0 <= k < n implies #[trigger] p1[k] == p0[source_index(k, i, j)] by {
        p0.remove(i).insert_ensures(j, i);
        p0.remove_ensures(i);
        if k > j {
            assert(p1[k] == p0.remove(i)[k - 1]);
        }
    }
    assert forall|k: int| 0 <= k < n implies 0 <= #[trigger] p1[k] < n by {
        assert(p1[k] == p0[source_index(k, i, j)]);
    }
    assert forall|k: int, l: int| 0 <= k < l < n implies #[trigger] p1[k] != #[trigger] p1[l] by {
        assert(p1[k] == p0[source_index(k, i, j)]);
        assert(p1[l] == p0[source_index(l, i, j)]);
        let sk = source_index(k, i, j);
        let sl = source_index(l, i, j);
        if sk < sl {
            assert(p0[sk] != p0[sl]);
        } else {
            assert(p0[sl] != p0[sk]);
        }
    }
    assert forall|v: int| 0 <= v < n implies #[trigger] hits(p1, v) by {
        if v == i {
            assert(p1[j] == p0[source_index(j, i, j)]);
        } else {
            assert(hits(p0, v));
            let m = choose|m: int| 0 <= m < p0.len() && p0[m] == v;
            assert(m != i);
            let pos = if m < j {
                m
            } else if m < i {
                m + 1
            } else {
                m
            };
            assert(source_index(pos, i, j) == m);
            assert(p1[pos] == p0[source_index(pos, i, j)]);
        }
    }
    assert(is_arrangement(p1, p0.len()));
}

proof fn lemma_insert_step(
    v0: Seq<SortEntry>,
    p0: Seq<int>,
    orig: Seq<SortEntry>,
    i: int,
    j: int,
    by: SortBy,
    rt: bool,
)
    requires
        sort_state(v0, p0, orig, i, by, rt),
        i < v0.len(),
        0 <= j <= i,
        forall|m: int| j <= m < i ==> entry_order(#[trigger] v0[m], v0[i], by, rt) == Order::Greater,
        j > 0 ==> entry_order(v0[j - 1], v0[i], by, rt) != Order::Greater,
    ensures
        sort_state(v0.remove(i).insert(j, v0[i]), p0.remove(i).insert(j, i), orig, i + 1, by, rt),
{
    let n = v0.len() as int;
    let x = v0[i];
    let v1 = v0.remove(i).insert(j, x);
    let p1 = p0.remove(i).insert(j, i);
    assert(v1.len() == n && p1.len() == n);
    assert forall|k: int| 0 <= k < n implies #[trigger] v1[k] == v0[source_index(k, i, j)]
        && p1[k] == p0[source_index(k, i, j)] by {
        v0.remove(i).insert_ensures(j, x);
        v0.remove_ensures(i);
        p0.remove(i).insert_ensures(j, i);
        p0.remove_ensures(i);
        if k > j {
            assert(v1[k] == v0.remove(i)[k - 1]);
            assert(p1[k] == p0.remove(i)[k - 1]);
        }
    }
    lemma_insert_arrangement(p0, i, j);

    assert forall|k: int| 0 <= k < n implies #[trigger] v1[k] == orig[p1[k]] by {
        assert(v1[k] == v0[source_index(k, i, j)]);
        assert(p1[k] == p0[source_index(k, i, j)]);
    }
    assert forall|k: int| i + 1 <= k < n implies #[trigger] p1[k] == k by {
        assert(p1[k] == p0[source_index(k, i, j)]);
    }
    assert forall|k: int| 0 <= k < i + 1 implies #[trigger] p1[k] < i + 1 by {
        assert(p1[k] == p0[source_index(k, i, j)]);
    }
    assert forall|k: int, l: int|
        #![trigger v1[k], v1[l]]
        0 <= k < l < i + 1 implies entry_order(v1[k], v1[l], by, rt) != Order::Greater && (
        entry_order(v1[k], v1[l], by, rt) == Order::Equal ==> p1[k] < p1[l]) by {
        let sk = source_index(k, i, j);
        let sl = source_index(l, i, j);
        assert(v1[k] == v0[sk] && p1[k] == p0[sk]);
        assert(v1[l] == v0[sl] && p1[l] == p0[sl]);
        if k == j {
            assert(sl == l - 1);
            assert(entry_order(v0[l - 1], x, by, rt) == Order::Greater);
            lemma_entry_order_preorder(v0[l - 1], x, x, by, rt);
        } else if l == j {
            assert(sk == k);
            assert(p0[k] < i);
            if k < j - 1 {
                assert(entry_order(v0[k], v0[j - 1], by, rt) != Order::Greater);
                lemma_entry_order_preorder(v0[k], v0[j - 1], x, by, rt);
            }
        } else {
            assert(sk < sl < i);
            assert(entry_order(v0[sk], v0[sl], by, rt) != Order::Greater);
        }
    }
}

/// Sorts `v` stably under the key.
fn sort_entries(v: &mut Vec<SortEntry>, by: SortBy, reverse_ties: bool)
    ensures
        stable_sort_of(old(v)@, final(v)@, by, reverse_ties),
{
    let ghost orig = v@;
    let n = v.len();
    let ghost mut perm: Seq<int> = Seq::new(n as nat, |k: int| k);
    assert forall|v: int| 0 <= v < n implies #[trigger] hits(perm, v) by {
        assert(perm[v] == v);
    }
    let mut i: usize = 0;
    while i < n
        invariant
            n == orig.len(),
            i <= n,
            sort_state(v@, perm, orig, i as int, by, reverse_ties),
        decreases n - i,
    {
        let ghost v0 = v@;
        let ghost p0 = perm;
        let x = v.remove(i);
        proof {
            v0.remove_ensures(i as int);
        }
        let mut j: usize = i;
        while j > 0 && compare_entries(&v[j - 1], &x, by, reverse_ties) == Order::Greater
            invariant
                j <= i < n,
                n == v0.len(),
                v@ == v0.remove(i as int),
                x == v0[i as int],
                forall|m: int| j <= m < i ==> entry_order(#[trigger] v0[m], x, by, reverse_ties)
                    == Order::Greater,
            decreases j,
        {
            proof {
                v0.remove_ensures(i as int);
            }
            j = j - 1;
        }
        proof {
            v0.remove_ensures(i as int);
            lemma_insert_step(v0, p0, orig, i as int, j as int, by, reverse_ties);
            perm = p0.remove(i as int).insert(j as int, i as int);
        }
        v.insert(j, x);
        i = i + 1;
    }
    assert(is_arrangement(perm, orig.len()));
}

/// Reverses `v`.
fn reverse_entries(v: &mut Vec<SortEntry>)
    ensures
        final(v)@ == old(v)@.reverse(),
{
    let ghost orig = v@;
    let n = v.len();
    let mut out: Vec<SortEntry> = Vec::new();
    while v.len() > 0
        invariant
            n == orig.len(),
            v@.len() + out@.len() == n,
            v@ == orig.take(v@.len() as int),
            forall|k: int| 0 <= k < out@.len() ==> #[trigger] out@[k] == orig[n - 1 - k],
        decreases v@.len(),
    {
        let ghost before = v@;
        let x = v.pop().unwrap();
        assert(v@ =~= orig.take(v@.len() as int));
        out.push(x);
    }
    if n > 0 {
        assert(out@ =~= orig.reverse());
    } else {
        assert(out@ =~= orig.reverse());
    }
    *v = out;
}

/// `result` is `orig` sorted stably under the key, reversed if `reversed`.
pub open spec fn listing_order(
    orig: Seq<SortEntry>,
    result: Seq<SortEntry>,
    by: SortBy,
    reverse_ties: bool,
    reversed: bool,
) -> bool {
    exists|s: Seq<SortEntry>|
        #[trigger] stable_sort_of(orig, s, by, reverse_ties) && result == (if reversed {
            s.reverse()
        } else {
            s
        })
}

/// Sorts the entries of a listing as the options ask: stably under the
/// selected key (`-y`, or `samesort_env`, reverses the name order of ties
/// under `-t`), then reversed with `-r`.
pub fn ls_sort(paths: &mut Vec<SortEntry>, opts: &Opts, samesort_env: bool)
    ensures
        listing_order(old(paths)@, final(paths)@, sort_key_for(*opts), opts.y || samesort_env, opts.r),
{
    let reverse_ties = opts.y || samesort_env;
    let by = if opts.t {
        SortBy::Mtime
    } else if opts.c {
        SortBy::Name
    } else if opts.u {
        SortBy::Atime
    } else if opts.s_upper {
        SortBy::Size
    } else {
        SortBy::Name
    };
    sort_entries(paths, by, reverse_ties);
    let ghost s = paths@;
    if opts.r {
        reverse_entries(paths);
    }
    assert(stable_sort_of(old(paths)@, s, sort_key_for(*opts), opts.y || samesort_env));
    assert(paths@ == (if opts.r { s.reverse() } else { s }));
}

} // verus!

verus! {

/// Whether no entry of `v` orders after a later one.
pub open spec fn in_order(v: Seq<SortEntry>, by: SortBy, reverse_ties: bool) -> bool {
    forall|k: int, l: int|
        #![trigger v[k], v[l]]
        0 <= k < l < v.len() ==> entry_order(v[k], v[l], by, reverse_ties) != Order::Greater
}

proof fn lemma_fixed_prefix(
    orig: Seq<SortEntry>,
    s: Seq<SortEntry>,
    p: Seq<int>,
    by: SortBy,
    rt: bool,
    k: int,
)
    requires
        in_order(orig, by, rt),
        is_arrangement(p, orig.len()),
        s.len() == orig.len(),
        forall|m: int| 0 <= m < s.len() ==> s[m] == orig[p[m]],
        forall|m: int, l: int|
            #![trigger s[m], s[l]]
            0 <= m < l < s.len() ==> entry_order(s[m], s[l], by, rt) != Order::Greater,
        forall|m: int, l: int|
            #![trigger s[m], s[l]]
            0 <= m < l < s.len() && entry_order(s[m], s[l], by, rt) == Order::Equal ==> p[m] < p[l],
        0 <= k <= s.len(),
    ensures
        forall|m: int| 0 <= m < k ==> p[m] == m,
    decreases k,
{
    if k > 0 {
        lemma_fixed_prefix(orig, s, p, by, rt, k - 1);
        let c = k - 1;
        if p[c] != c {
            if 0 <= p[c] < c {
                let m = p[c];
                assert(p[m] == m);
                assert(p[m] != p[c]);
            }
            assert(p[c] > c);
            assert(hits(p, c));
            let l = choose|l: int| 0 <= l < p.len() && p[l] == c;
            if l < c {
                assert(p[l] == l);
            }
            assert(l > c);
            assert(s[c] == orig[p[c]]);
            assert(s[l] == orig[c]);
            assert(entry_order(s[c], s[l], by, rt) != Order::Greater);
            assert(entry_order(orig[c], orig[p[c]], by, rt) != Order::Greater);
            lemma_entry_order_preorder(orig[c], orig[p[c]], orig[c], by, rt);
            assert(entry_order(s[c], s[l], by, rt) == Order::Equal);
            assert(p[c] < p[l]);
        }
    }
}

/// Entries that are already in order stay as they are when sorted.
pub proof fn lemma_sorting_in_order_changes_nothing(
    orig: Seq<SortEntry>,
    s: Seq<SortEntry>,
    by: SortBy,
    reverse_ties: bool,
)
    requires
        in_order(orig, by, reverse_ties),
        stable_sort_of(orig, s, by, reverse_ties),
    ensures
        s == orig,
{
    let p = choose|p: Seq<int>|
        {
            &&& #[trigger] is_arrangement(p, orig.len())
            &&& s.len() == orig.len()
            &&& forall|k: int| 0 <= k < s.len() ==> s[k] == orig[p[k]]
            &&& forall|k: int, l: int|
                #![trigger s[k], s[l]]
                0 <= k < l < s.len() ==> entry_order(s[k], s[l], by, reverse_ties) != Order::Greater
            &&& forall|k: int, l: int|
                #![trigger s[k], s[l]]
                0 <= k < l < s.len() && entry_order(s[k], s[l], by, reverse_ties) == Order::Equal
                    ==> p[k] < p[l]
        };
    lemma_fixed_prefix(orig, s, p, by, reverse_ties, s.len() as int);
    assert forall|k: int| 0 <= k < s.len() implies s[k] == orig[k] by {
        assert(p[k] == k);
    }
    assert(s =~= orig);
}

/// Sorting a listing a second time, without `-r`, leaves it as the first
/// sort did.
pub proof fn lemma_sorting_twice_is_sorting_once(
    a: Seq<SortEntry>,
    b: Seq<SortEntry>,
    c: Seq<SortEntry>,
    by: SortBy,
    reverse_ties: bool,
)
    requires
        listing_order(a, b, by, reverse_ties, false),
        listing_order(b, c, by, reverse_ties, false),
    ensures
        c == b,
{
    let s1 = choose|s: Seq<SortEntry>| #[trigger] stable_sort_of(a, s, by, reverse_ties) && b == s;
    let s2 = choose|s: Seq<SortEntry>| #[trigger] stable_sort_of(b, s, by, reverse_ties) && c == s;
    assert(in_order(b, by, reverse_ties));
    lemma_sorting_in_order_changes_nothing(b, c, by, reverse_ties);
}


/// The position at which `p` holds `v`.
spec fn position_of(p: Seq<int>, v: int) -> int {
    choose|k: int| 0 <= k < p.len() && p[k] == v
}

/// Two stable sorts of the same entries agree: the order of a listing is
/// determined by the entries, the key and the tie order.
pub proof fn lemma_stable_sort_unique(
    orig: Seq<SortEntry>,
    s1: Seq<SortEntry>,
    s2: Seq<SortEntry>,
    by: SortBy,
    reverse_ties: bool,
)
    requires
        stable_sort_of(orig, s1, by, reverse_ties),
        stable_sort_of(orig, s2, by, reverse_ties),
    ensures
        s1 == s2,
{
    let rt = reverse_ties;
    let n = orig.len();
    let p = choose|p: Seq<int>|
        {
            &&& #[trigger] is_arrangement(p, orig.len())
            &&& s1.len() == orig.len()
            &&& forall|k: int| 0 <= k < s1.len() ==> s1[k] == orig[p[k]]
            &&& forall|k: int, l: int|
                #![trigger s1[k], s1[l]]
                0 <= k < l < s1.len() ==> entry_order(s1[k], s1[l], by, rt) != Order::Greater
            &&& forall|k: int, l: int|
                #![trigger s1[k], s1[l]]
                0 <= k < l < s1.len() && entry_order(s1[k], s1[l], by, rt) == Order::Equal
                    ==> p[k] < p[l]
        };
    let q = choose|q: Seq<int>|
        {
            &&& #[trigger] is_arrangement(q, orig.len())
            &&& s2.len() == orig.len()
            &&& forall|k: int| 0 <= k < s2.len() ==> s2[k] == orig[q[k]]
            &&& forall|k: int, l: int|
                #![trigger s2[k], s2[l]]
                0 <= k < l < s2.len() ==> entry_order(s2[k], s2[l], by, rt) != Order::Greater
            &&& forall|k: int, l: int|
                #![trigger s2[k], s2[l]]
                0 <= k < l < s2.len() && entry_order(s2[k], s2[l], by, rt) == Order::Equal
                    ==> q[k] < q[l]
        };
    let r = Seq::new(n, |k: int| position_of(p, q[k]));
    assert forall|k: int| 0 <= k < n implies 0 <= #[trigger] r[k] < n && p[r[k]] == q[k] && s2[k]
        == s1[r[k]] by {
        assert(hits(p, q[k]));
    }
    assert forall|k: int, l: int| 0 <= k < l < n implies #[trigger] r[k] != #[trigger] r[l] by {
        assert(p[r[k]] == q[k] && p[r[l]] == q[l]);
        assert(q[k] != q[l]);
    }
    assert forall|v: int| 0 <= v < n implies #[trigger] hits(r, v) by {
        assert(hits(q, p[v]));
        let m = choose|m: int| 0 <= m < q.len() && q[m] == p[v];
        assert(p[r[m]] == q[m]);
        if r[m] != v {
            if r[m] < v {
                assert(p[r[m]] != p[v]);
            } else {
                assert(p[v] != p[r[m]]);
            }
        }
        assert(r[m] == v);
    }
    assert(is_arrangement(r, s1.len()));
    assert forall|k: int, l: int|
        #![trigger s2[k], s2[l]]
        0 <= k < l < n && entry_order(s2[k], s2[l], by, rt) == Order::Equal implies r[k] < r[l] by {
        let a = r[k];
        let b = r[l];
        assert(q[k] < q[l]);
        if b < a {
            lemma_entry_order_preorder(s1[b], s1[a], s1[a], by, rt);
            assert(entry_order(s1[b], s1[a], by, rt) == Order::Equal);
            assert(p[b] < p[a]);
        } else if a == b {
            assert(r[k] != r[l]);
        }
    }
    assert(stable_sort_of(s1, s2, by, rt));
    assert(in_order(s1, by, rt));
    lemma_sorting_in_order_changes_nothing(s1, s2, by, rt);
}

} // verus!
