//! File names: the last component of a path, the name shown for a listed
//! entry, and which names a listing hides.

use vstd::prelude::*;
use vstd::utf8::{valid_utf8, decode_utf8};
use crate::options::Opts;
use crate::text::chars_of;

verus! {

/// The byte of the path separator `/`.
pub open spec fn is_slash(b: u8) -> bool {
    b == 47
}

/// The longest suffix of `p` that holds no separator.
pub open spec fn trailing_segment(p: Seq<u8>) -> Seq<u8>
    decreases p.len(),
{
    if p.len() == 0 || is_slash(p.last()) {
        seq![]
    } else {
        trailing_segment(p.drop_last()).push(p.last())
    }
}

/// The last component of a path that is neither empty nor `.`, if any:
/// trailing separators and `.` components are passed over.
pub open spec fn last_component(p: Seq<u8>) -> Option<Seq<u8>>
    decreases p.len(),
{
    if p.len() == 0 {
        None
    } else if is_slash(p.last()) {
        last_component(p.drop_last())
    } else if trailing_segment(p) == seq![46u8] {
        last_component(p.drop_last())
    } else {
        Some(trailing_segment(p))
    }
}

/// The final component of a path, as `Path::file_name` gives it: none for a
/// path that ends in `..`, is a root, or names the current directory.
pub open spec fn file_name_of(p: Seq<u8>) -> Option<Seq<u8>> {
    match last_component(p) {
        Some(s) => if s == seq![46u8, 46u8] {
            None
        } else {
            Some(s)
        },
        None => None,
    }
}

/// The text that replacing each invalid UTF-8 sequence of `bytes` with
/// U+FFFD gives (`String::from_utf8_lossy`).
pub uninterp spec fn utf8_lossy(bytes: Seq<u8>) -> Seq<char>;

/// Decodes bytes as UTF-8, each invalid sequence replaced by U+FFFD
/// (`String::from_utf8_lossy`). Trusted: the result is the named
/// `utf8_lossy` of the bytes; valid UTF-8 comes back decoded unchanged, as
/// std documents; and, as each valid sequence is decoded and each invalid
/// one becomes U+FFFD, a `/` appears only where the byte 0x2F was (UTF-8
/// encodes `/` as that byte alone, and never uses it inside a longer
/// sequence).
#[verifier::external_body]
pub(crate) fn from_utf8_lossy(bytes: &[u8]) -> (s: String)
    ensures
        s@ == utf8_lossy(bytes@),
        valid_utf8(bytes@) ==> s@ == decode_utf8(bytes@),
        !bytes@.contains(47u8) ==> !s@.contains('/'),
{
    String::from_utf8_lossy(bytes).into_owned()
}

proof fn lemma_trailing_segment(p: Seq<u8>, start: int)
    requires
        0 <= start <= p.len(),
        start == 0 || is_slash(p[start - 1]),
        forall|i: int| start <= i < p.len() ==> !is_slash(#[trigger] p[i]),
    ensures
        trailing_segment(p) == p.subrange(start, p.len() as int),
    decreases p.len(),
{
    if p.len() == start {
        assert(p.subrange(start, p.len() as int) =~= Seq::<u8>::empty());
    } else {
        let q = p.drop_last();
        assert forall|i: int| start <= i < q.len() implies !is_slash(#[trigger] q[i]) by {
            assert(q[i] == p[i]);
        }
        if start > 0 {
            assert(q[start - 1] == p[start - 1]);
        }
        lemma_trailing_segment(q, start);
        assert(p.subrange(start, p.len() as int) =~= q.subrange(start, q.len() as int).push(
            p.last(),
        ));
    }
}

/// The final component of a path (`Path::file_name` on the path's bytes).
pub fn file_name_bytes(p: &[u8]) -> (res: Option<Vec<u8>>)
    ensures
        res matches Some(v) ==> file_name_of(p@) == Some(v@),
        res is None ==> file_name_of(p@) is None,
{
    let mut end: usize = p.len();
    assert(p@.take(end as int) =~= p@);
    loop
        invariant
            end <= p@.len(),
            last_component(p@) == last_component(p@.take(end as int)),
        decreases end,
    {
        let ghost cur = p@.take(end as int);
        if end == 0 {
            return None;
        }
        assert(cur.drop_last() =~= p@.take(end - 1));
        if p[end - 1] == 47 {
            end = end - 1;
        } else {
            let mut start: usize = end - 1;
            while start > 0 && p[start - 1] != 47
                invariant
                    start < end <= p@.len(),
                    forall|i: int| start <= i < end ==> !is_slash(#[trigger] p@[i]),
                decreases start,
            {
                start = start - 1;
            }
            proof {
                assert forall|i: int| start <= i < cur.len() implies !is_slash(#[trigger] cur[i]) by {
                    assert(cur[i] == p@[i]);
                }
                if start > 0 {
                    assert(cur[start - 1] == p@[start - 1]);
                }
                lemma_trailing_segment(cur, start as int);
                assert(cur.subrange(start as int, end as int) =~= p@.subrange(
                    start as int,
                    end as int,
                ));
            }
            if end - start == 1 && p[start] == 46 {
                assert(p@.subrange(start as int, end as int) =~= seq![46u8]);
                end = end - 1;
            } else {
                let mut seg: Vec<u8> = Vec::new();
                let mut i: usize = start;
                while i < end
                    invariant
                        start <= i <= end <= p@.len(),
                        seg@ == p@.subrange(start as int, i as int),
                    decreases end - i,
                {
                    seg.push(p[i]);
                    i = i + 1;
                    assert(seg@ =~= p@.subrange(start as int, i as int));
                }
                assert(seg@ != seq![46u8]) by {
                    if seg@ == seq![46u8] {
                        assert(seg@.len() == 1);
                        assert(seg@[0] == p@[start as int]);
                    }
                }
                if seg.len() == 2 && seg[0] == 46 && seg[1] == 46 {
                    assert(seg@ =~= seq![46u8, 46u8]);
                    return None;
                }
                assert(seg@ != seq![46u8, 46u8]);
                return Some(seg);
            }
        }
    }
}

/// The name shown for an entry: its final component when it is listed as
/// part of a directory (empty where it has none), else the whole path as
/// given, in both cases decoded as UTF-8 with invalid sequences replaced.
pub open spec fn entry_name(path: Seq<u8>, in_directory: bool) -> Seq<char> {
    if in_directory {
        match file_name_of(path) {
            Some(n) => utf8_lossy(n),
            None => seq![],
        }
    } else {
        utf8_lossy(path)
    }
}

/// The name shown for `path`, which is listed inside the directory
/// `parent` where one is given and as an operand otherwise. Which directory
/// it is does not matter, only whether there is one; a name shown inside a
/// directory never holds a `/`.
pub fn entry_filename(path: &[u8], parent: Option<&[u8]>) -> (s: String)
    ensures
        s@ == entry_name(path@, parent is Some),
        parent is Some ==> !s@.contains('/'),
{
    if parent.is_some() {
        match file_name_bytes(path) {
            Some(n) => {
                proof {
                    lemma_file_name_is_one_component(path@);
                    assert(!n@.contains(47u8)) by {
                        if n@.contains(47u8) {
                            let i = choose|i: int| 0 <= i < n@.len() && n@[i] == 47u8;
                            assert(is_slash(n@[i]));
                        }
                    }
                }
                from_utf8_lossy(n.as_slice())
            },
            None => String::new(),
        }
    } else {
        from_utf8_lossy(path)
    }
}

/// Whether a directory listing leaves out an entry of this name: with `-a`
/// none, with `-A` only `.` and `..`, otherwise every name that starts with
/// a dot.
pub open spec fn hidden_name(name: Seq<char>, opts: Opts) -> bool {
    if opts.a {
        false
    } else if opts.a_upper {
        name == seq!['.'] || name == seq!['.', '.']
    } else {
        name.len() > 0 && name[0] == '.'
    }
}

/// Whether a directory listing leaves out an entry of this name.
pub fn dot_filtered(name: &str, opts: &Opts) -> (res: bool)
    ensures
        res == hidden_name(name@, *opts),
{
    if opts.a {
        return false;
    }
    let cs = chars_of(name);
    if opts.a_upper {
        let dot = cs.len() == 1 && cs[0] == '.';
        let dotdot = cs.len() == 2 && cs[0] == '.' && cs[1] == '.';
        assert(dot == (cs@ == seq!['.'])) by {
            if cs@ == seq!['.'] {
                assert(cs@[0] == '.');
            }
            if dot {
                assert(cs@ =~= seq!['.']);
            }
        }
        assert(dotdot == (cs@ == seq!['.', '.'])) by {
            if cs@ == seq!['.', '.'] {
                assert(cs@[0] == '.' && cs@[1] == '.');
            }
            if dotdot {
                assert(cs@ =~= seq!['.', '.']);
            }
        }
        return dot || dotdot;
    }
    cs.len() > 0 && cs[0] == '.'
}

} // verus!

verus! {

proof fn lemma_trailing_segment_no_slash(p: Seq<u8>)
    ensures
        forall|i: int| 0 <= i < trailing_segment(p).len() ==> !is_slash(#[trigger] trailing_segment(p)[i]),
        p.len() > 0 && !is_slash(p.last()) ==> trailing_segment(p).len() > 0,
    decreases p.len(),
{
    if p.len() > 0 && !is_slash(p.last()) {
        lemma_trailing_segment_no_slash(p.drop_last());
        let t = trailing_segment(p.drop_last());
        assert forall|i: int| 0 <= i < trailing_segment(p).len() implies !is_slash(
            #[trigger] trailing_segment(p)[i],
        ) by {
            if i < t.len() {
                assert(trailing_segment(p)[i] == t[i]);
            }
        }
    }
}

proof fn lemma_last_component_shape(p: Seq<u8>)
    ensures
        last_component(p) matches Some(n) ==> n.len() > 0 && n != seq![46u8] && forall|i: int|
            0 <= i < n.len() ==> !is_slash(#[trigger] n[i]),
    decreases p.len(),
{
    if p.len() > 0 {
        lemma_last_component_shape(p.drop_last());
        lemma_trailing_segment_no_slash(p);
    }
}

/// A file name is a single component: not empty, without a separator,
/// and neither `.` nor `..`.
pub proof fn lemma_file_name_is_one_component(p: Seq<u8>)
    ensures
        file_name_of(p) matches Some(n) ==> {
            &&& n.len() > 0
            &&& n != seq![46u8]
            &&& n != seq![46u8, 46u8]
            &&& forall|i: int| 0 <= i < n.len() ==> !is_slash(#[trigger] n[i])
        },
{
    lemma_last_component_shape(p);
}

} // verus!

verus! {

/// Which names a directory listing hides, flag by flag: with `-a` none at
/// all, whatever `-A` says; without `-a`, `.` and `..` always; with `-A` no
/// other name; with neither flag, exactly the names that start with a dot.
pub proof fn lemma_hidden_names(name: Seq<char>, opts: Opts)
    ensures
        opts.a ==> !hidden_name(name, opts),
        !opts.a && (name == seq!['.'] || name == seq!['.', '.']) ==> hidden_name(name, opts),
        !opts.a && opts.a_upper && name != seq!['.'] && name != seq!['.', '.'] ==> !hidden_name(
            name,
            opts,
        ),
        !opts.a && !opts.a_upper ==> (hidden_name(name, opts) <==> (name.len() > 0 && name[0] == '.')),
{
}

} // verus!
