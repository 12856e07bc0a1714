//! The text of a listing: the `total` line, then one line per entry with
//! its image, the columns the options ask for, its name and indicator.

use vstd::prelude::*;
use vstd::utf8::encode_utf8;
use vstd::string::StringSliceAdditionalSpecFns;
use crate::options::Opts;
use crate::text::{
    digits, decimal, chars_of, string_from_chars, spaces, padded, push_str, push_all, push_padded,
    push_spaces, push_decimal, lemma_digits_len,
};
use crate::names::{entry_name, entry_filename};
use crate::mode::{is_dir_mode, is_file_mode, mode_is_dir, mode_is_file, mode_text, format_mode, type_suffix, push_type_suffix};
use crate::human::{human_text, format_human};
use crate::timefmt::{format_time, strftime_valid, strftime_is_valid, time_text_ok, time_text_for};
use crate::image::{placeholder_text, image_text, push_placeholder, push_image, base64_fits};

verus! {

/// What was read of a file's metadata (`lstat`).
pub struct EntryMeta {
    pub mode: u32,
    pub ino: u64,
    pub nlink: u64,
    pub uid: u32,
    pub gid: u32,
    pub size: u64,
    pub blocks: u64,
    pub atime: i64,
    pub mtime: i64,
    pub ctime: i64,
}

/// One entry of a listing, with everything that was read for it: its
/// metadata, its image dimensions if they were probed and found, the owner
/// and group names if they were looked up and exist, and its contents if
/// they were read.
pub struct ListEntry {
    pub path: Vec<u8>,
    pub meta: EntryMeta,
    pub dims: Option<(usize, usize)>,
    pub owner: Option<String>,
    pub group: Option<String>,
    pub contents: Option<Vec<u8>>,
}

/// Whether block counts are shown (`-s` or `-l`).
pub open spec fn shows_blocks(opts: Opts) -> bool {
    opts.show_blocks || opts.l
}

/// A dot file in the sense of the block total: a name that starts with
/// one dot, is not `.` and does not start with `..`.
pub open spec fn is_hidden_dotfile(name: Seq<char>) -> bool {
    &&& name.len() > 0
    &&& name[0] == '.'
    &&& !(name.len() >= 2 && name[1] == '.')
    &&& name != seq!['.']
}

/// Whether an entry's blocks count towards the total: not a directory, and
/// not a dot file unless `-a` is given.
pub open spec fn counts_blocks(e: ListEntry, in_dir: bool, opts: Opts) -> bool {
    !is_dir_mode(e.meta.mode) && (opts.a || !is_hidden_dotfile(entry_name(e.path@, in_dir)))
}

/// The sum of the blocks that count towards the total.
pub open spec fn block_sum(es: Seq<ListEntry>, in_dir: bool, opts: Opts) -> nat
    decreases es.len(),
{
    if es.len() == 0 {
        0
    } else {
        block_sum(es.drop_last(), in_dir, opts) + if counts_blocks(es.last(), in_dir, opts) {
            es.last().meta.blocks as nat
        } else {
            0nat
        }
    }
}

/// The owner column: the user id with `-n` or where no name exists, else
/// the name.
pub open spec fn owner_label(e: ListEntry, opts: Opts) -> Seq<char> {
    match e.owner {
        Some(s) => if opts.n {
            digits(e.meta.uid as nat)
        } else {
            s@
        },
        None => digits(e.meta.uid as nat),
    }
}

/// The group column, like the owner column.
pub open spec fn group_label(e: ListEntry, opts: Opts) -> Seq<char> {
    match e.group {
        Some(s) => if opts.n {
            digits(e.meta.gid as nat)
        } else {
            s@
        },
        None => digits(e.meta.gid as nat),
    }
}

/// The widest value of a column over the entries, zero for none.
pub open spec fn col_max(es: Seq<ListEntry>, f: spec_fn(ListEntry) -> nat) -> nat
    decreases es.len(),
{
    if es.len() == 0 {
        0
    } else {
        let m = col_max(es.drop_last(), f);
        let x = f(es.last());
        if x > m {
            x
        } else {
            m
        }
    }
}

/// The widths of the columns of a listing.
pub struct Widths {
    pub dim_w: usize,
    pub dim_h: usize,
    pub blocks: usize,
    pub nlink: usize,
    pub ino: usize,
    pub bytes: usize,
    pub owner: usize,
    pub group: usize,
}

/// The numeral width of an image's width.
pub open spec fn dim_w_of(e: ListEntry) -> nat {
    match e.dims {
        Some(d) => digits(d.0 as nat).len(),
        None => 0,
    }
}

/// The numeral width of an image's height.
pub open spec fn dim_h_of(e: ListEntry) -> nat {
    match e.dims {
        Some(d) => digits(d.1 as nat).len(),
        None => 0,
    }
}

/// The image-width column.
pub open spec fn dim_w_col() -> spec_fn(ListEntry) -> nat {
    |e: ListEntry| dim_w_of(e)
}

/// The image-height column.
pub open spec fn dim_h_col() -> spec_fn(ListEntry) -> nat {
    |e: ListEntry| dim_h_of(e)
}

/// The block-count column.
pub open spec fn blocks_col() -> spec_fn(ListEntry) -> nat {
    |e: ListEntry| digits(e.meta.blocks as nat).len()
}

/// The link-count column.
pub open spec fn nlink_col() -> spec_fn(ListEntry) -> nat {
    |e: ListEntry| digits(e.meta.nlink as nat).len()
}

/// The inode column.
pub open spec fn ino_col() -> spec_fn(ListEntry) -> nat {
    |e: ListEntry| digits(e.meta.ino as nat).len()
}

/// The size column.
pub open spec fn bytes_col() -> spec_fn(ListEntry) -> nat {
    |e: ListEntry| digits(e.meta.size as nat).len()
}

/// The owner column, in bytes of UTF-8.
pub open spec fn owner_col(opts: Opts) -> spec_fn(ListEntry) -> nat {
    |e: ListEntry| encode_utf8(owner_label(e, opts)).len()
}

/// The group column, in bytes of UTF-8.
pub open spec fn group_col(opts: Opts) -> spec_fn(ListEntry) -> nat {
    |e: ListEntry| encode_utf8(group_label(e, opts)).len()
}

/// The column widths: each the widest value, where the column is shown;
/// owner and group widths count bytes of UTF-8.
pub open spec fn widths_ok(w: Widths, es: Seq<ListEntry>, opts: Opts) -> bool {
    &&& w.dim_w == col_max(es, dim_w_col())
    &&& w.dim_h == col_max(es, dim_h_col())
    &&& w.blocks == if shows_blocks(opts) { col_max(es, blocks_col()) } else { 0 }
    &&& w.nlink == if shows_blocks(opts) { col_max(es, nlink_col()) } else { 0 }
    &&& w.ino == if opts.i { col_max(es, ino_col()) } else { 0 }
    &&& w.bytes == if opts.l { col_max(es, bytes_col()) } else { 0 }
    &&& w.owner == if opts.l { col_max(es, owner_col(opts)) } else { 0 }
    &&& w.group == if opts.l && !opts.o { col_max(es, group_col(opts)) } else { 0 }
}

/// Whether the byte length of a name fits in a `usize`.
pub open spec fn label_fits(s: Seq<char>) -> bool {
    encode_utf8(s).len() <= usize::MAX
}

/// A looked-up name, if any, has a byte length that fits.
pub open spec fn name_fits(o: Option<String>) -> bool {
    match o {
        Some(s) => label_fits(s@),
        None => true,
    }
}

/// The looked-up names of every entry have byte lengths that fit.
pub open spec fn labels_fit(es: Seq<ListEntry>) -> bool {
    &&& forall|k: int|
        0 <= k < es.len() ==> name_fits((#[trigger] es[k]).owner)
    &&& forall|k: int|
        0 <= k < es.len() ==> name_fits((#[trigger] es[k]).group)
}

proof fn lemma_encode_len(s: Seq<char>)
    ensures
        encode_utf8(s).len() <= 4 * s.len(),
    decreases s.len(),
{
    if s.len() > 0 {
        lemma_encode_len(s.drop_first());
    }
}

fn bigger(a: usize, b: usize) -> (m: usize)
    ensures
        m == if b > a { b } else { a },
{
    if b > a { b } else { a }
}

fn label_of(id: u32, name: &Option<String>, numeric: bool) -> (l: Vec<char>)
    ensures
        l@ == match *name {
            Some(s) => if numeric {
                digits(id as nat)
            } else {
                s@
            },
            None => digits(id as nat),
        },
{
    match name {
        Some(s) => if numeric {
            decimal(id as u64)
        } else {
            chars_of(s.as_str())
        },
        None => decimal(id as u64),
    }
}

fn byte_len(l: &Vec<char>) -> (n: usize)
    requires
        label_fits(l@),
    ensures
        n == encode_utf8(l@).len(),
{
    let s = string_from_chars(l);
    s.as_str().len()
}

proof fn lemma_digit_label_fits(n: nat)
    requires
        n <= u64::MAX,
    ensures
        label_fits(digits(n)),
        digits(n).len() <= 20,
{
    reveal_with_fuel(pow10, 21);
    lemma_digits_len_bound(n, 20);
    lemma_encode_len(digits(n));
}

proof fn lemma_digits_len_bound(n: nat, k: nat)
    requires
        k >= 1,
        n < pow10(k),
    ensures
        digits(n).len() <= k,
    decreases k,
{
    lemma_digits_len(n);
    if n >= 10 {
        reveal_with_fuel(pow10, 2);
        assert(pow10(1) == 10);
        assert(k >= 2);
        assert(n / 10 < pow10((k - 1) as nat));
        lemma_digits_len_bound(n / 10, (k - 1) as nat);
    }
}

/// Ten to the power `k`.
pub open spec fn pow10(k: nat) -> nat
    decreases k,
{
    if k == 0 {
        1
    } else {
        10 * pow10((k - 1) as nat)
    }
}


/// The widths of the columns of a listing of these entries.
pub fn column_widths(es: &Vec<ListEntry>, opts: &Opts) -> (w: Widths)
    requires
        labels_fit(es@),
    ensures
        widths_ok(w, es@, *opts),
{
    let mut w = Widths { dim_w: 0, dim_h: 0, blocks: 0, nlink: 0, ino: 0, bytes: 0, owner: 0, group: 0 };
    let mut k: usize = 0;
    assert(es@.take(0) =~= Seq::<ListEntry>::empty());
    while k < es.len()
        invariant
            k <= es@.len(),
            labels_fit(es@),
            widths_ok(w, es@.take(k as int), *opts),
        decreases es@.len() - k,
    {
        let e = &es[k];
        let ghost pre = es@.take(k as int);
        let ghost cur = es@.take(k + 1);
        assert(cur.drop_last() =~= pre);
        assert(cur.last() == *e);
        match e.dims {
            Some(d) => {
                w.dim_w = bigger(w.dim_w, decimal(d.0 as u64).len());
                w.dim_h = bigger(w.dim_h, decimal(d.1 as u64).len());
            },
            None => {},
        }
        if opts.show_blocks || opts.l {
            w.blocks = bigger(w.blocks, decimal(e.meta.blocks).len());
            w.nlink = bigger(w.nlink, decimal(e.meta.nlink).len());
        }
        if opts.i {
            w.ino = bigger(w.ino, decimal(e.meta.ino).len());
        }
        if opts.l {
            w.bytes = bigger(w.bytes, decimal(e.meta.size).len());
            proof {
                lemma_digit_label_fits(e.meta.uid as nat);
                lemma_digit_label_fits(e.meta.gid as nat);
                assert(name_fits(es@[k as int].owner));
                assert(name_fits(es@[k as int].group));
            }
            let owner = label_of(e.meta.uid, &e.owner, opts.n);
            assert(owner@ == owner_label(*e, *opts));
            w.owner = bigger(w.owner, byte_len(&owner));
            if !opts.o {
                let group = label_of(e.meta.gid, &e.group, opts.n);
                assert(group@ == group_label(*e, *opts));
                w.group = bigger(w.group, byte_len(&group));
            }
        }
        k = k + 1;
    }
    assert(es@.take(es@.len() as int) =~= es@);
    w
}


/// The widths that a listing of these entries uses.
pub open spec fn listing_widths(es: Seq<ListEntry>, opts: Opts) -> Widths {
    Widths {
        dim_w: col_max(es, dim_w_col()) as usize,
        dim_h: col_max(es, dim_h_col()) as usize,
        blocks: (if shows_blocks(opts) { col_max(es, blocks_col()) } else { 0 }) as usize,
        nlink: (if shows_blocks(opts) { col_max(es, nlink_col()) } else { 0 }) as usize,
        ino: (if opts.i { col_max(es, ino_col()) } else { 0 }) as usize,
        bytes: (if opts.l { col_max(es, bytes_col()) } else { 0 }) as usize,
        owner: (if opts.l { col_max(es, owner_col(opts)) } else { 0 }) as usize,
        group: (if opts.l && !opts.o { col_max(es, group_col(opts)) } else { 0 }) as usize,
    }
}

/// Whether an entry is shown with the placeholder image: anything but a
/// non-empty regular file, and, when dimensions are shown and unknown types
/// are not, a file whose dimensions were not found.
pub open spec fn is_placeholder(e: ListEntry, opts: Opts) -> bool {
    !is_file_mode(e.meta.mode) || e.meta.size == 0 || (opts.dimensions && e.dims is None
        && !opts.unknown)
}

/// The contents read for an entry.
pub open spec fn contents_view(e: ListEntry) -> Option<Seq<u8>> {
    match e.contents {
        Some(c) => Some(c@),
        None => None,
    }
}

/// The image at the start of an entry's line.
#[verifier::opaque]
pub open spec fn image_part(e: ListEntry, opts: Opts) -> Seq<char> {
    if is_placeholder(e, opts) {
        placeholder_text(opts)
    } else {
        image_text(e.path@, e.meta.size, contents_view(e), opts)
    }
}

/// The dimensions column: `[w x h]` right-aligned in the widths, blanks for
/// an entry without dimensions; shown when dimensions are asked for and
/// some entry has them.
#[verifier::opaque]
pub open spec fn dims_text(e: ListEntry, opts: Opts, w: Widths) -> Seq<char> {
    if opts.dimensions && (w.dim_w > 0 || w.dim_h > 0) {
        let mw: int = if w.dim_w > 1 { w.dim_w as int } else { 1 };
        let mh: int = if w.dim_h > 1 { w.dim_h as int } else { 1 };
        match e.dims {
            Some(d) => " ["@ + padded(digits(d.0 as nat), mw) + " x "@ + padded(digits(d.1 as nat), mh)
                + "] "@,
            None => " "@ + spaces(mw as nat) + "   "@ + spaces(mh as nat) + "   "@,
        }
    } else {
        seq![]
    }
}

/// The mode and link-count columns.
#[verifier::opaque]
pub open spec fn mode_links_text(e: ListEntry, w: Widths) -> Seq<char> {
    " "@ + mode_text(e.meta.mode) + " "@ + padded(digits(e.meta.nlink as nat), w.nlink as int)
}

/// The owner column, and the group column unless `-o`.
#[verifier::opaque]
pub open spec fn owner_group_text(e: ListEntry, opts: Opts, w: Widths) -> Seq<char> {
    " "@ + padded(owner_label(e, opts), w.owner as int) + (if !opts.o {
        "  "@ + padded(group_label(e, opts), w.group as int)
    } else {
        seq![]
    })
}

/// The size column: human-readable in four places with `-h`.
#[verifier::opaque]
pub open spec fn size_text(e: ListEntry, opts: Opts, w: Widths) -> Seq<char> {
    if opts.h {
        "  "@ + padded(human_text(e.meta.size as nat), 4)
    } else {
        "  "@ + padded(digits(e.meta.size as nat), w.bytes as int)
    }
}

/// The columns of a long listing (`-l`): mode, links, owner, group unless
/// `-o`, size (human-readable with `-h`) and time.
#[verifier::opaque]
pub open spec fn long_text(e: ListEntry, opts: Opts, w: Widths, time: Seq<char>) -> Seq<char> {
    if opts.l {
        mode_links_text(e, w) + owner_group_text(e, opts, w) + size_text(e, opts, w) + " "@ + time
    } else {
        seq![]
    }
}

/// The inode column (`-i`).
#[verifier::opaque]
pub open spec fn ino_text(e: ListEntry, opts: Opts, w: Widths) -> Seq<char> {
    if opts.i {
        " "@ + padded(digits(e.meta.ino as nat), w.ino as int)
    } else {
        seq![]
    }
}

/// The block-count column (`-s`).
#[verifier::opaque]
pub open spec fn blocks_text(e: ListEntry, opts: Opts, w: Widths) -> Seq<char> {
    if opts.s {
        " "@ + padded(digits(e.meta.blocks as nat), w.blocks as int)
    } else {
        seq![]
    }
}

/// The name, its indicator and the end of the line.
#[verifier::opaque]
pub open spec fn name_text(e: ListEntry, in_dir: bool, opts: Opts) -> Seq<char> {
    " "@ + entry_name(e.path@, in_dir) + type_suffix(e.meta.mode, opts) + "\n"@
}

/// One line of a listing: image, dimensions, inode (`-i`), blocks (`-s`),
/// long columns, name and indicator.
pub open spec fn row_text(e: ListEntry, in_dir: bool, opts: Opts, w: Widths, time: Seq<char>) -> Seq<char> {
    image_part(e, opts) + dims_text(e, opts, w) + ino_text(e, opts, w) + blocks_text(e, opts, w)
        + long_text(e, opts, w, time) + name_text(e, in_dir, opts)
}

/// The lines of a listing, the `k`-th with the `k`-th time text.
pub open spec fn rows_text(
    es: Seq<ListEntry>,
    in_dir: bool,
    opts: Opts,
    w: Widths,
    times: Seq<Seq<char>>,
) -> Seq<char>
    decreases es.len(),
{
    if es.len() == 0 {
        seq![]
    } else {
        rows_text(es.drop_last(), in_dir, opts, w, times.drop_last()) + row_text(
            es.last(),
            in_dir,
            opts,
            w,
            times[es.len() - 1],
        )
    }
}

/// The `total` line: for a directory's listing with `-s` or `-l` and
/// without `-d`, the blocks that count, halved with `-k`.
pub open spec fn header_text(es: Seq<ListEntry>, in_dir: bool, opts: Opts) -> Seq<char> {
    if shows_blocks(opts) && in_dir && !opts.d {
        let total = block_sum(es, in_dir, opts);
        "total "@ + digits(if opts.k { total / 2 } else { total }) + "\n"@
    } else {
        seq![]
    }
}

/// The text of a listing of `es` (a directory's contents where `in_dir`,
/// operands otherwise), with `times` the time column of each entry.
pub open spec fn listing_text(es: Seq<ListEntry>, in_dir: bool, opts: Opts, times: Seq<Seq<char>>) -> Seq<char> {
    header_text(es, in_dir, opts) + rows_text(es, in_dir, opts, listing_widths(es, opts), times)
}


/// Every entry's path and contents are short enough to encode in base64.
pub open spec fn images_fit(es: Seq<ListEntry>) -> bool {
    forall|k: int|
        0 <= k < es.len() ==> base64_fits((#[trigger] es[k]).path@.len()) && match es[k].contents {
            Some(c) => base64_fits(c@.len()),
            None => true,
        }
}

fn push_dims(out: &mut Vec<char>, e: &ListEntry, opts: &Opts, w: &Widths)
    ensures
        final(out)@ == old(out)@ + dims_text(*e, *opts, *w),
{
    reveal(dims_text);
    if opts.dimensions && (w.dim_w > 0 || w.dim_h > 0) {
        let mw = bigger(w.dim_w, 1);
        let mh = bigger(w.dim_h, 1);
        match e.dims {
            Some(d) => {
                push_str(out, " [");
                push_padded(out, &decimal(d.0 as u64), mw);
                push_str(out, " x ");
                push_padded(out, &decimal(d.1 as u64), mh);
                push_str(out, "] ");
            },
            None => {
                push_str(out, " ");
                push_spaces(out, mw);
                push_str(out, "   ");
                push_spaces(out, mh);
                push_str(out, "   ");
            },
        }
    }
    assert(out@ =~= old(out)@ + dims_text(*e, *opts, *w));
}

fn push_lit_padded(out: &mut Vec<char>, lit: &str, v: &Vec<char>, w: usize)
    ensures
        final(out)@ == old(out)@ + (lit@ + padded(v@, w as int)),
{
    push_str(out, lit);
    push_padded(out, v, w);
    assert(out@ =~= old(out)@ + (lit@ + padded(v@, w as int)));
}

fn push_mode_links(out: &mut Vec<char>, e: &ListEntry, w: &Widths)
    ensures
        final(out)@ == old(out)@ + mode_links_text(*e, *w),
{
    reveal(mode_links_text);
    push_str(out, " ");
    let mode = format_mode(e.meta.mode);
    push_all(out, &chars_of(mode.as_str()));
    push_lit_padded(out, " ", &decimal(e.meta.nlink), w.nlink);
    assert(out@ =~= old(out)@ + mode_links_text(*e, *w));
}

fn push_owner_group(out: &mut Vec<char>, e: &ListEntry, opts: &Opts, w: &Widths)
    ensures
        final(out)@ == old(out)@ + owner_group_text(*e, *opts, *w),
{
    reveal(owner_group_text);
    let owner = label_of(e.meta.uid, &e.owner, opts.n);
    push_lit_padded(out, " ", &owner, w.owner);
    if !opts.o {
        let group = label_of(e.meta.gid, &e.group, opts.n);
        push_lit_padded(out, "  ", &group, w.group);
    }
    assert(out@ =~= old(out)@ + owner_group_text(*e, *opts, *w));
}

fn push_size(out: &mut Vec<char>, e: &ListEntry, opts: &Opts, w: &Widths)
    ensures
        final(out)@ == old(out)@ + size_text(*e, *opts, *w),
{
    reveal(size_text);
    if opts.h {
        let human = format_human(e.meta.size);
        push_lit_padded(out, "  ", &chars_of(human.as_str()), 4);
    } else {
        push_lit_padded(out, "  ", &decimal(e.meta.size), w.bytes);
    }
}

fn push_long(out: &mut Vec<char>, e: &ListEntry, opts: &Opts, w: &Widths, time: &Vec<char>)
    ensures
        final(out)@ == old(out)@ + long_text(*e, *opts, *w, time@),
{
    reveal(long_text);
    if opts.l {
        push_mode_links(out, e, w);
        push_owner_group(out, e, opts, w);
        push_size(out, e, opts, w);
        push_str(out, " ");
        push_all(out, time);
    }
    assert(out@ =~= old(out)@ + long_text(*e, *opts, *w, time@));
}

fn push_image_part(out: &mut Vec<char>, e: &ListEntry, opts: &Opts)
    requires
        base64_fits(e.path@.len()),
        e.contents matches Some(c) ==> base64_fits(c@.len()),
    ensures
        final(out)@ == old(out)@ + image_part(*e, *opts),
{
    reveal(image_part);
    let placeholder = !mode_is_file(e.meta.mode) || e.meta.size == 0 || (opts.dimensions
        && e.dims.is_none() && !opts.unknown);
    if placeholder {
        push_placeholder(out, opts);
    } else {
        push_image(out, e.path.as_slice(), e.meta.size, &e.contents, opts);
    }
}

fn push_ino_blocks(out: &mut Vec<char>, e: &ListEntry, opts: &Opts, w: &Widths)
    ensures
        final(out)@ == old(out)@ + ino_text(*e, *opts, *w) + blocks_text(*e, *opts, *w),
{
    reveal(ino_text);
    reveal(blocks_text);
    let ghost start = out@;
    if opts.i {
        push_lit_padded(out, " ", &decimal(e.meta.ino), w.ino);
    }
    assert(out@ =~= start + ino_text(*e, *opts, *w));
    if opts.s {
        push_lit_padded(out, " ", &decimal(e.meta.blocks), w.blocks);
    }
    assert(out@ =~= start + ino_text(*e, *opts, *w) + blocks_text(*e, *opts, *w));
}

fn push_name(out: &mut Vec<char>, e: &ListEntry, name: &Vec<char>, in_dir: Ghost<bool>, opts: &Opts)
    requires
        name@ == entry_name(e.path@, in_dir@),
    ensures
        final(out)@ == old(out)@ + name_text(*e, in_dir@, *opts),
{
    reveal(name_text);
    push_str(out, " ");
    push_all(out, name);
    push_type_suffix(out, e.meta.mode, opts);
    push_str(out, "\n");
    assert(out@ =~= old(out)@ + name_text(*e, in_dir@, *opts));
}

fn push_row(
    out: &mut Vec<char>,
    e: &ListEntry,
    name: &Vec<char>,
    in_dir: Ghost<bool>,
    opts: &Opts,
    w: &Widths,
    time: &Vec<char>,
)
    requires
        name@ == entry_name(e.path@, in_dir@),
        base64_fits(e.path@.len()),
        e.contents matches Some(c) ==> base64_fits(c@.len()),
    ensures
        final(out)@ == old(out)@ + row_text(*e, in_dir@, *opts, *w, time@),
{
    let ghost start = out@;
    push_image_part(out, e, opts);
    push_dims(out, e, opts, w);
    push_ino_blocks(out, e, opts, w);
    push_long(out, e, opts, w, time);
    push_name(out, e, name, in_dir, opts);
    assert(out@ =~= start + row_text(*e, in_dir@, *opts, *w, time@));
}

fn hidden_dotfile(name: &Vec<char>) -> (r: bool)
    ensures
        r == is_hidden_dotfile(name@),
{
    let r = name.len() > 0 && name[0] == '.' && !(name.len() >= 2 && name[1] == '.') && !(
    name.len() == 1);
    assert(r == is_hidden_dotfile(name@)) by {
        if name@ == seq!['.'] {
            assert(name@.len() == 1);
        }
        if name@.len() == 1 && name@[0] == '.' {
            assert(name@ =~= seq!['.']);
        }
    }
    r
}

proof fn lemma_block_sum_prefix(es: Seq<ListEntry>, in_dir: bool, opts: Opts, j: int, k: int)
    requires
        0 <= j <= k <= es.len(),
    ensures
        block_sum(es.take(j), in_dir, opts) <= block_sum(es.take(k), in_dir, opts),
    decreases k - j,
{
    if j < k {
        lemma_block_sum_prefix(es, in_dir, opts, j, k - 1);
        assert(es.take(k).drop_last() =~= es.take(k - 1));
    }
}

/// The text of a listing of `es`, with `times` the time column of each
/// entry. `parent` is the directory being listed, if any.
pub fn listing_with_times(parent: Option<&[u8]>, es: &Vec<ListEntry>, opts: &Opts, times: &Vec<String>) -> (s: String)
    requires
        times@.len() == es@.len(),
        labels_fit(es@),
        images_fit(es@),
        shows_blocks(*opts) ==> block_sum(es@, parent is Some, *opts) <= u64::MAX,
    ensures
        s@ == listing_text(es@, parent is Some, *opts, times@.map_values(|t: String| t@)),
{
    let ghost in_dir = parent is Some;
    let ghost tv = times@.map_values(|t: String| t@);
    let mut names: Vec<Vec<char>> = Vec::new();
    let mut k: usize = 0;
    while k < es.len()
        invariant
            k <= es@.len(),
            names@.len() == k,
            in_dir == (parent is Some),
            forall|m: int| 0 <= m < k ==> (#[trigger] names@[m])@ == entry_name(es@[m].path@, in_dir),
        decreases es@.len() - k,
    {
        let n = entry_filename(es[k].path.as_slice(), parent);
        names.push(chars_of(n.as_str()));
        k = k + 1;
    }
    let mut out: Vec<char> = Vec::new();
    let shows = opts.show_blocks || opts.l;
    if shows && parent.is_some() && !opts.d {
        let total = match checked_block_total(es, parent, opts) {
            Some(t) => t,
            None => 0,
        };
        push_str(&mut out, "total ");
        push_decimal(&mut out, if opts.k { total / 2 } else { total });
        push_str(&mut out, "\n");
    }
    assert(out@ =~= header_text(es@, in_dir, *opts));
    let w = column_widths(es, opts);
    assert(w == listing_widths(es@, *opts));
    let mut k: usize = 0;
    assert(es@.take(0) =~= Seq::<ListEntry>::empty());
    while k < es.len()
        invariant
            k <= es@.len(),
            names@.len() == es@.len(),
            times@.len() == es@.len(),
            tv == times@.map_values(|t: String| t@),
            images_fit(es@),
            forall|m: int| 0 <= m < es@.len() ==> (#[trigger] names@[m])@ == entry_name(es@[m].path@, in_dir),
            out@ == header_text(es@, in_dir, *opts) + rows_text(es@.take(k as int), in_dir, *opts, w, tv.take(k as int)),
        decreases es@.len() - k,
    {
        let e = &es[k];
        let time = chars_of(times[k].as_str());
        assert(base64_fits(es@[k as int].path@.len()));
        push_row(&mut out, e, &names[k], Ghost(in_dir), opts, &w, &time);
        assert(es@.take(k + 1).drop_last() =~= es@.take(k as int));
        assert(tv.take(k + 1).drop_last() =~= tv.take(k as int));
        assert(tv.take(k + 1)[k as int] == time@);
        k = k + 1;
    }
    assert(es@.take(es@.len() as int) =~= es@);
    assert(tv.take(es@.len() as int) =~= tv);
    string_from_chars(&out)
}


/// The timestamp shown in an entry's time column: its change time with
/// `-c`, its modification time otherwise.
pub open spec fn listed_time(meta: EntryMeta, opts: Opts) -> int {
    if opts.c {
        meta.ctime as int
    } else {
        meta.mtime as int
    }
}

/// What holds of the time column of a listing of `es`: under `-l`, each
/// text is the entry's `listed_time` as `format_time` gives it
/// (`time_text_for`, with the shape `time_text_ok`); without `-l` there is
/// none.
pub open spec fn time_column_ok(times: Seq<Seq<char>>, es: Seq<ListEntry>, opts: Opts) -> bool {
    forall|k: int|
        0 <= k < times.len() ==> if opts.l {
            time_text_ok(#[trigger] times[k], opts) && time_text_for(times[k], listed_time(es[k].meta, opts), opts)
        } else {
            times[k] == Seq::<char>::empty()
        }
}

/// Lists `es` (the contents of `parent` where one is given, operands
/// otherwise): the text is the listing with each entry's time column as
/// `format_time` gives it for its change time (`-c`) or modification time;
/// without `-l` there is no time column and the text is fully determined.
pub fn do_ls(parent: Option<&[u8]>, es: &Vec<ListEntry>, opts: &Opts) -> (s: String)
    requires
        labels_fit(es@),
        images_fit(es@),
        shows_blocks(*opts) ==> block_sum(es@, parent is Some, *opts) <= u64::MAX,
        opts.l && es@.len() > 0 ==> (opts.d_fmt matches Some(f) ==> strftime_valid(f@)),
    ensures
        exists|times: Seq<Seq<char>>|
            times.len() == es@.len() && time_column_ok(times, es@, *opts) && s@ == #[trigger] listing_text(
                es@,
                parent is Some,
                *opts,
                times,
            ),
        !opts.l ==> s@ == listing_text(
            es@,
            parent is Some,
            *opts,
            Seq::new(es@.len(), |k: int| Seq::<char>::empty()),
        ),
{
    let mut times: Vec<String> = Vec::new();
    let mut k: usize = 0;
    while k < es.len()
        invariant
            k <= es@.len(),
            times@.len() == k,
            opts.l && es@.len() > 0 ==> (opts.d_fmt matches Some(f) ==> strftime_valid(f@)),
            forall|m: int|
                0 <= m < k ==> if opts.l {
                    time_text_ok((#[trigger] times@[m])@, *opts) && time_text_for(
                        times@[m]@,
                        listed_time(es@[m].meta, *opts),
                        *opts,
                    )
                } else {
                    times@[m]@ == Seq::<char>::empty()
                },
        decreases es@.len() - k,
    {
        if opts.l {
            let t = if opts.c { es[k].meta.ctime } else { es[k].meta.mtime };
            times.push(format_time(t, opts));
        } else {
            times.push(String::new());
        }
        k = k + 1;
    }
    let s = listing_with_times(parent, es, opts, &times);
    let ghost tv = times@.map_values(|t: String| t@);
    assert(time_column_ok(tv, es@, *opts)) by {
        assert forall|k: int| 0 <= k < tv.len() implies (if opts.l {
            time_text_ok(#[trigger] tv[k], *opts) && time_text_for(tv[k], listed_time(es@[k].meta, *opts), *opts)
        } else {
            tv[k] == Seq::<char>::empty()
        }) by {
            assert(tv[k] == times@[k]@);
        }
    }
    if !opts.l {
        assert(tv =~= Seq::new(es@.len(), |k: int| Seq::<char>::empty()));
    }
    s
}

/// Whether an entry's image dimensions are probed: when dimensions are
/// shown, for a non-empty regular file.
pub open spec fn probes_dimensions(meta: EntryMeta, opts: Opts) -> bool {
    opts.dimensions && is_file_mode(meta.mode) && meta.size > 0
}

/// Whether an entry's image dimensions are probed.
pub fn wants_dimensions(meta: &EntryMeta, opts: &Opts) -> (r: bool)
    ensures
        r == probes_dimensions(*meta, *opts),
{
    opts.dimensions && mode_is_file(meta.mode) && meta.size > 0
}

/// Whether an entry's contents are read for its image: exactly when it is
/// not shown with the placeholder.
pub fn needs_contents(meta: &EntryMeta, dims: &Option<(usize, usize)>, opts: &Opts) -> (r: bool)
    ensures
        forall|e: ListEntry| e.meta == *meta && e.dims == *dims ==> r == !is_placeholder(e, *opts),
{
    !(!mode_is_file(meta.mode) || meta.size == 0 || (opts.dimensions && dims.is_none()
        && !opts.unknown))
}

/// The block total, or `None` where it does not fit in 64 bits.
fn checked_block_total(es: &Vec<ListEntry>, parent: Option<&[u8]>, opts: &Opts) -> (t: Option<u64>)
    ensures
        t matches Some(v) ==> v == block_sum(es@, parent is Some, *opts),
        t is None ==> block_sum(es@, parent is Some, *opts) > u64::MAX,
{
    let ghost in_dir = parent is Some;
    let mut total: u64 = 0;
    let mut k: usize = 0;
    assert(es@.take(0) =~= Seq::<ListEntry>::empty());
    while k < es.len()
        invariant
            k <= es@.len(),
            in_dir == (parent is Some),
            total == block_sum(es@.take(k as int), in_dir, *opts),
        decreases es@.len() - k,
    {
        let e = &es[k];
        assert(es@.take(k + 1).drop_last() =~= es@.take(k as int));
        let name = chars_of(entry_filename(e.path.as_slice(), parent).as_str());
        if !mode_is_dir(e.meta.mode) && (opts.a || !hidden_dotfile(&name)) {
            if total > u64::MAX - e.meta.blocks {
                proof {
                    lemma_block_sum_prefix(es@, in_dir, *opts, k + 1, es@.len() as int);
                    assert(es@.take(es@.len() as int) =~= es@);
                }
                return None;
            }
            total = total + e.meta.blocks;
        }
        k = k + 1;
    }
    assert(es@.take(es@.len() as int) =~= es@);
    Some(total)
}

/// Why a listing cannot be made.
#[derive(Debug, Clone, Copy, PartialEq, Eq, Structural)]
pub enum ListError {
    /// `-l` lists an entry and the `-D` format is one that chrono rejects.
    BadTimeFormat,
    /// The block total does not fit in 64 bits.
    BlockTotalOverflow,
}

/// Whether the listing would format a time with a `-D` format that chrono
/// rejects: under `-l`, with at least one entry.
pub open spec fn rejects_time_format(es: Seq<ListEntry>, opts: Opts) -> bool {
    opts.l && es.len() > 0 && (opts.d_fmt matches Some(f) && !strftime_valid(f@))
}

/// Whether the listing shows a block total that does not fit in 64 bits.
pub open spec fn block_total_overflows(es: Seq<ListEntry>, in_directory: bool, opts: Opts) -> bool {
    shows_blocks(opts) && block_sum(es, in_directory, opts) > u64::MAX
}

/// Lists `es` as `do_ls` does, or tells why the listing cannot be made: a
/// `-D` format that chrono rejects (checked first), or a block total that
/// does not fit in 64 bits.
pub fn try_do_ls(parent: Option<&[u8]>, es: &Vec<ListEntry>, opts: &Opts) -> (s: Result<String, ListError>)
    requires
        labels_fit(es@),
        images_fit(es@),
    ensures
        s matches Err(ListError::BadTimeFormat) <==> rejects_time_format(es@, *opts),
        s matches Err(ListError::BlockTotalOverflow) <==> !rejects_time_format(es@, *opts)
            && block_total_overflows(es@, parent is Some, *opts),
        s is Ok <==> !rejects_time_format(es@, *opts) && !block_total_overflows(es@, parent is Some, *opts),
        s matches Ok(text) ==> exists|times: Seq<Seq<char>>|
            times.len() == es@.len() && time_column_ok(times, es@, *opts) && text@ == #[trigger] listing_text(
                es@,
                parent is Some,
                *opts,
                times,
            ),
{
    if opts.l && es.len() > 0 {
        match &opts.d_fmt {
            Some(f) => {
                if !strftime_is_valid(f.as_str()) {
                    return Err(ListError::BadTimeFormat);
                }
            },
            None => {},
        }
    }
    if opts.show_blocks || opts.l {
        if checked_block_total(es, parent, opts).is_none() {
            return Err(ListError::BlockTotalOverflow);
        }
    }
    Ok(do_ls(parent, es, opts))
}

} // verus!

verus! {

/// Which entries carry their own image: an entry that is not a regular file,
/// or is empty, shows the placeholder; a non-empty regular file shows the
/// image of its own path, size and contents whenever dimensions are not
/// asked for, `--unknown` is given, or its dimensions were found.
pub proof fn lemma_which_entries_show_their_image(e: ListEntry, opts: Opts)
    ensures
        !is_file_mode(e.meta.mode) || e.meta.size == 0 ==> image_part(e, opts) == placeholder_text(opts),
        is_file_mode(e.meta.mode) && e.meta.size > 0 && (!opts.dimensions || opts.unknown
            || e.dims is Some) ==> !is_placeholder(e, opts) && image_part(e, opts) == image_text(
            e.path@,
            e.meta.size,
            contents_view(e),
            opts,
        ),
{
    reveal(image_part);
}

} // verus!
