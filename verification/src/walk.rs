//! The decisions that drive a listing run: what each operand is, how a
//! directory's entries divide into files and subdirectories, the lines
//! between sections, and which subdirectories `-R` descends into.

use vstd::prelude::*;
use crate::options::Opts;
use crate::mode::{is_dir_mode, is_file_mode, mode_is_dir, mode_is_file};
use crate::names::{hidden_name, utf8_lossy, from_utf8_lossy, dot_filtered, entry_name, entry_filename};
use crate::text::{chars_of, push_str, push_all, string_from_chars};

verus! {

/// What an operand turns out to be.
#[derive(Clone, Copy, PartialEq, Eq, Structural, Debug)]
pub enum Operand {
    /// It could not be read: reported as missing.
    Missing,
    /// Listed among the files.
    File,
    /// Listed as a directory, with its contents.
    Dir,
}

/// What an operand is, given the mode read for it (none where it could not
/// be read): regular files, and with `-d` everything, are files;
/// directories are directories; anything else is a file.
pub open spec fn operand_kind(mode: Option<u32>, opts: Opts) -> Operand {
    match mode {
        None => Operand::Missing,
        Some(m) => if is_file_mode(m) || (opts.d && !is_dir_mode(m)) {
            Operand::File
        } else if is_dir_mode(m) {
            if opts.d {
                Operand::File
            } else {
                Operand::Dir
            }
        } else {
            Operand::File
        },
    }
}

/// What an operand is.
pub fn classify_operand(mode: Option<u32>, opts: &Opts) -> (k: Operand)
    ensures
        k == operand_kind(mode, *opts),
{
    match mode {
        None => Operand::Missing,
        Some(m) => if mode_is_file(m) || (opts.d && !mode_is_dir(m)) {
            Operand::File
        } else if mode_is_dir(m) {
            if opts.d {
                Operand::File
            } else {
                Operand::Dir
            }
        } else {
            Operand::File
        },
    }
}

/// An entry read from a directory: its name, its path, and its mode where
/// it could be read.
pub struct DirItem {
    pub name: Vec<u8>,
    pub path: Vec<u8>,
    pub mode: Option<u32>,
}

/// Whether a directory item is kept: its name, decoded, is not hidden.
pub open spec fn item_kept(item: DirItem, opts: Opts) -> bool {
    !hidden_name(utf8_lossy(item.name@), opts)
}

/// Whether a kept item is a subdirectory.
pub open spec fn item_is_dir(item: DirItem) -> bool {
    match item.mode {
        Some(m) => is_dir_mode(m),
        None => false,
    }
}

/// The paths of the kept items that are not directories, and of those that
/// are, each in the order read.
pub open spec fn split_items(items: Seq<DirItem>, opts: Opts) -> (Seq<Seq<u8>>, Seq<Seq<u8>>)
    decreases items.len(),
{
    if items.len() == 0 {
        (seq![], seq![])
    } else {
        let rest = split_items(items.drop_last(), opts);
        let it = items.last();
        if !item_kept(it, opts) {
            rest
        } else if item_is_dir(it) {
            (rest.0, rest.1.push(it.path@))
        } else {
            (rest.0.push(it.path@), rest.1)
        }
    }
}

/// The byte strings of a list of paths.
pub open spec fn paths_view(v: Seq<Vec<u8>>) -> Seq<Seq<u8>> {
    v.map_values(|p: Vec<u8>| p@)
}

fn copy_bytes(v: &Vec<u8>) -> (c: Vec<u8>)
    ensures
        c@ == v@,
{
    let mut c: Vec<u8> = Vec::new();
    let mut i: usize = 0;
    while i < v.len()
        invariant
            i <= v@.len(),
            c@ == v@.take(i as int),
        decreases v@.len() - i,
    {
        c.push(v[i]);
        i = i + 1;
        assert(c@ =~= v@.take(i as int));
    }
    assert(v@.take(v@.len() as int) =~= v@);
    c
}

/// Divides a directory's items into the paths of files and of
/// subdirectories, leaving out hidden names.
pub fn read_dir_split(items: &Vec<DirItem>, opts: &Opts) -> (r: (Vec<Vec<u8>>, Vec<Vec<u8>>))
    ensures
        (paths_view(r.0@), paths_view(r.1@)) == split_items(items@, *opts),
{
    let mut files: Vec<Vec<u8>> = Vec::new();
    let mut dirs: Vec<Vec<u8>> = Vec::new();
    let mut k: usize = 0;
    assert(items@.take(0) =~= Seq::<DirItem>::empty());
    assert(paths_view(files@) =~= Seq::<Seq<u8>>::empty());
    assert(paths_view(dirs@) =~= Seq::<Seq<u8>>::empty());
    while k < items.len()
        invariant
            k <= items@.len(),
            (paths_view(files@), paths_view(dirs@)) == split_items(items@.take(k as int), *opts),
        decreases items@.len() - k,
    {
        let it = &items[k];
        assert(items@.take(k + 1).drop_last() =~= items@.take(k as int));
        let name = from_utf8_lossy(it.name.as_slice());
        if !dot_filtered(name.as_str(), opts) {
            let is_dir = match it.mode {
                Some(m) => mode_is_dir(m),
                None => false,
            };
            if is_dir {
                let ghost before = dirs@;
                dirs.push(copy_bytes(&it.path));
                assert(paths_view(dirs@) =~= paths_view(before).push(it.path@));
            } else {
                let ghost before = files@;
                files.push(copy_bytes(&it.path));
                assert(paths_view(files@) =~= paths_view(before).push(it.path@));
            }
        }
        k = k + 1;
    }
    assert(items@.take(items@.len() as int) =~= items@);
    (files, dirs)
}

/// What precedes a directory's listing: an empty line unless it is the
/// first section, then its path and a colon when headers are shown.
pub open spec fn section_header_text(first: bool, show_name: bool, path: Seq<u8>) -> Seq<char> {
    (if first {
        seq![]
    } else {
        "\n"@
    }) + (if show_name {
        utf8_lossy(path) + ":\n"@
    } else {
        seq![]
    })
}

/// What precedes a directory's listing.
pub fn section_header(first: bool, show_name: bool, path: &[u8]) -> (s: String)
    ensures
        s@ == section_header_text(first, show_name, path@),
{
    let mut out: Vec<char> = Vec::new();
    if !first {
        push_str(&mut out, "\n");
    }
    if show_name {
        let shown = from_utf8_lossy(path);
        push_all(&mut out, &chars_of(shown.as_str()));
        push_str(&mut out, ":\n");
    }
    assert(out@ =~= section_header_text(first, show_name, path@));
    string_from_chars(&out)
}

/// Whether `-R` descends into a subdirectory: unless its name is `.` or
/// `..`.
pub fn descends_into(path: &[u8]) -> (r: bool)
    ensures
        r == (entry_name(path@, true) != seq!['.'] && entry_name(path@, true) != seq!['.', '.']),
{
    let name = chars_of(entry_filename(path, Some(path)).as_str());
    let dot = name.len() == 1 && name[0] == '.';
    let dotdot = name.len() == 2 && name[0] == '.' && name[1] == '.';
    assert(dot == (name@ == seq!['.'])) by {
        if name@ == seq!['.'] {
            assert(name@[0] == '.');
        }
        if dot {
            assert(name@ =~= seq!['.']);
        }
    }
    assert(dotdot == (name@ == seq!['.', '.'])) by {
        if name@ == seq!['.', '.'] {
            assert(name@[0] == '.' && name@[1] == '.');
        }
        if dotdot {
            assert(name@ =~= seq!['.', '.']);
        }
    }
    !dot && !dotdot
}

} // verus!

verus! {

/// With `-d`, no operand is listed as a directory's contents.
pub proof fn lemma_directory_flag_lists_no_contents(mode: Option<u32>, opts: Opts)
    requires
        opts.d,
    ensures
        operand_kind(mode, opts) != Operand::Dir,
{
}

} // verus!

verus! {

/// Whether `-R` descends into a subdirectory at this path.
pub open spec fn descends(path: Seq<u8>) -> bool {
    entry_name(path, true) != seq!['.'] && entry_name(path, true) != seq!['.', '.']
}

/// The subdirectories, in order, that `-R` descends into.
pub open spec fn descended(subdirs: Seq<Seq<u8>>) -> Seq<Seq<u8>>
    decreases subdirs.len(),
{
    if subdirs.len() == 0 {
        seq![]
    } else {
        let rest = descended(subdirs.drop_last());
        if descends(subdirs.last()) {
            rest.push(subdirs.last())
        } else {
            rest
        }
    }
}

/// The directories still to be listed, first to last, and the state of
/// the section headers between their listings.
pub struct DirQueue {
    pending: Vec<Vec<u8>>,
    first: bool,
    show_names: bool,
}

impl DirQueue {
    /// The paths still to be listed, in order.
    pub closed spec fn pending_paths(self) -> Seq<Seq<u8>> {
        paths_view(self.pending@)
    }

    /// Whether no directory section has been printed yet.
    pub closed spec fn at_start(self) -> bool {
        self.first
    }

    /// Whether the next section shows its directory's name.
    pub closed spec fn names_shown(self) -> bool {
        self.show_names
    }

    /// The queue of the directory operands, with names shown when more than
    /// one operand was given.
    pub fn new(dirs: Vec<Vec<u8>>, operand_count: usize) -> (q: Self)
        ensures
            q.pending_paths() == paths_view(dirs@),
            q.at_start(),
            q.names_shown() == (operand_count > 1),
    {
        DirQueue { pending: dirs, first: true, show_names: operand_count > 1 }
    }

    /// Takes the next directory to list, if any.
    pub fn next_dir(&mut self) -> (d: Option<Vec<u8>>)
        ensures
            old(self).pending_paths().len() == 0 ==> d is None && final(self).pending_paths()
                == old(self).pending_paths(),
            old(self).pending_paths().len() > 0 ==> (d matches Some(p) && p@ == old(
                self,
            ).pending_paths()[0]) && final(self).pending_paths() == old(
                self,
            ).pending_paths().drop_first(),
            final(self).at_start() == old(self).at_start(),
            final(self).names_shown() == old(self).names_shown(),
    {
        if self.pending.len() == 0 {
            return None;
        }
        let ghost before = self.pending@;
        let d = self.pending.remove(0);
        assert(paths_view(self.pending@) =~= paths_view(before).drop_first());
        Some(d)
    }

    /// The text that opens the listing of the directory at `path`: an empty
    /// line unless it is the first, then its name when names are shown.
    /// From then on every section is preceded by an empty line and shows
    /// its name.
    pub fn begin_section(&mut self, path: &[u8]) -> (s: String)
        ensures
            s@ == section_header_text(old(self).at_start(), old(self).names_shown(), path@),
            !final(self).at_start(),
            final(self).names_shown(),
            final(self).pending_paths() == old(self).pending_paths(),
    {
        let s = section_header(self.first, self.show_names, path);
        self.first = false;
        self.show_names = true;
        s
    }

    /// Queues, with `-R`, the subdirectories of the directory just listed
    /// that it descends into; without `-R`, nothing.
    pub fn add_subdirs(&mut self, subdirs: &Vec<Vec<u8>>, opts: &Opts)
        ensures
            final(self).pending_paths() == old(self).pending_paths() + (if opts.r_upper {
                descended(paths_view(subdirs@))
            } else {
                Seq::<Seq<u8>>::empty()
            }),
            final(self).at_start() == old(self).at_start(),
            final(self).names_shown() == old(self).names_shown(),
    {
        let ghost start = paths_view(self.pending@);
        if !opts.r_upper {
            assert(paths_view(self.pending@) =~= start + Seq::<Seq<u8>>::empty());
            return;
        }
        let mut k: usize = 0;
        assert(paths_view(subdirs@).take(0) =~= Seq::<Seq<u8>>::empty());
        assert(paths_view(self.pending@) =~= start + descended(paths_view(subdirs@).take(0)));
        while k < subdirs.len()
            invariant
                k <= subdirs@.len(),
                paths_view(self.pending@) == start + descended(paths_view(subdirs@).take(k as int)),
                self.first == old(self).first,
                self.show_names == old(self).show_names,
            decreases subdirs@.len() - k,
        {
            let ghost sv = paths_view(subdirs@);
            assert(sv.take(k + 1).drop_last() =~= sv.take(k as int));
            assert(sv.take(k + 1).last() == subdirs@[k as int]@);
            if descends_into(subdirs[k].as_slice()) {
                let ghost before = self.pending@;
                self.pending.push(copy_bytes(&subdirs[k]));
                assert(paths_view(self.pending@) =~= paths_view(before).push(subdirs@[k as int]@));
            }
            k = k + 1;
        }
        assert(paths_view(subdirs@).take(subdirs@.len() as int) =~= paths_view(subdirs@));
    }
}

/// `-R` descends into exactly the subdirectories whose name is neither `.`
/// nor `..`, hidden ones included, in the order they were given: each
/// descended path is such a subdirectory, each such subdirectory is
/// descended, and where every name qualifies all of them are, in order.
pub proof fn lemma_descended_subdirectories(subdirs: Seq<Seq<u8>>)
    ensures
        forall|p: Seq<u8>|
            #![trigger descended(subdirs).contains(p)]
            descended(subdirs).contains(p) <==> (subdirs.contains(p) && entry_name(p, true) != seq!['.']
                && entry_name(p, true) != seq!['.', '.']),
        (forall|k: int|
            0 <= k < subdirs.len() ==> entry_name(#[trigger] subdirs[k], true) != seq!['.'] && entry_name(
                subdirs[k],
                true,
            ) != seq!['.', '.']) ==> descended(subdirs) == subdirs,
        descended(subdirs).len() <= subdirs.len(),
    decreases subdirs.len(),
{
    if subdirs.len() > 0 {
        let init = subdirs.drop_last();
        lemma_descended_subdirectories(init);
        assert forall|p: Seq<u8>| #![trigger descended(subdirs).contains(p)]
            descended(subdirs).contains(p) <==> (subdirs.contains(p) && entry_name(p, true) != seq!['.']
                && entry_name(p, true) != seq!['.', '.']) by {
            assert(descended(init).contains(p) ==> init.contains(p));
            if subdirs.contains(p) {
                let k = choose|k: int| 0 <= k < subdirs.len() && subdirs[k] == p;
                if k < subdirs.len() - 1 {
                    assert(init[k] == p);
                    assert(init.contains(p));
                }
            }
            if init.contains(p) {
                let k = choose|k: int| 0 <= k < init.len() && init[k] == p;
                assert(subdirs[k] == p);
            }
            if descended(subdirs).contains(p) && !descended(init).contains(p) {
                let d = descended(subdirs);
                let k = choose|k: int| 0 <= k < d.len() && d[k] == p;
                if descends(subdirs.last()) {
                    if k < d.len() - 1 {
                        assert(descended(init)[k] == p);
                    }
                } else {
                    assert(descended(init)[k] == p);
                }
            }
            if descends(subdirs.last()) && descended(init).contains(p) {
                let k = choose|k: int| 0 <= k < descended(init).len() && descended(init)[k] == p;
                assert(descended(subdirs)[k] == p);
            }
            if descends(subdirs.last()) && p == subdirs.last() {
                assert(descended(subdirs)[descended(subdirs).len() - 1] == p);
            }
        }
        if forall|k: int|
            0 <= k < subdirs.len() ==> entry_name(#[trigger] subdirs[k], true) != seq!['.'] && entry_name(
                subdirs[k],
                true,
            ) != seq!['.', '.'] {
            assert forall|k: int|
                0 <= k < init.len() implies entry_name(#[trigger] init[k], true) != seq!['.'] && entry_name(
                init[k],
                true,
            ) != seq!['.', '.'] by {
                assert(init[k] == subdirs[k]);
            }
            assert(subdirs[subdirs.len() - 1] == subdirs.last());
            assert(init.push(subdirs.last()) =~= subdirs);
        }
    }
}

} // verus!
