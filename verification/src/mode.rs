//! The file-mode column of a long listing and the file kinds read from a
//! mode word.

use vstd::prelude::*;
use crate::text::string_from_chars;

verus! {

/// The file-type bits of a mode word, shifted down to `0..16`.
pub open spec fn type_index(mode: u32) -> u32 {
    (mode & 0o170000u32) >> 12u32
}

/// The type letter for a file-type index; index zero has none.
pub open spec fn type_letter(t: u32) -> Seq<char> {
    if t == 0 {
        seq![]
    } else if t == 1 {
        seq!['p']
    } else if t == 2 {
        seq!['c']
    } else if t == 4 {
        seq!['d']
    } else if t == 6 {
        seq!['b']
    } else if t == 8 {
        seq!['-']
    } else if t == 10 {
        seq!['l']
    } else if t == 12 {
        seq!['s']
    } else {
        seq!['?']
    }
}

/// One `rwx` triplet for the three permission bits `bits`. Where `special`
/// holds (set-user-id, set-group-id or sticky), the last place shows
/// `on_exec` if the execute bit is set and `off_exec` if not.
pub open spec fn triplet(bits: u32, special: bool, on_exec: char, off_exec: char) -> Seq<char> {
    let x = bits & 1u32 != 0;
    seq![
        if bits & 4u32 != 0 { 'r' } else { '-' },
        if bits & 2u32 != 0 { 'w' } else { '-' },
        if special {
            if x { on_exec } else { off_exec }
        } else {
            if x { 'x' } else { '-' }
        },
    ]
}

/// The text of the mode column: the type letter, then the owner, group and
/// other triplets, with set-user-id and set-group-id shown as `s`/`S` and the
/// sticky bit as `t`/`T`.
pub open spec fn mode_text(mode: u32) -> Seq<char> {
    type_letter(type_index(mode))
        + triplet((mode & 0o700u32) >> 6u32, mode & 0o4000u32 != 0, 's', 'S')
        + triplet((mode & 0o070u32) >> 3u32, mode & 0o2000u32 != 0, 's', 'S')
        + triplet(mode & 0o007u32, mode & 0o1000u32 != 0, 't', 'T')
}

fn push_triplet(out: &mut Vec<char>, bits: u32, special: bool, on_exec: char, off_exec: char)
    ensures
        final(out)@ == old(out)@ + triplet(bits, special, on_exec, off_exec),
{
    out.push(if bits & 4 != 0 { 'r' } else { '-' });
    out.push(if bits & 2 != 0 { 'w' } else { '-' });
    let x = bits & 1 != 0;
    out.push(
        if special {
            if x { on_exec } else { off_exec }
        } else {
            if x { 'x' } else { '-' }
        },
    );
    assert(out@ =~= old(out)@ + triplet(bits, special, on_exec, off_exec));
}

/// Renders a mode word as `ls -l` does, such as `drwxr-xr-x`.
pub fn format_mode(mode: u32) -> (s: String)
    ensures
        s@ == mode_text(mode),
{
    let mut out: Vec<char> = Vec::new();
    let t = (mode & 0o170000) >> 12;
    if t == 1 {
        out.push('p');
    } else if t == 2 {
        out.push('c');
    } else if t == 4 {
        out.push('d');
    } else if t == 6 {
        out.push('b');
    } else if t == 8 {
        out.push('-');
    } else if t == 10 {
        out.push('l');
    } else if t == 12 {
        out.push('s');
    } else if t != 0 {
        out.push('?');
    }
    assert(out@ =~= type_letter(type_index(mode)));
    push_triplet(&mut out, (mode & 0o700) >> 6, mode & 0o4000 != 0, 's', 'S');
    push_triplet(&mut out, (mode & 0o070) >> 3, mode & 0o2000 != 0, 's', 'S');
    push_triplet(&mut out, mode & 0o007, mode & 0o1000 != 0, 't', 'T');
    assert(out@ =~= mode_text(mode));
    string_from_chars(&out)
}

/// Only the low sixteen bits of a mode word (type, special and permission
/// bits) reach the mode column, and it is always nine characters after an
/// optional type letter.
pub proof fn lemma_mode_text_low_bits(mode: u32)
    ensures
        mode_text(mode) == mode_text(mode & 0xffffu32),
        mode_text(mode).len() == if type_index(mode) == 0 { 9nat } else { 10nat },
{
    let m = mode & 0xffffu32;
    assert(type_index(mode) == type_index(m)) by (bit_vector)
        requires m == mode & 0xffffu32;
    assert((mode & 0o700u32) >> 6u32 == (m & 0o700u32) >> 6u32) by (bit_vector)
        requires m == mode & 0xffffu32;
    assert((mode & 0o070u32) >> 3u32 == (m & 0o070u32) >> 3u32) by (bit_vector)
        requires m == mode & 0xffffu32;
    assert(mode & 0o007u32 == m & 0o007u32) by (bit_vector)
        requires m == mode & 0xffffu32;
    assert((mode & 0o4000u32 != 0) == (m & 0o4000u32 != 0)) by (bit_vector)
        requires m == mode & 0xffffu32;
    assert((mode & 0o2000u32 != 0) == (m & 0o2000u32 != 0)) by (bit_vector)
        requires m == mode & 0xffffu32;
    assert((mode & 0o1000u32 != 0) == (m & 0o1000u32 != 0)) by (bit_vector)
        requires m == mode & 0xffffu32;
}

} // verus!

verus! {

/// The file-type bits of a mode word.
pub open spec fn type_bits(mode: u32) -> u32 {
    mode & 0o170000u32
}

/// A directory.
pub open spec fn is_dir_mode(mode: u32) -> bool {
    type_bits(mode) == 0o040000u32
}

/// A regular file.
pub open spec fn is_file_mode(mode: u32) -> bool {
    type_bits(mode) == 0o100000u32
}

/// A symbolic link.
pub open spec fn is_symlink_mode(mode: u32) -> bool {
    type_bits(mode) == 0o120000u32
}

/// A named pipe.
pub open spec fn is_fifo_mode(mode: u32) -> bool {
    type_bits(mode) == 0o010000u32
}

/// A socket.
pub open spec fn is_socket_mode(mode: u32) -> bool {
    type_bits(mode) == 0o140000u32
}

/// Whether the mode word is that of a directory.
pub fn mode_is_dir(mode: u32) -> (r: bool)
    ensures
        r == is_dir_mode(mode),
{
    mode & 0o170000 == 0o040000
}

/// Whether the mode word is that of a regular file.
pub fn mode_is_file(mode: u32) -> (r: bool)
    ensures
        r == is_file_mode(mode),
{
    mode & 0o170000 == 0o100000
}

/// The indicator after a name: `/` for a directory with `-p` or `-F`; with
/// `-F` also `@` for a link, `|` for a pipe, `=` for a socket and `*` for
/// anything executable.
pub open spec fn type_suffix(mode: u32, opts: crate::options::Opts) -> Seq<char> {
    if is_dir_mode(mode) && (opts.p || opts.f_upper) {
        seq!['/']
    } else if !opts.f_upper {
        seq![]
    } else if is_symlink_mode(mode) {
        seq!['@']
    } else if is_fifo_mode(mode) {
        seq!['|']
    } else if is_socket_mode(mode) {
        seq!['=']
    } else if mode & 0o111u32 != 0 {
        seq!['*']
    } else {
        seq![]
    }
}

/// Appends the indicator for a mode word to `out`.
pub fn push_type_suffix(out: &mut Vec<char>, mode: u32, opts: &crate::options::Opts)
    ensures
        final(out)@ == old(out)@ + type_suffix(mode, *opts),
{
    let t = mode & 0o170000;
    if t == 0o040000 && (opts.p || opts.f_upper) {
        out.push('/');
    } else if !opts.f_upper {
    } else if t == 0o120000 {
        out.push('@');
    } else if t == 0o010000 {
        out.push('|');
    } else if t == 0o140000 {
        out.push('=');
    } else if mode & 0o111 != 0 {
        out.push('*');
    }
    assert(out@ =~= old(out)@ + type_suffix(mode, *opts));
}

/// The indicator shown after an entry's name.
pub fn get_f_type(mode: u32, opts: &crate::options::Opts) -> (s: String)
    ensures
        s@ == type_suffix(mode, *opts),
{
    let mut out: Vec<char> = Vec::new();
    push_type_suffix(&mut out, mode, opts);
    assert(out@ =~= type_suffix(mode, *opts));
    string_from_chars(&out)
}

} // verus!
