//! Character-level building blocks: decimal numerals, padding and the
//! conversions between `String` and character vectors.

use vstd::prelude::*;

verus! {

/// The ASCII digit for `d` (meaningful for `0 <= d < 10`).
pub open spec fn digit_char(d: int) -> char {
    (d + 48) as char
}

/// The decimal numeral of `n`, without leading zeros (`"0"` for zero).
pub open spec fn digits(n: nat) -> Seq<char>
    decreases n,
{
    if n < 10 {
        seq![digit_char(n as int)]
    } else {
        digits(n / 10).push(digit_char((n % 10) as int))
    }
}

/// The character for the decimal digit `d`.
pub fn digit(d: u64) -> (c: char)
    requires
        d < 10,
    ensures
        c == digit_char(d as int),
{
    let b: u8 = 48u8 + (d as u8);
    b as char
}

/// Appends the decimal numeral of `n` to `out`.
pub fn push_decimal(out: &mut Vec<char>, n: u64)
    ensures
        final(out)@ == old(out)@ + digits(n as nat),
    decreases n,
{
    if n >= 10 {
        push_decimal(out, n / 10);
    }
    out.push(digit(n % 10));
}

} // verus!

verus! {

/// `k` spaces.
pub open spec fn spaces(k: nat) -> Seq<char> {
    Seq::new(k, |i: int| ' ')
}

/// `s` right-aligned in a field of `w` characters: the text that `{:>w$}`
/// gives for a value whose text is `s`.
pub open spec fn padded(s: Seq<char>, w: int) -> Seq<char> {
    if s.len() < w {
        spaces((w - s.len()) as nat) + s
    } else {
        s
    }
}

/// Appends `k` spaces to `out`.
pub fn push_spaces(out: &mut Vec<char>, k: usize)
    ensures
        final(out)@ == old(out)@ + spaces(k as nat),
{
    let mut i: usize = 0;
    while i < k
        invariant
            i <= k,
            out@ == old(out)@ + spaces(i as nat),
        decreases k - i,
    {
        out.push(' ');
        i = i + 1;
        assert(out@ =~= old(out)@ + spaces(i as nat));
    }
}

/// Appends the characters of `s` to `out`.
pub fn push_all(out: &mut Vec<char>, s: &Vec<char>)
    ensures
        final(out)@ == old(out)@ + s@,
{
    let mut i: usize = 0;
    while i < s.len()
        invariant
            i <= s.len(),
            out@ == old(out)@ + s@.take(i as int),
        decreases s.len() - i,
    {
        out.push(s[i]);
        i = i + 1;
        assert(out@ =~= old(out)@ + s@.take(i as int));
    }
    assert(s@.take(s@.len() as int) =~= s@);
}

/// Appends `s` right-aligned in a field of `w` characters.
pub fn push_padded(out: &mut Vec<char>, s: &Vec<char>, w: usize)
    ensures
        final(out)@ == old(out)@ + padded(s@, w as int),
{
    if s.len() < w {
        push_spaces(out, w - s.len());
    }
    push_all(out, s);
    assert(out@ =~= old(out)@ + padded(s@, w as int));
}

/// The decimal numeral of `n` as characters.
pub fn decimal(n: u64) -> (r: Vec<char>)
    ensures
        r@ == digits(n as nat),
{
    let mut r: Vec<char> = Vec::new();
    push_decimal(&mut r, n);
    assert(r@ =~= digits(n as nat));
    r
}

/// Builds a `String` from its characters (std's `FromIterator<&char>`
/// for `String`). Trusted: the string holds exactly the given characters,
/// in order, which is what collecting characters into a `String` does.
#[verifier::external_body]
pub(crate) fn string_from_chars(v: &Vec<char>) -> (s: String)
    ensures
        s@ == v@,
{
    v.iter().collect::<String>()
}

/// The characters of a string slice, in order.
pub fn chars_of(s: &str) -> (v: Vec<char>)
    ensures
        v@ == s@,
{
    broadcast use vstd::string::group_string_axioms;

    let mut v: Vec<char> = Vec::new();
    for c in it: s.chars()
        invariant
            it.seq() == s@,
            v@ == it.seq().take(it.index() as int),
    {
        v.push(c);
        assert(v@ =~= it.seq().take(it.index() + 1));
    }
    assert(v@ =~= s@);
    v
}

} // verus!

verus! {

/// Appends the decimal numeral of a 128-bit `n` to `out`.
pub fn push_decimal_wide(out: &mut Vec<char>, n: u128)
    ensures
        final(out)@ == old(out)@ + digits(n as nat),
    decreases n,
{
    if n >= 10 {
        push_decimal_wide(out, n / 10);
    }
    out.push(digit((n % 10) as u64));
}

/// A numeral has one digit below ten and one more than the numeral of a
/// tenth of the number from ten on.
pub proof fn lemma_digits_len(n: nat)
    ensures
        digits(n).len() >= 1,
        n < 10 ==> digits(n).len() == 1,
        n >= 10 ==> digits(n).len() == digits(n / 10).len() + 1,
        n < 100 ==> digits(n).len() <= 2,
        n < 1000 ==> digits(n).len() <= 3,
        n >= 100 ==> digits(n).len() >= 3,
        n >= 1000 ==> digits(n).len() >= 4,
    decreases n,
{
    if n >= 10 {
        lemma_digits_len(n / 10);
    }
}

} // verus!

verus! {

/// Appends the characters of a string slice to `out`.
pub fn push_str(out: &mut Vec<char>, s: &str)
    ensures
        final(out)@ == old(out)@ + s@,
{
    let cs = chars_of(s);
    push_all(out, &cs);
}

} // verus!
