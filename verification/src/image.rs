//! The inline-image escape sequence that precedes each entry: the file's
//! own contents where it has any, a one-pixel placeholder otherwise.

use vstd::prelude::*;
use base64::Engine;
use vstd::string::StringSliceAdditionalSpecFns;
use crate::options::Opts;
use crate::text::{digits, push_decimal, push_str, push_all, string_from_chars, chars_of};

verus! {

/// A one-pixel black PNG, base64-encoded: the placeholder image.
pub const ONE_PIXEL_BLACK: &'static str = "iVBORw0KGgoAAAANSUhEUgAAAAEAAAABCAYAAAAfFcSJAAAADUlEQVQIW2NgYGD4DwABBAEAwS2OUAAAAABJRU5ErkJggg==";

/// The name under which the placeholder image is sent.
pub const PLACEHOLDER_NAME: &'static str = "one_pixel_black";

/// The character of the standard base64 alphabet for a six-bit value:
/// `A`-`Z`, `a`-`z`, `0`-`9`, `+`, `/`.
pub open spec fn base64_digit(v: int) -> char {
    if v < 26 {
        ('A' as int + v) as char
    } else if v < 52 {
        ('a' as int + (v - 26)) as char
    } else if v < 62 {
        ('0' as int + (v - 52)) as char
    } else if v == 62 {
        '+'
    } else {
        '/'
    }
}

/// The standard base64 encoding, with padding, of `data`: each group of
/// three bytes becomes four characters of six bits each, most significant
/// first; a final group of one or two bytes is filled out with zero bits and
/// padded with `=` to four characters.
pub open spec fn base64_standard(data: Seq<u8>) -> Seq<char>
    decreases data.len(),
{
    let b0 = data[0] as int;
    let b1 = data[1] as int;
    let b2 = data[2] as int;
    if data.len() == 0 {
        Seq::empty()
    } else if data.len() == 1 {
        seq![base64_digit(b0 / 4), base64_digit((b0 % 4) * 16), '=', '=']
    } else if data.len() == 2 {
        seq![base64_digit(b0 / 4), base64_digit((b0 % 4) * 16 + b1 / 16), base64_digit((b1 % 16) * 4), '=']
    } else {
        seq![
            base64_digit(b0 / 4),
            base64_digit((b0 % 4) * 16 + b1 / 16),
            base64_digit((b1 % 16) * 4 + b2 / 64),
            base64_digit(b2 % 64),
        ] + base64_standard(data.subrange(3, data.len() as int))
    }
}

/// Whether the length of the base64 text for `n` bytes fits in a `usize`.
pub open spec fn base64_fits(n: nat) -> bool {
    (n / 3) * 4 + (if n % 3 > 0 { 4int } else { 0int }) <= usize::MAX
}

/// Encodes bytes in standard base64 with padding (base64's
/// `engine::general_purpose::STANDARD.encode`). Trusted: the result is
/// `base64_standard` of the bytes; the encoder panics where the
/// length of its output overflows `usize`, which `requires` leaves out.
#[verifier::external_body]
fn base64_encode(data: &[u8]) -> (s: String)
    requires
        base64_fits(data@.len()),
    ensures
        s@ == base64_standard(data@),
{
    base64::engine::general_purpose::STANDARD.encode(data)
}

/// The iTerm2 inline-file escape sequence for a file sent under the
/// (base64) name `name` with the size text `size` and the base64 payload
/// `payload`, displayed with the options' cell height, width and ratio.
pub open spec fn escape_text(name: Seq<char>, size: Seq<char>, opts: Opts, payload: Seq<char>) -> Seq<char> {
    "\x1b]1337;File=name="@ + name + ";size="@ + size + ";inline=1;height="@ + digits(
        opts.img_height as nat,
    ) + ";width="@ + digits(opts.img_width as nat) + ";preserveAspectRatio="@ + (if opts.preserve_ratio {
        "true"@
    } else {
        "false"@
    }) + ":"@ + payload + "\x07"@
}

/// The placeholder: the one-pixel image under its own name and size.
pub open spec fn placeholder_text(opts: Opts) -> Seq<char> {
    escape_text(
        base64_standard(PLACEHOLDER_NAME.spec_bytes()),
        digits(ONE_PIXEL_BLACK.spec_bytes().len()),
        opts,
        ONE_PIXEL_BLACK@,
    )
}

/// The image for a file: under its path as name, with its size, carrying
/// its contents; the placeholder where the contents could not be read or
/// are empty.
pub open spec fn image_text(path: Seq<u8>, size: u64, contents: Option<Seq<u8>>, opts: Opts) -> Seq<char> {
    match contents {
        Some(c) => if c.len() > 0 {
            escape_text(base64_standard(path), digits(size as nat), opts, base64_standard(c))
        } else {
            placeholder_text(opts)
        },
        None => placeholder_text(opts),
    }
}

fn push_escape(out: &mut Vec<char>, name: &Vec<char>, size: &Vec<char>, opts: &Opts, payload: &Vec<char>)
    ensures
        final(out)@ == old(out)@ + escape_text(name@, size@, *opts, payload@),
{
    push_str(out, "\x1b]1337;File=name=");
    push_all(out, name);
    push_str(out, ";size=");
    push_all(out, size);
    push_str(out, ";inline=1;height=");
    push_decimal(out, opts.img_height as u64);
    push_str(out, ";width=");
    push_decimal(out, opts.img_width as u64);
    push_str(out, ";preserveAspectRatio=");
    if opts.preserve_ratio {
        push_str(out, "true");
    } else {
        push_str(out, "false");
    }
    push_str(out, ":");
    push_all(out, payload);
    push_str(out, "\x07");
    assert(out@ =~= old(out)@ + escape_text(name@, size@, *opts, payload@));
}

/// Appends the placeholder image to `out`.
pub fn push_placeholder(out: &mut Vec<char>, opts: &Opts)
    ensures
        final(out)@ == old(out)@ + placeholder_text(*opts),
{
    let name_bytes = PLACEHOLDER_NAME.as_bytes();
    proof {
        reveal_strlit("one_pixel_black");
        assert(vstd::utf8::is_ascii_chars(PLACEHOLDER_NAME@));
        vstd::utf8::is_ascii_chars_encode_utf8(PLACEHOLDER_NAME@);
        reveal_strlit("iVBORw0KGgoAAAANSUhEUgAAAAEAAAABCAYAAAAfFcSJAAAADUlEQVQIW2NgYGD4DwABBAEAwS2OUAAAAABJRU5ErkJggg==");
        assert(vstd::utf8::is_ascii_chars(ONE_PIXEL_BLACK@));
        vstd::utf8::is_ascii_chars_encode_utf8(ONE_PIXEL_BLACK@);
    }
    assert(base64_fits(name_bytes@.len()));
    let name = chars_of(base64_encode(name_bytes).as_str());
    let mut size: Vec<char> = Vec::new();
    push_decimal(&mut size, ONE_PIXEL_BLACK.len() as u64);
    let payload = chars_of(ONE_PIXEL_BLACK);
    push_escape(out, &name, &size, opts, &payload);
    assert(name@ == base64_standard(PLACEHOLDER_NAME.spec_bytes()));
    assert(size@ == digits(ONE_PIXEL_BLACK.spec_bytes().len()));
}

/// The placeholder image, for entries that are not regular non-empty files
/// or whose image type is unknown.
pub fn write_placeholder(opts: &Opts) -> (s: String)
    ensures
        s@ == placeholder_text(*opts),
{
    let mut out: Vec<char> = Vec::new();
    push_placeholder(&mut out, opts);
    assert(out@ =~= placeholder_text(*opts));
    string_from_chars(&out)
}

/// Appends the image for a file to `out`, given its path, its size and
/// what reading it gave.
pub fn push_image(out: &mut Vec<char>, path: &[u8], size: u64, contents: &Option<Vec<u8>>, opts: &Opts)
    requires
        base64_fits(path@.len()),
        contents matches Some(c) ==> base64_fits(c@.len()),
    ensures
        final(out)@ == old(out)@ + image_text(
            path@,
            size,
            match contents {
                Some(c) => Some(c@),
                None => None,
            },
            *opts,
        ),
{
    match contents {
        Some(c) => {
            if c.len() > 0 {
                let name = chars_of(base64_encode(path).as_str());
                let mut size_text: Vec<char> = Vec::new();
                push_decimal(&mut size_text, size);
                let payload = chars_of(base64_encode(c.as_slice()).as_str());
                push_escape(out, &name, &size_text, opts, &payload);
            } else {
                push_placeholder(out, opts);
            }
        },
        None => {
            push_placeholder(out, opts);
        },
    }
}

/// The image for a file, given its path, its size and what reading it gave
/// (`None` where it could not be read).
pub fn write_image(path: &[u8], size: u64, contents: &Option<Vec<u8>>, opts: &Opts) -> (s: String)
    requires
        base64_fits(path@.len()),
        contents matches Some(c) ==> base64_fits(c@.len()),
    ensures
        s@ == image_text(
            path@,
            size,
            match contents {
                Some(c) => Some(c@),
                None => None,
            },
            *opts,
        ),
        (contents is None || contents->0@.len() == 0) ==> s@ == placeholder_text(*opts),
{
    let mut out: Vec<char> = Vec::new();
    push_image(&mut out, path, size, contents, opts);
    assert(out@ =~= image_text(
        path@,
        size,
        match contents {
            Some(c) => Some(c@),
            None => None,
        },
        *opts,
    ));
    string_from_chars(&out)
}

/// A file that could not be read, or is empty, is shown as the placeholder.
pub proof fn lemma_unreadable_image_is_placeholder(path: Seq<u8>, size: u64, opts: Opts)
    ensures
        image_text(path, size, None, opts) == placeholder_text(opts),
        image_text(path, size, Some(Seq::<u8>::empty()), opts) == placeholder_text(opts),
{
}

} // verus!
