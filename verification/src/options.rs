//! Command-line flags and the options that the listing runs with.

use vstd::prelude::*;

verus! {

/// The flags and operands as given on the command line.
pub struct Cli {
    /// `--width`: thumbnail width in character cells.
    pub width: u32,
    /// `--height`: thumbnail height in character cells.
    pub height: u32,
    /// `--preserve-ratio[=BOOL]`.
    pub preserve_ratio: bool,
    /// `--no-preserve-ratio`.
    pub no_preserve_ratio: bool,
    /// `--dimensions`.
    pub dimensions: bool,
    /// `--no-dimensions`.
    pub no_dimensions: bool,
    /// `--unknown`.
    pub unknown: bool,
    /// `--no-unknown`.
    pub no_unknown: bool,
    /// `--method`, accepted and not used.
    pub method: Option<String>,
    /// `-A`.
    pub a_upper: bool,
    /// `-F`.
    pub f_upper: bool,
    /// `-R`.
    pub r_upper: bool,
    /// `-T`.
    pub t_upper: bool,
    /// `-a`.
    pub a: bool,
    /// `-d`.
    pub d: bool,
    /// `-h`.
    pub h: bool,
    /// `-i`.
    pub i: bool,
    /// `-k`.
    pub k: bool,
    /// `-l`.
    pub l: bool,
    /// `-n`.
    pub n: bool,
    /// `-o`.
    pub o: bool,
    /// `-p`.
    pub p: bool,
    /// `-r`.
    pub r: bool,
    /// `-s`.
    pub s: bool,
    /// `-t`.
    pub t: bool,
    /// `-S`.
    pub s_upper: bool,
    /// `-u`.
    pub u: bool,
    /// `-y`.
    pub y: bool,
    /// `-c`.
    pub c: bool,
    /// `-U`.
    pub u_upper: bool,
    /// `-D FORMAT`: a strftime format for the time column.
    pub d_fmt: Option<String>,
    /// The operands, as raw path bytes.
    pub paths: Vec<Vec<u8>>,
}

/// The options the listing runs with, after the flags have been reconciled.
pub struct Opts {
    /// Thumbnail width in character cells.
    pub img_width: u32,
    /// Thumbnail height in character cells.
    pub img_height: u32,
    /// Whether thumbnails keep their aspect ratio.
    pub preserve_ratio: bool,
    /// Whether image dimensions are probed and shown.
    pub dimensions: bool,
    /// Whether files whose dimensions were not found still get a thumbnail.
    pub unknown: bool,
    /// `-A`: show dot files, but not `.` and `..`.
    pub a_upper: bool,
    /// `-F`: type indicators after names.
    pub f_upper: bool,
    /// `-R`: list subdirectories recursively.
    pub r_upper: bool,
    /// `-T`: full date and time.
    pub t_upper: bool,
    /// `-a`: show every name.
    pub a: bool,
    /// `-d`: list directories as plain entries.
    pub d: bool,
    /// `-h`: human-readable sizes.
    pub h: bool,
    /// `-i`: inode numbers.
    pub i: bool,
    /// `-k`: block total in kilobytes.
    pub k: bool,
    /// `-l`: long listing.
    pub l: bool,
    /// `-n`: numeric user and group ids.
    pub n: bool,
    /// `-o`: no group column.
    pub o: bool,
    /// `-p`: `/` after directories.
    pub p: bool,
    /// `-r`: reverse the order.
    pub r: bool,
    /// `-s`: block counts.
    pub s: bool,
    /// `-t`: sort by modification time.
    pub t: bool,
    /// `-S`: sort by size.
    pub s_upper: bool,
    /// `-u`: sort by access time.
    pub u: bool,
    /// `-y`: reverse the name order of equal times.
    pub y: bool,
    /// `-c` or `-U`: sort by name and show the change time.
    pub c: bool,
    /// `-D`: the strftime format of the time column.
    pub d_fmt: Option<String>,
    /// Whether block counts are shown.
    pub show_blocks: bool,
}

/// Whether image dimensions are shown. A `--no-` flag beats its positive
/// form, and giving `--unknown` or `--no-unknown` also decides it.
pub open spec fn resolved_dimensions(c: Cli) -> bool {
    if c.unknown || c.no_unknown {
        !c.no_unknown || c.dimensions
    } else {
        c.dimensions && !c.no_dimensions
    }
}

/// Whether files of unknown image type still get a thumbnail; giving
/// `--dimensions` or `--no-dimensions` also decides it.
pub open spec fn resolved_unknown(c: Cli) -> bool {
    if c.dimensions || c.no_dimensions {
        !c.no_dimensions || c.unknown
    } else {
        c.unknown && !c.no_unknown
    }
}

impl Opts {
    /// Reconciles the command-line flags into options and hands back the
    /// operands: `-n` and `-o` imply `-l`, `-d` turns `-R` off, `-D` turns
    /// `-T` off, `-t` wins over `-S`, `-U` is `-c`, `-s` shows block counts,
    /// and `--no-preserve-ratio` turns the ratio off.
    pub fn from_cli(c: Cli) -> (res: (Self, Vec<Vec<u8>>))
        ensures
            res.0.img_width == c.width,
            res.0.img_height == c.height,
            res.0.preserve_ratio == (c.preserve_ratio && !c.no_preserve_ratio),
            res.0.dimensions == resolved_dimensions(c),
            res.0.unknown == resolved_unknown(c),
            res.0.a_upper == c.a_upper,
            res.0.f_upper == c.f_upper,
            res.0.r_upper == (c.r_upper && !c.d),
            res.0.t_upper == (c.t_upper && c.d_fmt is None),
            res.0.a == c.a,
            res.0.d == c.d,
            res.0.h == c.h,
            res.0.i == c.i,
            res.0.k == c.k,
            res.0.l == (c.l || c.n || c.o),
            res.0.n == c.n,
            res.0.o == c.o,
            res.0.p == c.p,
            res.0.r == c.r,
            res.0.s == c.s,
            res.0.t == c.t,
            res.0.s_upper == (c.s_upper && !c.t),
            res.0.u == c.u,
            res.0.y == c.y,
            res.0.c == (c.c || c.u_upper),
            res.0.d_fmt == c.d_fmt,
            res.0.show_blocks == c.s,
            res.1 == c.paths,
    {
        let mut dimensions = c.dimensions;
        if c.no_dimensions {
            dimensions = false;
        }
        let mut unknown = c.unknown;
        if c.no_unknown {
            unknown = false;
        }
        if c.dimensions || c.no_dimensions {
            unknown = !c.no_dimensions || c.unknown;
        }
        if c.unknown || c.no_unknown {
            dimensions = !c.no_unknown || c.dimensions;
        }
        let preserve_ratio = if c.no_preserve_ratio {
            false
        } else {
            c.preserve_ratio
        };
        let t = c.t;
        let mut s_upper = c.s_upper;
        if t && s_upper {
            s_upper = false;
        }
        let mut r_upper = c.r_upper;
        if c.d {
            r_upper = false;
        }
        let mut t_upper = c.t_upper;
        if c.d_fmt.is_some() {
            t_upper = false;
        }
        let mut l = c.l;
        if c.n || c.o {
            l = true;
        }
        let show_blocks = c.s;
        let c_flag = c.c || c.u_upper;
        let opts = Opts {
            img_width: c.width,
            img_height: c.height,
            preserve_ratio,
            dimensions,
            unknown,
            a_upper: c.a_upper,
            f_upper: c.f_upper,
            r_upper,
            t_upper,
            a: c.a,
            d: c.d,
            h: c.h,
            i: c.i,
            k: c.k,
            l,
            n: c.n,
            o: c.o,
            p: c.p,
            r: c.r,
            s: c.s,
            t,
            s_upper,
            u: c.u,
            y: c.y,
            c: c_flag,
            d_fmt: c.d_fmt,
            show_blocks,
        };
        (opts, c.paths)
    }
}

} // verus!
