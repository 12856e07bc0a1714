use thmbs::options::{Cli, Opts};

fn cli() -> Cli {
    Cli {
        width: 3,
        height: 1,
        preserve_ratio: true,
        no_preserve_ratio: false,
        dimensions: false,
        no_dimensions: false,
        unknown: false,
        no_unknown: false,
        method: None,
        a_upper: false,
        f_upper: false,
        r_upper: false,
        t_upper: false,
        a: false,
        d: false,
        h: false,
        i: false,
        k: false,
        l: false,
        n: false,
        o: false,
        p: false,
        r: false,
        s: false,
        t: false,
        s_upper: false,
        u: false,
        y: false,
        c: false,
        u_upper: false,
        d_fmt: None,
        paths: Vec::new(),
    }
}

fn opts_of(c: Cli) -> Opts {
    Opts::from_cli(c).0
}

#[test]
fn from_cli_defaults() {
    let mut c = cli();
    c.paths = vec![b"a".to_vec(), b"b".to_vec()];
    let (o, paths) = Opts::from_cli(c);
    assert_eq!(paths, vec![b"a".to_vec(), b"b".to_vec()]);
    assert_eq!(o.img_width, 3);
    assert_eq!(o.img_height, 1);
    assert!(o.preserve_ratio);
    assert!(!o.dimensions);
    assert!(!o.unknown);
    assert!(!o.l);
    assert!(!o.show_blocks);
}

#[test]
fn from_cli_numeric_and_owner_flags_imply_long() {
    let mut c = cli();
    c.n = true;
    assert!(opts_of(c).l);
    let mut c = cli();
    c.o = true;
    assert!(opts_of(c).l);
    let mut c = cli();
    c.l = true;
    assert!(opts_of(c).l);
}

#[test]
fn from_cli_time_sort_beats_size_sort() {
    let mut c = cli();
    c.t = true;
    c.s_upper = true;
    let o = opts_of(c);
    assert!(o.t);
    assert!(!o.s_upper);
    let mut c = cli();
    c.s_upper = true;
    assert!(opts_of(c).s_upper);
}

#[test]
fn from_cli_directory_flag_cancels_recursion() {
    let mut c = cli();
    c.r_upper = true;
    c.d = true;
    assert!(!opts_of(c).r_upper);
    let mut c = cli();
    c.r_upper = true;
    assert!(opts_of(c).r_upper);
}

#[test]
fn from_cli_date_format_cancels_full_time() {
    let mut c = cli();
    c.t_upper = true;
    c.d_fmt = Some("%Y".to_string());
    let o = opts_of(c);
    assert!(!o.t_upper);
    assert_eq!(o.d_fmt, Some("%Y".to_string()));
}

#[test]
fn from_cli_upper_u_is_c() {
    let mut c = cli();
    c.u_upper = true;
    assert!(opts_of(c).c);
}

#[test]
fn from_cli_ratio() {
    let mut c = cli();
    c.no_preserve_ratio = true;
    assert!(!opts_of(c).preserve_ratio);
    let mut c = cli();
    c.preserve_ratio = false;
    assert!(!opts_of(c).preserve_ratio);
}

#[test]
fn from_cli_dimension_and_unknown_flags() {
    let mut c = cli();
    c.dimensions = true;
    let o = opts_of(c);
    assert!(o.dimensions);
    assert!(o.unknown);

    let mut c = cli();
    c.no_dimensions = true;
    let o = opts_of(c);
    assert!(!o.dimensions);
    assert!(!o.unknown);

    let mut c = cli();
    c.unknown = true;
    let o = opts_of(c);
    assert!(o.dimensions);
    assert!(o.unknown);

    let mut c = cli();
    c.dimensions = true;
    c.no_unknown = true;
    let o = opts_of(c);
    assert!(o.dimensions);
    // `--dimensions` decides `unknown` too, after `--no-unknown` was seen.
    assert!(o.unknown);

    let mut c = cli();
    c.no_unknown = true;
    let o = opts_of(c);
    assert!(!o.dimensions);
    assert!(!o.unknown);
}

#[test]
fn from_cli_blocks_flag() {
    let mut c = cli();
    c.s = true;
    let o = opts_of(c);
    assert!(o.show_blocks);
    assert!(o.s);
}
