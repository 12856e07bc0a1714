use base64::Engine;
use std::path::Path;
use thmbs::dims::{dimension_key, get_dimensions, DimensionCache};
use thmbs::human::format_human;
use thmbs::image::{write_image, write_placeholder, ONE_PIXEL_BLACK};
use thmbs::mode::{format_mode, get_f_type};
use thmbs::names::{dot_filtered, entry_filename, file_name_bytes};
use thmbs::options::{Cli, Opts};
use thmbs::ordering::{compare_paths, Order};
use thmbs::timefmt::{format_time, select_time_format, EARLIEST_TIMESTAMP, LATEST_TIMESTAMP};

fn fmt_opts() -> Opts {
    let c = Cli {
        width: 3,
        height: 1,
        preserve_ratio: true,
        no_preserve_ratio: false,
        dimensions: false,
        no_dimensions: false,
        unknown: false,
        no_unknown: false,
        method: None,
        a_upper: false,
        f_upper: false,
        r_upper: false,
        t_upper: false,
        a: false,
        d: false,
        h: false,
        i: false,
        k: false,
        l: false,
        n: false,
        o: false,
        p: false,
        r: false,
        s: false,
        t: false,
        s_upper: false,
        u: false,
        y: false,
        c: false,
        u_upper: false,
        d_fmt: None,
        paths: Vec::new(),
    };
    Opts::from_cli(c).0
}

/// The size column computed in double precision, as `ls -h` output has
/// always been produced.
fn human_by_doubles(bytes: u64) -> String {
    let units = ["B", "K", "M", "G", "T", "P"];
    let s = bytes.to_string();
    let scale = (s.len().saturating_sub(1)) / 3;
    let scale = scale.min(units.len() - 1);
    let float = bytes as f64 / 1024_f64.powi(scale as i32);
    let int_part = float.trunc() as u64;
    let int_len = int_part.to_string().len();
    if s.len() < 3 || int_len >= 2 {
        let frac = float - int_part as f64;
        let rounded = if frac < 0.5 { int_part } else { int_part + 1 };
        format!("{}{}", rounded, units[scale])
    } else {
        format!("{:.1}{}", float, units[scale])
    }
}

#[test]
fn mode_directory() {
    assert_eq!(format_mode(0o040755), "drwxr-xr-x");
}

#[test]
fn mode_regular_file() {
    assert_eq!(format_mode(0o100644), "-rw-r--r--");
}

#[test]
fn mode_setuid_and_setgid() {
    assert_eq!(format_mode(0o104755), "-rwsr-xr-x");
    assert_eq!(format_mode(0o104655), "-rwSr-xr-x");
    assert_eq!(format_mode(0o102755), "-rwxr-sr-x");
    assert_eq!(format_mode(0o102745), "-rwxr-Sr-x");
}

#[test]
fn mode_sticky() {
    assert_eq!(format_mode(0o041777), "drwxrwxrwt");
    assert_eq!(format_mode(0o041776), "drwxrwxrwT");
}

#[test]
fn mode_other_types() {
    assert_eq!(format_mode(0o120777), "lrwxrwxrwx");
    assert_eq!(format_mode(0o010600), "prw-------");
    assert_eq!(format_mode(0o020620), "crw--w----");
    assert_eq!(format_mode(0o060660), "brw-rw----");
    assert_eq!(format_mode(0o140755), "srwxr-xr-x");
    assert_eq!(format_mode(0o030644), "?rw-r--r--");
}

#[test]
fn mode_without_type_bits() {
    assert_eq!(format_mode(0o000644), "rw-r--r--");
    assert_eq!(format_mode(0), "---------");
}

#[test]
fn mode_ignores_high_bits() {
    assert_eq!(format_mode(0x1_0000 | 0o100644), format_mode(0o100644));
    assert_eq!(format_mode(0xffff_0000 | 0o040755), "drwxr-xr-x");
}

#[test]
fn human_small_sizes_are_exact() {
    assert_eq!(format_human(0), "0B");
    assert_eq!(format_human(7), "7B");
    assert_eq!(format_human(99), "99B");
    assert_eq!(format_human(100), "100B");
    assert_eq!(format_human(999), "999B");
}

#[test]
fn human_scaled_sizes() {
    assert_eq!(format_human(1000), "1.0K");
    assert_eq!(format_human(1024), "1.0K");
    assert_eq!(format_human(1536), "1.5K");
    assert_eq!(format_human(10240), "10K");
    assert_eq!(format_human(1048576), "1.0M");
    assert_eq!(format_human(123456789), "118M");
    assert_eq!(format_human(u64::MAX), "16384P");
}

#[test]
fn human_ties_round_to_even_with_one_decimal() {
    // 1280 bytes are exactly 1.25K.
    assert_eq!(format_human(1280), "1.2K");
    // 1.75K rounds up to the even tenth.
    assert_eq!(format_human(1792), "1.8K");
    // 10.5K has two integer digits and rounds half up.
    assert_eq!(format_human(10752), "11K");
}

#[test]
fn human_agrees_with_double_precision() {
    for b in 0u64..20000 {
        assert_eq!(format_human(b), human_by_doubles(b), "bytes {}", b);
    }
    let mut x: u64 = 0x9e37_79b9_7f4a_7c15;
    for _ in 0..20000 {
        x = x.wrapping_mul(6364136223846793005).wrapping_add(1442695040888963407);
        for b in [x, x >> 7, x >> 17, x >> 27, x >> 37, x >> 47] {
            assert_eq!(format_human(b), human_by_doubles(b), "bytes {}", b);
        }
    }
    for e in 0..64 {
        let p = 1u64 << e;
        for b in [p - 1, p, p + 1, p.wrapping_add(p / 2)] {
            assert_eq!(format_human(b), human_by_doubles(b), "bytes {}", b);
        }
    }
    for k in 0..6 {
        let unit = 1u64 << (10 * k);
        for m in 1..2000u64 {
            let b = m.wrapping_mul(unit) / 20;
            assert_eq!(format_human(b), human_by_doubles(b), "bytes {}", b);
        }
    }
    for b in [(1u64 << 53) - 1, 1u64 << 53, (1u64 << 53) + 1, (1u64 << 54) + 2, (1u64 << 54) + 6, u64::MAX - 1023, u64::MAX - 1024] {
        assert_eq!(format_human(b), human_by_doubles(b), "bytes {}", b);
    }
}

#[test]
fn dot_filtered_default_hides_dot_names() {
    let o = fmt_opts();
    assert!(dot_filtered(".hidden", &o));
    assert!(dot_filtered(".", &o));
    assert!(dot_filtered("..", &o));
    assert!(!dot_filtered("visible", &o));
    assert!(!dot_filtered("", &o));
}

#[test]
fn dot_filtered_almost_all() {
    let mut o = fmt_opts();
    o.a_upper = true;
    assert!(dot_filtered(".", &o));
    assert!(dot_filtered("..", &o));
    assert!(!dot_filtered(".hidden", &o));
    assert!(!dot_filtered("...", &o));
}

#[test]
fn dot_filtered_all() {
    let mut o = fmt_opts();
    o.a = true;
    o.a_upper = true;
    assert!(!dot_filtered(".", &o));
    assert!(!dot_filtered(".hidden", &o));
}

const SAMPLE_PATHS: [&str; 30] = [
    "", "/", "//", ".", "..", "./", "./.", "./..", "a", "a/", "a/.", "a/./", "a/..", "a/b", "a//b",
    "/a/b/", "./a", ".a", "a.b", "..a", "a/.b", "/usr/lib/", "x/./y/.", "...", "a b/c", "/..", "./a/../b",
    "a/b/c.d.e", "ä/ö", "a/.hidden/",
];

#[test]
fn file_name_matches_std() {
    for p in SAMPLE_PATHS {
        let expected = Path::new(p).file_name().map(|s| s.to_string_lossy().into_owned());
        let got = file_name_bytes(p.as_bytes()).map(|v| String::from_utf8(v).unwrap());
        assert_eq!(got, expected, "path {:?}", p);
    }
}

#[test]
fn entry_filename_in_directory_and_operand() {
    assert_eq!(entry_filename(b"dir/file.png", Some(b"dir")), "file.png");
    assert_eq!(entry_filename(b"dir/file.png", None), "dir/file.png");
    assert_eq!(entry_filename(b"dir/..", Some(b"dir")), "");
    assert_eq!(entry_filename(b"a/\xffb", Some(b"a")), "\u{fffd}b");
    assert_eq!(entry_filename(b"\xff", None), "\u{fffd}");
}

#[test]
fn path_order_matches_std() {
    for a in SAMPLE_PATHS {
        for b in SAMPLE_PATHS {
            let expected = match Path::new(a).cmp(Path::new(b)) {
                std::cmp::Ordering::Less => Order::Less,
                std::cmp::Ordering::Equal => Order::Equal,
                std::cmp::Ordering::Greater => Order::Greater,
            };
            assert_eq!(compare_paths(a.as_bytes(), b.as_bytes()), expected, "{:?} vs {:?}", a, b);
        }
    }
}

#[test]
fn type_indicators() {
    let mut o = fmt_opts();
    assert_eq!(get_f_type(0o040755, &o), "");
    o.p = true;
    assert_eq!(get_f_type(0o040755, &o), "/");
    assert_eq!(get_f_type(0o100755, &o), "");
    o.p = false;
    o.f_upper = true;
    assert_eq!(get_f_type(0o040755, &o), "/");
    assert_eq!(get_f_type(0o120777, &o), "@");
    assert_eq!(get_f_type(0o010644, &o), "|");
    assert_eq!(get_f_type(0o140644, &o), "=");
    assert_eq!(get_f_type(0o100744, &o), "*");
    assert_eq!(get_f_type(0o100644, &o), "");
}

#[test]
fn time_formats() {
    let mut o = fmt_opts();
    let now = 1_700_000_000i64;
    assert_eq!(select_time_format(now - 100, now, &o), "%b %e %H:%M");
    assert_eq!(select_time_format(now - 15_768_001, now, &o), "%b %e  %Y");
    assert_eq!(select_time_format(now - 15_767_999, now, &o), "%b %e %H:%M");
    assert_eq!(select_time_format(now + 15_768_000, now, &o), "%b %e  %Y");
    assert_eq!(select_time_format(i64::MAX, now, &o), "%b %e  %Y");
    o.t_upper = true;
    assert_eq!(select_time_format(now, now, &o), "%b %e %H:%M:%S %Y");
    o.d_fmt = Some("%F".to_string());
    assert_eq!(select_time_format(now, now, &o), "%F");
}

#[test]
fn format_time_uses_the_given_format() {
    let mut o = fmt_opts();
    o.d_fmt = Some("no specifiers here".to_string());
    assert_eq!(format_time(0, &o), "no specifiers here");
    assert_eq!(format_time(i64::MIN, &o), "no specifiers here");
    o.d_fmt = Some("at %%".to_string());
    assert_eq!(format_time(0, &o), "at %");
    o.d_fmt = Some("%Y".to_string());
    assert_eq!(format_time(86_400 * 366, &o).len(), 4);
    assert_eq!(format_time(i64::MAX, &o).len(), 4);
}

#[test]
fn placeholder_escape() {
    let o = fmt_opts();
    let expected = format!(
        "\x1b]1337;File=name={};size={};inline=1;height=1;width=3;preserveAspectRatio=true:{}\x07",
        base64::engine::general_purpose::STANDARD.encode(b"one_pixel_black"),
        ONE_PIXEL_BLACK.len(),
        ONE_PIXEL_BLACK
    );
    assert_eq!(write_placeholder(&o), expected);
    assert!(write_placeholder(&o).starts_with("\x1b]1337;File=name=b25lX3BpeGVsX2JsYWNr;size=96;"));
}

#[test]
fn image_escape_with_contents() {
    let mut o = fmt_opts();
    o.preserve_ratio = false;
    o.img_width = 10;
    o.img_height = 2;
    let s = write_image(b"pic.png", 3, &Some(vec![1u8, 2, 3]), &o);
    assert_eq!(
        s,
        "\x1b]1337;File=name=cGljLnBuZw==;size=3;inline=1;height=2;width=10;preserveAspectRatio=false:AQID\x07"
    );
}

#[test]
fn unreadable_or_empty_image_is_placeholder() {
    let o = fmt_opts();
    assert_eq!(write_image(b"pic.png", 3, &None, &o), write_placeholder(&o));
    assert_eq!(write_image(b"pic.png", 0, &Some(Vec::new()), &o), write_placeholder(&o));
}

#[test]
fn dimension_keys() {
    assert_eq!(dimension_key(b"a/b.PNG"), Some("png".to_string()));
    assert_eq!(dimension_key(b"a.tar.GZ"), Some("gz".to_string()));
    assert_eq!(dimension_key(b".bashrc"), None);
    assert_eq!(dimension_key(b"noext"), None);
    assert_eq!(dimension_key(b"dir/.."), None);
    assert_eq!(dimension_key(b"x.\xff"), None);
    assert_eq!(dimension_key(b"trailing."), Some(String::new()));
    for p in SAMPLE_PATHS {
        let expected = Path::new(p).extension().and_then(|s| s.to_str()).map(|s| s.to_lowercase());
        assert_eq!(dimension_key(p.as_bytes()), expected, "path {:?}", p);
    }
}

#[test]
fn failed_probe_is_remembered() {
    let mut cache = DimensionCache::new();
    let png = Some("png".to_string());
    let jpg = Some("jpg".to_string());
    assert!(cache.should_probe(&png));
    assert_eq!(cache.record(png.clone(), Some((4, 5))), Some((4, 5)));
    assert!(cache.should_probe(&png));
    assert_eq!(cache.record(png.clone(), None), None);
    assert!(!cache.should_probe(&png));
    assert!(cache.should_probe(&jpg));
    assert_eq!(cache.record(None, None), None);
    assert!(cache.should_probe(&None));
    assert_eq!(cache.record(jpg.clone(), Some((1, 1))), Some((1, 1)));
    assert!(!cache.should_probe(&png));
}

const PNG_123_BY_321: [u8; 32] = [
    0x89, 0x50, 0x4E, 0x47, 0x0D, 0x0A, 0x1A, 0x0A, 0x00, 0x00, 0x00, 0x0D, 0x49, 0x48, 0x44, 0x52,
    0x00, 0x00, 0x00, 0x7B, 0x00, 0x00, 0x01, 0x41, 0x08, 0x06, 0x00, 0x00, 0x00, 0x9A, 0x38, 0xC4,
];

#[test]
fn dimensions_read_from_contents() {
    let mut cache = DimensionCache::new();
    let png = Some(PNG_123_BY_321.to_vec());
    assert_eq!(get_dimensions(&mut cache, b"a/pic.png", &png), Some((123, 321)));
    let junk = Some(vec![0u8; 40]);
    assert_eq!(get_dimensions(&mut cache, b"a/bad.PNG", &junk), None);
    // The failure is remembered under "png": a good file of that type is no
    // longer probed.
    assert_eq!(get_dimensions(&mut cache, b"b/good.png", &png), None);
    assert_eq!(get_dimensions(&mut cache, b"b/good.gif", &png), Some((123, 321)));
    assert_eq!(get_dimensions(&mut cache, b"b/missing.jpg", &None), None);
    assert!(!cache.should_probe(&Some("jpg".to_string())));
    assert_eq!(get_dimensions(&mut cache, b"noext", &None), None);
    assert_eq!(get_dimensions(&mut cache, b"noext2", &png), Some((123, 321)));
}

#[test]
fn format_time_builtin_shapes() {
    let mut o = fmt_opts();
    for t in [0i64, 1_000_000_000, -86_400 * 400, i64::MAX] {
        let s = format_time(t, &o);
        let c: Vec<char> = s.chars().collect();
        assert!(s.is_ascii());
        assert!(c.len() >= 12);
        assert_eq!(c[3], ' ');
        assert_eq!(c[6], ' ');
        assert!(c.len() == 12 && c[9] == ':' || c[7] == ' ');
    }
    o.t_upper = true;
    let s = format_time(1_000_000_000, &o);
    let c: Vec<char> = s.chars().collect();
    assert!(c.len() >= 20);
    assert_eq!((c[3], c[6], c[9], c[12], c[15]), (' ', ' ', ':', ':', ' '));
}

#[test]
fn representable_timestamps_match_chrono() {
    assert!(chrono::DateTime::from_timestamp(EARLIEST_TIMESTAMP, 0).is_some());
    assert!(chrono::DateTime::from_timestamp(EARLIEST_TIMESTAMP - 1, 0).is_none());
    assert!(chrono::DateTime::from_timestamp(LATEST_TIMESTAMP, 0).is_some());
    assert!(chrono::DateTime::from_timestamp(LATEST_TIMESTAMP + 1, 0).is_none());
    let mut o = fmt_opts();
    o.d_fmt = Some("%Y".to_string());
    assert_eq!(format_time(EARLIEST_TIMESTAMP + 86_400 * 2, &o).len(), 7);
}

#[test]
fn image_payload_padding() {
    let o = fmt_opts();
    let one = write_image(b"a", 1, &Some(vec![0xffu8]), &o);
    assert!(one.starts_with("\x1b]1337;File=name=YQ==;size=1;"));
    assert!(one.ends_with(":/w==\x07"));
    let two = write_image(b"ab", 2, &Some(vec![0xfbu8, 0xef]), &o);
    assert!(two.starts_with("\x1b]1337;File=name=YWI=;size=2;"));
    assert!(two.ends_with(":++8=\x07"));
}

#[test]
fn names_inside_a_directory_hold_no_separator() {
    for p in [&b"a/b"[..], b"a/b/", b"/x/./y\xff", b"q\xc0/r", b"..", b"/"] {
        let inside = entry_filename(p, Some(b"one"));
        assert!(!inside.contains('/'));
        assert_eq!(inside, entry_filename(p, Some(b"two/three")));
    }
    assert_eq!(entry_filename(b"q\xc0/r", Some(b"d")), "r");
    assert_eq!(entry_filename(b"x/y\xff", Some(b"d")), "y\u{fffd}");
    assert_eq!(entry_filename(b"x/y\xff", None), "x/y\u{fffd}");
}
