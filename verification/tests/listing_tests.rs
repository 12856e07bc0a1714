use thmbs::image::write_placeholder;
use thmbs::listing::{
    column_widths, do_ls, listing_with_times, needs_contents, try_do_ls, wants_dimensions, EntryMeta, ListEntry, ListError,
};
use thmbs::options::{Cli, Opts};
use thmbs::sorting::{ls_sort, SortEntry};
use thmbs::walk::{classify_operand, descends_into, read_dir_split, section_header, DirItem, DirQueue, Operand};

fn list_opts() -> Opts {
    let c = Cli {
        width: 3,
        height: 1,
        preserve_ratio: true,
        no_preserve_ratio: false,
        dimensions: false,
        no_dimensions: false,
        unknown: false,
        no_unknown: false,
        method: None,
        a_upper: false,
        f_upper: false,
        r_upper: false,
        t_upper: false,
        a: false,
        d: false,
        h: false,
        i: false,
        k: false,
        l: false,
        n: false,
        o: false,
        p: false,
        r: false,
        s: false,
        t: false,
        s_upper: false,
        u: false,
        y: false,
        c: false,
        u_upper: false,
        d_fmt: None,
        paths: Vec::new(),
    };
    Opts::from_cli(c).0
}

fn meta(mode: u32, size: u64, blocks: u64) -> EntryMeta {
    EntryMeta {
        mode,
        ino: 42,
        nlink: 1,
        uid: 1000,
        gid: 100,
        size,
        blocks,
        atime: 0,
        mtime: 0,
        ctime: 0,
    }
}

fn entry(path: &str, m: EntryMeta) -> ListEntry {
    ListEntry {
        path: path.as_bytes().to_vec(),
        meta: m,
        dims: None,
        owner: None,
        group: None,
        contents: None,
    }
}

fn sort_entry(path: &str, mtime: i64, atime: i64, size: u64) -> SortEntry {
    SortEntry { path: path.as_bytes().to_vec(), mtime, atime, size }
}

fn sorted_names(v: &Vec<SortEntry>) -> Vec<String> {
    v.iter().map(|e| String::from_utf8(e.path.clone()).unwrap()).collect()
}

#[test]
fn sort_by_name() {
    let o = list_opts();
    let mut v = vec![sort_entry("b", 0, 0, 0), sort_entry("a/c", 0, 0, 0), sort_entry("a", 0, 0, 0), sort_entry("a.b", 0, 0, 0)];
    ls_sort(&mut v, &o, false);
    assert_eq!(sorted_names(&v), vec!["a", "a/c", "a.b", "b"]);
}

#[test]
fn sort_reversed() {
    let mut o = list_opts();
    o.r = true;
    let mut v = vec![sort_entry("b", 0, 0, 0), sort_entry("c", 0, 0, 0), sort_entry("a", 0, 0, 0)];
    ls_sort(&mut v, &o, false);
    assert_eq!(sorted_names(&v), vec!["c", "b", "a"]);
}

#[test]
fn sort_by_mtime_newest_first_ties_by_name() {
    let mut o = list_opts();
    o.t = true;
    let mut v = vec![sort_entry("b", 5, 0, 0), sort_entry("a", 5, 0, 0), sort_entry("c", 9, 0, 0), sort_entry("d", 1, 0, 0)];
    ls_sort(&mut v, &o, false);
    assert_eq!(sorted_names(&v), vec!["c", "a", "b", "d"]);
    let mut v = vec![sort_entry("b", 5, 0, 0), sort_entry("a", 5, 0, 0), sort_entry("c", 9, 0, 0)];
    ls_sort(&mut v, &o, true);
    assert_eq!(sorted_names(&v), vec!["c", "b", "a"]);
    o.y = true;
    let mut v = vec![sort_entry("a", 5, 0, 0), sort_entry("b", 5, 0, 0)];
    ls_sort(&mut v, &o, false);
    assert_eq!(sorted_names(&v), vec!["b", "a"]);
}

#[test]
fn sort_by_atime_is_stable() {
    let mut o = list_opts();
    o.u = true;
    let mut v = vec![sort_entry("z", 0, 3, 0), sort_entry("y", 0, 1, 0), sort_entry("x", 0, 3, 0), sort_entry("w", 0, 1, 0)];
    ls_sort(&mut v, &o, false);
    assert_eq!(sorted_names(&v), vec!["y", "w", "z", "x"]);
}

#[test]
fn sort_by_size_largest_first() {
    let mut o = list_opts();
    o.s_upper = true;
    let mut v = vec![sort_entry("b", 0, 0, 10), sort_entry("c", 0, 0, 30), sort_entry("a", 0, 0, 10)];
    ls_sort(&mut v, &o, false);
    assert_eq!(sorted_names(&v), vec!["c", "a", "b"]);
}

#[test]
fn sort_c_flag_sorts_by_name() {
    let mut o = list_opts();
    o.c = true;
    o.u = true;
    let mut v = vec![sort_entry("b", 0, 1, 0), sort_entry("a", 0, 2, 0)];
    ls_sort(&mut v, &o, false);
    assert_eq!(sorted_names(&v), vec!["a", "b"]);
}

#[test]
fn sort_equal_paths_keep_order() {
    let o = list_opts();
    let mut v = vec![sort_entry("a//b", 0, 0, 1), sort_entry("a/b", 0, 0, 2), sort_entry("a/./b", 0, 0, 3)];
    ls_sort(&mut v, &o, false);
    let sizes: Vec<u64> = v.iter().map(|e| e.size).collect();
    assert_eq!(sizes, vec![1, 2, 3]);
}

#[test]
fn sorting_twice_changes_nothing() {
    let mut o = list_opts();
    o.t = true;
    let mut v = vec![
        sort_entry("b", 5, 0, 0),
        sort_entry("a", 5, 0, 0),
        sort_entry("c", 9, 0, 0),
        sort_entry("a//", 5, 0, 0),
    ];
    ls_sort(&mut v, &o, false);
    let once = sorted_names(&v);
    ls_sort(&mut v, &o, false);
    assert_eq!(sorted_names(&v), once);
    assert_eq!(once, vec!["c", "a", "a//", "b"]);
}

#[test]
fn short_listing_text() {
    let o = list_opts();
    let es = vec![entry("d/a.txt", meta(0o100644, 0, 8)), entry("d/sub", meta(0o040755, 4096, 8))];
    let ph = write_placeholder(&o);
    let text = do_ls(Some(b"d"), &es, &o);
    assert_eq!(text, format!("{} a.txt\n{} sub\n", ph, ph));
}

#[test]
fn operand_listing_shows_whole_path() {
    let mut o = list_opts();
    o.f_upper = true;
    let es = vec![entry("d/run.sh", meta(0o100755, 0, 0))];
    let ph = write_placeholder(&o);
    assert_eq!(do_ls(None, &es, &o), format!("{} d/run.sh*\n", ph));
}

#[test]
fn blocks_total_and_column() {
    let mut o = list_opts();
    o.s = true;
    o.show_blocks = true;
    let es = vec![
        entry("d/a", meta(0o100644, 0, 8)),
        entry("d/.hidden", meta(0o100644, 0, 16)),
        entry("d/sub", meta(0o040755, 0, 120)),
    ];
    let ph = write_placeholder(&o);
    let text = do_ls(Some(b"d"), &es, &o);
    assert_eq!(text, format!("total 8\n{ph}   8 a\n{ph}  16 .hidden\n{ph} 120 sub\n", ph = ph));
    o.k = true;
    let text = do_ls(Some(b"d"), &es, &o);
    assert!(text.starts_with("total 4\n"));
    o.a = true;
    let text = do_ls(Some(b"d"), &es, &o);
    assert!(text.starts_with("total 12\n"));
    o.d = true;
    let text = do_ls(Some(b"d"), &es, &o);
    assert!(!text.starts_with("total"));
    let text = do_ls(None, &es, &o);
    assert!(!text.starts_with("total"));
}

#[test]
fn long_listing_text() {
    let mut o = list_opts();
    o.l = true;
    let mut a = entry("d/a", meta(0o100644, 12, 8));
    a.owner = Some("alice".to_string());
    a.group = Some("staff".to_string());
    let mut b = entry("d/bb", meta(0o040755, 4096, 8));
    b.owner = None;
    b.group = Some("wheel".to_string());
    b.meta.nlink = 12;
    let es = vec![a, b];
    let times = vec!["Jan  1 00:00".to_string(), "Feb  2 10:00".to_string()];
    let ph = write_placeholder(&o);
    let text = listing_with_times(Some(b"d"), &es, &o, &times);
    let expected = format!(
        "total 8\n{ph} -rw-r--r--  1 alice  staff    12 Jan  1 00:00 a\n{ph} drwxr-xr-x 12  1000  wheel  4096 Feb  2 10:00 bb\n",
        ph = ph
    );
    assert_eq!(text, expected);
}

#[test]
fn long_listing_numeric_owner_only_human() {
    let mut o = list_opts();
    o.l = true;
    o.n = true;
    o.o = true;
    o.h = true;
    let mut a = entry("x", meta(0o100644, 1536, 0));
    a.owner = Some("alice".to_string());
    let es = vec![a];
    let times = vec!["T".to_string()];
    let ph = write_placeholder(&o);
    let text = listing_with_times(None, &es, &o, &times);
    assert_eq!(text, format!("{} -rw-r--r-- 1 1000  1.5K T x\n", ph));
}

#[test]
fn owner_width_counts_bytes() {
    let mut o = list_opts();
    o.l = true;
    let mut a = entry("a", meta(0o100644, 1, 0));
    a.owner = Some("é".to_string());
    let mut b = entry("b", meta(0o100644, 1, 0));
    b.owner = Some("x".to_string());
    let es = vec![a, b];
    let w = column_widths(&es, &o);
    assert_eq!(w.owner, 2);
    let times = vec!["T".to_string(), "T".to_string()];
    let text = listing_with_times(None, &es, &o, &times);
    // The owner column is two bytes wide, so the one-character "é" gets one space.
    assert!(text.contains(" -rw-r--r-- 1  é  100  1 T a\n"));
    assert!(text.contains(" -rw-r--r-- 1  x  100  1 T b\n"));
}

#[test]
fn dimensions_column() {
    let mut o = list_opts();
    o.dimensions = true;
    o.unknown = true;
    let mut a = entry("a.png", meta(0o100644, 3, 0));
    a.dims = Some((640, 48));
    a.contents = Some(vec![1, 2, 3]);
    let b = entry("b", meta(0o100644, 0, 0));
    let es = vec![a, b];
    let text = do_ls(None, &es, &o);
    let lines: Vec<&str> = text.split('\n').collect();
    assert!(lines[0].ends_with("\x07 [640 x 48]  a.png"));
    assert!(lines[1].ends_with("\x07             b"));
}

#[test]
fn unknown_images_get_placeholder_when_dimensions_shown() {
    let mut o = list_opts();
    o.dimensions = true;
    let m = meta(0o100644, 3, 0);
    assert!(wants_dimensions(&m, &o));
    assert!(!needs_contents(&m, &None, &o));
    assert!(needs_contents(&m, &Some((1, 1)), &o));
    o.unknown = true;
    assert!(needs_contents(&m, &None, &o));
    assert!(!needs_contents(&meta(0o040755, 3, 0), &None, &o));
    assert!(!wants_dimensions(&meta(0o100644, 0, 0), &o));
}

#[test]
fn rejected_date_format_stops_long_listing() {
    let mut o = list_opts();
    o.l = true;
    o.d_fmt = Some("%Q".to_string());
    let es = vec![entry("a", meta(0o100644, 1, 0))];
    assert_eq!(try_do_ls(None, &es, &o), Err(ListError::BadTimeFormat));
    // With nothing listed, no time is formatted.
    let none: Vec<ListEntry> = Vec::new();
    assert_eq!(try_do_ls(Some(b"d"), &none, &o), Ok("total 0\n".to_string()));
    o.l = false;
    assert!(try_do_ls(None, &es, &o).is_ok());
}

#[test]
fn overflowing_block_total_stops_listing() {
    let mut o = list_opts();
    o.s = true;
    o.show_blocks = true;
    let es = vec![entry("d/a", meta(0o100644, 0, u64::MAX)), entry("d/b", meta(0o100644, 0, 1))];
    assert_eq!(try_do_ls(Some(b"d"), &es, &o), Err(ListError::BlockTotalOverflow));
    let es = vec![entry("d/a", meta(0o100644, 0, u64::MAX))];
    assert!(try_do_ls(Some(b"d"), &es, &o).is_ok());
    // A rejected format is reported before an overflowing total.
    o.l = true;
    o.d_fmt = Some("%Q".to_string());
    let es = vec![entry("d/a", meta(0o100644, 0, u64::MAX)), entry("d/b", meta(0o100644, 0, 1))];
    assert_eq!(try_do_ls(Some(b"d"), &es, &o), Err(ListError::BadTimeFormat));
}

#[test]
fn operands_classified() {
    let mut o = list_opts();
    assert_eq!(classify_operand(None, &o), Operand::Missing);
    assert_eq!(classify_operand(Some(0o100644), &o), Operand::File);
    assert_eq!(classify_operand(Some(0o040755), &o), Operand::Dir);
    assert_eq!(classify_operand(Some(0o120777), &o), Operand::File);
    o.d = true;
    assert_eq!(classify_operand(Some(0o040755), &o), Operand::File);
}

#[test]
fn directory_items_split() {
    let o = list_opts();
    let items = vec![
        DirItem { name: b"b".to_vec(), path: b"d/b".to_vec(), mode: Some(0o100644) },
        DirItem { name: b".h".to_vec(), path: b"d/.h".to_vec(), mode: Some(0o100644) },
        DirItem { name: b"s".to_vec(), path: b"d/s".to_vec(), mode: Some(0o040755) },
        DirItem { name: b"gone".to_vec(), path: b"d/gone".to_vec(), mode: None },
    ];
    let (files, dirs) = read_dir_split(&items, &o);
    assert_eq!(files, vec![b"d/b".to_vec(), b"d/gone".to_vec()]);
    assert_eq!(dirs, vec![b"d/s".to_vec()]);
}

#[test]
fn section_headers() {
    assert_eq!(section_header(true, false, b"d"), "");
    assert_eq!(section_header(true, true, b"d"), "d:\n");
    assert_eq!(section_header(false, true, b"d/e"), "\nd/e:\n");
    assert_eq!(section_header(false, false, b"d"), "\n");
}

#[test]
fn recursion_descends() {
    assert!(descends_into(b"d/sub"));
    assert!(descends_into(b"d/.hidden"));
}

#[test]
fn directory_queue_walk() {
    let mut o = list_opts();
    o.r_upper = true;
    let mut q = DirQueue::new(vec![b"a".to_vec(), b"b".to_vec()], 2);
    assert_eq!(q.next_dir(), Some(b"a".to_vec()));
    assert_eq!(q.begin_section(b"a"), "a:\n");
    q.add_subdirs(&vec![b"a/x".to_vec(), b"a/..".to_vec()], &o);
    assert_eq!(q.next_dir(), Some(b"b".to_vec()));
    assert_eq!(q.begin_section(b"b"), "\nb:\n");
    assert_eq!(q.next_dir(), Some(b"a/x".to_vec()));
    // "a/.." has no file name, so the name test does not hold it back.
    assert_eq!(q.next_dir(), Some(b"a/..".to_vec()));
    assert_eq!(q.next_dir(), None);

    o.r_upper = false;
    let mut q = DirQueue::new(vec![b".".to_vec()], 0);
    assert_eq!(q.next_dir(), Some(b".".to_vec()));
    assert_eq!(q.begin_section(b"."), "");
    q.add_subdirs(&vec![b"./s".to_vec()], &o);
    assert_eq!(q.next_dir(), None);
}
