use std::cell::Cell;

use ls::collect::{filter_names, follow_links, is_visible, reads_as_directory};
use ls::config::{color_choice, resolve_config, Flags};
use ls::entry::{ColorMode, Config, Entry, FollowSymlinks, Meta, OutputFormat, ShowHidden, SortBy, TimeField};
use ls::layout::{pick_shape, render_across, render_down, render_single, render_stream, Shape};
use ls::listing::{color_enabled, listing_text};
use ls::long::render_long;
use ls::mode::{decorate, format_mode};
use ls::names::NameCache;
use ls::order::{compare_entries, sort_entries};
use ls::size::format_size;
use ls::stamp::{format_time, format_time_at, show_year, stamp_pattern, CLOCK_PATTERN, MAX_TS, MIN_TS, YEAR_PATTERN};
use ls::walk::Walk;

fn meta(mode: u32, size: u64) -> Meta {
    Meta {
        mode,
        size,
        nlink: 1,
        uid: 0,
        gid: 0,
        ino: 0,
        blocks: 0,
        rdev: 0,
        mtime: 0,
        ctime: 0,
        atime: 0,
    }
}

fn entry(name: &str, mode: u32, size: u64) -> Entry {
    Entry {
        name: name.to_string(),
        path: name.to_string(),
        meta: meta(mode, size),
        is_symlink: false,
        symlink_target: None,
    }
}

fn file(name: &str) -> Entry {
    entry(name, 0o100644, 0)
}

fn config() -> Config {
    resolve_config(&Flags::default())
}

fn names_of(entries: &[Entry]) -> Vec<String> {
    entries.iter().map(|e| e.name.clone()).collect()
}

fn chars(s: &str) -> Vec<char> {
    s.chars().collect()
}

fn text(v: Vec<char>) -> String {
    v.into_iter().collect()
}

#[test]
fn name_sort_ignores_case() {
    let mut cfg = config();
    let mut v = vec![file("B"), file("a"), file("C")];
    sort_entries(&mut v, &cfg);
    assert_eq!(names_of(&v), vec!["a", "B", "C"]);
    cfg.reverse = true;
    sort_entries(&mut v, &cfg);
    assert_eq!(names_of(&v), vec!["C", "B", "a"]);
}

#[test]
fn size_sort_breaks_ties_by_name_and_reverses_whole_order() {
    let mut cfg = config();
    cfg.sort = SortBy::Size;
    let mut v = vec![file("b"), file("a")];
    sort_entries(&mut v, &cfg);
    assert_eq!(names_of(&v), vec!["a", "b"]);
    cfg.reverse = true;
    sort_entries(&mut v, &cfg);
    assert_eq!(names_of(&v), vec!["b", "a"]);
}

#[test]
fn size_sort_puts_largest_first() {
    let mut cfg = config();
    cfg.sort = SortBy::Size;
    let mut v = vec![entry("small", 0o100644, 1), entry("big", 0o100644, 100), entry("mid", 0o100644, 10)];
    sort_entries(&mut v, &cfg);
    assert_eq!(names_of(&v), vec!["big", "mid", "small"]);
}

#[test]
fn time_sort_puts_newest_first_by_chosen_field() {
    let mut cfg = config();
    cfg.sort = SortBy::Time;
    let mut old = file("old");
    old.meta.mtime = 10;
    old.meta.atime = 30;
    let mut new = file("new");
    new.meta.mtime = 20;
    new.meta.atime = 5;
    let mut v = vec![old, new];
    sort_entries(&mut v, &cfg);
    assert_eq!(names_of(&v), vec!["new", "old"]);
    cfg.time_field = TimeField::Access;
    sort_entries(&mut v, &cfg);
    assert_eq!(names_of(&v), vec!["old", "new"]);
}

#[test]
fn unsorted_keeps_collected_order() {
    let mut cfg = config();
    cfg.sort = SortBy::Unsorted;
    cfg.reverse = true;
    let mut v = vec![file("c"), file("a"), file("b")];
    sort_entries(&mut v, &cfg);
    assert_eq!(names_of(&v), vec!["c", "a", "b"]);
}

#[test]
fn comparator_is_antisymmetric_on_samples() {
    let cfg = config();
    let a = file("alpha");
    let b = file("Beta");
    assert_eq!(compare_entries(&a, &b, &cfg), std::cmp::Ordering::Less);
    assert_eq!(compare_entries(&b, &a, &cfg), std::cmp::Ordering::Greater);
    assert_eq!(compare_entries(&a, &a, &cfg), std::cmp::Ordering::Equal);
}

#[test]
fn parallel_sort_matches_sequential_order() {
    let mut cfg = config();
    cfg.sort = SortBy::Size;
    let make = |n: usize| -> Vec<Entry> {
        (0..n).map(|i| entry(&format!("F{:04}", (i * 7919) % n), 0o100644, ((i * 31) % 13) as u64)).collect()
    };
    for n in [200usize, 1500] {
        let mut v = make(n);
        sort_entries(&mut v, &cfg);
        let mut expected = make(n);
        expected.sort_by(|a, b| b.meta.size.cmp(&a.meta.size).then(a.name.to_lowercase().cmp(&b.name.to_lowercase())));
        assert_eq!(names_of(&v), names_of(&expected));
    }
}

#[test]
fn human_sizes() {
    assert_eq!(format_size(0, true), "0B");
    assert_eq!(format_size(1023, true), "1023B");
    assert_eq!(format_size(1024, true), "1.0K");
    assert_eq!(format_size(10240, true), "10K");
    assert_eq!(format_size(1536, true), "1.5K");
    assert_eq!(format_size(1048576, true), "1.0M");
    assert_eq!(format_size(5 * 1024 * 1024 * 1024, true), "5.0G");
    assert_eq!(format_size(1536, false), "1536");
    assert_eq!(format_size(0, false), "0");
}

#[test]
fn mode_strings() {
    assert_eq!(format_mode(0o100644), "-rw-r--r--");
    assert_eq!(format_mode(0o040755), "drwxr-xr-x");
    assert_eq!(format_mode(0o120777), "lrwxrwxrwx");
    assert_eq!(format_mode(0o020600), "crw-------");
    assert_eq!(format_mode(0o010644), "prw-r--r--");
}

#[test]
fn hidden_entries_filtered() {
    let names: Vec<String> = vec![".hidden".to_string(), "visible".to_string()];
    assert_eq!(filter_names(&names, ShowHidden::Hide), vec!["visible"]);
    assert_eq!(filter_names(&names, ShowHidden::All), vec![".hidden", "visible"]);
    let with_dots: Vec<String> = vec![".", "..", ".hidden", "visible"].into_iter().map(String::from).collect();
    assert_eq!(filter_names(&with_dots, ShowHidden::AlmostAll), vec![".hidden", "visible"]);
    assert_eq!(filter_names(&with_dots, ShowHidden::All), vec![".", "..", ".hidden", "visible"]);
    assert!(!is_visible("..", ShowHidden::AlmostAll));
    assert!(is_visible("...", ShowHidden::AlmostAll));
}

#[test]
fn indicators_and_colors() {
    let mut cfg = config();
    assert_eq!(text(decorate("d", 0o040755, &cfg, false)), "d");
    cfg.slash = true;
    assert_eq!(text(decorate("d", 0o040755, &cfg, false)), "d/");
    assert_eq!(text(decorate("x", 0o100755, &cfg, false)), "x");
    cfg.classify = true;
    assert_eq!(text(decorate("x", 0o100755, &cfg, false)), "x*");
    assert_eq!(text(decorate("l", 0o120777, &cfg, false)), "l@");
    assert_eq!(text(decorate("s", 0o140755, &cfg, false)), "s=");
    assert_eq!(text(decorate("p", 0o010644, &cfg, false)), "p|");
    assert_eq!(text(decorate("d", 0o040755, &cfg, true)), "\x1b[34md/\x1b[0m");
    assert_eq!(text(decorate("l", 0o120777, &cfg, true)), "\x1b[36ml@\x1b[0m");
    assert_eq!(text(decorate("x", 0o100755, &cfg, true)), "\x1b[32mx*\x1b[0m");
    assert_eq!(text(decorate("f", 0o100644, &cfg, true)), "f");
}

fn five() -> Vec<Vec<char>> {
    vec![chars("a"), chars("b"), chars("c"), chars("d"), chars("e")]
}

#[test]
fn columns_down_are_column_major() {
    assert_eq!(text(render_down(&five(), 6)), "a  d  \nb  e  \nc  \n");
    assert_eq!(text(render_down(&five(), 1)), "a  \nb  \nc  \nd  \ne  \n");
    assert_eq!(text(render_down(&Vec::new(), 80)), "");
}

#[test]
fn columns_across_are_row_major() {
    assert_eq!(text(render_across(&five(), 6)), "a  b  \nc  d  \ne  \n");
    assert_eq!(text(render_across(&five(), 80)), "a  b  c  d  e  \n");
    assert_eq!(text(render_across(&vec![chars("a"), chars("b")], 6)), "a  b  \n");
}

#[test]
fn stream_and_single() {
    assert_eq!(text(render_stream(&five())), "a, b, c, d, e\n");
    assert_eq!(text(render_stream(&Vec::new())), "\n");
    assert_eq!(text(render_single(&vec![chars("a"), chars("bb")])), "a\nbb\n");
}

#[test]
fn shape_priority() {
    let mut cfg = config();
    assert_eq!(pick_shape(&cfg, false), Shape::Single);
    assert_eq!(pick_shape(&cfg, true), Shape::Down);
    cfg.format = OutputFormat::MultiColumnAcross;
    assert_eq!(pick_shape(&cfg, false), Shape::Across);
    cfg.format = OutputFormat::Stream;
    assert_eq!(pick_shape(&cfg, true), Shape::Stream);
    cfg.one = true;
    assert_eq!(pick_shape(&cfg, true), Shape::Single);
    cfg.long = true;
    assert_eq!(pick_shape(&cfg, true), Shape::Long);
}

#[test]
fn long_lines_align_columns() {
    let mut cfg = config();
    cfg.long = true;
    let mut a = entry("a", 0o100644, 5);
    a.meta.nlink = 12;
    let mut l = entry("l", 0o120777, 12345);
    l.symlink_target = Some("target".to_string());
    l.is_symlink = true;
    let v = vec![a, l];
    let users = vec!["root".to_string(), "alice".to_string()];
    let groups = vec!["wheel".to_string(), "staff".to_string()];
    let stamps = vec!["Jan  1 00:00".to_string(), "Feb  2  2020".to_string()];
    let out = text(render_long(&v, &cfg, false, &users, &groups, &stamps));
    assert_eq!(
        out,
        "-rw-r--r-- 12     root    wheel     5 Jan  1 00:00 a\n\
         lrwxrwxrwx  1    alice    staff 12345 Feb  2  2020 l -> target\n"
    );
}

#[test]
fn long_lines_show_devices_inodes_and_blocks() {
    let mut cfg = config();
    cfg.inode = true;
    cfg.blocks = true;
    let mut d = entry("sda1", 0o060660, 0);
    d.meta.rdev = (8 << 24) | 1;
    d.meta.ino = 7;
    d.meta.blocks = 0;
    let mut f = entry("f", 0o100644, 3);
    f.meta.ino = 1234;
    f.meta.blocks = 8;
    let v = vec![d, f];
    let names = vec!["u".to_string(), "u".to_string()];
    let stamps = vec!["S".to_string(), "S".to_string()];
    let out = text(render_long(&v, &cfg, false, &names, &names, &stamps));
    assert_eq!(
        out,
        "   7 0 brw-rw---- 1        u        u 8, 1 S sda1\n\
         1234 8 -rw-r--r-- 1        u        u 3 S f\n"
    );
}

#[test]
fn recursive_walk_visits_subdirectory_after_parent() {
    let mut cfg = config();
    cfg.recursive = true;
    let mut walk = Walk::start(&vec!["root".to_string()]);
    let first = walk.next().unwrap();
    assert_eq!(first.path, "root");
    assert_eq!(first.header, "");
    assert!(first.requested);
    let mut sub = entry("sub", 0o040755, 0);
    sub.path = "root/sub".to_string();
    let mut a = entry("a.txt", 0o100644, 0);
    a.path = "root/a.txt".to_string();
    walk.descend(&vec![a, sub], &cfg);
    let second = walk.next().unwrap();
    assert_eq!(second.path, "root/sub");
    assert_eq!(second.header, "\nroot/sub:\n");
    assert!(!second.requested);
    let mut b = entry("b.txt", 0o100644, 0);
    b.path = "root/sub/b.txt".to_string();
    walk.descend(&vec![b], &cfg);
    assert!(walk.next().is_none());
}

#[test]
fn walk_without_recursion_lists_requested_paths_with_headers() {
    let cfg = config();
    let mut walk = Walk::start(&vec!["x".to_string(), "y".to_string()]);
    let first = walk.next().unwrap();
    assert_eq!(first.header, "x:\n");
    walk.descend(&vec![entry("d", 0o040755, 0)], &cfg);
    let second = walk.next().unwrap();
    assert_eq!(second.path, "y");
    assert_eq!(second.header, "\ny:\n");
    assert!(walk.next().is_none());
}

#[test]
fn name_cache_looks_up_once() {
    let calls = Cell::new(0u32);
    let lookup = |id: u32| {
        calls.set(calls.get() + 1);
        if id == 0 { Some("root".to_string()) } else { None }
    };
    let mut cache = NameCache::new();
    assert_eq!(cache.cached(0), None);
    let first = cache.resolve(0, &lookup);
    let second = cache.resolve(0, &lookup);
    assert_eq!(first, "root");
    assert_eq!(second, first);
    assert_eq!(calls.get(), 1);
    assert_eq!(cache.resolve(1234, &lookup), "1234");
    assert_eq!(cache.resolve(1234, &lookup), "1234");
    assert_eq!(calls.get(), 2);
    assert_eq!(cache.cached(1234), Some("1234".to_string()));
}

#[test]
fn name_cache_record_falls_back_to_number() {
    let mut cache = NameCache::new();
    assert_eq!(cache.record(42, None), "42");
    assert_eq!(cache.record(7, Some("seven".to_string())), "seven");
    assert_eq!(cache.cached(42), Some("42".to_string()));
    assert_eq!(cache.cached(7), Some("seven".to_string()));
}

#[test]
fn year_shown_for_old_and_future_times() {
    let now = 100_000_000;
    assert!(show_year(now - 15_552_001, now));
    assert!(!show_year(now - 15_552_000, now));
    assert!(!show_year(now, now));
    assert!(show_year(now + 1, now));
    assert_eq!(stamp_pattern(0, now), YEAR_PATTERN);
    assert_eq!(stamp_pattern(now - 60, now), CLOCK_PATTERN);
}

#[test]
fn flags_resolve_by_priority() {
    let mut f = Flags::default();
    f.no_sort = true;
    f.sort_time = true;
    f.ctime = true;
    f.atime = true;
    f.stream_format = true;
    f.multi_column_down = true;
    f.follow_symlinks = true;
    let cfg = resolve_config(&f);
    assert_eq!(cfg.sort, SortBy::Unsorted);
    assert_eq!(cfg.show_hidden, ShowHidden::All);
    assert_eq!(cfg.time_field, TimeField::Change);
    assert_eq!(cfg.format, OutputFormat::Stream);
    assert_eq!(cfg.follow_symlinks, FollowSymlinks::Always);
    assert_eq!(color_choice(&Some("never".to_string()), true), ColorMode::Never);
    assert_eq!(color_choice(&Some("bogus".to_string()), true), ColorMode::Always);
    assert_eq!(color_choice(&None, false), ColorMode::Auto);
    assert!(color_enabled(ColorMode::Auto, true));
    assert!(!color_enabled(ColorMode::Never, true));
}

#[test]
fn listing_sorts_then_renders() {
    let mut cfg = config();
    cfg.format = OutputFormat::Stream;
    cfg.classify = true;
    let mut v = vec![file("b"), entry("A", 0o040755, 0), file("c")];
    let mut users = NameCache::new();
    let mut groups = NameCache::new();
    let none = |_: u32| -> Option<String> { None };
    let out = listing_text(&mut v, &cfg, false, 80, 0, &mut users, &mut groups, &none, &none);
    assert_eq!(out, "A/, b, c\n");
}

#[test]
fn link_policy_decides_what_is_followed() {
    assert!(!follow_links(FollowSymlinks::Never, true));
    assert!(follow_links(FollowSymlinks::CommandLine, true));
    assert!(!follow_links(FollowSymlinks::CommandLine, false));
    assert!(follow_links(FollowSymlinks::Always, false));
    assert!(reads_as_directory(true, false, false));
    assert!(!reads_as_directory(true, true, false));
    assert!(reads_as_directory(true, true, true));
    assert!(!reads_as_directory(false, false, true));
}

#[test]
fn human_sizes_round_ties_to_even() {
    assert_eq!(format_size(1280, true), "1.2K");
    assert_eq!(format_size(1331, true), "1.3K");
    assert_eq!(format_size(10752, true), "10K");
    assert_eq!(format_size(11776, true), "12K");
    assert_eq!(format_size(10239, true), "10.0K");
    assert_eq!(format_size(1048575, true), "1024K");
}

#[test]
fn old_time_stamp_shows_the_year() {
    let s = format_time(0, 100_000_000);
    assert!(s.ends_with("1970") || s.ends_with("1969"), "{}", s);
    let recent = format_time(100_000_000 - 60, 100_000_000);
    assert!(recent.contains(':'), "{}", recent);
}

#[test]
fn column_width_counts_utf8_bytes() {
    assert_eq!(text(render_down(&vec![chars("é")], 80)), "é   \n");
    assert_eq!(text(render_across(&vec![chars("é"), chars("a")], 80)), "é   a   \n");
}

#[test]
fn walk_never_descends_into_dot_entries() {
    let mut cfg = config();
    cfg.recursive = true;
    let mut walk = Walk::start(&vec!["r".to_string()]);
    walk.next().unwrap();
    let mut dot = entry(".", 0o040755, 0);
    dot.path = "r/.".to_string();
    let mut dotdot = entry("..", 0o040755, 0);
    dotdot.path = "r/..".to_string();
    let mut hidden = entry(".git", 0o040755, 0);
    hidden.path = "r/.git".to_string();
    walk.descend(&vec![dot, dotdot, hidden], &cfg);
    assert_eq!(walk.next().unwrap().path, "r/.git");
    assert!(walk.next().is_none());
}

#[test]
fn stamps_outside_the_calendar_are_bare_seconds() {
    assert_eq!(format_time(i64::MAX, 0), "9223372036854775807");
    assert_eq!(format_time(i64::MIN, 0), "-9223372036854775808");
}

#[test]
fn tied_names_keep_their_input_order() {
    let cfg = config();
    let mut v = vec![file("a"), file("B"), file("A"), file("b")];
    sort_entries(&mut v, &cfg);
    assert_eq!(names_of(&v), vec!["a", "A", "B", "b"]);
    let mut big: Vec<Entry> = (0..1200).map(|i| file(if i % 2 == 0 { "x" } else { "X" })).collect();
    for (i, e) in big.iter_mut().enumerate() {
        e.meta.ino = i as u64;
    }
    sort_entries(&mut big, &cfg);
    assert!(big.windows(2).all(|w| w[0].meta.ino < w[1].meta.ino));
}

#[test]
fn stamps_at_a_given_offset() {
    assert_eq!(format_time_at(0, 100_000_000, 0), "Jan  1  1970");
    assert_eq!(format_time_at(31 * 86400, 100_000_000, 0), "Feb  1  1970");
    let now = 1_000_000_000;
    assert_eq!(format_time_at(now - 60, now, 0), "Sep  9 01:45");
    assert_eq!(format_time_at(now - 60, now, 3600), "Sep  9 02:45");
    assert_eq!(format_time_at(now - 60, now, -7200), "Sep  8 23:45");
    assert_eq!(format_time_at(i64::MAX, 0, 0), "9223372036854775807");
}

#[test]
fn calendar_range_starts_where_chrono_does() {
    let first = format_time_at(MIN_TS, 0, 0);
    assert!(first.contains("262143"), "{}", first);
    assert_eq!(format_time_at(MIN_TS - 1, 0, 0), "-8334601228801");
    let last = format_time_at(MAX_TS, 0, 0);
    assert!(last.contains("262142"), "{}", last);
}
