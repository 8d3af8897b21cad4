use lsd_core::args::Args;
use lsd_core::colors::{DIR_COLOR, FILE_COLOR, IMAGE_COLOR};
use lsd_core::entry::{
    entry_name, kind_from_probe, recursive_size, sort_entries, EntryKind, FileTime, MetadataInfo,
    PathProbe, PrintEntry,
};
use lsd_core::size::Format;
use std::cmp::Ordering;

fn args(size: bool, recursive: bool, sys: bool) -> Args {
    Args {
        creation_date: false,
        modification_date: false,
        access_date: false,
        size,
        sys,
        recursive,
        format: Format::Iec,
        path: String::from("."),
    }
}

const FILE: PathProbe = PathProbe { is_symlink: false, is_file: true, is_dir: false };
const DIR: PathProbe = PathProbe { is_symlink: false, is_file: false, is_dir: true };

fn meta(len: u64) -> MetadataInfo {
    MetadataInfo { created: None, modified: None, accessed: None, len }
}

fn entry(kind: EntryKind, name: &str) -> PrintEntry {
    PrintEntry {
        kind,
        name: String::from(name),
        created: None,
        modified: None,
        accessed: None,
        size: 0,
        error: None,
        color: FILE_COLOR,
    }
}

#[test]
fn symlink_is_probed_first() {
    let to_file = PathProbe { is_symlink: true, is_file: true, is_dir: false };
    let to_dir = PathProbe { is_symlink: true, is_file: false, is_dir: true };
    assert_eq!(kind_from_probe(to_file), EntryKind::Symlink);
    assert_eq!(kind_from_probe(to_dir), EntryKind::Symlink);
    assert_eq!(kind_from_probe(FILE), EntryKind::File);
    assert_eq!(kind_from_probe(DIR), EntryKind::Directory);
    let nothing = PathProbe { is_symlink: false, is_file: false, is_dir: false };
    assert_eq!(kind_from_probe(nothing), EntryKind::Unknown);
}

#[test]
fn name_placeholder_when_missing() {
    assert_eq!(entry_name(None), "---");
    assert_eq!(entry_name(Some("a.txt")), "a.txt");
}

#[test]
fn recursive_size_skips_unreadable() {
    assert_eq!(recursive_size(&vec![Some(10), Some(20), None]), 30);
    assert_eq!(recursive_size(&vec![]), 0);
    assert_eq!(recursive_size(&vec![Some(u64::MAX), Some(1)]), u64::MAX);
}

#[test]
fn recursive_directory_size_through_entry() {
    let a = args(true, true, false);
    let tree = vec![Some(10), Some(20), None];
    let e = PrintEntry::new("top", Some("top"), DIR, Some(Ok(meta(4096))), &tree, &a);
    assert_eq!(e.size, 30);
    assert!(e.error.is_none());
    assert_eq!(e.color, DIR_COLOR);
    assert_eq!(e.kind, EntryKind::Directory);
}

#[test]
fn non_recursive_size_is_direct_length() {
    let a = args(true, false, false);
    let tree = vec![Some(10), Some(20)];
    let e = PrintEntry::new("top", Some("top"), DIR, Some(Ok(meta(4096))), &tree, &a);
    assert_eq!(e.size, 4096);
    let f = PrintEntry::new("p.png", Some("p.png"), FILE, Some(Ok(meta(77))), &vec![], &a);
    assert_eq!(f.size, 77);
    assert_eq!(f.color, IMAGE_COLOR);
}

#[test]
fn hidden_entries_count_toward_tree_size() {
    // sizes of ".hidden" (5) and "shown" (7) below a directory
    assert_eq!(recursive_size(&vec![Some(5), Some(7)]), 12);
    let hidden = PrintEntry::new(".hidden", Some(".hidden"), FILE, None, &vec![], &args(false, false, false));
    assert!(hidden.render(&args(false, false, false)).is_none());
}

#[test]
fn failed_metadata_read_keeps_entry() {
    let a = Args {
        creation_date: true,
        modification_date: true,
        access_date: true,
        size: true,
        sys: false,
        recursive: false,
        format: Format::Iec,
        path: String::from("."),
    };
    let e = PrintEntry::new(
        "gone",
        Some("gone"),
        FILE,
        Some(Err(String::from("Permission denied (os error 13)"))),
        &vec![Some(3)],
        &a,
    );
    assert_eq!(e.size, 0);
    assert!(e.created.is_none() && e.modified.is_none() && e.accessed.is_none());
    assert_eq!(e.error.as_deref(), Some("Permission denied (os error 13)"));
    let row = e.render(&a).unwrap();
    assert_eq!(
        row.prefix,
        "F [---------- --:--:--] [---------- --:--:--] [---------- --:--:--] [   0.00   B] "
    );
    assert_eq!(row.name, "gone");
    assert_eq!(row.error.as_deref(), Some(" -> Permission denied (os error 13)"));
}

#[test]
fn metadata_skipped_when_no_column_needs_it() {
    let a = args(false, false, false);
    assert!(!a.wants_metadata());
    let e = PrintEntry::new("f", Some("f"), FILE, Some(Ok(meta(9))), &vec![], &a);
    assert_eq!(e.size, 0);
    assert!(e.error.is_none());
}

#[test]
fn timestamps_only_when_requested() {
    let mut a = args(false, false, false);
    a.modification_date = true;
    let t = FileTime { secs: 86_400 * 365, nanos: 0 };
    let m = MetadataInfo { created: Some(t), modified: Some(t), accessed: Some(t), len: 1 };
    let e = PrintEntry::new("f", Some("f"), FILE, Some(Ok(m)), &vec![], &a);
    assert!(e.created.is_none());
    assert!(e.accessed.is_none());
    let d = e.modified.unwrap();
    assert!(d.year == 1970 || d.year == 1971);
    assert!((1..=12).contains(&d.month) && (1..=31).contains(&d.day));
    assert!(d.hour < 24 && d.minute < 60 && d.second < 60);
    assert_eq!(e.size, 0);
}

#[test]
fn hidden_rows_only_with_sys() {
    let e = entry(EntryKind::File, ".profile");
    assert!(e.render(&args(false, false, false)).is_none());
    let row = e.render(&args(false, false, true)).unwrap();
    assert_eq!(row.prefix, "F ");
    assert_eq!(row.name, ".profile");
    assert!(row.error.is_none());
    assert!(entry(EntryKind::File, "visible").render(&args(false, false, false)).is_some());
}

#[test]
fn order_by_kind_then_name() {
    let d = entry(EntryKind::Directory, "zeta");
    let f = entry(EntryKind::File, "alpha");
    let s = entry(EntryKind::Symlink, "alpha");
    let u = entry(EntryKind::Unknown, "a");
    assert_eq!(d.compare(&f), Ordering::Less);
    assert_eq!(f.compare(&s), Ordering::Less);
    assert_eq!(s.compare(&u), Ordering::Less);
    assert_eq!(f.compare(&d), Ordering::Greater);
    let f2 = entry(EntryKind::File, "beta");
    assert_eq!(f.compare(&f2), Ordering::Less);
    assert_eq!(f2.compare(&f), Ordering::Greater);
    assert_eq!(f.compare(&entry(EntryKind::File, "alpha")), Ordering::Equal);
    assert_eq!(entry(EntryKind::File, "ab").compare(&entry(EntryKind::File, "abc")), Ordering::Less);
    assert_eq!(entry(EntryKind::File, "B").compare(&entry(EntryKind::File, "a")), Ordering::Less);
}

#[test]
fn same_name_different_kind_is_not_equal() {
    let d = entry(EntryKind::Directory, "same");
    let f = entry(EntryKind::File, "same");
    assert!(d != f);
    assert_ne!(d.compare(&f), Ordering::Equal);
    assert!(d == entry(EntryKind::Directory, "same"));
}

#[test]
fn sorting_a_listing() {
    let v = vec![
        entry(EntryKind::File, "b"),
        entry(EntryKind::Directory, "z"),
        entry(EntryKind::File, "a"),
        entry(EntryKind::Symlink, "c"),
        entry(EntryKind::Directory, "y"),
    ];
    let sorted = sort_entries(v);
    let keys: Vec<(EntryKind, String)> = sorted.iter().map(|e| (e.kind, e.name.clone())).collect();
    assert_eq!(
        keys,
        vec![
            (EntryKind::Directory, String::from("y")),
            (EntryKind::Directory, String::from("z")),
            (EntryKind::File, String::from("a")),
            (EntryKind::File, String::from("b")),
            (EntryKind::Symlink, String::from("c")),
        ]
    );
    assert!(sort_entries(vec![]).is_empty());
}

#[test]
fn partial_order_matches_compare() {
    let d = entry(EntryKind::Directory, "b");
    let f = entry(EntryKind::File, "a");
    assert_eq!(d.partial_cmp(&f), Some(Ordering::Less));
    assert!(d < f);
    assert!(f > d);
    assert_eq!(f.partial_cmp(&entry(EntryKind::File, "a")), Some(Ordering::Equal));
}
