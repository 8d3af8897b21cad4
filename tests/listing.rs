use lsd_core::args::Args;
use lsd_core::entry::{DateTime, EntryKind, PrintEntry};
use lsd_core::colors::IMAGE_COLOR;
use lsd_core::flags::{get_help, Flags};
use lsd_core::render::{format_date_time, format_time, header_line, name_is_hidden};
use lsd_core::size::Format;

fn words(w: &[&str]) -> Vec<String> {
    w.iter().map(|s| s.to_string()).collect()
}

fn all_columns(format: Format) -> Args {
    Args {
        creation_date: true,
        modification_date: true,
        access_date: true,
        size: true,
        sys: false,
        recursive: false,
        format,
        path: String::from("."),
    }
}

#[test]
fn header_with_all_columns() {
    assert_eq!(
        header_line(&all_columns(Format::Iec)),
        "         Created            Last modified         Last accessed          Size     Name"
    );
    assert_eq!(header_line(&all_columns(Format::Si)).len(), 2 + 22 * 3 + 12 + 4);
}

#[test]
fn header_without_columns() {
    let mut a = all_columns(Format::Iec);
    a.creation_date = false;
    a.modification_date = false;
    a.access_date = false;
    a.size = false;
    assert_eq!(header_line(&a), "  Name");
    a.size = true;
    a.format = Format::Si;
    assert_eq!(header_line(&a), "      Size    Name");
}

#[test]
fn date_text_layout() {
    let d = DateTime { year: 2024, month: 3, day: 7, hour: 9, minute: 5, second: 0 };
    assert_eq!(format_date_time(&d), "2024-03-07 09:05:00");
    let early = DateTime { year: 7, month: 12, day: 31, hour: 23, minute: 59, second: 59 };
    assert_eq!(format_date_time(&early), "0007-12-31 23:59:59");
    let far = DateTime { year: 12345, month: 1, day: 1, hour: 0, minute: 0, second: 0 };
    assert_eq!(format_date_time(&far), "+12345-01-01 00:00:00");
    let before = DateTime { year: -5, month: 1, day: 1, hour: 0, minute: 0, second: 0 };
    assert_eq!(format_date_time(&before), "-0005-01-01 00:00:00");
    assert_eq!(format_time(&None), "---------- --:--:--");
    assert_eq!(format_time(&Some(d)).len(), format_time(&None).len());
}

#[test]
fn full_row() {
    let e = PrintEntry {
        kind: EntryKind::File,
        name: String::from("cat.png"),
        created: Some(DateTime { year: 2023, month: 11, day: 2, hour: 14, minute: 30, second: 1 }),
        modified: None,
        accessed: None,
        size: 1536,
        error: None,
        color: IMAGE_COLOR,
    };
    let row = e.render(&all_columns(Format::Si)).unwrap();
    assert_eq!(
        row.prefix,
        "F [2023-11-02 14:30:01] [---------- --:--:--] [---------- --:--:--] [  1.54 KB] "
    );
    assert_eq!(row.color, IMAGE_COLOR);
    assert!(row.error.is_none());
}

#[test]
fn hidden_names() {
    assert!(name_is_hidden(".git"));
    assert!(!name_is_hidden("git"));
    assert!(!name_is_hidden(""));
}

#[test]
fn flags_from_words() {
    let f = Flags::new(&words(&["-c", "--modification", "-s", "--show-sys", "--si"])).unwrap();
    assert!(f.show_creation_date && f.show_modification_date && f.show_size && f.show_sys);
    assert!(!f.show_access_date);
    assert_eq!(f.format, Format::Si);
    let g = Flags::new(&words(&["--access"])).unwrap();
    assert!(g.show_access_date && !g.show_size && !g.show_sys);
    assert_eq!(g.format, Format::Iec);
    assert_eq!(Flags::new(&words(&["--iec"])).unwrap().format, Format::Iec);
}

#[test]
fn flags_refuse_both_unit_systems() {
    match Flags::new(&words(&["--si", "-a", "--iec"])) {
        Err(e) => assert_eq!(e, "Either SI format or IEC"),
        Ok(_) => panic!("both unit systems accepted"),
    }
}

#[test]
fn help_lists_switches() {
    let h = get_help();
    assert!(h.starts_with("Flags:\n"));
    assert!(h.contains("--show-sys"));
    assert_eq!(h.lines().count(), 8);
}
