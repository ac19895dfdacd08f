use ls_parser::{parse, FileInfo};
use std::str::FromStr;

#[test]
fn test() {
    let s = "drwxr-xr-x 1 owner group         3452 Jun 11 10:15 device";
    let info = parse(s);
    assert_eq!(
        info,
        Some(FileInfo {
            permissions: "drwxr-xr-x".to_string(),
            hard_link_count: 1,
            owner: "owner".to_string(),
            group: "group".to_string(),
            size: 3452,
            last_modified: "Jun 11 10:15".to_string(),
            name: "device".to_string(),
            link: None
        })
    )
}

#[test]
fn test_link() {
    let s = "lrwxrwxrwx 1 owner group           10 Jun 11 10:15 link.txt -> file1.txt";
    let info = parse(s);
    assert_eq!(
        info,
        Some(FileInfo {
            permissions: "lrwxrwxrwx".to_string(),
            hard_link_count: 1,
            owner: "owner".to_string(),
            group: "group".to_string(),
            size: 10,
            last_modified: "Jun 11 10:15".to_string(),
            name: "link.txt".to_string(),
            link: Some("file1.txt".to_string())
        })
    );
}

#[test]
fn test_from_str() {
    let s = "lrwxrwxrwx 1 owner group           10 Jun 11 10:15 link.txt -> file1.txt";
    let info = FileInfo::try_from(s);
    assert!(info.is_ok());

    let info = FileInfo::from_str(s);
    assert!(info.is_ok());
}

fn record(
    permissions: &str,
    hard_link_count: usize,
    owner: &str,
    group: &str,
    size: usize,
    last_modified: &str,
    name: &str,
    link: Option<&str>,
) -> FileInfo {
    FileInfo {
        permissions: permissions.to_string(),
        hard_link_count,
        owner: owner.to_string(),
        group: group.to_string(),
        size,
        last_modified: last_modified.to_string(),
        name: name.to_string(),
        link: link.map(|target| target.to_string()),
    }
}

#[test]
fn whitespace_around_the_line_is_ignored() {
    let line = "drwxr-xr-x 1 owner group         3452 Jun 11 10:15 device";
    let padded = format!(" \t {line}\r\n");
    assert_eq!(parse(&padded), parse(line));
    assert_eq!(
        parse(&padded),
        Some(record("drwxr-xr-x", 1, "owner", "group", 3452, "Jun 11 10:15", "device", None))
    );
}

#[test]
fn a_line_shorter_than_the_mode_string_fails() {
    assert_eq!(parse("short"), None);
    assert_eq!(parse(""), None);
    assert_eq!(parse("   \t "), None);
    assert_eq!(parse("drwxr-xr-"), None);
    assert_eq!(parse("     drwxr     "), None);
}

#[test]
fn a_line_of_the_mode_string_alone_fails() {
    assert_eq!(parse("drwxr-xr-x"), None);
    assert_eq!(parse("drwxr-xr-x   "), None);
}

#[test]
fn a_link_count_that_is_no_number_fails() {
    assert_eq!(parse("drwxr-xr-x abc owner group 3452 Jun 11 10:15 device"), None);
    assert_eq!(parse("drwxr-xr-x -1 owner group 3452 Jun 11 10:15 device"), None);
    assert_eq!(parse("drwxr-xr-x +1 owner group 3452 Jun 11 10:15 device"), None);
}

#[test]
fn a_size_that_is_no_number_fails() {
    assert_eq!(parse("drwxr-xr-x 1 owner group big Jun 11 10:15 device"), None);
    assert_eq!(parse("drwxr-xr-x 1 owner group"), None);
    assert_eq!(parse("drwxr-xr-x 1 owner"), None);
    assert_eq!(parse("drwxr-xr-x 1"), None);
}

#[test]
fn a_number_that_does_not_fit_fails() {
    let max = usize::MAX;
    let fits = format!("-rw-r--r-- {max} owner group {max} Jun 11 10:15 file");
    assert_eq!(
        parse(&fits),
        Some(record("-rw-r--r--", max, "owner", "group", max, "Jun 11 10:15", "file", None))
    );
    let link_count_too_big = format!("-rw-r--r-- {max}0 owner group 1 Jun 11 10:15 file");
    assert_eq!(parse(&link_count_too_big), None);
    let size_too_big = format!("-rw-r--r-- 1 owner group {max}0 Jun 11 10:15 file");
    assert_eq!(parse(&size_too_big), None);
}

#[test]
fn leading_zeros_do_not_change_a_number() {
    assert_eq!(
        parse("-rw-r--r-- 007 owner group 000000000000000000000000042 Jun 11 10:15 file"),
        Some(record("-rw-r--r--", 7, "owner", "group", 42, "Jun 11 10:15", "file", None))
    );
}

#[test]
fn the_timestamp_is_joined_with_single_spaces() {
    let line = "-rw-r--r--\t2  owner \t group   17    Jan\t\t 3     2023   notes.txt";
    assert_eq!(
        parse(line),
        Some(record("-rw-r--r--", 2, "owner", "group", 17, "Jan 3 2023", "notes.txt", None))
    );
}

#[test]
fn a_line_written_from_a_record_parses_to_that_record() {
    let line = "lrwxrwxrwx  03 owner   group \t 10    Jun    11  10:15   link.txt -> file1.txt";
    let first = parse(line).unwrap();
    let written = format!(
        "{} {} {} {} {} {} {} -> {}",
        first.permissions,
        first.hard_link_count,
        first.owner,
        first.group,
        first.size,
        first.last_modified,
        first.name,
        first.link.clone().unwrap(),
    );
    assert_eq!(written, "lrwxrwxrwx 3 owner group 10 Jun 11 10:15 link.txt -> file1.txt");
    let second = parse(&written).unwrap();
    assert_eq!(second.last_modified, first.last_modified);
    assert_eq!(second.last_modified, "Jun 11 10:15");
    assert_eq!(second, first);
}

#[test]
fn a_line_that_ends_early_is_written_and_read_back() {
    let first = parse("drwxr-xr-x 1 owner group 3452 Jun").unwrap();
    assert_eq!(first, record("drwxr-xr-x", 1, "owner", "group", 3452, "Jun  ", "", None));
    let written = format!(
        "{} {} {} {} {} {} {}",
        first.permissions,
        first.hard_link_count,
        first.owner,
        first.group,
        first.size,
        first.last_modified,
        first.name,
    );
    assert_eq!(parse(&written), Some(first));
}

#[test]
fn without_the_separator_the_name_is_the_whole_tail() {
    assert_eq!(
        parse("-rw-r--r-- 1 owner group 5 Jun 11 10:15 my file ->or-> not->here ->"),
        Some(record(
            "-rw-r--r--",
            1,
            "owner",
            "group",
            5,
            "Jun 11 10:15",
            "my file ->or-> not->here ->",
            None
        ))
    );
    assert_eq!(
        parse("-rw-r--r-- 1 owner group 5 Jun 11 10:15 a  b   c"),
        Some(record("-rw-r--r--", 1, "owner", "group", 5, "Jun 11 10:15", "a  b   c", None))
    );
}

#[test]
fn the_first_separator_splits_name_and_target() {
    assert_eq!(
        parse("lrwxrwxrwx 1 owner group 5 Jun 11 10:15 a -> b -> c"),
        Some(record("lrwxrwxrwx", 1, "owner", "group", 5, "Jun 11 10:15", "a", Some("b -> c")))
    );
    assert_eq!(
        parse("lrwxrwxrwx 1 owner group 5 Jun 11 10:15 my file -> or->not ->here"),
        Some(record(
            "lrwxrwxrwx",
            1,
            "owner",
            "group",
            5,
            "Jun 11 10:15",
            "my file",
            Some("or->not ->here")
        ))
    );
    assert_eq!(
        parse("lrwxrwxrwx 1 owner group 5 Jun 11 10:15 a  ->  b"),
        Some(record("lrwxrwxrwx", 1, "owner", "group", 5, "Jun 11 10:15", "a ", Some(" b")))
    );
}

#[test]
fn a_link_target_does_not_depend_on_the_kind_of_entry() {
    let dir = parse("drwxr-xr-x 1 owner group 5 Jun 11 10:15 a -> b").unwrap();
    assert!(dir.is_dir());
    assert_eq!(dir.link, Some("b".to_string()));
    let link = parse("lrwxrwxrwx 1 owner group 5 Jun 11 10:15 a").unwrap();
    assert!(link.is_link());
    assert_eq!(link.link, None);
}

#[test]
fn the_kind_of_entry_is_the_first_character_of_the_mode_string() {
    let dir = parse("drwxr-xr-x 1 owner group 5 Jun 11 10:15 a").unwrap();
    assert!(dir.is_dir());
    assert!(!dir.is_file());
    assert!(!dir.is_link());
    let link = parse("lrwxrwxrwx 1 owner group 5 Jun 11 10:15 a -> b").unwrap();
    assert!(!link.is_dir());
    assert!(link.is_file());
    assert!(link.is_link());
    let file = parse("-rw-r--r-- 1 owner group 5 Jun 11 10:15 a").unwrap();
    assert!(!file.is_dir());
    assert!(file.is_file());
    assert!(!file.is_link());
    let device = parse("crw-rw-rw- 1 owner group 5 Jun 11 10:15 null").unwrap();
    assert!(!device.is_dir());
    assert!(device.is_file());
    assert!(!device.is_link());
}

#[test]
fn the_default_record_is_empty() {
    let empty = FileInfo::default();
    assert_eq!(empty, record("", 0, "", "", 0, "", "", None));
    assert!(!empty.is_dir());
    assert!(empty.is_file());
    assert!(!empty.is_link());
}

#[test]
fn the_mode_string_is_taken_by_its_width() {
    assert_eq!(
        parse("drwx r  x 1 owner group 5 Jun 11 10:15 a"),
        Some(record("drwx r  x ", 1, "owner", "group", 5, "Jun 11 10:15", "a", None))
    );
    assert_eq!(
        parse("drwxr-xr-x1 owner group 5 Jun 11 10:15 a"),
        Some(record("drwxr-xr-x", 1, "owner", "group", 5, "Jun 11 10:15", "a", None))
    );
    assert_eq!(
        parse("drwxr-xr-x+ 1 owner group 5 Jun 11 10:15 a"),
        None
    );
}

#[test]
fn fields_may_follow_a_number_without_a_gap() {
    assert_eq!(
        parse("drwxr-xr-x 1owner group 5Jun 11 10:15 a"),
        Some(record("drwxr-xr-x", 1, "owner", "group", 5, "Jun 11 10:15", "a", None))
    );
}

#[test]
fn a_line_without_a_name_has_an_empty_name() {
    assert_eq!(
        parse("drwxr-xr-x 1 owner group 3452 Jun 11 10:15"),
        Some(record("drwxr-xr-x", 1, "owner", "group", 3452, "Jun 11 10:15", "", None))
    );
    assert_eq!(
        parse("drwxr-xr-x 1 owner group 3452 Jun 11"),
        Some(record("drwxr-xr-x", 1, "owner", "group", 3452, "Jun 11 ", "", None))
    );
    assert_eq!(
        parse("drwxr-xr-x 1 owner group 3452"),
        Some(record("drwxr-xr-x", 1, "owner", "group", 3452, "  ", "", None))
    );
}

#[test]
fn every_kind_of_whitespace_separates_fields() {
    let line = [
        "\u{3000}drwxr-xr-x\u{a0}1\u{2003}owner\u{85}group\u{1680}5",
        "\u{2028}Jun\u{202f}11\u{205f}10:15\u{b}a\u{c}b\u{2029}",
    ]
    .concat();
    let line = line.as_str();
    assert_eq!(
        parse(line),
        Some(record("drwxr-xr-x", 1, "owner", "group", 5, "Jun 11 10:15", "a\u{c}b", None))
    );
}

#[test]
fn the_separator_is_written_with_plain_spaces() {
    assert_eq!(
        parse("lrwxrwxrwx 1 owner group 5 Jun 11 10:15 a\t->\tb"),
        Some(record("lrwxrwxrwx", 1, "owner", "group", 5, "Jun 11 10:15", "a\t->\tb", None))
    );
}

#[test]
fn names_may_hold_any_character() {
    assert_eq!(
        parse("-rw-r--r-- 1 jörg größe 5 Jún 11 10:15 naïve 文件.txt -> цель"),
        Some(record(
            "-rw-r--r--",
            1,
            "jörg",
            "größe",
            5,
            "Jún 11 10:15",
            "naïve 文件.txt",
            Some("цель")
        ))
    );
}

#[test]
fn the_mode_string_is_ten_characters_of_any_kind() {
    assert_eq!(
        parse("dřwxř-xř-x 1 owner group 5 Jun 11 10:15 a"),
        Some(record("dřwxř-xř-x", 1, "owner", "group", 5, "Jun 11 10:15", "a", None))
    );
}

#[test]
fn conversions_from_text_agree_with_parse() {
    let good = "lrwxrwxrwx 1 owner group           10 Jun 11 10:15 link.txt -> file1.txt";
    assert_eq!(FileInfo::try_from(good).ok(), parse(good));
    assert_eq!(FileInfo::from_str(good).ok(), parse(good));
    assert_eq!(good.parse::<FileInfo>().ok(), parse(good));
    let bad = "drwxr-xr-x abc owner group 3452 Jun 11 10:15 device";
    assert_eq!(FileInfo::try_from(bad), Err(()));
    assert_eq!(FileInfo::from_str(bad), Err(()));
    assert_eq!(FileInfo::try_from("short"), Err(()));
    assert_eq!(FileInfo::from_str("short"), Err(()));
}

#[test]
fn parse_is_reached_through_its_module() {
    let line = "drwxr-xr-x 1 owner group         3452 Jun 11 10:15 device";
    assert_eq!(ls_parser::parse::parse(line), parse(line));
}
