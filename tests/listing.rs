use lsc::listing::{entry_from, list, DirectoryEntry, EntryMetadata, ListingPolicy, RawEntry};
use lsc::outcome::{exit_status, listing_lines, DirectoryRead};
use lsc::render::{render, render_listing};

fn raw(name: &str, is_directory: bool, len: u64) -> RawEntry {
    RawEntry {
        name: Some(name.to_string()),
        is_directory,
        metadata: Some(EntryMetadata { len, modified: Some(0) }),
    }
}

fn names(v: &[DirectoryEntry]) -> Vec<String> {
    v.iter().map(|e| e.name.clone()).collect()
}

fn sample() -> Vec<RawEntry> {
    vec![
        raw("b.txt", false, 10),
        raw(".hidden", false, 1),
        raw("src", true, 4096),
        raw("a.txt", false, 0),
        raw(".git", true, 4096),
        RawEntry { name: None, is_directory: false, metadata: None },
        raw("docs", true, 4096),
    ]
}

const PLAIN: ListingPolicy = ListingPolicy { show_hidden: false, directories_first: false };

#[test]
fn hidden_entries_excluded_by_default() {
    let r = list(&sample(), PLAIN);
    assert_eq!(names(&r), vec!["b.txt", "src", "a.txt", "docs"]);
}

#[test]
fn hidden_entries_included_when_shown() {
    let p = ListingPolicy { show_hidden: true, directories_first: false };
    let r = list(&sample(), p);
    assert_eq!(names(&r), vec!["b.txt", ".hidden", "src", "a.txt", ".git", "docs"]);
}

#[test]
fn directories_first_is_stable_partition() {
    let p = ListingPolicy { show_hidden: true, directories_first: true };
    let r = list(&sample(), p);
    assert_eq!(names(&r), vec!["src", ".git", "docs", "b.txt", ".hidden", "a.txt"]);
    let first_file = r.iter().position(|e| !e.is_directory).unwrap();
    assert!(r[first_file..].iter().all(|e| !e.is_directory));
}

#[test]
fn undecodable_names_skipped() {
    let v = vec![RawEntry { name: None, is_directory: true, metadata: None }];
    let p = ListingPolicy { show_hidden: true, directories_first: true };
    assert!(list(&v, p).is_empty());
}

#[test]
fn entry_carries_metadata() {
    let e = entry_from(&raw("x", false, 7));
    assert_eq!(e.size_bytes, Some(7));
    assert_eq!(e.modified_at, Some(0));
    let f = entry_from(&RawEntry { name: Some("y".to_string()), is_directory: true, metadata: None });
    assert_eq!(f.size_bytes, None);
    assert_eq!(f.modified_at, None);
    assert!(f.is_directory);
}

#[test]
fn render_plain_line() {
    colored::control::set_override(false);
    let e = entry_from(&raw("src", true, 1));
    assert_eq!(render(&e, 0), "            1 B Thu, 01 Jan 1970 00:00:00 +0000 src/");
}

#[test]
fn render_colored_line() {
    colored::control::set_override(true);
    let e = entry_from(&raw("a.txt", false, 0));
    assert_eq!(
        render(&e, 0),
        "\x1b[94m            ...\x1b[0m Thu, 01 Jan 1970 00:00:00 +0000 \x1b[33ma.txt\x1b[0m"
    );
}

#[test]
fn metadata_failure_keeps_every_line() {
    colored::control::set_override(false);
    let v = vec![
        raw("a", false, 5),
        RawEntry { name: Some("broken".to_string()), is_directory: false, metadata: None },
        raw("c", true, 2048),
    ];
    let lines = render_listing(&v, PLAIN, 0);
    assert_eq!(lines.len(), 3);
    assert_eq!(lines[0], "            5 B Thu, 01 Jan 1970 00:00:00 +0000 a");
    assert_eq!(lines[1], "              -  broken");
    assert_eq!(lines[2], "        2.05 KB Thu, 01 Jan 1970 00:00:00 +0000 c/");
}

#[test]
fn unreadable_modification_time_is_blank() {
    colored::control::set_override(false);
    let v = vec![RawEntry {
        name: Some("f".to_string()),
        is_directory: false,
        metadata: Some(EntryMetadata { len: 3, modified: None }),
    }];
    let lines = render_listing(&v, PLAIN, 0);
    assert_eq!(lines, vec!["            3 B  f".to_string()]);
}

#[test]
fn not_a_directory_lists_nothing() {
    let r = listing_lines(DirectoryRead::NotADirectory, PLAIN, 0);
    assert_eq!(exit_status(&r), 0);
    assert!(r.unwrap().is_empty());
}

#[test]
fn access_failure_reports_and_fails() {
    let r = listing_lines(DirectoryRead::Failed("No such file or directory".to_string()), PLAIN, 0);
    assert_eq!(exit_status(&r), 1);
    assert_eq!(r.unwrap_err().message(), "No such file or directory");
}

#[test]
fn entries_become_lines() {
    colored::control::set_override(false);
    let p = ListingPolicy { show_hidden: false, directories_first: true };
    let r = listing_lines(DirectoryRead::Entries(sample()), p, 0);
    assert_eq!(exit_status(&r), 0);
    let lines = r.unwrap();
    assert_eq!(lines.len(), 4);
    assert!(lines[0].ends_with(" src/"));
    assert!(lines[1].ends_with(" docs/"));
    assert!(lines[2].ends_with(" b.txt"));
    assert!(lines[3].ends_with(" a.txt"));
    assert!(lines[3].starts_with("            ... "));
}
