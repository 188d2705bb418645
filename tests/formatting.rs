use lsc::name::{colorize, decorate, is_visible, name_hue, Hue};
use lsc::render::{compose_line, pad_left, SIZE_WIDTH};
use lsc::size::{size_text, size_unit, SizeUnit};
use lsc::timestamp::{time_field, time_text};

#[test]
fn size_zero_is_placeholder() {
    assert_eq!(size_unit(0), None);
    assert_eq!(size_text(Some(0)), "...");
}

#[test]
fn size_unreadable_is_dash() {
    assert_eq!(size_text(None), "-");
}

#[test]
fn size_one_in_bytes() {
    assert_eq!(size_unit(1), Some(SizeUnit::B));
    assert_eq!(size_text(Some(1)), "1 B");
}

#[test]
fn size_1024_in_bytes() {
    assert_eq!(size_unit(1024), Some(SizeUnit::B));
    assert_eq!(size_text(Some(1024)), "1024 B");
}

#[test]
fn size_1025_in_kilobytes() {
    assert_eq!(size_unit(1025), Some(SizeUnit::KB));
    assert_eq!(size_text(Some(1025)), "1.02 KB");
}

#[test]
fn size_kilobyte_upper_bound() {
    assert_eq!(size_unit(1_048_567), Some(SizeUnit::KB));
    assert_eq!(size_text(Some(1_048_567)), "1048.57 KB");
}

#[test]
fn size_megabyte_lower_bound() {
    assert_eq!(size_unit(1_048_576), Some(SizeUnit::MB));
    assert_eq!(size_text(Some(1_048_576)), "1.05 MB");
}

#[test]
fn size_megabyte_upper_bound() {
    assert_eq!(size_unit(1_073_741_824), Some(SizeUnit::MB));
    assert_eq!(size_text(Some(1_073_741_824)), "1073.74 MB");
}

#[test]
fn size_above_megabytes_in_gigabytes() {
    assert_eq!(size_unit(1_073_741_825), Some(SizeUnit::GB));
    assert_eq!(size_text(Some(1_073_741_825)), "1.07 GB");
    assert_eq!(size_unit(u64::MAX), Some(SizeUnit::GB));
}

#[test]
fn size_between_kilobytes_and_megabytes_falls_to_gigabytes() {
    assert_eq!(size_unit(1_048_568), Some(SizeUnit::GB));
    assert_eq!(size_unit(1_048_575), Some(SizeUnit::GB));
}

#[test]
fn dotfiles_hidden_unless_shown() {
    assert!(!is_visible(".git", false));
    assert!(is_visible(".git", true));
    assert!(is_visible("src", false));
    assert!(is_visible("a.b", false));
    assert!(is_visible("", false));
}

#[test]
fn directories_get_separator_and_green() {
    assert_eq!(decorate("src", true), "src/");
    assert_eq!(decorate("main.rs", false), "main.rs");
    assert_eq!(name_hue(true), Hue::Green);
    assert_eq!(name_hue(false), Hue::Yellow);
}

#[test]
fn colorize_paints_with_escapes() {
    colored::control::set_override(true);
    assert_eq!(colorize("src", true), "\x1b[32msrc/\x1b[0m");
    assert_eq!(colorize("a.txt", false), "\x1b[33ma.txt\x1b[0m");
}

#[test]
fn colorize_plain_without_colors() {
    colored::control::set_override(false);
    assert_eq!(colorize("src", true), "src/");
    assert_eq!(colorize("a.txt", false), "a.txt");
}

#[test]
fn pad_size_column() {
    assert_eq!(pad_left("1 B", SIZE_WIDTH), "            1 B");
    assert_eq!(pad_left("1 B", SIZE_WIDTH).len(), 15);
    assert_eq!(pad_left("12345678901234567", SIZE_WIDTH), "12345678901234567");
    assert_eq!(pad_left("", 3), "   ");
}

#[test]
fn line_fields_joined_by_spaces() {
    assert_eq!(compose_line("a", "b", "c"), "a b c");
    assert_eq!(compose_line("x", "", "y"), "x  y");
}

#[test]
fn epoch_in_rfc2822() {
    assert_eq!(time_text(Some(0), 0), "Thu, 01 Jan 1970 00:00:00 +0000");
}

#[test]
fn time_at_local_offset() {
    assert_eq!(time_text(Some(0), 3600), "Thu, 01 Jan 1970 01:00:00 +0100");
    assert_eq!(time_text(Some(1_000_000_000), -7200), "Sat, 08 Sep 2001 23:46:40 -0200");
}

#[test]
fn time_missing_or_unrenderable_is_empty() {
    assert_eq!(time_text(None, 0), "");
    assert_eq!(time_text(Some(-3_000_000_000), 0), "");
    assert_eq!(time_text(Some(0), 30), "");
    assert_eq!(time_text(Some(i64::MAX), 0), "");
}

#[test]
fn time_field_of_outcome() {
    assert_eq!(time_field(None), "");
    assert_eq!(time_field(Some("x".to_string())), "x");
}
