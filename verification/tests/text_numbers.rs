//! Text and numbers as they are read and written.

use raven::geometry::{center_in, place_tile, usable_area, Point, Rectangle, Size, WindowGeometry};
use raven::numbers::{
    read_i32, read_u16, read_u32, read_usize, write_decimal, write_signed, IntError,
};
use raven::text::{
    contains, ends_with, eq_ignore_case, is_blank, join, split, split_once, split_whitespace,
    starts_with, strip_prefix, to_lowercase, to_uppercase, trim,
};

#[test]
fn text_is_trimmed() {
    assert_eq!(trim(" \t a b \u{a0}\n"), "a b");
    assert_eq!(trim(""), "");
    assert!(is_blank("\u{2003} "));
    assert!(!is_blank("."));
}

#[test]
fn case_is_that_of_ascii() {
    assert_eq!(to_lowercase("ÄbC"), "Äbc");
    assert_eq!(to_uppercase("äbC"), "äBC");
    assert!(eq_ignore_case("HDMI-a", "hdmi-A"));
    assert!(!eq_ignore_case("Ä", "ä"));
}

#[test]
fn text_is_split_and_joined() {
    assert_eq!(split_once("a=b=c", '='), Some(("a".to_string(), "b=c".to_string())));
    assert_eq!(split_once("abc", '='), None);
    let parts = split("a--b", '-');
    assert_eq!(parts, vec!["a".to_string(), String::new(), "b".to_string()]);
    assert_eq!(join(&parts, 0, "-"), "a--b");
    assert_eq!(join(&parts, 1, "+"), "+b");
    assert_eq!(split_whitespace("  a \t b\n"), vec!["a".to_string(), "b".to_string()]);
    assert!(split_whitespace("  ").is_empty());
}

#[test]
fn parts_of_text_are_found() {
    assert!(starts_with("raven-wayland-1.sock", "raven-"));
    assert!(ends_with("raven-wayland-1.sock", ".sock"));
    assert!(!ends_with("k", ".sock"));
    assert_eq!(strip_prefix("~/a", "~/").as_deref(), Some("a"));
    assert_eq!(strip_prefix("/a", "~/"), None);
    assert!(contains("abc", "bc"));
    assert!(contains("abc", ""));
    assert!(!contains("abc", "ac"));
}

#[test]
fn integers_are_read() {
    assert_eq!(read_u32("+17"), Ok(17));
    assert_eq!(read_u32("4294967295"), Ok(u32::MAX));
    assert_eq!(read_u32("4294967296"), Err(IntError::TooLarge));
    assert_eq!(read_u32("-1"), Err(IntError::InvalidDigit));
    assert_eq!(read_u32(""), Err(IntError::Empty));
    assert_eq!(read_u32("+"), Err(IntError::InvalidDigit));
    assert_eq!(read_u16("65536"), Err(IntError::TooLarge));
    assert_eq!(read_usize("10"), Ok(10));
    assert_eq!(read_i32("-2147483648"), Ok(i32::MIN));
    assert_eq!(read_i32("-2147483649"), Err(IntError::TooSmall));
    assert_eq!(read_i32("1 "), Err(IntError::InvalidDigit));
}

#[test]
fn integers_come_back_as_written() {
    for value in [0u64, 9, 10, 4096, u64::MAX] {
        assert_eq!(write_decimal(value), value.to_string());
    }
    for value in [0i64, -1, 42, i64::MAX] {
        assert_eq!(write_signed(value), value.to_string());
    }
    assert_eq!(read_i32(&write_signed(-77)), Ok(-77));
    assert_eq!(IntError::TooLarge.reason(), "number too large to fit in target type");
}

fn rect(x: i32, y: i32, w: i32, h: i32) -> Rectangle {
    Rectangle { loc: Point { x, y }, size: Size { w, h } }
}

#[test]
fn rectangles_are_placed() {
    let tile = WindowGeometry { x_coordinate: 5, y_coordinate: 6, width: 70, height: 80 };
    assert_eq!(place_tile(rect(100, 200, 10, 10), tile), rect(105, 206, 70, 80));
    assert_eq!(usable_area(rect(0, 30, 100, 70), rect(0, 0, 100, 100)), rect(0, 30, 100, 70));
    assert_eq!(usable_area(rect(0, 0, 0, 70), rect(0, 0, 100, 100)), rect(0, 0, 100, 100));
    assert_eq!(center_in(rect(10, 20, 100, 50), Size { w: 40, h: 200 }), Point { x: 40, y: 20 });
    assert!(Size { w: 10, h: 10 }.sizes_match_target(Size { w: 11, h: 9 }));
    assert!(!Size { w: 10, h: 10 }.sizes_match_target(Size { w: 12, h: 10 }));
    assert!(!Size { w: 0, h: 10 }.has_room());
}
