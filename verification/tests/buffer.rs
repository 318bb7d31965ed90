use calc_os::buffer::{Line, LINE_CAPACITY};

#[test]
fn a_new_line_is_empty() {
    let line = Line::new();
    assert_eq!(line.as_str(), "");
    assert_eq!(line.len(), 0);
    assert!(line.is_empty());
    assert_eq!(LINE_CAPACITY, 64);
}

#[test]
fn pieces_are_appended_in_order() {
    let mut line = Line::new();
    assert!(line.push_str("D1"));
    assert!(line.push_str("Backspace"));
    assert!(line.push_str(""));
    assert_eq!(line.as_str(), "D1Backspace");
    assert_eq!(line.len(), 11);
    assert!(!line.is_empty());
}

#[test]
fn a_line_holds_sixty_four_bytes_and_no_more() {
    let mut line = Line::new();
    assert!(line.push_str(&"x".repeat(64)));
    assert_eq!(line.len(), 64);
    assert!(!line.push_str("y"));
    assert_eq!(line.as_str(), "x".repeat(64));
    assert!(line.push_str(""));
}

#[test]
fn what_does_not_fit_is_turned_away_whole() {
    let mut line = Line::new();
    assert!(line.push_str(&"a".repeat(60)));
    assert!(!line.push_str("Right"));
    assert_eq!(line.as_str(), "a".repeat(60));
    assert!(line.push_str("Left"));
    assert_eq!(line.len(), 64);
    let mut long = Line::new();
    assert!(!long.push_str(&"z".repeat(65)));
    assert!(long.is_empty());
}

#[test]
fn capacity_is_counted_in_bytes() {
    let mut line = Line::new();
    // Two bytes each in UTF-8.
    assert!(line.push_str(&"é".repeat(32)));
    assert_eq!(line.len(), 64);
    assert!(!line.push_str("e"));
    let mut other = Line::new();
    assert!(other.push_str(&"a".repeat(63)));
    assert!(!other.push_str("é"));
    assert_eq!(other.len(), 63);
}

#[test]
fn clear_empties_the_line() {
    let mut line = Line::new();
    assert!(line.push_str("D7D8D9"));
    line.clear();
    assert_eq!(line.as_str(), "");
    assert!(line.is_empty());
    assert!(line.push_str(&"b".repeat(64)));
}

#[test]
fn numbers_are_written_in_decimal() {
    let mut line = Line::new();
    assert!(line.push_decimal(0));
    assert!(line.push_str(" "));
    assert!(line.push_decimal(7));
    assert!(line.push_str(" "));
    assert!(line.push_decimal(10));
    assert!(line.push_str(" "));
    assert!(line.push_decimal(1048));
    assert!(line.push_str(" "));
    assert!(line.push_decimal(u64::MAX));
    assert_eq!(line.as_str(), "0 7 10 1048 18446744073709551615");
}

#[test]
fn a_number_that_does_not_fit_is_turned_away_whole() {
    let mut line = Line::new();
    assert!(line.push_str(&"n".repeat(62)));
    assert!(!line.push_decimal(100));
    assert_eq!(line.len(), 62);
    assert!(line.push_decimal(99));
    assert_eq!(line.as_str(), format!("{}99", "n".repeat(62)));
}
