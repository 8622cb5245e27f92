use numworks_games::ppm::{parse_number, read_number};

#[test]
fn header_numbers_in_a_row() {
    let header = b"P6\n320 240\n255\n\x01\x02";
    let (width, i) = read_number(header, 3);
    assert_eq!((width, i), (320, 7));
    let (height, i) = read_number(header, i);
    assert_eq!((height, i), (240, 11));
    let (max_value, i) = read_number(header, i);
    assert_eq!((max_value, i), (255, 15));
}

#[test]
fn whitespace_right_away_reads_zero() {
    assert_eq!(read_number(b" \t\r\n7", 0), (0, 4));
}

#[test]
fn malformed_numbers_are_refused() {
    assert_eq!(parse_number(b"12a ", 0), None);
    assert_eq!(parse_number(b"12", 0), None);
    assert_eq!(parse_number(b"4294967296 ", 0), None);
    assert_eq!(parse_number(b"4294967295 ", 0), Some((4294967295, 11)));
    assert_eq!(parse_number(b"1 ", 5), None);
}
