use vegetor::buffer::Buffer;
use vegetor::error::Error;
use vegetor::geometry::Location;

fn loaded(text: &str) -> Buffer {
    let mut buffer = Buffer::new();
    buffer.load(text);
    buffer
}

const HORIZONTAL: &str = "fn main() {\n    let long_line = \"a line that is much wider than any terminal window would be\";\n    println!(\"{}\", long_line);\n}";

#[test]
fn when_empty() {
    let mut buffer = Buffer::new();
    assert_eq!("", buffer.save("\n"));
    buffer.write_str("").unwrap();
    buffer.load("");
    assert_eq!("", buffer.save("\n"));
    assert_eq!(1, buffer.lines_num());
    assert_eq!(Location::new(0, 0), buffer.caret());
}

#[test]
fn load_and_save() {
    let single = "just one line";
    assert_eq!(single, loaded(single).save("\n"));
    assert_eq!(HORIZONTAL, loaded(HORIZONTAL).save("\n"));
}

#[test]
fn write_to_buffer() {
    let text = "single line of text";
    let mut buffer = loaded(text);
    buffer.seek_unchecked(Location { x: 0, y: 0 });
    buffer.write_str("foo\nbar").unwrap();
    assert_eq!("foo\nbar".to_owned() + text, buffer.save("\n"));
    assert_eq!(Location::new(3, 1), buffer.caret());
}

#[test]
fn buffer_reader_next() {
    let mut buffer = loaded(HORIZONTAL);
    buffer.seek_unchecked(Location::new(0, 0));
    let mut reader = buffer.get_reader().unwrap();
    let mut string = String::new();
    while let Some(ch) = reader.next() {
        string.push(ch);
    }
    assert_eq!(string, buffer.save("\n"));
}

#[test]
fn buffer_reader_prev() {
    let buffer = loaded(HORIZONTAL);
    let mut reader = buffer.get_reader().unwrap();
    let mut string = String::new();
    while let Some(ch) = reader.prev() {
        string.push(ch);
    }
    let string: String = string.chars().rev().collect();
    assert_eq!(string, buffer.save("\n"));
}

#[test]
fn load_treats_cr_lf_and_crlf_as_breaks() {
    let buffer = loaded("a\r\nb\rc\nd");
    assert_eq!(4, buffer.lines_num());
    assert_eq!("a|b|c|d", buffer.save("|"));
    assert_eq!(Location::new(1, 3), buffer.caret());
}

#[test]
fn load_keeps_trailing_empty_line() {
    let buffer = loaded("ab\n");
    assert_eq!(2, buffer.lines_num());
    assert_eq!(Location::new(0, 1), buffer.caret());
    assert_eq!("ab\n", buffer.save("\n"));
}

#[test]
fn save_uses_given_separator() {
    assert_eq!("x\r\ny\r\nz", loaded("x\ny\nz").save("\r\n"));
}

#[test]
fn load_then_save_round_trips() {
    for text in ["", "a", "\n", "\n\n", "héllo\nwörld", "trailing\n", "a\n\nb"] {
        assert_eq!(text, loaded(text).save("\n"));
    }
}

#[test]
fn check_caret_accepts_exactly_valid_positions() {
    let buffer = loaded("ab\ncde");
    for y in 0..4usize {
        for x in 0..6usize {
            let valid = (y == 0 && x <= 2) || (y == 1 && x <= 3);
            assert_eq!(valid, buffer.check_caret(Location::new(x, y)).is_ok(), "at {x},{y}");
        }
    }
}

#[test]
fn check_caret_errors() {
    let buffer = loaded("ab\ncde");
    assert_eq!(Err(Error::CaretOutOfHeight { caret: 2, height: 2 }), buffer.check_caret(Location::new(0, 2)));
    assert_eq!(Err(Error::CaretOutOfLen { caret: 3, len: 2 }), buffer.check_caret(Location::new(3, 0)));
}

#[test]
fn check_caret_counts_characters_not_bytes() {
    let buffer = loaded("héllo");
    assert!(buffer.check_caret(Location::new(5, 0)).is_ok());
    assert_eq!(Err(Error::CaretOutOfLen { caret: 6, len: 5 }), buffer.check_caret(Location::new(6, 0)));
}

#[test]
fn write_fails_on_invalid_caret() {
    let mut buffer = loaded("abc");
    buffer.seek_unchecked(Location::new(9, 0));
    assert_eq!(Err(Error::CaretOutOfLen { caret: 9, len: 3 }), buffer.write_str("x"));
    assert_eq!("abc", buffer.save("\n"));
    buffer.seek_unchecked(Location::new(0, 5));
    assert_eq!(Err(Error::CaretOutOfHeight { caret: 5, height: 1 }), buffer.write_str("x"));
}

#[test]
fn write_drops_control_characters() {
    let mut buffer = Buffer::new();
    buffer.write_str("a\tb\r\u{7}c\nd").unwrap();
    assert_eq!("abc\nd", buffer.save("\n"));
    assert_eq!(Location::new(1, 1), buffer.caret());
}

#[test]
fn write_inserts_multibyte_characters_by_column() {
    let mut buffer = loaded("hllo");
    buffer.seek_unchecked(Location::new(1, 0));
    buffer.write_str("é").unwrap();
    assert_eq!("héllo", buffer.save("\n"));
    buffer.write_str("ü").unwrap();
    assert_eq!("héüllo", buffer.save("\n"));
    assert_eq!(Location::new(3, 0), buffer.caret());
}

#[test]
fn len_and_size() {
    let buffer = loaded("ab\nhéllo\n");
    assert_eq!(3, buffer.lines_num());
    assert_eq!(2 + 5 + 0 + 2, buffer.len());
    assert_eq!(5, buffer.max_width());
    let size = buffer.size();
    assert_eq!((5, 3), (size.width, size.height));
}

#[test]
fn clear_leaves_one_empty_line() {
    let mut buffer = loaded("a\nb");
    buffer.clear();
    assert_eq!(1, buffer.lines_num());
    assert_eq!(Location::new(0, 0), buffer.caret());
    assert_eq!("", buffer.save("\n"));
}

#[test]
fn get_and_get_mut() {
    let mut buffer = loaded("ab\ncd");
    assert_eq!(Some(&vec!['c', 'd']), buffer.get(1));
    assert_eq!(None, buffer.get(2));
    buffer.get_mut(0).unwrap().push('!');
    assert_eq!("ab!\ncd", buffer.save("\n"));
    assert!(buffer.get_mut(5).is_none());
    assert_eq!(Some(&vec!['c', 'd']), buffer.get_current_line());
}

#[test]
fn ensure_current_line_adds_rows() {
    let mut buffer = loaded("ab");
    buffer.seek_unchecked(Location::new(0, 2));
    assert!(buffer.get_current_line().is_none());
    buffer.ensure_current_line().push('z');
    assert_eq!(3, buffer.lines_num());
    assert_eq!("ab\n\nz", buffer.save("\n"));
}

#[test]
fn reader_peek_and_scans() {
    let buffer = loaded("ab cd\nef");
    let mut reader = buffer.get_reader().unwrap();
    assert_eq!(None, reader.peek());
    assert_eq!(None, reader.next());
    assert_eq!(Some('f'), reader.prev());
    assert_eq!(Some('f'), reader.peek());
    reader.back_until_blank().unwrap();
    assert_eq!(Location::new(0, 1), reader.caret());
    assert_eq!(Some('\n'), reader.prev());
    reader.back_until_blank().unwrap();
    assert_eq!(Location::new(3, 0), reader.caret());
    reader.back_until_blank().unwrap();
    assert_eq!(Location::new(3, 0), reader.caret());
    reader.back_until_not_blank().unwrap();
    assert_eq!(Location::new(2, 0), reader.caret());
    reader.skip_until_blank().unwrap();
    assert_eq!(Location::new(2, 0), reader.caret());
    reader.skip_until_not_blank().unwrap();
    assert_eq!(Location::new(3, 0), reader.caret());
}

#[test]
fn reader_scan_failure_keeps_position() {
    let mut buffer = loaded("abc");
    buffer.seek_unchecked(Location::new(1, 0));
    let mut reader = buffer.get_reader().unwrap();
    assert_eq!(Err(Error::EndOfFile), reader.skip_until_blank());
    assert_eq!(Location::new(1, 0), reader.caret());
    assert_eq!(Err(Error::EndOfFile), reader.back_until_blank());
    assert_eq!(Location::new(1, 0), reader.caret());
    reader.skip_until(|c| c == 'c').unwrap();
    assert_eq!(Location::new(2, 0), reader.caret());
    assert_eq!(Some('c'), reader.next());
    reader.back_until(|c| c == 'a').unwrap();
    assert_eq!(Location::new(1, 0), reader.caret());
    assert!(reader.skip_until_not_blank().is_ok());
    assert!(reader.back_until_not_blank().is_ok());
    assert_eq!(Location::new(1, 0), reader.caret());
}

#[test]
fn get_reader_rejects_invalid_caret() {
    let mut buffer = loaded("abc");
    buffer.seek_unchecked(Location::new(4, 0));
    assert!(matches!(buffer.get_reader(), Err(Error::CaretOutOfLen { caret: 4, len: 3 })));
}

#[test]
fn del_char_within_and_across_lines() {
    let mut buffer = loaded("ab\nhé");
    buffer.del_char().unwrap();
    assert_eq!("ab\nh", buffer.save("\n"));
    assert_eq!(Location::new(1, 1), buffer.caret());
    buffer.seek_unchecked(Location::new(0, 1));
    buffer.del_char().unwrap();
    assert_eq!("abh", buffer.save("\n"));
    assert_eq!(Location::new(2, 0), buffer.caret());
}

#[test]
fn del_char_at_beginning_fails() {
    let mut buffer = loaded("ab");
    buffer.seek_unchecked(Location::new(0, 0));
    assert_eq!(Err(Error::DelAtBeginning), buffer.del_char());
    assert_eq!("ab", buffer.save("\n"));
    buffer.seek_unchecked(Location::new(5, 0));
    assert_eq!(Err(Error::CaretOutOfLen { caret: 5, len: 2 }), buffer.del_char());
}
