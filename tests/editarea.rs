use vegetor::editarea::{CaretMove, EditArea};
use vegetor::error::Error;
use vegetor::geometry::{Area, Location};

fn area_with(text: &str, width: usize, height: usize) -> EditArea {
    let mut area = EditArea::new();
    area.load(text);
    area.configure_area(Area::new(0, 0, width, height));
    area
}

fn caret(area: &EditArea) -> Location {
    area.buffer().caret()
}

fn numbered_lines(n: usize) -> String {
    (0..n).map(|i| format!("line {i}")).collect::<Vec<_>>().join("\n")
}

#[test]
fn word_navigation() {
    let mut area = area_with("foo bar  baz", 80, 10);
    area.move_caret_to(Location::new(0, 0)).unwrap();
    area.move_caret(CaretMove::NextWord);
    assert_eq!(Location::new(4, 0), caret(&area));
    area.move_caret(CaretMove::NextWord);
    assert_eq!(Location::new(9, 0), caret(&area));
    area.move_caret(CaretMove::PrevWord);
    assert_eq!(Location::new(4, 0), caret(&area));
    area.move_caret(CaretMove::PrevWord);
    assert_eq!(Location::new(0, 0), caret(&area));
}

#[test]
fn word_navigation_falls_back_to_text_ends() {
    let mut area = area_with("foo bar\nbaz", 80, 10);
    area.move_caret_to(Location::new(0, 1)).unwrap();
    area.move_caret(CaretMove::NextWord);
    assert_eq!(Location::new(3, 1), caret(&area));
    area.move_caret_to(Location::new(1, 0)).unwrap();
    area.move_caret(CaretMove::PrevWord);
    assert_eq!(Location::new(0, 0), caret(&area));
}

#[test]
fn word_navigation_crosses_lines() {
    let mut area = area_with("foo\nbar", 80, 10);
    area.move_caret_to(Location::new(1, 0)).unwrap();
    area.move_caret(CaretMove::NextWord);
    assert_eq!(Location::new(0, 1), caret(&area));
    area.move_caret(CaretMove::PrevWord);
    assert_eq!(Location::new(0, 0), caret(&area));
}

#[test]
fn vertical_padding_pins_last_line() {
    let mut area = area_with(&numbered_lines(20), 40, 10);
    area.move_caret_to(Location::new(0, 19)).unwrap();
    assert_eq!(10, area.display_offset().y);
    assert_eq!(Location::new(0, 9), area.get_cursor());
    area.move_caret_to(Location::new(0, 0)).unwrap();
    assert_eq!(0, area.display_offset().y);
    assert_eq!(Location::new(0, 0), area.get_cursor());
}

#[test]
fn vertical_padding_keeps_three_rows() {
    let mut area = area_with(&numbered_lines(20), 40, 10);
    area.move_caret_to(Location::new(0, 0)).unwrap();
    for _ in 0..7 {
        area.move_caret(CaretMove::Down);
    }
    assert_eq!(7, caret(&area).y);
    assert_eq!(0, area.display_offset().y);
    area.move_caret(CaretMove::Down);
    assert_eq!(8, caret(&area).y);
    assert_eq!(1, area.display_offset().y);
    assert_eq!(7, area.get_cursor().y);
}

#[test]
fn horizontal_padding() {
    let long: String = "x".repeat(50);
    let mut area = area_with(&long, 20, 5);
    assert_eq!(45, area.display_offset().x);
    assert_eq!(Location::new(5, 0), area.get_cursor());
    area.move_caret_to(Location::new(0, 0)).unwrap();
    assert_eq!(0, area.display_offset().x);
    area.move_caret_to(Location::new(50, 0)).unwrap();
    assert_eq!(35, area.display_offset().x);
    assert_eq!(Location::new(15, 0), area.get_cursor());
    area.move_caret_to(Location::new(30, 0)).unwrap();
    assert_eq!(25, area.display_offset().x);
    area.move_caret_to(Location::new(3, 0)).unwrap();
    assert_eq!(0, area.display_offset().x);
}

#[test]
fn update_display_offset_twice_reports_no_change() {
    let mut area = area_with(&numbered_lines(30), 40, 10);
    area.move_caret_to(Location::new(0, 0)).unwrap();
    area.move_caret_to(Location::new(3, 25)).unwrap();
    let before = area.display_offset();
    assert!(!area.update_display_offset());
    assert_eq!(before, area.display_offset());
    area.configure_area(Area::new(0, 0, 40, 25));
    assert!(!area.update_display_offset());
}

#[test]
fn update_display_offset_can_move_twice_on_a_six_row_display() {
    let mut area = area_with(&numbered_lines(20), 40, 6);
    assert_eq!(14, area.display_offset().y);
    area.load("a\nb\nc\nd\ne\nf");
    assert_eq!(2, area.display_offset().y);
    assert!(area.update_display_offset());
    assert_eq!(0, area.display_offset().y);
    assert!(!area.update_display_offset());
}

#[test]
fn multibyte_caret_walk() {
    let mut area = EditArea::new();
    area.configure_area(Area::new(0, 0, 40, 10));
    area.write_str("héllo");
    assert_eq!(Location::new(5, 0), caret(&area));
    let mut seen = vec![caret(&area).x];
    for _ in 0..5 {
        area.move_caret(CaretMove::Left);
        seen.push(caret(&area).x);
    }
    assert_eq!(vec![5, 4, 3, 2, 1, 0], seen);
    area.move_caret(CaretMove::Left);
    assert_eq!(Location::new(0, 0), caret(&area));
    let mut seen = vec![];
    for _ in 0..5 {
        area.move_caret(CaretMove::Right);
        seen.push(caret(&area).x);
    }
    assert_eq!(vec![1, 2, 3, 4, 5], seen);
    area.move_caret(CaretMove::Right);
    assert_eq!(Location::new(5, 0), caret(&area));
}

#[test]
fn left_right_cross_lines() {
    let mut area = area_with("ab\ncde", 40, 10);
    area.move_caret_to(Location::new(0, 1)).unwrap();
    area.move_caret(CaretMove::Left);
    assert_eq!(Location::new(2, 0), caret(&area));
    area.move_caret(CaretMove::Right);
    assert_eq!(Location::new(0, 1), caret(&area));
}

#[test]
fn up_down_clamp_column() {
    let mut area = area_with("abcdef\nab\nabcd", 40, 10);
    area.move_caret_to(Location::new(5, 0)).unwrap();
    area.move_caret(CaretMove::Down);
    assert_eq!(Location::new(2, 1), caret(&area));
    area.move_caret(CaretMove::Down);
    assert_eq!(Location::new(2, 2), caret(&area));
    area.move_caret(CaretMove::Down);
    assert_eq!(Location::new(2, 2), caret(&area));
    area.move_caret_to(Location::new(4, 2)).unwrap();
    area.move_caret(CaretMove::Up);
    assert_eq!(Location::new(2, 1), caret(&area));
    area.move_caret(CaretMove::Up);
    area.move_caret(CaretMove::Up);
    assert_eq!(Location::new(2, 0), caret(&area));
}

#[test]
fn line_and_global_moves() {
    let mut area = area_with("abc\nde", 40, 10);
    area.move_caret_to(Location::new(1, 0)).unwrap();
    area.move_caret(CaretMove::LineEnd);
    assert_eq!(Location::new(3, 0), caret(&area));
    area.move_caret(CaretMove::LineStart);
    assert_eq!(Location::new(0, 0), caret(&area));
    area.move_caret(CaretMove::GlobalEnd);
    assert_eq!(Location::new(2, 1), caret(&area));
    area.move_caret(CaretMove::GlobalStart);
    assert_eq!(Location::new(0, 0), caret(&area));
}

#[test]
fn page_and_trace_moves_change_nothing() {
    let mut area = area_with("abc\nde", 40, 10);
    let before = caret(&area);
    for m in [CaretMove::PageUp, CaretMove::PageDown, CaretMove::PrevTrace, CaretMove::NextTrace] {
        assert_eq!(area.get_cursor(), area.move_caret(m));
        assert_eq!(before, caret(&area));
    }
}

#[test]
fn move_caret_to_rejects_invalid_places() {
    let mut area = area_with("abc", 40, 10);
    assert_eq!(Err(Error::CaretOutOfHeight { caret: 1, height: 1 }), area.move_caret_to(Location::new(0, 1)));
    assert_eq!(Err(Error::CaretOutOfLen { caret: 4, len: 3 }), area.move_caret_to(Location::new(4, 0)));
    assert_eq!(Location::new(3, 0), caret(&area));
}

#[test]
fn need_printing_flag() {
    let mut area = EditArea::new();
    assert!(!area.need_printing());
    area.set_need_printing();
    assert!(area.need_printing());
    area.unset_need_printing();
    assert!(!area.need_printing());
    area.configure_area(Area::new(0, 0, 10, 10));
    assert!(area.need_printing());
}

#[test]
fn visible_lines_follow_offset() {
    let long: String = "0123456789".repeat(5);
    let text = format!("{long}\nshort");
    let mut area = area_with(&text, 20, 5);
    area.move_caret_to(Location::new(50, 0)).unwrap();
    let offset = area.display_offset();
    assert_eq!(35, offset.x);
    let row: String = area.visible_line(0).into_iter().collect();
    assert_eq!(&long[35..50], row);
    assert!(area.visible_line(1).is_empty());
    assert!(area.visible_line(2).is_empty());
    area.move_caret_to(Location::new(0, 1)).unwrap();
    let row: String = area.visible_line(0).into_iter().collect();
    assert_eq!(&long[0..20], row);
    let row: String = area.visible_line(1).into_iter().collect();
    assert_eq!("short", row);
}

#[test]
fn screen_cursor_is_shifted_by_origin() {
    let mut area = EditArea::new();
    area.load("abc\ndef");
    area.configure_area(Area::new(2, 3, 20, 10));
    assert_eq!(Location::new(3, 1), area.get_cursor());
    assert_eq!(Location::new(5, 4), area.screen_cursor());
}

#[test]
fn welcome_fit_check() {
    let line = "w".repeat(40);
    let text = vec![line.as_str(); 5].join("\n");
    let mut area = EditArea::new();
    area.load_welcome(&text);
    area.configure_area(Area::new(0, 0, 40, 5));
    match area.welcome_layout() {
        Err(Error::BufferSizeExceeds { buffer_size, area_size }) => {
            assert_eq!((40, 5), (buffer_size.width, buffer_size.height));
            assert_eq!((40, 5), (area_size.width, area_size.height));
        }
        other => panic!("unexpected {other:?}"),
    }
    area.configure_area(Area::new(0, 0, 41, 6));
    assert!(area.welcome_layout().is_ok());
    area.configure_area(Area::new(0, 0, 80, 5));
    assert!(area.welcome_layout().is_err());
}

#[test]
fn welcome_lines_are_centred() {
    let mut area = EditArea::new();
    area.write_welcome_str("Hi\nwelcome");
    area.configure_area(Area::new(1, 2, 20, 10));
    let layout = area.welcome_layout().unwrap();
    assert_eq!(2, layout.len());
    assert_eq!(Location::new(1 + 10 - 1, 2 + 5 - 1), layout[0].0);
    assert_eq!(vec!['H', 'i'], layout[0].1);
    assert_eq!(Location::new(1 + 10 - 3, 2 + 5), layout[1].0);
    assert_eq!("welcome".chars().collect::<Vec<_>>(), layout[1].1);
}

#[test]
fn write_through_area_scrolls() {
    let mut area = EditArea::new();
    area.configure_area(Area::new(0, 0, 20, 6));
    area.unset_need_printing();
    area.write_str("a\nb\nc\nd\ne\nf\ng\nh");
    assert!(area.need_printing());
    assert_eq!(Location::new(1, 7), caret(&area));
    assert_eq!(2, area.display_offset().y);
    assert_eq!("a\nb\nc\nd\ne\nf\ng\nh", area.buffer().save("\n"));
}
