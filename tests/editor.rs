use vegetor::editarea::CaretMove;
use vegetor::editor::{
    BufferLoadConfig, Editor, EditorBuildConfig, Event, Key, KeyInput, Modifiers, State,
};
use vegetor::geometry::{Area, Location};

const NONE: Modifiers = Modifiers { shift: false, control: false, alt: false, other: false };
const CTRL: Modifiers = Modifiers { shift: false, control: true, alt: false, other: false };
const CTRL_ALT: Modifiers = Modifiers { shift: false, control: true, alt: true, other: false };
const SHIFT: Modifiers = Modifiers { shift: true, control: false, alt: false, other: false };

fn press(key: Key, modifiers: Modifiers) -> Event {
    Event::Key(KeyInput { key, modifiers, press: true })
}

fn editing(text: &str, width: usize, height: usize) -> Editor {
    let config = EditorBuildConfig {
        welcome_config: BufferLoadConfig::Empty,
        edit_text_config: BufferLoadConfig::File(text),
    };
    Editor::build(&config, width, height)
}

fn caret(editor: &Editor) -> Location {
    editor.edit_area().buffer().caret()
}

#[test]
fn draw_in_split() {
    let editor = editing("text", 80, 24);
    assert_eq!(Area::new(0, 0, 79, 23), editor.edit_area().display_area());
    assert_eq!(Area::new(0, 23, 79, 1), editor.status_bar().display_area());
}

#[test]
fn scroll_vertical() {
    let text = (0..100).map(|i| format!("row {i}")).collect::<Vec<_>>().join("\n");
    let mut editor = editing(&text, 40, 11);
    assert_eq!(Location::new(6, 99), caret(&editor));
    assert_eq!(90, editor.edit_area().display_offset().y);
    editor.handle_event(press(Key::Home, CTRL));
    assert_eq!(0, editor.edit_area().display_offset().y);
    for _ in 0..20 {
        editor.handle_event(press(Key::Down, NONE));
    }
    assert_eq!(20, caret(&editor).y);
    assert_eq!(13, editor.edit_area().display_offset().y);
    let cursor = editor.handle_event(press(Key::Up, NONE));
    assert_eq!(Some(Location::new(0, 6)), cursor);
}

#[test]
fn scroll_horizontal() {
    let text = "y".repeat(200);
    let mut editor = editing(&text, 41, 11);
    assert_eq!(195, editor.edit_area().display_offset().x);
    editor.handle_event(press(Key::Home, NONE));
    assert_eq!(0, editor.edit_area().display_offset().x);
    for _ in 0..40 {
        editor.handle_event(press(Key::Right, NONE));
    }
    assert_eq!(5, editor.edit_area().display_offset().x);
    let row: String = editor.edit_area().visible_line(0).into_iter().collect();
    assert_eq!("y".repeat(40), row);
}

#[test]
fn key_classification() {
    let k = |key, modifiers| KeyInput { key, modifiers, press: true };
    assert_eq!(Some(CaretMove::Left), CaretMove::from_key(&k(Key::Left, NONE)));
    assert_eq!(Some(CaretMove::PrevWord), CaretMove::from_key(&k(Key::Left, CTRL)));
    assert_eq!(Some(CaretMove::PrevTrace), CaretMove::from_key(&k(Key::Left, CTRL_ALT)));
    assert_eq!(Some(CaretMove::NextWord), CaretMove::from_key(&k(Key::Right, CTRL)));
    assert_eq!(Some(CaretMove::NextTrace), CaretMove::from_key(&k(Key::Right, CTRL_ALT)));
    assert_eq!(Some(CaretMove::Up), CaretMove::from_key(&k(Key::Up, NONE)));
    assert_eq!(Some(CaretMove::Down), CaretMove::from_key(&k(Key::Down, NONE)));
    assert_eq!(Some(CaretMove::LineStart), CaretMove::from_key(&k(Key::Home, NONE)));
    assert_eq!(Some(CaretMove::LineEnd), CaretMove::from_key(&k(Key::End, NONE)));
    assert_eq!(Some(CaretMove::GlobalStart), CaretMove::from_key(&k(Key::Home, CTRL)));
    assert_eq!(Some(CaretMove::GlobalEnd), CaretMove::from_key(&k(Key::End, CTRL)));
    assert_eq!(Some(CaretMove::PageUp), CaretMove::from_key(&k(Key::PageUp, SHIFT)));
    assert_eq!(Some(CaretMove::PageDown), CaretMove::from_key(&k(Key::PageDown, NONE)));
    assert_eq!(None, CaretMove::from_key(&k(Key::Up, SHIFT)));
    assert_eq!(None, CaretMove::from_key(&k(Key::Char('a'), NONE)));
    assert_eq!(None, CaretMove::from_key(&k(Key::Left, SHIFT)));
}

#[test]
fn build_from_strings() {
    let config = EditorBuildConfig {
        welcome_config: BufferLoadConfig::String("Welcome\nto the editor"),
        edit_text_config: BufferLoadConfig::String("ab\ncd"),
    };
    let editor = Editor::build(&config, 30, 10);
    assert_eq!(State::Welcoming, editor.state());
    assert_eq!("ab\ncd", editor.edit_area().buffer().save("\n"));
    assert_eq!("Welcome\nto the editor", editor.edit_area().welcome_buffer().save("\n"));
    let (at, text) = editor.status_bar().layout();
    assert_eq!(Location::new(2, 9), at);
    assert_eq!("Hello World".chars().collect::<Vec<_>>(), text);
    assert!(editor.check_need_printing());
}

#[test]
fn build_default_is_empty_and_editing() {
    let editor = Editor::build(&EditorBuildConfig::default(), 10, 5);
    assert_eq!(State::Editing, editor.state());
    assert_eq!(1, editor.edit_area().buffer().lines_num());
}

#[test]
fn welcome_then_edit_then_quit() {
    let config = EditorBuildConfig {
        welcome_config: BufferLoadConfig::String("hi"),
        edit_text_config: BufferLoadConfig::Empty,
    };
    let mut editor = Editor::build(&config, 30, 10);
    editor.unset_need_printing();
    assert!(!editor.check_need_printing());
    assert_eq!(None, editor.handle_event(press(Key::Char('x'), NONE)));
    assert_eq!(State::Editing, editor.state());
    assert!(editor.check_need_printing());
    assert_eq!("", editor.edit_area().buffer().save("\n"));
    editor.handle_event(press(Key::Char('x'), NONE));
    editor.handle_event(press(Key::Tab, NONE));
    editor.handle_event(press(Key::Enter, NONE));
    editor.handle_event(press(Key::Char('y'), NONE));
    editor.handle_event(press(Key::Char('s'), CTRL));
    assert_eq!("x    \ny", editor.edit_area().buffer().save("\n"));
    editor.handle_event(press(Key::Backspace, NONE));
    assert_eq!("x    \n", editor.edit_area().buffer().save("\n"));
    editor.handle_event(press(Key::Backspace, NONE));
    assert_eq!("x    ", editor.edit_area().buffer().save("\n"));
    editor.handle_event(Event::Key(KeyInput { key: Key::Char('z'), modifiers: NONE, press: false }));
    assert_eq!("x    ", editor.edit_area().buffer().save("\n"));
    editor.handle_event(press(Key::Char('q'), CTRL));
    assert_eq!(State::Exiting, editor.state());
}

#[test]
fn resize_relays_out_areas() {
    let mut editor = editing("abc", 30, 10);
    editor.unset_need_printing();
    editor.handle_event(Event::Resize(50, 20));
    assert_eq!(Area::new(0, 0, 49, 19), editor.edit_area().display_area());
    assert_eq!(Area::new(0, 19, 49, 1), editor.status_bar().display_area());
    assert!(editor.check_need_printing());
    editor.handle_event(Event::Resize(0, 20));
    assert_eq!(Area::new(0, 0, 49, 19), editor.edit_area().display_area());
    editor.handle_event(Event::Other);
    assert_eq!(State::Editing, editor.state());
}
