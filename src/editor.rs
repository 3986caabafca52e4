//! The editor's decisions: what each input event does to the edit area, the
//! status line and the editor's state. Reading events and drawing are left
//! to the caller.

use vstd::prelude::*;
use crate::editarea::scrolled;
use crate::lines::{end_of, split_lines, write_all};
use crate::editarea::{CaretMove, EditArea};
use crate::geometry::{Area, Location, Size};
use crate::statusbar::{HORIZONTAL_PADDING, Packing, StatusBar};
use crate::text::push_char;

verus! {

/// The number of spaces the tab key writes.
pub const TAB_WIDTH: usize = 4;

#[derive(Debug, Clone, Copy, PartialEq, Eq, Structural)]
pub enum State {
    /// The welcome text is shown until a key is pressed.
    Welcoming,
    Editing,
    Exiting,
}

/// What a buffer is filled with when the editor is built.
#[derive(Debug, Clone, Copy)]
pub enum BufferLoadConfig<'a> {
    /// The contents of a file, loaded line by line (see `Buffer::load`).
    File(&'a str),
    /// A string, written into the buffer (see `Buffer::write_str`).
    String(&'a str),
    /// Nothing. For the welcome text this skips the welcome screen.
    Empty,
}

impl<'a> Default for BufferLoadConfig<'a> {
    fn default() -> (r: BufferLoadConfig<'a>)
        ensures
            r is Empty,
    {
        BufferLoadConfig::Empty
    }
}

#[derive(Debug, Clone, Copy, Default)]
pub struct EditorBuildConfig<'a> {
    /// The welcome screen's text; `Empty` starts editing at once.
    pub welcome_config: BufferLoadConfig<'a>,
    /// The text to edit.
    pub edit_text_config: BufferLoadConfig<'a>,
}

/// A key, as far as the editor tells keys apart.
#[derive(Debug, Clone, Copy, PartialEq, Eq, Structural)]
pub enum Key {
    Char(char),
    Left,
    Right,
    Up,
    Down,
    Home,
    End,
    PageUp,
    PageDown,
    Enter,
    Tab,
    Backspace,
    Other,
}

/// The modifier keys held; `other` stands for any beyond these three.
#[derive(Debug, Clone, Copy, PartialEq, Eq, Structural)]
pub struct Modifiers {
    pub shift: bool,
    pub control: bool,
    pub alt: bool,
    pub other: bool,
}

/// A key event: the key, the modifiers, and whether it is a press (rather
/// than a repeat or a release).
#[derive(Debug, Clone, Copy, PartialEq, Eq, Structural)]
pub struct KeyInput {
    pub key: Key,
    pub modifiers: Modifiers,
    pub press: bool,
}

/// An input event.
#[derive(Debug, Clone, Copy, PartialEq, Eq, Structural)]
pub enum Event {
    Key(KeyInput),
    /// The terminal now has this many columns and rows.
    Resize(usize, usize),
    Other,
}

pub open spec fn no_modifier(m: Modifiers) -> bool {
    !m.shift && !m.control && !m.alt && !m.other
}

pub open spec fn control_only(m: Modifiers) -> bool {
    !m.shift && m.control && !m.alt && !m.other
}

pub open spec fn control_alt_only(m: Modifiers) -> bool {
    !m.shift && m.control && m.alt && !m.other
}

/// The caret command a key stands for: arrows move by a character or a
/// line, control-arrows by a word, control-alt-arrows along the jump
/// history, Home and End to the line's ends, control-Home and control-End
/// to the text's ends, PageUp and PageDown with any modifiers.
pub open spec fn caret_move_of(k: KeyInput) -> Option<CaretMove> {
    let m = k.modifiers;
    match k.key {
        Key::Left => if no_modifier(m) {
            Some(CaretMove::Left)
        } else if control_only(m) {
            Some(CaretMove::PrevWord)
        } else if control_alt_only(m) {
            Some(CaretMove::PrevTrace)
        } else {
            None
        },
        Key::Right => if no_modifier(m) {
            Some(CaretMove::Right)
        } else if control_only(m) {
            Some(CaretMove::NextWord)
        } else if control_alt_only(m) {
            Some(CaretMove::NextTrace)
        } else {
            None
        },
        Key::Up => if no_modifier(m) {
            Some(CaretMove::Up)
        } else {
            None
        },
        Key::Down => if no_modifier(m) {
            Some(CaretMove::Down)
        } else {
            None
        },
        Key::Home => if no_modifier(m) {
            Some(CaretMove::LineStart)
        } else if control_only(m) {
            Some(CaretMove::GlobalStart)
        } else {
            None
        },
        Key::End => if no_modifier(m) {
            Some(CaretMove::LineEnd)
        } else if control_only(m) {
            Some(CaretMove::GlobalEnd)
        } else {
            None
        },
        Key::PageUp => Some(CaretMove::PageUp),
        Key::PageDown => Some(CaretMove::PageDown),
        _ => None,
    }
}

impl CaretMove {
    /// The caret command `key` stands for, if any (see `caret_move_of`).
    pub fn from_key(key: &KeyInput) -> (r: Option<CaretMove>)
        ensures
            r == caret_move_of(*key),
    {
        let m = key.modifiers;
        let none = !m.shift && !m.control && !m.alt && !m.other;
        let ctrl = !m.shift && m.control && !m.alt && !m.other;
        let ctrl_alt = !m.shift && m.control && m.alt && !m.other;
        match key.key {
            Key::Left => if none {
                Some(CaretMove::Left)
            } else if ctrl {
                Some(CaretMove::PrevWord)
            } else if ctrl_alt {
                Some(CaretMove::PrevTrace)
            } else {
                None
            },
            Key::Right => if none {
                Some(CaretMove::Right)
            } else if ctrl {
                Some(CaretMove::NextWord)
            } else if ctrl_alt {
                Some(CaretMove::NextTrace)
            } else {
                None
            },
            Key::Up => if none {
                Some(CaretMove::Up)
            } else {
                None
            },
            Key::Down => if none {
                Some(CaretMove::Down)
            } else {
                None
            },
            Key::Home => if none {
                Some(CaretMove::LineStart)
            } else if ctrl {
                Some(CaretMove::GlobalStart)
            } else {
                None
            },
            Key::End => if none {
                Some(CaretMove::LineEnd)
            } else if ctrl {
                Some(CaretMove::GlobalEnd)
            } else {
                None
            },
            Key::PageUp => Some(CaretMove::PageUp),
            Key::PageDown => Some(CaretMove::PageDown),
            _ => None,
        }
    }
}

/// The text a key writes: a character typed without modifiers, a line
/// break for Enter, `TAB_WIDTH` spaces for Tab.
pub open spec fn typed_text(k: KeyInput) -> Option<Seq<char>> {
    if !no_modifier(k.modifiers) {
        None
    } else {
        match k.key {
            Key::Char(c) => Some(seq![c]),
            Key::Enter => Some(seq!['\n']),
            Key::Tab => Some(seq![' ', ' ', ' ', ' ']),
            _ => None,
        }
    }
}

/// The key that quits: control-q.
pub open spec fn is_quit(k: KeyInput) -> bool {
    k.key == Key::Char('q') && control_only(k.modifiers)
}

/// The edit area's display for a terminal `width` by `height`: all but the
/// last row and column.
pub open spec fn edit_region(width: int, height: int) -> (Location, Size) {
    (Location { x: 0, y: 0 }, Size { width: (width - 1) as usize, height: (height - 1) as usize })
}

/// The status line's place for a terminal `width` by `height`: the last
/// row, all but the last column.
pub open spec fn status_region(width: int, height: int) -> (Location, Size) {
    (Location { x: 0, y: (height - 1) as usize }, Size { width: (width - 1) as usize, height: 1 })
}

/// The lines a buffer holds once built from `c`.
pub open spec fn loaded_text(c: BufferLoadConfig) -> Seq<Seq<char>> {
    match c {
        BufferLoadConfig::File(s) => split_lines(s@),
        BufferLoadConfig::String(s) => write_all(
            seq![Seq::<char>::empty()],
            Location { x: 0, y: 0 },
            s@,
        ).0,
        BufferLoadConfig::Empty => seq![Seq::<char>::empty()],
    }
}

/// Where the caret of a buffer built from `c` stands.
pub open spec fn loaded_caret(c: BufferLoadConfig) -> Location {
    match c {
        BufferLoadConfig::File(s) => end_of(split_lines(s@)),
        BufferLoadConfig::String(s) => write_all(
            seq![Seq::<char>::empty()],
            Location { x: 0, y: 0 },
            s@,
        ).1,
        BufferLoadConfig::Empty => Location { x: 0, y: 0 },
    }
}

/// The edit area, the status line and the editor's state.
pub struct Editor {
    edit_area: EditArea,
    status_bar: StatusBar,
    state: State,
}

impl Editor {
    pub closed spec fn spec_edit_area(&self) -> EditArea {
        self.edit_area
    }

    pub closed spec fn spec_status_bar(&self) -> StatusBar {
        self.status_bar
    }

    pub closed spec fn spec_state(&self) -> State {
        self.state
    }

    pub open spec fn wf(&self) -> bool {
        self.spec_edit_area().wf()
    }

    /// `self` is `before` with its areas laid out for a terminal `width` by
    /// `height`.
    pub open spec fn resized(&self, before: Editor, width: int, height: int) -> bool {
        let (ec, es) = edit_region(width, height);
        let (sc, ss) = status_region(width, height);
        &&& self.spec_state() == before.spec_state()
        &&& self.spec_edit_area().spec_area().spec_left_top() == ec
        &&& self.spec_edit_area().spec_area().spec_size() == es
        &&& self.spec_edit_area().configured(before.spec_edit_area(), self.spec_edit_area().spec_area())
        &&& self.spec_status_bar().spec_area().spec_left_top() == sc
        &&& self.spec_status_bar().spec_area().spec_size() == ss
        &&& self.spec_status_bar().spec_content() == before.spec_status_bar().spec_content()
        &&& self.spec_status_bar().spec_packing() == before.spec_status_bar().spec_packing()
        &&& self.spec_status_bar().spec_need_printing()
    }

    /// An editor for a terminal `width` by `height`: the two buffers filled
    /// as `config` says, the status line reading "Hello World" packed to
    /// the left, on the welcome screen unless there is no welcome text.
    pub fn build(config: &EditorBuildConfig, width: usize, height: usize) -> (r: Editor)
        requires
            width >= 1,
            height >= 1,
        ensures
            r.wf(),
            r.spec_state() == (if config.welcome_config is Empty {
                State::Editing
            } else {
                State::Welcoming
            }),
            r.spec_edit_area().text() == loaded_text(config.edit_text_config),
            r.spec_edit_area().caret_at() == loaded_caret(config.edit_text_config),
            ({
                let c = loaded_caret(config.edit_text_config);
                let n = loaded_text(config.edit_text_config).len() as int;
                let first = scrolled(Location { x: 0, y: 0 }, c, Size { width: 0, height: 0 }, n);
                r.spec_edit_area().spec_offset() == scrolled(first, c, edit_region(width as int, height as int).1, n)
            }),
            r.spec_edit_area().spec_need_printing(),
            r.spec_status_bar().spec_need_printing(),
            r.spec_edit_area().spec_welcome().text() == loaded_text(config.welcome_config),
            r.spec_edit_area().spec_area().spec_left_top() == edit_region(width as int, height as int).0,
            r.spec_edit_area().spec_area().spec_size() == edit_region(width as int, height as int).1,
            r.spec_status_bar().spec_area().spec_left_top() == status_region(width as int, height as int).0,
            r.spec_status_bar().spec_area().spec_size() == status_region(width as int, height as int).1,
            r.spec_status_bar().spec_content() == "Hello World"@,
            r.spec_status_bar().spec_packing() == Packing::Left(HORIZONTAL_PADDING, HORIZONTAL_PADDING),
    {
        let mut edit_area = EditArea::new();
        let mut status_bar = StatusBar::new();
        status_bar.set_content("Hello World".to_string());
        status_bar.set_packing(Packing::Left(HORIZONTAL_PADDING, HORIZONTAL_PADDING));
        let mut state = State::Welcoming;
        match config.welcome_config {
            BufferLoadConfig::Empty => {
                state = State::Editing;
            },
            BufferLoadConfig::File(s) => {
                edit_area.load_welcome(s);
            },
            BufferLoadConfig::String(s) => {
                edit_area.write_welcome_str(s);
            },
        }
        match config.edit_text_config {
            BufferLoadConfig::Empty => {},
            BufferLoadConfig::File(s) => {
                edit_area.load(s);
            },
            BufferLoadConfig::String(s) => {
                edit_area.write_str(s);
            },
        }
        let mut editor = Editor { edit_area, status_bar, state };
        editor.update_area_configuration(width, height);
        editor
    }

    /// Lays the edit area and the status line out for a terminal `width` by
    /// `height` (see `edit_region`, `status_region`).
    pub fn update_area_configuration(&mut self, width: usize, height: usize)
        requires
            old(self).wf(),
            width >= 1,
            height >= 1,
        ensures
            final(self).wf(),
            final(self).resized(*old(self), width as int, height as int),
    {
        self.edit_area.configure_area(Area::new(0, 0, width - 1, height - 1));
        self.status_bar.configure_area(Area::new(0, height - 1, width - 1, 1));
    }

    /// Whether the edit area or the status line owes a repaint.
    pub fn check_need_printing(&self) -> (r: bool)
        ensures
            r == (self.spec_edit_area().spec_need_printing()
                || self.spec_status_bar().spec_need_printing()),
    {
        self.edit_area.need_printing() || self.status_bar.need_printing()
    }

    /// Records that everything has been repainted.
    pub fn unset_need_printing(&mut self)
        requires
            old(self).wf(),
        ensures
            final(self).wf(),
            !final(self).spec_edit_area().spec_need_printing(),
            !final(self).spec_status_bar().spec_need_printing(),
            final(self).spec_state() == old(self).spec_state(),
            final(self).spec_edit_area().spec_buffer() == old(self).spec_edit_area().spec_buffer(),
            final(self).spec_edit_area().spec_welcome() == old(self).spec_edit_area().spec_welcome(),
            final(self).spec_edit_area().spec_area() == old(self).spec_edit_area().spec_area(),
            final(self).spec_edit_area().spec_offset() == old(self).spec_edit_area().spec_offset(),
            final(self).spec_status_bar().spec_area() == old(self).spec_status_bar().spec_area(),
            final(self).spec_status_bar().spec_content() == old(self).spec_status_bar().spec_content(),
            final(self).spec_status_bar().spec_packing() == old(self).spec_status_bar().spec_packing(),
    {
        self.edit_area.unset_need_printing();
        self.status_bar.unset_need_printing();
    }

    pub fn state(&self) -> (r: State)
        ensures
            r == self.spec_state(),
    {
        self.state
    }

    pub fn edit_area(&self) -> (r: &EditArea)
        ensures
            *r == self.spec_edit_area(),
    {
        &self.edit_area
    }

    pub fn status_bar(&self) -> (r: &StatusBar)
        ensures
            *r == self.spec_status_bar(),
    {
        &self.status_bar
    }

    /// Handles one event and returns where the screen cursor should move,
    /// where it should. A key press: control-q quits; on the welcome screen
    /// any other key starts editing; a caret key moves the caret (see
    /// `caret_move_of`); a typing key writes its text (see `typed_text`);
    /// Backspace deletes the character before the caret.
    /// A resize lays the areas out anew (ignored for an empty terminal).
    /// Anything else changes nothing.
    pub fn handle_event(&mut self, evt: Event) -> (r: Option<Location>)
        requires
            old(self).wf(),
        ensures
            final(self).wf(),
            match evt {
                Event::Key(k) => {
                    if !k.press {
                        *final(self) == *old(self) && r is None
                    } else if is_quit(k) {
                        &&& final(self).spec_state() == State::Exiting
                        &&& final(self).spec_edit_area() == old(self).spec_edit_area()
                        &&& final(self).spec_status_bar() == old(self).spec_status_bar()
                        &&& r is None
                    } else if old(self).spec_state() == State::Welcoming {
                        let (a, b) = (final(self).spec_edit_area(), old(self).spec_edit_area());
                        &&& final(self).spec_state() == State::Editing
                        &&& a.spec_need_printing()
                        &&& a.spec_buffer() == b.spec_buffer()
                        &&& a.spec_welcome() == b.spec_welcome()
                        &&& a.spec_area() == b.spec_area()
                        &&& a.spec_offset() == b.spec_offset()
                        &&& final(self).spec_status_bar() == old(self).spec_status_bar()
                        &&& r is None
                    } else if caret_move_of(k) is Some {
                        &&& final(self).spec_state() == old(self).spec_state()
                        &&& final(self).spec_status_bar() == old(self).spec_status_bar()
                        &&& r matches Some(cursor) && final(self).spec_edit_area().moved_by(
                            old(self).spec_edit_area(),
                            caret_move_of(k)->0,
                            cursor,
                        )
                    } else if k.key == Key::Backspace && no_modifier(k.modifiers) {
                        let (a, b) = (final(self).spec_edit_area(), old(self).spec_edit_area());
                        &&& final(self).spec_state() == old(self).spec_state()
                        &&& final(self).spec_status_bar() == old(self).spec_status_bar()
                        &&& (b.caret_at() == (Location { x: 0, y: 0 }) ==> a == b)
                        &&& (b.caret_at() != (Location { x: 0, y: 0 }) ==> a.deleted(b))
                        &&& r is None
                    } else if typed_text(k) is Some {
                        &&& final(self).spec_state() == old(self).spec_state()
                        &&& final(self).spec_status_bar() == old(self).spec_status_bar()
                        &&& final(self).spec_edit_area().wrote(old(self).spec_edit_area(), typed_text(k)->0)
                        &&& r is None
                    } else {
                        *final(self) == *old(self) && r is None
                    }
                },
                Event::Resize(w, h) => {
                    &&& r is None
                    &&& (w >= 1 && h >= 1 ==> final(self).resized(*old(self), w as int, h as int))
                    &&& (w == 0 || h == 0 ==> *final(self) == *old(self))
                },
                Event::Other => *final(self) == *old(self) && r is None,
            },
    {
        match evt {
            Event::Key(k) => {
                if !k.press {
                    return None;
                }
                let m = k.modifiers;
                if k.key == Key::Char('q') && !m.shift && m.control && !m.alt && !m.other {
                    self.state = State::Exiting;
                    return None;
                }
                if self.state == State::Welcoming {
                    self.state = State::Editing;
                    self.edit_area.set_need_printing();
                    return None;
                }
                match CaretMove::from_key(&k) {
                    Some(caret_move) => {
                        return Some(self.edit_area.move_caret(caret_move));
                    },
                    None => {},
                }
                let none = !m.shift && !m.control && !m.alt && !m.other;
                if none {
                    match k.key {
                        Key::Char(c) => {
                            let mut s = String::new();
                            push_char(&mut s, c);
                            assert(s@ =~= seq![c]);
                            assert(typed_text(k) == Some(s@));
                            self.edit_area.write_str(s.as_str());
                        },
                        Key::Enter => {
                            proof {
                                reveal_strlit("\n");
                                assert("\n"@ =~= seq!['\n']);
                                assert(typed_text(k) == Some("\n"@));
                            }
                            self.edit_area.write_str("\n");
                        },
                        Key::Backspace => {
                            let _ = self.edit_area.del_char();
                        },
                        Key::Tab => {
                            proof {
                                reveal_strlit("    ");
                                assert("    "@ =~= seq![' ', ' ', ' ', ' ']);
                                assert(typed_text(k) == Some("    "@));
                            }
                            self.edit_area.write_str("    ");
                        },
                        _ => {},
                    }
                }
                None
            },
            Event::Resize(w, h) => {
                if w >= 1 && h >= 1 {
                    self.update_area_configuration(w, h);
                }
                None
            },
            Event::Other => None,
        }
    }
}

} // verus!
