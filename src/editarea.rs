//! The viewport: an editable buffer shown through a scrolling window, and a
//! welcome buffer shown centred.

use vstd::prelude::*;
use crate::buffer::{copy_range, Buffer};
use crate::lines::{
    caret_check, caret_valid, del_step, end_of, first_from, flat, last_before, lemma_offset_bounds,
    offset_of, write_all,
};
use crate::error::Error;
use crate::geometry::{Area, Location, Size};
use crate::text::is_white_space;

verus! {

/// Rows kept visible between the caret and the top or bottom edge while
/// scrolling, where the display is at least twice as high.
pub const VERTICAL_PADDING: usize = 3;

/// Columns kept visible between the caret and the left or right edge while
/// scrolling, where the display is at least twice as wide.
pub const HORIZONTAL_PADDING: usize = 5;

pub open spec fn v_padding(height: int) -> int {
    if height >= 2 * VERTICAL_PADDING {
        VERTICAL_PADDING as int
    } else {
        0
    }
}

pub open spec fn h_padding(width: int) -> int {
    if width >= 2 * HORIZONTAL_PADDING {
        HORIZONTAL_PADDING as int
    } else {
        0
    }
}

pub open spec fn max0(a: int) -> int {
    if a < 0 {
        0
    } else {
        a
    }
}

pub open spec fn min(a: int, b: int) -> int {
    if a < b {
        a
    } else {
        b
    }
}

/// The first shown row, before the bottom check: scrolled so that the caret
/// row `c` keeps the padding to both edges.
pub open spec fn rows_padded(o: int, c: int, h: int, n: int) -> int {
    let vp = v_padding(h);
    if c - o >= h - vp {
        max0(min(c + vp, n) - h)
    } else if c - o < vp {
        max0(c - vp)
    } else {
        o
    }
}

/// The first shown row after scrolling to caret row `c` in a display of `h`
/// rows over `n` lines: where the text is higher than the display, its last
/// line never rises above the bottom row.
pub open spec fn scroll_rows(o: int, c: int, h: int, n: int) -> int {
    let o1 = rows_padded(o, c, h, n);
    if n > h && n - o1 < h {
        n - h
    } else {
        o1
    }
}

/// The first shown column after scrolling to caret column `c` in a display
/// `w` columns wide.
pub open spec fn scroll_columns(o: int, c: int, w: int) -> int {
    let hp = h_padding(w);
    if c - o < hp {
        max0(c - hp)
    } else if c - o > w - hp {
        max0(c + hp - w)
    } else {
        o
    }
}

/// The scroll offset after reconciling `offset` with `caret`.
pub open spec fn scrolled(offset: Location, caret: Location, area: Size, n: int) -> Location {
    Location {
        x: scroll_columns(offset.x as int, caret.x as int, area.width as int) as usize,
        y: scroll_rows(offset.y as int, caret.y as int, area.height as int, n) as usize,
    }
}

/// Where the caret shows inside the display: its distance from the offset,
/// at least 0 and at most the display's size.
pub open spec fn cursor_of(caret: Location, offset: Location, area: Size) -> Location {
    Location {
        x: min(max0(caret.x - offset.x), area.width as int) as usize,
        y: min(max0(caret.y - offset.y), area.height as int) as usize,
    }
}

/// The inputs on which reconciling the rows twice moves them again: a
/// display exactly twice the padding high, no higher than the text is long,
/// with the caret near the end of the text and above the padding.
pub open spec fn rows_unsettled(o: int, c: int, h: int, n: int) -> bool {
    let vp = VERTICAL_PADDING as int;
    &&& h == 2 * vp
    &&& n <= h
    &&& c + vp > n
    &&& c > vp
    &&& c - o < vp
}

/// Reconciling the scroll offset a second time, with nothing changed in
/// between, leaves it where the first time put it (so the second call
/// reports no change), except on the rows described by `rows_unsettled`.
pub proof fn lemma_scroll_idempotent(offset: Location, caret: Location, area: Size, n: int)
    requires
        caret.y < n,
        !rows_unsettled(offset.y as int, caret.y as int, area.height as int, n),
    ensures
        scrolled(scrolled(offset, caret, area, n), caret, area, n) == scrolled(offset, caret, area, n),
{
}

/// One character left, onto the end of the line above from a line start.
pub open spec fn left_target(lines: Seq<Seq<char>>, c: Location) -> Location {
    if c.x == 0 {
        if c.y > 0 {
            Location { x: lines[c.y - 1].len() as usize, y: (c.y - 1) as usize }
        } else {
            c
        }
    } else {
        Location { x: (c.x - 1) as usize, y: c.y }
    }
}

/// One character right, onto the start of the line below from a line end.
pub open spec fn right_target(lines: Seq<Seq<char>>, c: Location) -> Location {
    if c.x == lines[c.y as int].len() {
        if c.y + 1 < lines.len() {
            Location { x: 0, y: (c.y + 1) as usize }
        } else {
            c
        }
    } else {
        Location { x: (c.x + 1) as usize, y: c.y }
    }
}

/// One line up, the column clamped to that line's end.
pub open spec fn up_target(lines: Seq<Seq<char>>, c: Location) -> Location {
    if c.y != 0 {
        Location { x: min(c.x as int, lines[c.y - 1].len() as int) as usize, y: (c.y - 1) as usize }
    } else {
        c
    }
}

/// One line down, the column clamped to that line's end.
pub open spec fn down_target(lines: Seq<Seq<char>>, c: Location) -> Location {
    if c.y + 1 < lines.len() {
        Location { x: min(c.x as int, lines[c.y + 1].len() as int) as usize, y: (c.y + 1) as usize }
    } else {
        c
    }
}

/// The index in `s` of the next word's start from `p`: past the next blank,
/// the first character that is not blank; the end of `s` where there is none.
pub open spec fn next_word_pos(s: Seq<char>, p: int) -> int {
    let j = first_from(s, p, true);
    let k = first_from(s, j, false);
    if j < s.len() && k < s.len() {
        k
    } else {
        s.len() as int
    }
}

/// The index in `s` of the previous word's start from `p`: from inside a
/// word, back over it and the gap before it to the start of the word
/// before; otherwise back over the gap to the start of that word; `0` where
/// the scan reaches the start of `s`.
pub open spec fn prev_word_pos(s: Seq<char>, p: int) -> int {
    if p < s.len() && !is_white_space(s[p]) {
        let j1 = last_before(s, p, true);
        let j2 = last_before(s, j1 + 1, false);
        let j3 = last_before(s, j2 + 1, true);
        if j1 >= 0 && j2 >= 0 && j3 >= 0 {
            j3 + 1
        } else {
            0
        }
    } else {
        let j1 = last_before(s, p, false);
        let j2 = last_before(s, j1 + 1, true);
        if j1 >= 0 && j2 >= 0 {
            j2 + 1
        } else {
            0
        }
    }
}

/// What row `row` of the display shows: the line `row` below the offset,
/// from the offset's column on, at most `width` characters; nothing where
/// that line does not exist or is shorter than the offset's column.
pub open spec fn visible_part(lines: Seq<Seq<char>>, offset: Location, size: Size, row: int) -> Seq<
    char,
> {
    let y = row + offset.y;
    if 0 <= y < lines.len() && offset.x < lines[y].len() {
        lines[y].subrange(offset.x as int, min(lines[y].len() as int, offset.x + size.width))
    } else {
        Seq::<char>::empty()
    }
}

/// Entry `k` of a welcome layout: line `k` of `lines`, at its centred place.
pub open spec fn welcome_entry(lines: Seq<Seq<char>>, area: Area, k: int, e: (Location, Vec<char>)) -> bool {
    let size = area.spec_size();
    let corner = area.spec_left_top();
    &&& e.1@ == lines[k]
    &&& e.0.x == corner.x + size.width / 2 - lines[k].len() / 2
    &&& e.0.y == corner.y + size.height / 2 - lines.len() / 2 + k
}

/// The outcome of laying out welcome text `lines` in `area`.
pub open spec fn welcome_laid_out(lines: Seq<Seq<char>>, area: Area, r: Result<Vec<(Location, Vec<char>)>, Error>) -> bool {
    let size = area.spec_size();
    let fits = (forall|k: int| 0 <= k < lines.len() ==> lines[k].len() < size.width) && lines.len() < size.height;
    match r {
        Ok(v) => fits && v@.len() == lines.len() && forall|k: int| 0 <= k < lines.len() ==> welcome_entry(lines, area, k, v@[k]),
        Err(e) => !fits && exists|b: Size| e == (Error::BufferSizeExceeds { buffer_size: b, area_size: size })
            && b.height == lines.len()
            && (forall|k: int| 0 <= k < lines.len() ==> lines[k].len() <= b.width)
            && (exists|k: int| 0 <= k < lines.len() && lines[k].len() == b.width),
    }
}

/// The ways the caret can be moved.
#[derive(Debug, Clone, Copy, PartialEq, Eq, Structural)]
pub enum CaretMove {
    /// One line up.
    Up,
    /// One line down.
    Down,
    /// One character left.
    Left,
    /// One character right.
    Right,
    /// To the start of the next word.
    NextWord,
    /// To the start of the previous word.
    PrevWord,
    /// To the start of the line.
    LineStart,
    /// To the end of the line.
    LineEnd,
    /// One page up; no paging policy is defined, so the caret stays.
    PageUp,
    /// One page down; no paging policy is defined, so the caret stays.
    PageDown,
    /// To the start of the text.
    GlobalStart,
    /// To the end of the text.
    GlobalEnd,
    /// Back along the jump history; no history is kept, so the caret stays.
    PrevTrace,
    /// Forward along the jump history; no history is kept, so the caret stays.
    NextTrace,
}

/// The editable buffer, the welcome buffer, the display area, the scroll
/// offset of the editable buffer and whether a repaint is owed.
pub struct EditArea {
    buffer: Buffer,
    display_area: Area,
    buffer_display_offset: Location,
    welcome_buffer: Buffer,
    need_printing: bool,
}

impl EditArea {
    pub closed spec fn spec_buffer(&self) -> Buffer {
        self.buffer
    }

    pub closed spec fn spec_welcome(&self) -> Buffer {
        self.welcome_buffer
    }

    pub closed spec fn spec_area(&self) -> Area {
        self.display_area
    }

    pub closed spec fn spec_offset(&self) -> Location {
        self.buffer_display_offset
    }

    pub closed spec fn spec_need_printing(&self) -> bool {
        self.need_printing
    }

    /// The lines of the editable buffer.
    pub open spec fn text(&self) -> Seq<Seq<char>> {
        self.spec_buffer().text()
    }

    /// The caret of the editable buffer.
    pub open spec fn caret_at(&self) -> Location {
        self.spec_buffer().spec_caret()
    }

    /// Both buffers hold a line and the caret is at a valid place.
    pub open spec fn wf(&self) -> bool {
        &&& self.spec_buffer().wf()
        &&& self.spec_welcome().wf()
        &&& caret_valid(self.text(), self.caret_at())
        &&& caret_valid(self.spec_welcome().text(), self.spec_welcome().spec_caret())
    }

    /// `self` is `before` with the caret at `caret`, the offset reconciled
    /// with it, a repaint owed where the offset moved, and `cursor` the
    /// caret's place in the display.
    pub open spec fn moved_from(&self, before: EditArea, caret: Location, cursor: Location) -> bool {
        &&& self.text() == before.text()
        &&& self.caret_at() == caret
        &&& self.spec_welcome() == before.spec_welcome()
        &&& self.spec_area() == before.spec_area()
        &&& self.spec_offset() == scrolled(
            before.spec_offset(),
            caret,
            before.spec_area().spec_size(),
            before.text().len() as int,
        )
        &&& self.spec_need_printing() == (before.spec_need_printing() || self.spec_offset()
            != before.spec_offset())
        &&& cursor == cursor_of(caret, self.spec_offset(), before.spec_area().spec_size())
    }

    /// `self` is `before` after writing `s` at the caret: the text and caret
    /// as `write_all` gives them, the offset reconciled, a repaint owed.
    pub open spec fn wrote(&self, before: EditArea, s: Seq<char>) -> bool {
        &&& (self.text(), self.caret_at()) == write_all(before.text(), before.caret_at(), s)
        &&& self.spec_welcome() == before.spec_welcome()
        &&& self.spec_area() == before.spec_area()
        &&& self.spec_offset() == scrolled(
            before.spec_offset(),
            self.caret_at(),
            before.spec_area().spec_size(),
            self.text().len() as int,
        )
        &&& self.spec_need_printing()
    }

    /// `self` is `before` after deleting the character before the caret:
    /// the text and caret as `del_step` gives them, the offset reconciled, a
    /// repaint owed.
    pub open spec fn deleted(&self, before: EditArea) -> bool {
        &&& (self.text(), self.caret_at()) == del_step(before.text(), before.caret_at())
        &&& self.spec_welcome() == before.spec_welcome()
        &&& self.spec_area() == before.spec_area()
        &&& self.spec_offset() == scrolled(
            before.spec_offset(),
            self.caret_at(),
            before.spec_area().spec_size(),
            self.text().len() as int,
        )
        &&& self.spec_need_printing()
    }

    /// `self` is `before` with `area` as display area, the offset reconciled
    /// with it, and a repaint owed.
    pub open spec fn configured(&self, before: EditArea, area: Area) -> bool {
        &&& self.spec_buffer() == before.spec_buffer()
        &&& self.spec_welcome() == before.spec_welcome()
        &&& self.spec_area() == area
        &&& self.spec_offset() == scrolled(
            before.spec_offset(),
            before.caret_at(),
            area.spec_size(),
            before.text().len() as int,
        )
        &&& self.spec_need_printing()
    }

    /// Empty buffers, an empty display area at the origin, no offset.
    pub fn new() -> (r: EditArea)
        ensures
            r.wf(),
            r.text() == seq![Seq::<char>::empty()],
            r.spec_welcome().text() == seq![Seq::<char>::empty()],
            r.caret_at() == (Location { x: 0, y: 0 }),
            r.spec_area().spec_left_top() == (Location { x: 0, y: 0 }),
            r.spec_area().spec_size() == (Size { width: 0, height: 0 }),
            r.spec_offset() == (Location { x: 0, y: 0 }),
            !r.spec_need_printing(),
    {
        EditArea {
            buffer_display_offset: Location { x: 0, y: 0 },
            display_area: Area::new(0, 0, 0, 0),
            buffer: Buffer::new(),
            welcome_buffer: Buffer::new(),
            need_printing: false,
        }
    }

    pub fn need_printing(&self) -> (r: bool)
        ensures
            r == self.spec_need_printing(),
    {
        self.need_printing
    }

    /// Marks a repaint as owed.
    pub fn set_need_printing(&mut self)
        ensures
            final(self).spec_need_printing(),
            final(self).spec_buffer() == old(self).spec_buffer(),
            final(self).spec_welcome() == old(self).spec_welcome(),
            final(self).spec_area() == old(self).spec_area(),
            final(self).spec_offset() == old(self).spec_offset(),
    {
        self.need_printing = true;
    }

    /// Records that the display has been repainted.
    pub fn unset_need_printing(&mut self)
        ensures
            !final(self).spec_need_printing(),
            final(self).spec_buffer() == old(self).spec_buffer(),
            final(self).spec_welcome() == old(self).spec_welcome(),
            final(self).spec_area() == old(self).spec_area(),
            final(self).spec_offset() == old(self).spec_offset(),
    {
        self.need_printing = false;
    }

    pub fn buffer(&self) -> (r: &Buffer)
        ensures
            *r == self.spec_buffer(),
    {
        &self.buffer
    }

    pub fn welcome_buffer(&self) -> (r: &Buffer)
        ensures
            *r == self.spec_welcome(),
    {
        &self.welcome_buffer
    }

    pub fn display_area(&self) -> (r: Area)
        ensures
            r == self.spec_area(),
    {
        self.display_area
    }

    /// The first column and row of the buffer that the display shows.
    pub fn display_offset(&self) -> (r: Location)
        ensures
            r == self.spec_offset(),
    {
        self.buffer_display_offset
    }

    /// Reconciles the scroll offset with the caret (see `scrolled`) and
    /// tells whether it moved.
    pub fn update_display_offset(&mut self) -> (r: bool)
        requires
            old(self).wf(),
        ensures
            final(self).wf(),
            final(self).spec_buffer() == old(self).spec_buffer(),
            final(self).spec_welcome() == old(self).spec_welcome(),
            final(self).spec_area() == old(self).spec_area(),
            final(self).spec_need_printing() == old(self).spec_need_printing(),
            final(self).spec_offset() == scrolled(
                old(self).spec_offset(),
                old(self).caret_at(),
                old(self).spec_area().spec_size(),
                old(self).text().len() as int,
            ),
            r == (final(self).spec_offset() != old(self).spec_offset()),
    {
        let raw = self.buffer_display_offset;
        let caret = self.buffer.caret();
        let n = self.buffer.lines_num();
        let h = self.display_area.height();
        let w = self.display_area.width();
        let o = raw.y;
        let vp: usize = if h >= 2 * VERTICAL_PADDING { VERTICAL_PADDING } else { 0 };
        let mut oy: usize = o;
        if caret.y >= o && caret.y - o >= h - vp {
            let bottom = if n - caret.y <= vp { n } else { caret.y + vp };
            oy = if bottom >= h { bottom - h } else { 0 };
        } else if caret.y < o || caret.y - o < vp {
            oy = if caret.y >= vp { caret.y - vp } else { 0 };
        }
        if n > h && n - oy < h {
            oy = n - h;
        }
        let hp: usize = if w >= 2 * HORIZONTAL_PADDING { HORIZONTAL_PADDING } else { 0 };
        let mut ox: usize = raw.x;
        if caret.x < raw.x || caret.x - raw.x < hp {
            ox = if caret.x >= hp { caret.x - hp } else { 0 };
        } else if caret.x - raw.x > w - hp {
            ox = if caret.x >= w - hp { caret.x - (w - hp) } else { 0 };
        }
        self.buffer_display_offset = Location { x: ox, y: oy };
        ox != raw.x || oy != raw.y
    }

    /// Where the caret shows inside the display area (relative to its
    /// top-left corner).
    pub fn get_cursor(&self) -> (r: Location)
        ensures
            r == cursor_of(self.caret_at(), self.spec_offset(), self.spec_area().spec_size()),
    {
        let caret = self.buffer.caret();
        let o = self.buffer_display_offset;
        let dx = if caret.x > o.x { caret.x - o.x } else { 0 };
        let dy = if caret.y > o.y { caret.y - o.y } else { 0 };
        let w = self.display_area.width();
        let h = self.display_area.height();
        Location { x: if dx < w { dx } else { w }, y: if dy < h { dy } else { h } }
    }

    /// Where the caret shows on the screen: `get_cursor` shifted by the
    /// display area's top-left corner.
    pub fn screen_cursor(&self) -> (r: Location)
        ensures
            r.x == self.spec_area().spec_left_top().x + cursor_of(
                self.caret_at(),
                self.spec_offset(),
                self.spec_area().spec_size(),
            ).x,
            r.y == self.spec_area().spec_left_top().y + cursor_of(
                self.caret_at(),
                self.spec_offset(),
                self.spec_area().spec_size(),
            ).y,
    {
        let c = self.get_cursor();
        proof {
            use_type_invariant(&self.display_area);
        }
        Location { x: self.display_area.x() + c.x, y: self.display_area.y() + c.y }
    }

    /// Takes `new_area` as the display area, reconciles the offset with it
    /// and marks a repaint as owed.
    pub fn configure_area(&mut self, new_area: Area)
        requires
            old(self).wf(),
        ensures
            final(self).wf(),
            final(self).configured(*old(self), new_area),
    {
        self.display_area = new_area;
        self.update_display_offset();
        self.set_need_printing();
    }

    /// Writes `s` at the caret (see `Buffer::write_str`), reconciles the
    /// offset and marks a repaint as owed.
    pub fn write_str(&mut self, s: &str)
        requires
            old(self).wf(),
        ensures
            final(self).wf(),
            final(self).wrote(*old(self), s@),
    {
        let _ = self.buffer.write_str(s);
        self.update_display_offset();
        self.set_need_printing();
    }

    /// Deletes the character before the caret (see `Buffer::del_char`),
    /// reconciles the offset and marks a repaint as owed; at the very start
    /// of the text fails with `DelAtBeginning`, changing nothing.
    pub fn del_char(&mut self) -> (r: Result<(), Error>)
        requires
            old(self).wf(),
        ensures
            final(self).wf(),
            old(self).caret_at() == (Location { x: 0, y: 0 }) ==> r == Err::<(), Error>(
                Error::DelAtBeginning,
            ) && *final(self) == *old(self),
            old(self).caret_at() != (Location { x: 0, y: 0 }) ==> r is Ok && final(self).deleted(*old(self)),
    {
        let r = self.buffer.del_char();
        if r.is_ok() {
            self.update_display_offset();
            self.set_need_printing();
        }
        r
    }

    /// Replaces the editable text by the lines of `s` (see `Buffer::load`),
    /// reconciles the offset and marks a repaint as owed.
    pub fn load(&mut self, s: &str)
        requires
            old(self).wf(),
        ensures
            final(self).wf(),
            final(self).text() == crate::lines::split_lines(s@),
            final(self).caret_at() == end_of(final(self).text()),
            final(self).spec_welcome() == old(self).spec_welcome(),
            final(self).spec_area() == old(self).spec_area(),
            final(self).spec_offset() == scrolled(
                old(self).spec_offset(),
                final(self).caret_at(),
                old(self).spec_area().spec_size(),
                final(self).text().len() as int,
            ),
            final(self).spec_need_printing(),
    {
        self.buffer.load(s);
        proof {
            self.buffer.lemma_text_fits();
        }
        self.update_display_offset();
        self.set_need_printing();
    }

    /// Replaces the welcome text by the lines of `s`.
    pub fn load_welcome(&mut self, s: &str)
        requires
            old(self).wf(),
        ensures
            final(self).wf(),
            final(self).spec_welcome().text() == crate::lines::split_lines(s@),
            final(self).spec_buffer() == old(self).spec_buffer(),
            final(self).spec_area() == old(self).spec_area(),
            final(self).spec_offset() == old(self).spec_offset(),
            final(self).spec_need_printing() == old(self).spec_need_printing(),
    {
        self.welcome_buffer.load(s);
        proof {
            self.welcome_buffer.lemma_text_fits();
        }
    }

    /// Writes `s` into the welcome text at its caret.
    pub fn write_welcome_str(&mut self, s: &str)
        requires
            old(self).wf(),
        ensures
            final(self).wf(),
            (final(self).spec_welcome().text(), final(self).spec_welcome().spec_caret()) == write_all(
                old(self).spec_welcome().text(),
                old(self).spec_welcome().spec_caret(),
                s@,
            ),
            final(self).spec_buffer() == old(self).spec_buffer(),
            final(self).spec_area() == old(self).spec_area(),
            final(self).spec_offset() == old(self).spec_offset(),
            final(self).spec_need_printing() == old(self).spec_need_printing(),
    {
        let _ = self.welcome_buffer.write_str(s);
    }

    /// The characters that row `row` of the display shows (see
    /// `visible_part`).
    pub fn visible_line(&self, row: usize) -> (r: Vec<char>)
        requires
            self.wf(),
        ensures
            r@ == visible_part(self.text(), self.spec_offset(), self.spec_area().spec_size(), row as int),
    {
        let n = self.buffer.lines_num();
        let o = self.buffer_display_offset;
        if o.y < n && row < n - o.y {
            let y = row + o.y;
            let len = self.buffer.line_len(y);
            if o.x < len {
                let w = self.display_area.width();
                let end = if len - o.x < w { len } else { o.x + w };
                match self.buffer.get(y) {
                    Some(line) => copy_range(line, o.x, end),
                    None => Vec::new(),
                }
            } else {
                Vec::new()
            }
        } else {
            Vec::new()
        }
    }

    /// Where each welcome line goes, and its characters: the block is
    /// centred vertically by its line count, each line horizontally by its
    /// own length. Fails with `BufferSizeExceeds` unless the display area is
    /// strictly larger than the welcome text in both directions.
    pub fn welcome_layout(&self) -> (r: Result<Vec<(Location, Vec<char>)>, Error>)
        requires
            self.wf(),
        ensures
            welcome_laid_out(self.spec_welcome().text(), self.spec_area(), r),
    {
        let bsize = self.welcome_buffer.size();
        let asize = self.display_area.size();
        if !(asize > bsize) {
            return Err(Error::BufferSizeExceeds { buffer_size: bsize, area_size: asize });
        }
        let center = self.display_area.center();
        let n = self.welcome_buffer.lines_num();
        let start_row = center.y - n / 2;
        let mut out: Vec<(Location, Vec<char>)> = Vec::new();
        let mut i: usize = 0;
        proof {
            use_type_invariant(&self.display_area);
        }
        while i < n
            invariant
                self.wf(),
                n == self.spec_welcome().text().len(),
                i <= n,
                n < asize.height,
                asize == self.spec_area().spec_size(),
                self.spec_area().fits(),
                center.x == self.spec_area().spec_left_top().x + asize.width / 2,
                center.y == self.spec_area().spec_left_top().y + asize.height / 2,
                start_row == center.y - n / 2,
                forall|k: int| 0 <= k < n ==> self.spec_welcome().text()[k].len() < asize.width,
                out@.len() == i,
                forall|k: int|
                    0 <= k < i ==> welcome_entry(self.spec_welcome().text(), self.spec_area(), k, out@[k]),
            decreases n - i,
        {
            let len = self.welcome_buffer.line_len(i);
            match self.welcome_buffer.get(i) {
                Some(line) => {
                    let copy = copy_range(line, 0, line.len());
                    proof {
                        assert(line@.subrange(0, line@.len() as int) =~= line@);
                    }
                    out.push((Location { x: center.x - len / 2, y: start_row + i }, copy));
                },
                None => {},
            }
            i = i + 1;
        }
        Ok(out)
    }

    /// Puts the caret at the valid place `caret`, reconciles the offset, and
    /// returns the caret's place in the display.
    fn commit_caret(&mut self, caret: Location) -> (r: Location)
        requires
            old(self).wf(),
            caret_valid(old(self).text(), caret),
        ensures
            final(self).wf(),
            final(self).moved_from(*old(self), caret, r),
    {
        self.buffer.seek_unchecked(caret);
        if self.update_display_offset() {
            self.set_need_printing();
        }
        self.get_cursor()
    }

    /// Moves the caret to `caret` where that is a valid place (see
    /// `Buffer::check_caret`), reconciles the offset, and returns the
    /// caret's place in the display; otherwise fails, changing nothing.
    pub fn move_caret_to(&mut self, caret: Location) -> (r: Result<Location, Error>)
        requires
            old(self).wf(),
        ensures
            final(self).wf(),
            match r {
                Ok(cursor) => caret_valid(old(self).text(), caret) && final(self).moved_from(
                    *old(self),
                    caret,
                    cursor,
                ),
                Err(e) => Err::<(), Error>(e) == caret_check(old(self).text(), caret) && *final(self)
                    == *old(self),
            },
    {
        match self.buffer.check_caret(caret) {
            Ok(()) => Ok(self.commit_caret(caret)),
            Err(e) => Err(e),
        }
    }
}

impl EditArea {
    /// What `move_caret(m)` does: the caret moves to the place `m` names
    /// and the offset is reconciled; paging and the jump history change
    /// nothing.
    pub open spec fn moved_by(&self, before: EditArea, m: CaretMove, cursor: Location) -> bool {
        let lines = before.text();
        let c = before.caret_at();
        match m {
            CaretMove::Left => self.moved_from(before, left_target(lines, c), cursor),
            CaretMove::Right => self.moved_from(before, right_target(lines, c), cursor),
            CaretMove::Up => self.moved_from(before, up_target(lines, c), cursor),
            CaretMove::Down => self.moved_from(before, down_target(lines, c), cursor),
            CaretMove::LineStart => self.moved_from(before, Location { x: 0, y: c.y }, cursor),
            CaretMove::LineEnd => self.moved_from(
                before,
                Location { x: lines[c.y as int].len() as usize, y: c.y },
                cursor,
            ),
            CaretMove::GlobalStart => self.moved_from(before, Location { x: 0, y: 0 }, cursor),
            CaretMove::GlobalEnd => self.moved_from(before, end_of(lines), cursor),
            CaretMove::NextWord => {
                &&& self.moved_from(before, self.caret_at(), cursor)
                &&& offset_of(lines, self.caret_at()) == next_word_pos(flat(lines), offset_of(lines, c))
            },
            CaretMove::PrevWord => {
                &&& self.moved_from(before, self.caret_at(), cursor)
                &&& offset_of(lines, self.caret_at()) == prev_word_pos(flat(lines), offset_of(lines, c))
            },
            _ => *self == before && cursor == cursor_of(c, before.spec_offset(), before.spec_area().spec_size()),
        }
    }

    fn move_caret_left(&mut self) -> (r: Location)
        requires
            old(self).wf(),
        ensures
            final(self).wf(),
            final(self).moved_from(*old(self), left_target(old(self).text(), old(self).caret_at()), r),
    {
        let c = self.buffer.caret();
        let t = if c.x == 0 {
            if c.y > 0 {
                Location { x: self.buffer.line_len(c.y - 1), y: c.y - 1 }
            } else {
                c
            }
        } else {
            Location { x: c.x - 1, y: c.y }
        };
        self.commit_caret(t)
    }

    fn move_caret_right(&mut self) -> (r: Location)
        requires
            old(self).wf(),
        ensures
            final(self).wf(),
            final(self).moved_from(*old(self), right_target(old(self).text(), old(self).caret_at()), r),
    {
        let c = self.buffer.caret();
        let n = self.buffer.lines_num();
        let t = if c.x == self.buffer.line_len(c.y) {
            if c.y < n - 1 {
                Location { x: 0, y: c.y + 1 }
            } else {
                c
            }
        } else {
            Location { x: c.x + 1, y: c.y }
        };
        self.commit_caret(t)
    }

    fn move_caret_up(&mut self) -> (r: Location)
        requires
            old(self).wf(),
        ensures
            final(self).wf(),
            final(self).moved_from(*old(self), up_target(old(self).text(), old(self).caret_at()), r),
    {
        let c = self.buffer.caret();
        let t = if c.y != 0 {
            let len = self.buffer.line_len(c.y - 1);
            Location { x: if c.x < len { c.x } else { len }, y: c.y - 1 }
        } else {
            c
        };
        self.commit_caret(t)
    }

    fn move_caret_down(&mut self) -> (r: Location)
        requires
            old(self).wf(),
        ensures
            final(self).wf(),
            final(self).moved_from(*old(self), down_target(old(self).text(), old(self).caret_at()), r),
    {
        let c = self.buffer.caret();
        let n = self.buffer.lines_num();
        let t = if c.y < n - 1 {
            let len = self.buffer.line_len(c.y + 1);
            Location { x: if c.x < len { c.x } else { len }, y: c.y + 1 }
        } else {
            c
        };
        self.commit_caret(t)
    }

    fn move_caret_to_global_end(&mut self) -> (r: Location)
        requires
            old(self).wf(),
        ensures
            final(self).wf(),
            final(self).moved_from(*old(self), end_of(old(self).text()), r),
    {
        let n = self.buffer.lines_num();
        let t = Location { x: self.buffer.line_len(n - 1), y: n - 1 };
        self.commit_caret(t)
    }

    fn move_caret_to_global_start(&mut self) -> (r: Location)
        requires
            old(self).wf(),
        ensures
            final(self).wf(),
            final(self).moved_from(*old(self), Location { x: 0, y: 0 }, r),
    {
        self.commit_caret(Location { x: 0, y: 0 })
    }

    fn move_caret_to_line_end(&mut self) -> (r: Location)
        requires
            old(self).wf(),
        ensures
            final(self).wf(),
            final(self).moved_from(
                *old(self),
                Location {
                    x: old(self).text()[old(self).caret_at().y as int].len() as usize,
                    y: old(self).caret_at().y,
                },
                r,
            ),
    {
        let c = self.buffer.caret();
        self.commit_caret(Location { x: self.buffer.line_len(c.y), y: c.y })
    }

    fn move_caret_to_line_start(&mut self) -> (r: Location)
        requires
            old(self).wf(),
        ensures
            final(self).wf(),
            final(self).moved_from(*old(self), Location { x: 0, y: old(self).caret_at().y }, r),
    {
        let c = self.buffer.caret();
        self.commit_caret(Location { x: 0, y: c.y })
    }

    fn move_caret_to_next_word(&mut self) -> (r: Location)
        requires
            old(self).wf(),
        ensures
            final(self).wf(),
            final(self).moved_by(*old(self), CaretMove::NextWord, r),
    {
        let ghost lines = self.text();
        let ghost s = flat(lines);
        let ghost p = offset_of(lines, self.caret_at());
        let mut reader = self.buffer.get_reader().unwrap();
        let mut found = false;
        if reader.skip_until_blank().is_ok() {
            if reader.skip_until_not_blank().is_ok() {
                found = true;
            }
        }
        let t = reader.caret();
        proof {
            if found {
                assert(offset_of(lines, t) == next_word_pos(s, p));
            } else {
                assert(next_word_pos(s, p) == s.len());
            }
        }
        if found {
            self.commit_caret(t)
        } else {
            let r = self.move_caret_to_global_end();
            proof {
                lemma_offset_bounds(lines, self.caret_at());
                self.spec_buffer().lemma_text_fits();
            }
            r
        }
    }

    fn move_caret_to_prev_word(&mut self) -> (r: Location)
        requires
            old(self).wf(),
        ensures
            final(self).wf(),
            final(self).moved_by(*old(self), CaretMove::PrevWord, r),
    {
        let ghost lines = self.text();
        let mut reader = self.buffer.get_reader().unwrap();
        proof {
            lemma_offset_bounds(lines, self.caret_at());
        }
        let on_word = match reader.peek() {
            Some(ch) => !crate::text::is_blank(ch),
            None => false,
        };
        let mut found = false;
        if on_word {
            if reader.back_until_blank().is_ok() {
                if reader.back_until_not_blank().is_ok() {
                    if reader.back_until_blank().is_ok() {
                        found = true;
                    }
                }
            }
        } else {
            if reader.back_until_not_blank().is_ok() {
                if reader.back_until_blank().is_ok() {
                    found = true;
                }
            }
        }
        let t = reader.caret();
        if found {
            self.commit_caret(t)
        } else {
            self.move_caret_to_global_start()
        }
    }

    /// Moves the caret as `caret_move` says (see `moved_by`) and returns its
    /// place in the display.
    pub fn move_caret(&mut self, caret_move: CaretMove) -> (r: Location)
        requires
            old(self).wf(),
        ensures
            final(self).wf(),
            final(self).moved_by(*old(self), caret_move, r),
    {
        match caret_move {
            CaretMove::Left => self.move_caret_left(),
            CaretMove::Right => self.move_caret_right(),
            CaretMove::Up => self.move_caret_up(),
            CaretMove::Down => self.move_caret_down(),
            CaretMove::NextWord => self.move_caret_to_next_word(),
            CaretMove::PrevWord => self.move_caret_to_prev_word(),
            CaretMove::GlobalEnd => self.move_caret_to_global_end(),
            CaretMove::GlobalStart => self.move_caret_to_global_start(),
            CaretMove::LineEnd => self.move_caret_to_line_end(),
            CaretMove::LineStart => self.move_caret_to_line_start(),
            _ => self.get_cursor(),
        }
    }
}

} // verus!
