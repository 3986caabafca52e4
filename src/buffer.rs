//! The text buffer: an ordered, never empty sequence of lines and a caret.

use vstd::prelude::*;
use crate::error::Error;
use crate::geometry::{Location, Size};
use crate::lines::{
    view_lines, caret_valid, split_lines, join_lines, flat, total_chars,
    lemma_split_lines_nonempty, lemma_flat_len, caret_check, write_step, write_all, offset_of,
    lemma_flat_at, lemma_offset_bounds, lemma_first_from, lemma_last_before, skip_result,
    back_result, del_step, end_of, padded_to, lemma_total_chars_prefix, lemma_line_start_mono,
};
use crate::text::{chars_of, is_blank, is_control, is_white_space, push_char};

verus! {

/// An ordered, never empty sequence of lines plus the caret, the position
/// before which the next character is written.
#[derive(Debug)]
pub struct Buffer {
    caret: Location,
    lines: Vec<Vec<char>>,
}

impl Buffer {
    /// The lines, each as its characters.
    pub closed spec fn text(&self) -> Seq<Seq<char>> {
        view_lines(self.lines@)
    }

    pub closed spec fn spec_caret(&self) -> Location {
        self.caret
    }

    pub open spec fn wf(&self) -> bool {
        self.text().len() >= 1
    }

    /// The number of lines and each line's length fit in `usize`.
    pub proof fn lemma_text_fits(&self)
        ensures
            self.text().len() <= usize::MAX,
            forall|i: int| 0 <= i < self.text().len() ==> self.text()[i].len() <= usize::MAX,
    {
        assert(self.lines.len() == self.lines@.len());
        assert forall|i: int| 0 <= i < self.text().len() implies self.text()[i].len() <= usize::MAX by {
            assert(self.lines@[i].len() == self.lines@[i]@.len());
        }
    }

    /// One empty line, the caret at its start.
    pub fn new() -> (r: Buffer)
        ensures
            r.wf(),
            r.text() == seq![Seq::<char>::empty()],
            r.spec_caret() == (Location { x: 0, y: 0 }),
    {
        let mut lines: Vec<Vec<char>> = Vec::new();
        lines.push(Vec::new());
        let r = Buffer { caret: Location { x: 0, y: 0 }, lines };
        assert(r.text() =~= seq![Seq::<char>::empty()]);
        r
    }

    /// Replaces all lines by those of `s` and puts the caret at the end of
    /// the last one.
    pub fn load(&mut self, s: &str)
        ensures
            final(self).wf(),
            final(self).text() == split_lines(s@),
            final(self).spec_caret() == end_of(final(self).text()),
    {
        let chars = chars_of(s);
        let mut lines: Vec<Vec<char>> = Vec::new();
        let mut cur: Vec<char> = Vec::new();
        let mut i: usize = 0;
        while i < chars.len()
            invariant
                i <= chars.len(),
                chars@ == s@,
                view_lines(lines@).push(cur@) == split_lines(s@.take(i as int)),
            decreases chars.len() - i,
        {
            let c = chars[i];
            let ghost t = s@.take(i as int + 1);
            proof {
                assert(t.drop_last() =~= s@.take(i as int));
                assert(t.last() == c);
            }
            if c == '\r' {
                lines.push(cur);
                cur = Vec::new();
                proof {
                    assert(view_lines(lines@).push(cur@) =~= split_lines(s@.take(i as int)).push(
                        Seq::<char>::empty(),
                    ));
                }
            } else if c == '\n' {
                if i > 0 && chars[i - 1] == '\r' {
                    proof {
                        let u = s@.take(i as int);
                        assert(t.take(t.len() - 2) =~= u.drop_last());
                        assert(u.last() == '\r');
                    }
                } else {
                    lines.push(cur);
                    cur = Vec::new();
                    proof {
                        assert(view_lines(lines@).push(cur@) =~= split_lines(
                            s@.take(i as int),
                        ).push(Seq::<char>::empty()));
                    }
                }
            } else {
                let ghost before = cur@;
                cur.push(c);
                proof {
                    let p = split_lines(s@.take(i as int));
                    assert(view_lines(lines@).push(cur@) =~= p.update(
                        p.len() - 1,
                        p.last().push(c),
                    ));
                }
            }
            i = i + 1;
        }
        proof {
            assert(s@.take(chars.len() as int) =~= s@);
        }
        let x = cur.len();
        lines.push(cur);
        let y = lines.len() - 1;
        self.lines = lines;
        self.caret = Location { x, y };
        proof {
            lemma_split_lines_nonempty(s@);
            assert(self.text() =~= split_lines(s@));
        }
    }

    /// The line at `idx`, if there is one.
    pub fn get(&self, idx: usize) -> (r: Option<&Vec<char>>)
        ensures
            match r {
                Some(l) => idx < self.text().len() && l@ == self.text()[idx as int],
                None => idx >= self.text().len(),
            },
    {
        if idx < self.lines.len() {
            Some(&self.lines[idx])
        } else {
            None
        }
    }

    /// The line at `idx`, if there is one, to be changed in place.
    pub fn get_mut(&mut self, idx: usize) -> (r: Option<&mut Vec<char>>)
        ensures
            match r {
                Some(l) => {
                    &&& idx < old(self).text().len()
                    &&& l@ == old(self).text()[idx as int]
                    &&& final(self).text() == old(self).text().update(idx as int, final(l)@)
                    &&& final(self).spec_caret() == old(self).spec_caret()
                },
                None => idx >= old(self).text().len() && *final(self) == *old(self),
            },
    {
        if idx < self.lines.len() {
            Some(&mut self.lines[idx])
        } else {
            None
        }
    }

    /// The line the caret is on, if it exists, to be changed in place.
    pub fn get_current_line_mut(&mut self) -> (r: Option<&mut Vec<char>>)
        ensures
            match r {
                Some(l) => {
                    let y = old(self).spec_caret().y as int;
                    &&& y < old(self).text().len()
                    &&& l@ == old(self).text()[y]
                    &&& final(self).text() == old(self).text().update(y, final(l)@)
                    &&& final(self).spec_caret() == old(self).spec_caret()
                },
                None => old(self).spec_caret().y >= old(self).text().len() && *final(self) == *old(self),
            },
    {
        let y = self.caret.y;
        self.get_mut(y)
    }

    /// The line the caret is on, to be changed in place; empty lines are
    /// added first up to the caret's row where the text is shorter.
    pub fn ensure_current_line(&mut self) -> (r: &mut Vec<char>)
        requires
            old(self).spec_caret().y < usize::MAX,
        ensures
            ({
                let y = old(self).spec_caret().y as int;
                let grown = padded_to(old(self).text(), y + 1);
                &&& r@ == grown[y]
                &&& final(self).text() == grown.update(y, final(r)@)
                &&& final(self).spec_caret() == old(self).spec_caret()
            }),
    {
        let y = self.caret.y;
        while self.lines.len() <= y
            invariant
                self.caret == old(self).caret,
                y == self.caret.y,
                y < usize::MAX,
                self.text() == padded_to(old(self).text(), self.text().len() as int),
                self.text().len() >= old(self).text().len(),
                self.text().len() <= y + 1 || self.text() == old(self).text(),
            decreases y + 1 - self.lines.len(),
        {
            let ghost before = self.text();
            self.lines.push(Vec::new());
            proof {
                let e = Seq::<char>::empty();
                assert(self.text() =~= before.push(e));
                let o = old(self).text();
                let p = padded_to(o, self.text().len() as int);
                assert forall|i: int| 0 <= i < self.text().len() implies self.text()[i] == p[i] by {
                    if i < o.len() {
                        assert(before[i] == o[i]);
                    } else if i < before.len() {
                        assert(before[i] == e);
                    }
                }
                assert(self.text() =~= p);
            }
        }
        proof {
            assert(padded_to(old(self).text(), y as int + 1) =~= padded_to(old(self).text(), self.text().len() as int)
                || self.text() == old(self).text());
        }
        &mut self.lines[y]
    }

    /// The character count of line `y`.
    pub fn line_len(&self, y: usize) -> (r: usize)
        requires
            y < self.text().len(),
        ensures
            r == self.text()[y as int].len(),
    {
        self.lines[y].len()
    }

    /// The line the caret is on, if it exists.
    pub fn get_current_line(&self) -> (r: Option<&Vec<char>>)
        ensures
            match r {
                Some(l) => self.spec_caret().y < self.text().len() && l@ == self.text()[self.spec_caret().y as int],
                None => self.spec_caret().y >= self.text().len(),
            },
    {
        self.get(self.caret.y)
    }

    /// Succeeds exactly when `caret` names an existing line and a column no
    /// further than that line's end.
    pub fn check_caret(&self, caret: Location) -> (r: Result<(), Error>)
        ensures
            r is Ok <==> caret.y < self.text().len() && caret.x <= self.text()[caret.y as int].len(),
            r == caret_check(self.text(), caret),
    {
        if caret.y >= self.lines.len() {
            return Err(Error::CaretOutOfHeight { caret: caret.y, height: self.lines.len() });
        }
        let len = self.lines[caret.y].len();
        if caret.x > len {
            Err(Error::CaretOutOfLen { caret: caret.x, len })
        } else {
            Ok(())
        }
    }

    /// Writes the characters of `s` at the caret, one by one: a printable
    /// character is inserted and the caret moves past it; a `'\n'` splits
    /// the line at the caret and the caret moves to the start of the new
    /// line; other control characters are dropped. Fails, changing nothing,
    /// where the caret is not valid.
    pub fn write_str(&mut self, s: &str) -> (r: Result<(), Error>)
        requires
            old(self).wf(),
        ensures
            final(self).wf(),
            !caret_valid(old(self).text(), old(self).spec_caret()) ==> r == caret_check(
                old(self).text(),
                old(self).spec_caret(),
            ) && final(self).text() == old(self).text()
                && final(self).spec_caret() == old(self).spec_caret(),
            caret_valid(old(self).text(), old(self).spec_caret()) ==> caret_valid(
                final(self).text(),
                final(self).spec_caret(),
            ),
            caret_valid(old(self).text(), old(self).spec_caret()) ==> r is Ok && (
            final(self).text(),
            final(self).spec_caret(),
            ) == write_all(old(self).text(), old(self).spec_caret(), s@),
    {
        let checked = self.check_caret(self.caret);
        if checked.is_err() {
            return checked;
        }
        let chars = chars_of(s);
        let mut i: usize = 0;
        assert(s@.skip(0) =~= s@);
        while i < chars.len()
            invariant
                i <= chars.len(),
                chars@ == s@,
                self.wf(),
                caret_valid(self.text(), self.caret),
                write_all(self.text(), self.caret, s@.skip(i as int)) == write_all(
                    old(self).text(),
                    old(self).spec_caret(),
                    s@,
                ),
            decreases chars.len() - i,
        {
            let c = chars[i];
            let ghost rest = s@.skip(i as int);
            proof {
                assert(rest.drop_first() =~= s@.skip(i as int + 1));
                assert(rest[0] == c);
            }
            self.write_char(c);
            i = i + 1;
        }
        proof {
            assert(s@.skip(chars.len() as int) =~= Seq::<char>::empty());
        }
        Ok(())
    }

    /// Deletes the character before the caret (see `del_step`). Fails,
    /// changing nothing, where the caret is not valid, and with
    /// `DelAtBeginning` where it is at the very start of the text.
    pub fn del_char(&mut self) -> (r: Result<(), Error>)
        requires
            old(self).wf(),
        ensures
            final(self).wf(),
            !caret_valid(old(self).text(), old(self).spec_caret()) ==> r == caret_check(
                old(self).text(),
                old(self).spec_caret(),
            ) && *final(self) == *old(self),
            caret_valid(old(self).text(), old(self).spec_caret()) && old(self).spec_caret() == (
            Location { x: 0, y: 0 }) ==> r == Err::<(), Error>(Error::DelAtBeginning) && *final(self)
                == *old(self),
            caret_valid(old(self).text(), old(self).spec_caret()) && old(self).spec_caret() != (
            Location { x: 0, y: 0 }) ==> r is Ok && (final(self).text(), final(self).spec_caret())
                == del_step(old(self).text(), old(self).spec_caret()) && caret_valid(
                final(self).text(),
                final(self).spec_caret(),
            ),
    {
        let checked = self.check_caret(self.caret);
        if checked.is_err() {
            return checked;
        }
        let x = self.caret.x;
        let y = self.caret.y;
        if x > 0 {
            let mut line: Vec<char> = Vec::new();
            std::mem::swap(&mut line, &mut self.lines[y]);
            line.remove(x - 1);
            self.lines.set(y, line);
            self.caret.x = x - 1;
            proof {
                assert(self.text() =~= old(self).text().update(y as int, old(self).text()[y as int].remove(x - 1)));
            }
            Ok(())
        } else if y > 0 {
            let mut cur = self.lines.remove(y);
            let mut prev: Vec<char> = Vec::new();
            std::mem::swap(&mut prev, &mut self.lines[y - 1]);
            let join = prev.len();
            prev.append(&mut cur);
            self.lines.set(y - 1, prev);
            self.caret = Location { x: join, y: y - 1 };
            proof {
                let t = old(self).text();
                assert(self.text() =~= t.update(y - 1, t[y - 1] + t[y as int]).remove(y as int));
            }
            Ok(())
        } else {
            Err(Error::DelAtBeginning)
        }
    }

    /// One step of `write_str`.
    fn write_char(&mut self, c: char)
        requires
            old(self).wf(),
            caret_valid(old(self).text(), old(self).caret),
        ensures
            final(self).wf(),
            caret_valid(final(self).text(), final(self).caret),
            (final(self).text(), final(self).caret) == write_step(old(self).text(), old(self).caret, c),
    {
        let y = self.caret.y;
        let x = self.caret.x;
        if !is_control(c) && c != '\r' {
            let mut line: Vec<char> = Vec::new();
            std::mem::swap(&mut line, &mut self.lines[y]);
            line.insert(x, c);
            let n = line.len();
            assert(x < n);
            self.lines.set(y, line);
            self.caret.x = x + 1;
            proof {
                assert(self.text() =~= old(self).text().update(y as int, old(self).text()[y as int].insert(x as int, c)));
            }
        } else if c == '\n' {
            let mut line: Vec<char> = Vec::new();
            std::mem::swap(&mut line, &mut self.lines[y]);
            let rest = line.split_off(x);
            self.lines.set(y, line);
            let n = self.lines.len();
            assert(y < n);
            self.lines.insert(y + 1, rest);
            self.caret = Location { x: 0, y: y + 1 };
            proof {
                let l = old(self).text()[y as int];
                assert(self.text() =~= old(self).text().update(y as int, l.take(x as int)).insert(y as int + 1, l.skip(x as int)));
            }
        }
    }

    /// The number of lines.
    pub fn lines_num(&self) -> (r: usize)
        ensures
            r == self.text().len(),
    {
        self.lines.len()
    }

    /// The number of characters of the text, a line break counting as one.
    pub fn len(&self) -> (r: usize)
        requires
            self.wf(),
            total_chars(self.text()) + self.text().len() - 1 <= usize::MAX,
        ensures
            r == total_chars(self.text()) + self.text().len() - 1,
            r == flat(self.text()).len(),
    {
        let mut sum: usize = 0;
        let mut i: usize = 0;
        while i < self.lines.len()
            invariant
                i <= self.lines.len(),
                self.lines.len() >= 1,
                total_chars(self.text()) + self.text().len() - 1 <= usize::MAX,
                sum == total_chars(self.text().take(i as int)),
            decreases self.lines.len() - i,
        {
            proof {
                let t = self.text().take(i as int + 1);
                assert(t.drop_last() =~= self.text().take(i as int));
                lemma_total_chars_prefix(self.text(), i as int + 1);
            }
            sum = sum + self.lines[i].len();
            i = i + 1;
        }
        proof {
            assert(self.text().take(self.lines.len() as int) =~= self.text());
            lemma_flat_len(self.text());
        }
        sum + (self.lines.len() - 1)
    }

    /// The character count of the longest line.
    pub fn max_width(&self) -> (r: usize)
        requires
            self.wf(),
        ensures
            forall|i: int| 0 <= i < self.text().len() ==> self.text()[i].len() <= r,
            exists|i: int| 0 <= i < self.text().len() && self.text()[i].len() == r,
    {
        let mut best: usize = self.lines[0].len();
        let ghost mut w: int = 0;
        let mut i: usize = 1;
        while i < self.lines.len()
            invariant
                1 <= i <= self.lines.len(),
                forall|k: int| 0 <= k < i ==> self.text()[k].len() <= best,
                0 <= w < i,
                self.text()[w].len() == best,
            decreases self.lines.len() - i,
        {
            if self.lines[i].len() > best {
                best = self.lines[i].len();
                proof {
                    w = i as int;
                }
            }
            i = i + 1;
        }
        best
    }

    /// The longest line's width and the number of lines.
    pub fn size(&self) -> (r: Size)
        requires
            self.wf(),
        ensures
            r.height == self.text().len(),
            forall|i: int| 0 <= i < self.text().len() ==> self.text()[i].len() <= r.width,
            exists|i: int| 0 <= i < self.text().len() && self.text()[i].len() == r.width,
    {
        Size { width: self.max_width(), height: self.lines_num() }
    }

    /// Puts the caret at `caret` without checking it.
    pub fn seek_unchecked(&mut self, caret: Location)
        ensures
            final(self).text() == old(self).text(),
            final(self).spec_caret() == caret,
    {
        self.caret = caret;
    }

    /// Leaves one empty line, the caret at its start.
    pub fn clear(&mut self)
        ensures
            final(self).wf(),
            final(self).text() == seq![Seq::<char>::empty()],
            final(self).spec_caret() == (Location { x: 0, y: 0 }),
    {
        self.caret = Location { x: 0, y: 0 };
        self.lines.clear();
        self.lines.push(Vec::new());
        assert(self.text() =~= seq![Seq::<char>::empty()]);
    }

    pub fn caret(&self) -> (r: Location)
        ensures
            r == self.spec_caret(),
    {
        self.caret
    }

    /// A reader positioned at the caret; fails where the caret is not valid.
    pub fn get_reader(&self) -> (r: Result<BufferReader<'_>, Error>)
        requires
            self.wf(),
        ensures
            match r {
                Ok(rd) => {
                    &&& caret_valid(self.text(), self.spec_caret())
                    &&& rd.wf()
                    &&& rd.source() == self.text()
                    &&& rd.spec_caret() == self.spec_caret()
                },
                Err(e) => Err::<(), Error>(e) == caret_check(self.text(), self.spec_caret()),
            },
    {
        match self.check_caret(self.caret) {
            Ok(()) => Ok(BufferReader { caret: self.caret, buffer: self }),
            Err(e) => Err(e),
        }
    }

    /// The text with `line_sep` between each two lines.
    pub fn save(&self, line_sep: &str) -> (r: String)
        ensures
            r@ == join_lines(self.text(), line_sep@),
    {
        let sep = chars_of(line_sep);
        let mut out = String::new();
        let mut i: usize = 0;
        while i < self.lines.len()
            invariant
                i <= self.lines.len(),
                sep@ == line_sep@,
                out@ == join_lines(self.text().take(i as int), line_sep@),
            decreases self.lines.len() - i,
        {
            let ghost before = out@;
            if i > 0 {
                push_all(&mut out, &sep);
            }
            push_all(&mut out, &self.lines[i]);
            proof {
                let t = self.text().take(i as int + 1);
                assert(t.drop_last() =~= self.text().take(i as int));
                if i == 0 {
                    assert(out@ =~= join_lines(t, line_sep@));
                }
            }
            i = i + 1;
        }
        proof {
            assert(self.text().take(self.lines.len() as int) =~= self.text());
        }
        out
    }
}

/// A read-only cursor over a buffer's text, seen as one sequence of
/// characters in which each line but the last ends with `'\n'`. Its position
/// is its own; the buffer does not change while it is read.
pub struct BufferReader<'a> {
    caret: Location,
    buffer: &'a Buffer,
}

impl<'a> BufferReader<'a> {
    /// The lines of the buffer being read.
    pub closed spec fn source(&self) -> Seq<Seq<char>> {
        self.buffer.text()
    }

    pub closed spec fn spec_caret(&self) -> Location {
        self.caret
    }

    pub open spec fn wf(&self) -> bool {
        self.source().len() >= 1 && caret_valid(self.source(), self.spec_caret())
    }

    /// The text read, as one sequence.
    pub open spec fn chars(&self) -> Seq<char> {
        flat(self.source())
    }

    /// The index in `chars()` of the next character to be read.
    pub open spec fn pos(&self) -> int {
        offset_of(self.source(), self.spec_caret())
    }

    pub fn caret(&self) -> (r: Location)
        ensures
            r == self.spec_caret(),
    {
        self.caret
    }

    /// The character at the position, without moving; `None` at the end.
    pub fn peek(&self) -> (r: Option<char>)
        requires
            self.wf(),
        ensures
            self.pos() < self.chars().len() ==> r == Some(self.chars()[self.pos()]),
            self.pos() >= self.chars().len() ==> r is None,
    {
        proof {
            lemma_flat_at(self.source(), self.caret.y as int, self.caret.x as int);
            lemma_offset_bounds(self.source(), self.caret);
        }
        let line = &self.buffer.lines[self.caret.y];
        if self.caret.x < line.len() {
            Some(line[self.caret.x])
        } else if self.caret.y < self.buffer.lines.len() - 1 {
            Some('\n')
        } else {
            None
        }
    }

    /// Reads the character at the position and moves past it; `None`, not
    /// moving, at the end.
    pub fn next(&mut self) -> (r: Option<char>)
        requires
            old(self).wf(),
        ensures
            final(self).wf(),
            final(self).source() == old(self).source(),
            old(self).pos() < old(self).chars().len() ==> r == Some(old(self).chars()[old(self).pos()])
                && final(self).pos() == old(self).pos() + 1,
            old(self).pos() >= old(self).chars().len() ==> r is None && final(self).spec_caret()
                == old(self).spec_caret(),
    {
        proof {
            lemma_flat_at(self.source(), self.caret.y as int, self.caret.x as int);
            lemma_offset_bounds(self.source(), self.caret);
        }
        let line = &self.buffer.lines[self.caret.y];
        if self.caret.x < line.len() {
            let ch = line[self.caret.x];
            self.caret.x = self.caret.x + 1;
            Some(ch)
        } else if self.caret.y < self.buffer.lines.len() - 1 {
            self.caret = Location { x: 0, y: self.caret.y + 1 };
            Some('\n')
        } else {
            None
        }
    }

    /// Reads the character before the position and moves back over it;
    /// `None`, not moving, at the start.
    pub fn prev(&mut self) -> (r: Option<char>)
        requires
            old(self).wf(),
        ensures
            final(self).wf(),
            final(self).source() == old(self).source(),
            old(self).pos() > 0 ==> r == Some(old(self).chars()[old(self).pos() - 1])
                && final(self).pos() == old(self).pos() - 1,
            old(self).pos() == 0 ==> r is None && final(self).spec_caret() == old(self).spec_caret(),
    {
        proof {
            lemma_offset_bounds(self.source(), self.caret);
            if self.caret.y > 0 {
                lemma_line_start_mono(self.source(), 0, self.caret.y as int);
            }
        }
        if self.caret.x == 0 {
            if self.caret.y == 0 {
                None
            } else {
                let y = self.caret.y - 1;
                let x = self.buffer.lines[y].len();
                proof {
                    lemma_flat_at(self.source(), y as int, x as int);
                }
                self.caret = Location { x, y };
                Some('\n')
            }
        } else {
            proof {
                lemma_flat_at(self.source(), self.caret.y as int, self.caret.x - 1);
            }
            let ch = self.buffer.lines[self.caret.y][self.caret.x - 1];
            self.caret.x = self.caret.x - 1;
            Some(ch)
        }
    }

    /// Moves forward to the first character, from the position on, for
    /// which `f` holds, so that `next` reads it. Fails with `EndOfFile`,
    /// not moving, where no such character is left.
    pub fn skip_until<F: Fn(char) -> bool>(&mut self, f: F) -> (r: Result<(), Error>)
        requires
            old(self).wf(),
            forall|c: char| f.requires((c,)),
        ensures
            final(self).wf(),
            final(self).source() == old(self).source(),
            match r {
                Ok(()) => {
                    &&& old(self).pos() <= final(self).pos() < old(self).chars().len()
                    &&& f.ensures((old(self).chars()[final(self).pos()],), true)
                    &&& forall|k: int|
                        old(self).pos() <= k < final(self).pos() ==> f.ensures(
                            (old(self).chars()[k],),
                            false,
                        )
                },
                Err(e) => {
                    &&& e == Error::EndOfFile
                    &&& final(self).spec_caret() == old(self).spec_caret()
                    &&& forall|k: int|
                        old(self).pos() <= k < old(self).chars().len() ==> f.ensures(
                            (old(self).chars()[k],),
                            false,
                        )
                },
            },
    {
        let origin = self.caret;
        proof {
            lemma_offset_bounds(self.source(), self.caret);
        }
        loop
            invariant
                old(self).wf(),
                self.wf(),
                self.source() == old(self).source(),
                old(self).spec_caret() == origin,
                old(self).pos() <= self.pos() <= self.chars().len(),
                forall|k: int| old(self).pos() <= k < self.pos() ==> f.ensures((old(self).chars()[k],), false),
                forall|c: char| f.requires((c,)),
            decreases self.chars().len() - self.pos(),
        {
            let before = self.caret;
            proof {
                lemma_offset_bounds(self.source(), self.caret);
            }
            match self.next() {
                Some(ch) => {
                    if f(ch) {
                        self.caret = before;
                        return Ok(());
                    }
                },
                None => {
                    self.caret = origin;
                    return Err(Error::EndOfFile);
                },
            }
        }
    }

    /// Moves back to just after the last character, before the position,
    /// for which `f` holds, so that `prev` reads it. Fails with
    /// `EndOfFile`, not moving, where there is no such character.
    pub fn back_until<F: Fn(char) -> bool>(&mut self, f: F) -> (r: Result<(), Error>)
        requires
            old(self).wf(),
            forall|c: char| f.requires((c,)),
        ensures
            final(self).wf(),
            final(self).source() == old(self).source(),
            match r {
                Ok(()) => {
                    &&& 0 < final(self).pos() <= old(self).pos()
                    &&& f.ensures((old(self).chars()[final(self).pos() - 1],), true)
                    &&& forall|k: int|
                        final(self).pos() <= k < old(self).pos() ==> f.ensures(
                            (old(self).chars()[k],),
                            false,
                        )
                },
                Err(e) => {
                    &&& e == Error::EndOfFile
                    &&& final(self).spec_caret() == old(self).spec_caret()
                    &&& forall|k: int|
                        0 <= k < old(self).pos() ==> f.ensures((old(self).chars()[k],), false)
                },
            },
    {
        let origin = self.caret;
        proof {
            lemma_offset_bounds(self.source(), self.caret);
        }
        loop
            invariant
                old(self).wf(),
                self.wf(),
                self.source() == old(self).source(),
                old(self).spec_caret() == origin,
                0 <= self.pos() <= old(self).pos(),
                forall|k: int| self.pos() <= k < old(self).pos() ==> f.ensures((old(self).chars()[k],), false),
                forall|c: char| f.requires((c,)),
            decreases self.pos(),
        {
            let before = self.caret;
            proof {
                lemma_offset_bounds(self.source(), self.caret);
            }
            let ghost head = self.pos();
            match self.prev() {
                Some(ch) => {
                    if f(ch) {
                        self.caret = before;
                        return Ok(());
                    }
                },
                None => {
                    assert(head == 0);
                    self.caret = origin;
                    return Err(Error::EndOfFile);
                },
            }
        }
    }

    /// Moves forward to the next blank character (`skip_until` with
    /// `char::is_whitespace`).
    pub fn skip_until_blank(&mut self) -> (r: Result<(), Error>)
        requires
            old(self).wf(),
        ensures
            final(self).wf(),
            final(self).source() == old(self).source(),
            skip_result(old(self).chars(), old(self).pos(), true, r, final(self).pos(), final(self).spec_caret() == old(self).spec_caret()),
    {
        self.skip_blank_kind(true)
    }

    /// Moves forward to the next character that is not blank.
    pub fn skip_until_not_blank(&mut self) -> (r: Result<(), Error>)
        requires
            old(self).wf(),
        ensures
            final(self).wf(),
            final(self).source() == old(self).source(),
            skip_result(old(self).chars(), old(self).pos(), false, r, final(self).pos(), final(self).spec_caret() == old(self).spec_caret()),
    {
        self.skip_blank_kind(false)
    }

    /// Moves back to just after the previous blank character.
    pub fn back_until_blank(&mut self) -> (r: Result<(), Error>)
        requires
            old(self).wf(),
        ensures
            final(self).wf(),
            final(self).source() == old(self).source(),
            back_result(old(self).chars(), old(self).pos(), true, r, final(self).pos(), final(self).spec_caret() == old(self).spec_caret()),
    {
        self.back_blank_kind(true)
    }

    /// Moves back to just after the previous character that is not blank.
    pub fn back_until_not_blank(&mut self) -> (r: Result<(), Error>)
        requires
            old(self).wf(),
        ensures
            final(self).wf(),
            final(self).source() == old(self).source(),
            back_result(old(self).chars(), old(self).pos(), false, r, final(self).pos(), final(self).spec_caret() == old(self).spec_caret()),
    {
        self.back_blank_kind(false)
    }

    fn skip_blank_kind(&mut self, blank: bool) -> (r: Result<(), Error>)
        requires
            old(self).wf(),
        ensures
            final(self).wf(),
            final(self).source() == old(self).source(),
            skip_result(old(self).chars(), old(self).pos(), blank, r, final(self).pos(), final(self).spec_caret() == old(self).spec_caret()),
    {
        let ghost s = self.chars();
        let ghost p = self.pos();
        proof {
            lemma_offset_bounds(self.source(), self.caret);
        }
        let wanted = |c: char| -> (b: bool)
            ensures
                b == (is_white_space(c) == blank),
            { is_blank(c) == blank };
        let r = self.skip_until(wanted);
        proof {
            if r is Ok {
                lemma_first_from(s, p, blank, self.pos());
            } else {
                lemma_first_from(s, p, blank, s.len() as int);
            }
        }
        r
    }

    fn back_blank_kind(&mut self, blank: bool) -> (r: Result<(), Error>)
        requires
            old(self).wf(),
        ensures
            final(self).wf(),
            final(self).source() == old(self).source(),
            back_result(old(self).chars(), old(self).pos(), blank, r, final(self).pos(), final(self).spec_caret() == old(self).spec_caret()),
    {
        let ghost s = self.chars();
        let ghost p = self.pos();
        proof {
            lemma_offset_bounds(self.source(), self.caret);
        }
        let wanted = |c: char| -> (b: bool)
            ensures
                b == (is_white_space(c) == blank),
            { is_blank(c) == blank };
        let r = self.back_until(wanted);
        proof {
            if r is Ok {
                lemma_last_before(s, p, blank, self.pos() - 1);
            } else {
                lemma_last_before(s, p, blank, -1);
            }
        }
        r
    }
}

/// The characters of `v` from `from` up to, not including, `to`.
pub fn copy_range(v: &Vec<char>, from: usize, to: usize) -> (r: Vec<char>)
    requires
        from <= to <= v.len(),
    ensures
        r@ == v@.subrange(from as int, to as int),
{
    let mut out: Vec<char> = Vec::new();
    let mut i: usize = from;
    while i < to
        invariant
            from <= i <= to <= v.len(),
            out@ == v@.subrange(from as int, i as int),
        decreases to - i,
    {
        out.push(v[i]);
        proof {
            assert(v@.subrange(from as int, i as int + 1) =~= v@.subrange(from as int, i as int).push(v@[i as int]));
        }
        i = i + 1;
    }
    out
}

/// Appends the characters of `v` to `s`.
fn push_all(s: &mut String, v: &Vec<char>)
    ensures
        final(s)@ == old(s)@ + v@,
{
    let mut i: usize = 0;
    while i < v.len()
        invariant
            i <= v.len(),
            s@ == old(s)@ + v@.take(i as int),
        decreases v.len() - i,
    {
        push_char(s, v[i]);
        proof {
            assert(v@.take(i as int + 1) =~= v@.take(i as int).push(v@[i as int]));
        }
        i = i + 1;
    }
    proof {
        assert(v@.take(v.len() as int) =~= v@);
    }
}

} // verus!
