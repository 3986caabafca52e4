//! A one-row status line whose text is packed to the left, the centre or
//! the right.

use vstd::prelude::*;
use crate::buffer::copy_range;
use crate::editarea::min;
use crate::geometry::{Area, Location};
use crate::text::chars_of;

verus! {

/// The blank columns kept at each side of the status line.
pub const HORIZONTAL_PADDING: usize = 2;

/// Where the status text goes in its row.
#[derive(Debug, Clone, Copy, PartialEq, Eq, Structural)]
pub enum Packing {
    /// Centred.
    Center,
    /// Against the left edge, inside the left and right padding; the
    /// padding is dropped where the row is not wider than both together.
    Left(usize, usize),
    /// Against the right edge, inside the left and right padding; the
    /// padding is dropped where the row is not wider than both together.
    Right(usize, usize),
}

/// The width available to the text and the column where it starts, for a
/// row `width` wide starting at column `start` and a text `len` long.
pub open spec fn packed(width: int, start: int, len: int, p: Packing) -> (int, int) {
    match p {
        Packing::Center => {
            let shown = min(len, width);
            (shown, start + (width / 2 - shown / 2))
        },
        Packing::Left(l, r) => {
            if width > l + r {
                (width - l - r, start + l)
            } else {
                (width, start)
            }
        },
        Packing::Right(l, r) => {
            if width > l + r {
                let avail = width - l - r;
                (avail, start + width - r - min(len, avail))
            } else {
                (width, start + width - min(len, width))
            }
        },
    }
}

/// A single-row region, its text, how the text is packed and whether a
/// repaint is owed.
#[derive(Debug)]
pub struct StatusBar {
    display_area: Area,
    content: Vec<char>,
    content_packing: Packing,
    need_printing: bool,
}

impl StatusBar {
    pub closed spec fn spec_area(&self) -> Area {
        self.display_area
    }

    pub closed spec fn spec_content(&self) -> Seq<char> {
        self.content@
    }

    pub closed spec fn spec_packing(&self) -> Packing {
        self.content_packing
    }

    pub closed spec fn spec_need_printing(&self) -> bool {
        self.need_printing
    }

    /// No text, centred, in an empty area at the origin.
    pub fn new() -> (r: StatusBar)
        ensures
            r.spec_area().spec_left_top() == (Location { x: 0, y: 0 }),
            r.spec_area().spec_size().width == 0,
            r.spec_content().len() == 0,
            r.spec_packing() == Packing::Center,
            !r.spec_need_printing(),
    {
        StatusBar {
            display_area: Area::new(0, 0, 0, 0),
            content: Vec::new(),
            content_packing: Packing::Center,
            need_printing: false,
        }
    }

    pub fn set_packing(&mut self, packing: Packing)
        ensures
            final(self).spec_packing() == packing,
            final(self).spec_area() == old(self).spec_area(),
            final(self).spec_content() == old(self).spec_content(),
            final(self).spec_need_printing() == old(self).spec_need_printing(),
    {
        self.content_packing = packing;
    }

    /// Sets the text; a repaint is owed where it differs from the old one.
    pub fn set_content(&mut self, s: String)
        ensures
            final(self).spec_content() == s@,
            final(self).spec_need_printing() == (old(self).spec_need_printing() || old(self).spec_content() != s@),
            final(self).spec_area() == old(self).spec_area(),
            final(self).spec_packing() == old(self).spec_packing(),
    {
        let chars = chars_of(s.as_str());
        if !same_chars(&self.content, &chars) {
            self.need_printing = true;
        }
        self.content = chars;
    }

    /// Takes the row of `display_area`'s top-left corner, from its column
    /// on, `display_area`'s width wide, and marks a repaint as owed.
    pub fn configure_area(&mut self, display_area: Area)
        ensures
            final(self).spec_area() == display_area,
            final(self).spec_content() == old(self).spec_content(),
            final(self).spec_packing() == old(self).spec_packing(),
            final(self).spec_need_printing(),
    {
        self.display_area = display_area;
        self.need_printing = true;
    }

    pub fn need_printing(&self) -> (r: bool)
        ensures
            r == self.spec_need_printing(),
    {
        self.need_printing
    }

    pub fn set_need_printing(&mut self)
        ensures
            final(self).spec_need_printing(),
            final(self).spec_area() == old(self).spec_area(),
            final(self).spec_content() == old(self).spec_content(),
            final(self).spec_packing() == old(self).spec_packing(),
    {
        self.need_printing = true;
    }

    pub fn unset_need_printing(&mut self)
        ensures
            !final(self).spec_need_printing(),
            final(self).spec_area() == old(self).spec_area(),
            final(self).spec_content() == old(self).spec_content(),
            final(self).spec_packing() == old(self).spec_packing(),
    {
        self.need_printing = false;
    }

    pub fn display_area(&self) -> (r: Area)
        ensures
            r == self.spec_area(),
    {
        self.display_area
    }

    /// Where the text starts and what of it shows: the text cut to the
    /// available width, at the column the packing gives (see `packed`).
    pub fn layout(&self) -> (r: (Location, Vec<char>))
        ensures
            ({
                let w = self.spec_area().spec_size().width as int;
                let start = self.spec_area().spec_left_top().x as int;
                let len = self.spec_content().len() as int;
                let (avail, col) = packed(w, start, len, self.spec_packing());
                &&& r.0 == (Location { x: col as usize, y: self.spec_area().spec_left_top().y })
                &&& r.1@ == self.spec_content().take(min(avail, len))
            }),
    {
        proof {
            use_type_invariant(&self.display_area);
        }
        let w = self.display_area.width();
        let start = self.display_area.x();
        let len = self.content.len();
        let (avail, col) = match self.content_packing {
            Packing::Center => {
                let shown = if len < w { len } else { w };
                (shown, start + (w / 2 - shown / 2))
            },
            Packing::Left(l, r) => {
                if w > l && w - l > r {
                    (w - l - r, start + l)
                } else {
                    (w, start)
                }
            },
            Packing::Right(l, r) => {
                if w > l && w - l > r {
                    let avail = w - l - r;
                    let shown = if len < avail { len } else { avail };
                    (avail, start + w - r - shown)
                } else {
                    let shown = if len < w { len } else { w };
                    (w, start + w - shown)
                }
            },
        };
        let end = if avail < len { avail } else { len };
        proof {
            assert(self.content@.subrange(0, end as int) =~= self.content@.take(end as int));
        }
        (Location { x: col, y: self.display_area.y() }, copy_range(&self.content, 0, end))
    }
}

/// Whether `a` and `b` hold the same characters.
fn same_chars(a: &Vec<char>, b: &Vec<char>) -> (r: bool)
    ensures
        r == (a@ == b@),
{
    if a.len() != b.len() {
        return false;
    }
    let mut i: usize = 0;
    while i < a.len()
        invariant
            a.len() == b.len(),
            i <= a.len(),
            forall|k: int| 0 <= k < i ==> a@[k] == b@[k],
        decreases a.len() - i,
    {
        if a[i] != b[i] {
            return false;
        }
        i = i + 1;
    }
    assert(a@ =~= b@);
    true
}

} // verus!
