//! The text model: a text as a sequence of lines, each a sequence of
//! characters, and what the buffer's operations do to it.

use vstd::prelude::*;
use crate::error::Error;
use crate::geometry::Location;
use crate::text::{is_control_code, is_white_space};

verus! {

/// The contents of a sequence of lines, each line as its characters.
pub open spec fn view_lines(v: Seq<Vec<char>>) -> Seq<Seq<char>> {
    v.map_values(|l: Vec<char>| l@)
}

/// `loc` names a line of `lines` and a column no further than its end.
pub open spec fn caret_valid(lines: Seq<Seq<char>>, loc: Location) -> bool {
    loc.y < lines.len() && loc.x <= lines[loc.y as int].len()
}

/// The lines of `s`: a line break is `"\r\n"`, a lone `'\n'` or a lone `'\r'`.
pub open spec fn split_lines(s: Seq<char>) -> Seq<Seq<char>>
    decreases s.len(),
{
    if s.len() == 0 {
        seq![Seq::<char>::empty()]
    } else if s.len() >= 2 && s.last() == '\n' && s[s.len() - 2] == '\r' {
        split_lines(s.take(s.len() - 2)).push(Seq::<char>::empty())
    } else if s.last() == '\n' || s.last() == '\r' {
        split_lines(s.drop_last()).push(Seq::<char>::empty())
    } else {
        let p = split_lines(s.drop_last());
        p.update(p.len() - 1, p.last().push(s.last()))
    }
}

/// `lines` joined with `sep` between each two neighbours.
pub open spec fn join_lines(lines: Seq<Seq<char>>, sep: Seq<char>) -> Seq<char>
    decreases lines.len(),
{
    if lines.len() == 0 {
        Seq::<char>::empty()
    } else if lines.len() == 1 {
        lines[0]
    } else {
        join_lines(lines.drop_last(), sep) + sep + lines.last()
    }
}

/// The text as one sequence of characters, lines separated by `'\n'`.
pub open spec fn flat(lines: Seq<Seq<char>>) -> Seq<char> {
    join_lines(lines, seq!['\n'])
}

/// The sum of the character counts of all lines.
pub open spec fn total_chars(lines: Seq<Seq<char>>) -> int
    decreases lines.len(),
{
    if lines.len() == 0 {
        0
    } else {
        total_chars(lines.drop_last()) + lines.last().len()
    }
}

pub proof fn lemma_split_lines_nonempty(s: Seq<char>)
    ensures
        split_lines(s).len() >= 1,
    decreases s.len(),
{
    if s.len() > 0 {
        if s.len() >= 2 && s.last() == '\n' && s[s.len() - 2] == '\r' {
        } else if s.last() == '\n' || s.last() == '\r' {
        } else {
            lemma_split_lines_nonempty(s.drop_last());
        }
    }
}

proof fn lemma_join_push_char(p: Seq<Seq<char>>, c: char, sep: Seq<char>)
    requires
        p.len() >= 1,
    ensures
        join_lines(p.update(p.len() - 1, p.last().push(c)), sep) == join_lines(p, sep).push(c),
{
    let q = p.update(p.len() - 1, p.last().push(c));
    if p.len() >= 2 {
        assert(q.drop_last() =~= p.drop_last());
        assert(join_lines(q, sep) =~= join_lines(p, sep).push(c));
    }
}

/// Loading a text whose only line separator is `'\n'` and saving it with
/// `'\n'` gives the same text back; the empty text loads as one empty line
/// and saves as the empty text.
pub proof fn lemma_load_save_round_trip(s: Seq<char>)
    requires
        forall|i: int| 0 <= i < s.len() ==> s[i] != '\r',
    ensures
        join_lines(split_lines(s), seq!['\n']) == s,
    decreases s.len(),
{
    if s.len() > 0 {
        let d = s.drop_last();
        assert forall|i: int| 0 <= i < d.len() implies d[i] != '\r' by {
            assert(d[i] == s[i]);
        }
        lemma_load_save_round_trip(d);
        lemma_split_lines_nonempty(d);
        if s.last() == '\n' {
            assert(s[s.len() - 1] != '\r');
            if s.len() >= 2 {
                assert(s[s.len() - 2] != '\r');
            }
            let p = split_lines(d).push(Seq::<char>::empty());
            assert(p.drop_last() =~= split_lines(d));
            assert(join_lines(p, seq!['\n']) =~= s);
        } else {
            lemma_join_push_char(split_lines(d), s.last(), seq!['\n']);
            assert(d.push(s.last()) =~= s);
        }
    }
}

pub proof fn lemma_total_chars_prefix(lines: Seq<Seq<char>>, i: int)
    requires
        0 <= i <= lines.len(),
    ensures
        total_chars(lines.take(i)) <= total_chars(lines),
    decreases lines.len() - i,
{
    if i < lines.len() {
        lemma_total_chars_prefix(lines, i + 1);
        assert(lines.take(i + 1).drop_last() =~= lines.take(i));
    } else {
        assert(lines.take(i) =~= lines);
    }
}

/// The joined text is as long as all lines and the separators between them.
pub proof fn lemma_flat_len(lines: Seq<Seq<char>>)
    requires
        lines.len() >= 1,
    ensures
        flat(lines).len() == total_chars(lines) + lines.len() - 1,
    decreases lines.len(),
{
    let d = lines.drop_last();
    if lines.len() > 1 {
        lemma_flat_len(d);
        assert(flat(lines) == flat(d) + seq!['\n'] + lines.last());
    } else {
        assert(total_chars(d) == 0);
        assert(flat(lines) == lines[0]);
    }
}

/// The outcome of checking `loc` against `lines`: the row is checked first,
/// then the column.
pub open spec fn caret_check(lines: Seq<Seq<char>>, loc: Location) -> Result<(), Error> {
    if loc.y >= lines.len() {
        Err(Error::CaretOutOfHeight { caret: loc.y, height: lines.len() as usize })
    } else if loc.x > lines[loc.y as int].len() {
        Err(Error::CaretOutOfLen { caret: loc.x, len: lines[loc.y as int].len() as usize })
    } else {
        Ok(())
    }
}

/// Writing one character `c` at `caret`.
pub open spec fn write_step(lines: Seq<Seq<char>>, caret: Location, c: char) -> (
    Seq<Seq<char>>,
    Location,
) {
    let line = lines[caret.y as int];
    if !is_control_code(c) && c != '\r' {
        (
            lines.update(caret.y as int, line.insert(caret.x as int, c)),
            Location { x: (caret.x + 1) as usize, y: caret.y },
        )
    } else if c == '\n' {
        (
            lines.update(caret.y as int, line.take(caret.x as int)).insert(
                caret.y + 1,
                line.skip(caret.x as int),
            ),
            Location { x: 0, y: (caret.y + 1) as usize },
        )
    } else {
        (lines, caret)
    }
}

/// Writing the characters of `s` one after another, starting at `caret`.
pub open spec fn write_all(lines: Seq<Seq<char>>, caret: Location, s: Seq<char>) -> (
    Seq<Seq<char>>,
    Location,
)
    decreases s.len(),
{
    if s.len() == 0 {
        (lines, caret)
    } else {
        let (l, c) = write_step(lines, caret, s[0]);
        write_all(l, c, s.drop_first())
    }
}

/// Where line `y` starts in `flat(lines)`.
pub open spec fn line_start(lines: Seq<Seq<char>>, y: int) -> int
    decreases y,
{
    if y <= 0 {
        0
    } else {
        line_start(lines, y - 1) + lines[y - 1].len() + 1
    }
}

/// The index in `flat(lines)` of the character at `loc`.
pub open spec fn offset_of(lines: Seq<Seq<char>>, loc: Location) -> int {
    line_start(lines, loc.y as int) + loc.x
}

proof fn lemma_line_start_drop_last(lines: Seq<Seq<char>>, y: int)
    requires
        0 <= y < lines.len(),
    ensures
        line_start(lines.drop_last(), y) == line_start(lines, y),
    decreases y,
{
    if y > 0 {
        lemma_line_start_drop_last(lines, y - 1);
    }
}

pub proof fn lemma_line_start_mono(lines: Seq<Seq<char>>, y: int, b: int)
    requires
        0 <= y < b <= lines.len(),
    ensures
        line_start(lines, y) + lines[y].len() + 1 <= line_start(lines, b),
    decreases b,
{
    if y < b - 1 {
        lemma_line_start_mono(lines, y, b - 1);
    }
}

/// The joined text ends where the last line ends.
pub proof fn lemma_flat_end(lines: Seq<Seq<char>>)
    requires
        lines.len() >= 1,
    ensures
        flat(lines).len() == line_start(lines, lines.len() - 1) + lines.last().len(),
    decreases lines.len(),
{
    let n = lines.len();
    if n > 1 {
        let d = lines.drop_last();
        lemma_flat_end(d);
        lemma_line_start_drop_last(lines, n - 2);
        assert(flat(lines) == flat(d) + seq!['\n'] + lines.last());
    } else {
        assert(flat(lines) == lines[0]);
    }
}

/// The character at `(x, y)` in the joined text: the line's own character
/// before its end, and `'\n'` at the end of every line but the last.
pub proof fn lemma_flat_at(lines: Seq<Seq<char>>, y: int, x: int)
    requires
        0 <= y < lines.len(),
        0 <= x <= lines[y].len(),
    ensures
        x < lines[y].len() ==> flat(lines)[line_start(lines, y) + x] == lines[y][x],
        x == lines[y].len() && y < lines.len() - 1 ==> flat(lines)[line_start(lines, y) + x] == '\n',
    decreases lines.len(),
{
    let n = lines.len();
    let i = line_start(lines, y) + x;
    lemma_line_start_nonneg(lines, y);
    if n == 1 {
        assert(flat(lines) == lines[0]);
    } else {
        let d = lines.drop_last();
        let f = flat(lines);
        assert(f == flat(d) + seq!['\n'] + lines.last());
        lemma_flat_end(d);
        lemma_line_start_drop_last(lines, n - 2);
        if y < n - 1 {
            lemma_line_start_drop_last(lines, y);
            if y < n - 2 {
                lemma_line_start_mono(d, y, n - 2);
            }
            assert(d[y] == lines[y]);
            lemma_flat_at(d, y, x);
            if x < lines[y].len() {
                assert(i < flat(d).len());
                assert(f[i] == flat(d)[i]);
            } else if y < n - 2 {
                assert(i < flat(d).len());
                assert(f[i] == flat(d)[i]);
            } else {
                assert(i == flat(d).len());
            }
        } else {
            assert(line_start(lines, n - 1) == line_start(lines, n - 2) + lines[n - 2].len() + 1);
            assert(d[n - 2] == lines[n - 2]);
            assert(i == flat(d).len() + 1 + x);
            if x < lines[y].len() {
                assert(f[i] == lines.last()[x]);
            }
        }
    }
}

/// Every valid location lies within the joined text, at most at its end.
pub proof fn lemma_offset_bounds(lines: Seq<Seq<char>>, loc: Location)
    requires
        caret_valid(lines, loc),
    ensures
        0 <= offset_of(lines, loc) <= flat(lines).len(),
        offset_of(lines, loc) == flat(lines).len() <==> loc.y == lines.len() - 1 && loc.x
            == lines[loc.y as int].len(),
{
    lemma_line_start_nonneg(lines, loc.y as int);
    lemma_flat_end(lines);
    if loc.y < lines.len() - 1 {
        lemma_line_start_mono(lines, loc.y as int, lines.len() - 1);
    }
}

proof fn lemma_line_start_nonneg(lines: Seq<Seq<char>>, y: int)
    ensures
        line_start(lines, y) >= 0,
    decreases y,
{
    if y > 0 {
        lemma_line_start_nonneg(lines, y - 1);
    }
}

/// The first index `j >= p` of `s` whose character is blank (`blank`) or
/// not blank (`!blank`); `s.len()` where there is none.
pub open spec fn first_from(s: Seq<char>, p: int, blank: bool) -> int
    decreases s.len() - p,
{
    if p >= s.len() {
        s.len() as int
    } else if is_white_space(s[p]) == blank {
        p
    } else {
        first_from(s, p + 1, blank)
    }
}

/// The last index `j < p` of `s` whose character is blank (`blank`) or not
/// blank (`!blank`); `-1` where there is none.
pub open spec fn last_before(s: Seq<char>, p: int, blank: bool) -> int
    decreases p,
{
    if p <= 0 {
        -1
    } else if is_white_space(s[p - 1]) == blank {
        p - 1
    } else {
        last_before(s, p - 1, blank)
    }
}

/// `first_from` is the one index that has the wanted kind and no index of
/// that kind before it.
pub proof fn lemma_first_from(s: Seq<char>, p: int, blank: bool, q: int)
    requires
        0 <= p <= s.len(),
        p <= q <= s.len(),
        q < s.len() ==> is_white_space(s[q]) == blank,
        forall|k: int| p <= k < q ==> is_white_space(s[k]) != blank,
    ensures
        first_from(s, p, blank) == q,
    decreases s.len() - p,
{
    if p < s.len() && p < q {
        lemma_first_from(s, p + 1, blank, q);
    }
}

/// `last_before` is the one index that has the wanted kind and no index of
/// that kind after it.
pub proof fn lemma_last_before(s: Seq<char>, p: int, blank: bool, q: int)
    requires
        0 <= p <= s.len(),
        -1 <= q < p,
        q >= 0 ==> is_white_space(s[q]) == blank,
        forall|k: int| q < k < p ==> is_white_space(s[k]) != blank,
    ensures
        last_before(s, p, blank) == q,
    decreases p,
{
    if p > 0 && q < p - 1 {
        lemma_last_before(s, p - 1, blank, q);
    }
}

/// The outcome of a forward scan from `p` for a blank (`blank`) or non-blank
/// character: success at `first_from`, or `EndOfFile` without moving
/// (`unmoved`) where there is none.
pub open spec fn skip_result(s: Seq<char>, p: int, blank: bool, r: Result<(), Error>, q: int, unmoved: bool) -> bool {
    let j = first_from(s, p, blank);
    if j < s.len() {
        r is Ok && q == j
    } else {
        r == Err::<(), Error>(Error::EndOfFile) && unmoved
    }
}

/// The outcome of a backward scan from `p`: success just after
/// `last_before`, or `EndOfFile` without moving where there is none.
pub open spec fn back_result(s: Seq<char>, p: int, blank: bool, r: Result<(), Error>, q: int, unmoved: bool) -> bool {
    let j = last_before(s, p, blank);
    if j >= 0 {
        r is Ok && q == j + 1
    } else {
        r == Err::<(), Error>(Error::EndOfFile) && unmoved
    }
}

/// Deleting the character before `caret`: within a line it goes and the
/// caret steps back; at a line start the line joins the one above and the
/// caret goes to the join.
pub open spec fn del_step(lines: Seq<Seq<char>>, caret: Location) -> (Seq<Seq<char>>, Location) {
    let y = caret.y as int;
    if caret.x > 0 {
        (lines.update(y, lines[y].remove(caret.x - 1)), Location { x: (caret.x - 1) as usize, y: caret.y })
    } else {
        (
            lines.update(y - 1, lines[y - 1] + lines[y]).remove(y),
            Location { x: lines[y - 1].len() as usize, y: (caret.y - 1) as usize },
        )
    }
}

/// The end of the last line.
pub open spec fn end_of(lines: Seq<Seq<char>>) -> Location {
    Location { x: lines.last().len() as usize, y: (lines.len() - 1) as usize }
}

/// `lines` followed by empty lines up to a count of `n`, where it has fewer.
pub open spec fn padded_to(lines: Seq<Seq<char>>, n: int) -> Seq<Seq<char>> {
    if lines.len() >= n {
        lines
    } else {
        lines + Seq::new((n - lines.len()) as nat, |i: int| Seq::<char>::empty())
    }
}

} // verus!
