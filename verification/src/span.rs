//! Positions in a source text, and the citation of a stretch of it: the lines it touches,
//! each followed by a row of marks.

use vstd::prelude::*;
use vstd::std_specs::iter::IteratorSpec;
use vstd::string::*;

verus! {

/// Positions of the line feeds of `text`, in ascending order.
pub open spec fn newlines(text: Seq<char>) -> Seq<u32>
    decreases text.len(),
{
    if text.len() == 0 {
        Seq::empty()
    } else if text.last() == '\n' {
        newlines(text.drop_last()).push((text.len() - 1) as u32)
    } else {
        newlines(text.drop_last())
    }
}

/// Each bound lies below the next.
pub open spec fn ascending(bounds: Seq<u32>) -> bool {
    forall|i: int, j: int| 0 <= i < j < bounds.len() ==> bounds[i] < bounds[j]
}

/// How many of `bounds` lie below `p`.
pub open spec fn bounds_below(bounds: Seq<u32>, p: int) -> int
    decreases bounds.len(),
{
    if bounds.len() == 0 {
        0
    } else {
        bounds_below(bounds.drop_last(), p) + if bounds.last() < p {
            1int
        } else {
            0int
        }
    }
}

/// The place of position `p` in a text whose line feeds stand at `bounds`. Lines count from 1.
/// On the first line the offset is `p` itself; on a later line it is the distance from the
/// line feed that ends the line before.
pub open spec fn span_at(bounds: Seq<u32>, p: int) -> Span {
    let k = bounds_below(bounds, p);
    Span {
        line: (k + 1) as u32,
        ch_in_line: if k == 0 {
            p as u32
        } else {
            (p - bounds[k - 1]) as u32
        },
        abs_ch: p as u32,
    }
}

/// The line feeds of a text are ascending, lie inside the text, and are exactly the positions
/// that hold a line feed.
pub proof fn newlines_are_ascending(text: Seq<char>)
    requires
        text.len() <= u32::MAX,
    ensures
        ascending(newlines(text)),
        newlines(text).len() <= text.len(),
        forall|i: int| 0 <= i < newlines(text).len() ==> (#[trigger] newlines(text)[i]) < text.len(),
        forall|i: int|
            0 <= i < newlines(text).len() ==> text[(#[trigger] newlines(text)[i]) as int] == '\n',
        forall|p: int|
            0 <= p < text.len() && text[p] == '\n' ==> newlines(text).contains(p as u32),
    decreases text.len(),
{
    if text.len() > 0 {
        let head = text.drop_last();
        newlines_are_ascending(head);
        let last = (text.len() - 1) as u32;
        assert forall|p: int| 0 <= p < text.len() && text[p] == '\n' implies newlines(
            text,
        ).contains(p as u32) by {
            if p < text.len() - 1 {
                assert(head[p] == '\n');
                let k = choose|k: int| 0 <= k < newlines(head).len() && newlines(head)[k] == p as u32;
                assert(newlines(text)[k] == p as u32);
            } else {
                assert(newlines(text)[newlines(head).len() as int] == last);
            }
        }
    }
}

/// In ascending bounds, the number of bounds below `p` is the index of the first bound that
/// is not below it.
pub proof fn bounds_below_is_split(bounds: Seq<u32>, p: int, k: int)
    requires
        ascending(bounds),
        0 <= k <= bounds.len(),
        forall|i: int| 0 <= i < k ==> bounds[i] < p,
        forall|i: int| k <= i < bounds.len() ==> bounds[i] >= p,
    ensures
        bounds_below(bounds, p) == k,
    decreases bounds.len(),
{
    if bounds.len() > 0 {
        let head = bounds.drop_last();
        if k == bounds.len() {
            bounds_below_is_split(head, p, k - 1);
        } else {
            bounds_below_is_split(head, p, k);
        }
    }
}

/// Where a position lies: its line, its offset in that line, and the position itself.
#[derive(Debug, Clone, Copy)]
pub struct Span {
    pub line: u32,
    pub ch_in_line: u32,
    pub abs_ch: u32,
}

/// The line feeds of one text, kept for looking positions up.
pub struct Liner {
    line_bounds: Vec<u32>,
}

impl Liner {
    /// The positions of the line feeds.
    pub closed spec fn bounds(&self) -> Seq<u32> {
        self.line_bounds@
    }

    /// The bounds are ascending.
    pub open spec fn wf(&self) -> bool {
        ascending(self.bounds())
    }

    /// Records the line feeds of `source`.
    pub fn from_str(source: &str) -> (liner: Self)
        requires
            source@.len() <= u32::MAX,
        ensures
            liner.bounds() == newlines(source@),
            liner.wf(),
    {
        broadcast use vstd::string::group_string_axioms;

        let mut line_bounds: Vec<u32> = Vec::new();
        let mut chars = source.chars();
        let mut idx: u32 = 0;
        loop
            invariant
                idx <= source@.len() <= u32::MAX,
                chars.obeys_prophetic_iter_laws(),
                chars.remaining() == source@.subrange(idx as int, source@.len() as int),
                line_bounds@ == newlines(source@.subrange(0, idx as int)),
            ensures
                line_bounds@ == newlines(source@),
            decreases source@.len() - idx,
        {
            match chars.next() {
                None => {
                    assert(source@.subrange(0, idx as int) == source@);
                    break ;
                },
                Some(ch) => {
                    proof {
                        let now = source@.subrange(0, idx + 1);
                        assert(now.drop_last() == source@.subrange(0, idx as int));
                        assert(now.last() == ch);
                    }
                    if ch == '\n' {
                        line_bounds.push(idx);
                    }
                    idx = idx + 1;
                },
            }
        }
        proof {
            newlines_are_ascending(source@);
        }
        Liner { line_bounds }
    }

    /// The number of line feeds.
    pub fn count(&self) -> (n: usize)
        ensures
            n == self.bounds().len(),
    {
        self.line_bounds.len()
    }

    /// The position of line feed `i`.
    pub fn bound(&self, i: usize) -> (b: u32)
        requires
            i < self.bounds().len(),
        ensures
            b == self.bounds()[i as int],
    {
        self.line_bounds[i]
    }

    /// The place of `abs_pos`.
    pub fn get_span(&self, abs_pos: usize) -> (span: Span)
        requires
            self.wf(),
            abs_pos < u32::MAX,
        ensures
            span == span_at(self.bounds(), abs_pos as int),
    {
        let target: u32 = abs_pos as u32;
        let mut lo: usize = 0;
        let mut hi: usize = self.line_bounds.len();
        while lo < hi
            invariant
                self.wf(),
                0 <= lo <= hi <= self.line_bounds@.len(),
                forall|i: int| 0 <= i < lo ==> self.line_bounds@[i] < target,
                forall|i: int| hi <= i < self.line_bounds@.len() ==> self.line_bounds@[i] >= target,
            decreases hi - lo,
        {
            let mid = lo + (hi - lo) / 2;
            if self.line_bounds[mid] < target {
                assert forall|i: int| 0 <= i < mid + 1 implies self.line_bounds@[i] < target by {
                    if i < mid {
                        assert(self.line_bounds@[i] < self.line_bounds@[mid as int]);
                    }
                }
                lo = mid + 1;
            } else {
                assert forall|i: int| mid <= i < self.line_bounds@.len() implies self.line_bounds@[i]
                    >= target by {
                    if i > mid {
                        assert(self.line_bounds@[mid as int] < self.line_bounds@[i]);
                    }
                }
                hi = mid;
            }
        }
        proof {
            bounds_below_is_split(self.line_bounds@, abs_pos as int, lo as int);
            if lo > 0 {
                // ascending bounds lie at or above their own index
                bound_at_least_index(self.line_bounds@, lo - 1);
            }
        }
        let ch_in_line = if lo == 0 {
            target
        } else {
            target - self.line_bounds[lo - 1]
        };
        Span { line: lo as u32 + 1, ch_in_line, abs_ch: target }
    }
}

/// An ascending bound is at least its own index.
pub proof fn bound_at_least_index(bounds: Seq<u32>, i: int)
    requires
        ascending(bounds),
        0 <= i < bounds.len(),
    ensures
        bounds[i] >= i,
    decreases i,
{
    if i > 0 {
        bound_at_least_index(bounds, i - 1);
        assert(bounds[i - 1] < bounds[i]);
    }
}

/// `piece` written `n` times over.
pub open spec fn repeated(piece: Seq<char>, n: nat) -> Seq<char>
    decreases n,
{
    if n == 0 {
        Seq::empty()
    } else {
        repeated(piece, (n - 1) as nat) + piece
    }
}

/// The digit `d` as text.
pub open spec fn digit_text(d: nat) -> Seq<char> {
    if d == 0 {
        "0"@
    } else if d == 1 {
        "1"@
    } else if d == 2 {
        "2"@
    } else if d == 3 {
        "3"@
    } else if d == 4 {
        "4"@
    } else if d == 5 {
        "5"@
    } else if d == 6 {
        "6"@
    } else if d == 7 {
        "7"@
    } else if d == 8 {
        "8"@
    } else {
        "9"@
    }
}

/// `n` in decimal, without leading zeros.
pub open spec fn decimal_text(n: nat) -> Seq<char>
    decreases n,
{
    if n < 10 {
        digit_text(n)
    } else {
        decimal_text(n / 10) + digit_text(n % 10)
    }
}

/// How many lines a text has: one for each line feed, and one more for what follows the last
/// line feed unless nothing follows it.
pub open spec fn line_count(text: Seq<char>) -> int {
    if text.len() == 0 || text.last() == '\n' {
        newlines(text).len() as int
    } else {
        newlines(text).len() as int + 1
    }
}

/// Where line `i` (from 0) starts.
pub open spec fn line_start(text: Seq<char>, i: int) -> int {
    if i == 0 {
        0
    } else {
        newlines(text)[i - 1] + 1
    }
}

/// Where line `i` (from 0) ends: before its line feed, and before the carriage return in
/// front of that, if there is one.
pub open spec fn line_end(text: Seq<char>, i: int) -> int {
    if i < newlines(text).len() {
        let feed = newlines(text)[i] as int;
        if feed > line_start(text, i) && text[feed - 1] == '\r' {
            feed - 1
        } else {
            feed
        }
    } else {
        text.len() as int
    }
}

/// The text of line `i` (from 0).
pub open spec fn line_text(text: Seq<char>, i: int) -> Seq<char> {
    text.subrange(line_start(text, i), line_end(text, i))
}

/// What the citation holds for line `i` (from 0): nothing unless the line lies between the
/// lines of `st` and `en`; else the line behind its number, and under it a row of marks. On
/// the line of `st` the marks run from the offset of `st` to the end of the line, on the line
/// of `en` (where that is another line) from the start of the line to the offset of `en`, and
/// on a line between them under the whole line, with no line feed after them.
pub open spec fn cite_line(text: Seq<char>, i: int, st: Span, en: Span) -> Seq<char> {
    let l = line_text(text, i);
    let lino = i + 1;
    if st.line <= lino <= en.line {
        let head = " "@ + decimal_text(lino as nat) + " | "@ + l + "\n"@ + "   | "@;
        if lino == st.line {
            let marks = if l.len() >= st.ch_in_line {
                (l.len() - st.ch_in_line) as nat
            } else {
                0nat
            };
            head + repeated(" "@, st.ch_in_line as nat) + repeated("^"@, marks) + "\n"@
        } else if lino == en.line {
            head + repeated("^"@, en.ch_in_line as nat) + "\n"@
        } else {
            head + repeated("^"@, l.len())
        }
    } else {
        Seq::empty()
    }
}

/// The citation for the first `n` lines.
pub open spec fn cite_lines(text: Seq<char>, n: int, st: Span, en: Span) -> Seq<char>
    decreases n,
{
    if n <= 0 {
        Seq::empty()
    } else {
        cite_lines(text, n - 1, st, en) + cite_line(text, n - 1, st, en)
    }
}

/// The citation of the stretch of `text` from `st_pos` to `en_pos`.
pub open spec fn cite_text(text: Seq<char>, st_pos: int, en_pos: int) -> Seq<char> {
    cite_lines(
        text,
        line_count(text),
        span_at(newlines(text), st_pos),
        span_at(newlines(text), en_pos),
    )
}

fn digit_str(d: u32) -> (s: &'static str)
    requires
        d < 10,
    ensures
        s@ == digit_text(d as nat),
{
    if d == 0 {
        "0"
    } else if d == 1 {
        "1"
    } else if d == 2 {
        "2"
    } else if d == 3 {
        "3"
    } else if d == 4 {
        "4"
    } else if d == 5 {
        "5"
    } else if d == 6 {
        "6"
    } else if d == 7 {
        "7"
    } else if d == 8 {
        "8"
    } else {
        "9"
    }
}

/// Appends `n` in decimal to `out`.
pub fn push_decimal(out: &mut String, n: u32)
    ensures
        final(out)@ == old(out)@ + decimal_text(n as nat),
    decreases n,
{
    if n < 10 {
        out.append(digit_str(n));
    } else {
        push_decimal(out, n / 10);
        out.append(digit_str(n % 10));
        assert(old(out)@ + decimal_text((n / 10) as nat) + digit_text((n % 10) as nat) =~= old(
            out,
        )@ + (decimal_text((n / 10) as nat) + digit_text((n % 10) as nat)));
    }
}

/// Appends `piece` to `out`, `n` times over.
pub fn push_repeated(out: &mut String, piece: &str, n: u32)
    ensures
        final(out)@ == old(out)@ + repeated(piece@, n as nat),
{
    let mut i: u32 = 0;
    assert(out@ =~= old(out)@ + repeated(piece@, 0));
    while i < n
        invariant
            i <= n,
            out@ == old(out)@ + repeated(piece@, i as nat),
        decreases n - i,
    {
        out.append(piece);
        i = i + 1;
        assert(old(out)@ + repeated(piece@, (i - 1) as nat) + piece@ =~= old(out)@ + (repeated(
            piece@,
            (i - 1) as nat,
        ) + piece@));
    }
}

/// Where line `i` (from 0) of `source` starts and ends.
fn line_limits(source: &str, lin: &Liner, i: usize) -> (limits: (usize, usize))
    requires
        source@.len() < u32::MAX,
        lin.bounds() == newlines(source@),
        i < line_count(source@),
    ensures
        limits.0 == line_start(source@, i as int),
        limits.1 == line_end(source@, i as int),
        limits.0 <= limits.1 <= source@.len(),
{
    proof {
        newlines_are_ascending(source@);
    }
    let feeds = lin.count();
    let from: usize = if i == 0 {
        0
    } else {
        lin.bound(i - 1) as usize + 1
    };
    if i < feeds {
        let feed = lin.bound(i) as usize;
        proof {
            if i > 0 {
                assert(newlines(source@)[i - 1] < newlines(source@)[i as int]);
            }
        }
        if feed > from && source.get_char(feed - 1) == '\r' {
            (from, feed - 1)
        } else {
            (from, feed)
        }
    } else {
        (from, source.unicode_len())
    }
}

/// Appends to `res` what the citation holds for line `i` (from 0).
fn push_cite_line(res: &mut String, source: &str, lin: &Liner, i: usize, st: Span, en: Span)
    requires
        source@.len() < u32::MAX,
        lin.bounds() == newlines(source@),
        i < line_count(source@),
    ensures
        final(res)@ == old(res)@ + cite_line(source@, i as int, st, en),
{
    proof {
        newlines_are_ascending(source@);
    }
    let lino: u32 = i as u32 + 1;
    if lino >= st.line && lino <= en.line {
        let (from, to) = line_limits(source, lin, i);
        let l = source.substring_char(from, to);
        let width: u32 = (to - from) as u32;
        let ghost before = res@;
        res.append(" ");
        push_decimal(res, lino);
        res.append(" | ");
        res.append(l);
        res.append("\n");
        res.append("   | ");
        let ghost head = " "@ + decimal_text(lino as nat) + " | "@ + l@ + "\n"@ + "   | "@;
        assert(res@ =~= before + head);
        if lino == st.line {
            let marks: u32 = if width >= st.ch_in_line {
                width - st.ch_in_line
            } else {
                0
            };
            push_repeated(res, " ", st.ch_in_line);
            push_repeated(res, "^", marks);
            res.append("\n");
            assert(res@ =~= before + (head + repeated(" "@, st.ch_in_line as nat) + repeated(
                "^"@,
                marks as nat,
            ) + "\n"@));
        } else if lino == en.line {
            push_repeated(res, "^", en.ch_in_line);
            res.append("\n");
            assert(res@ =~= before + (head + repeated("^"@, en.ch_in_line as nat) + "\n"@));
        } else {
            push_repeated(res, "^", width);
            assert(res@ =~= before + (head + repeated("^"@, width as nat)));
        }
    } else {
        assert(res@ + Seq::<char>::empty() =~= res@);
    }
}

/// How many lines `source` has.
fn count_lines(source: &str, lin: &Liner) -> (lines: usize)
    requires
        source@.len() < u32::MAX,
        lin.bounds() == newlines(source@),
    ensures
        lines == line_count(source@),
{
    let feeds = lin.count();
    let total_chars = source.unicode_len();
    proof {
        newlines_are_ascending(source@);
        let text = source@;
        if text.len() > 0 && text.last() != '\n' {
            assert(newlines(text) == newlines(text.drop_last()));
            newlines_are_ascending(text.drop_last());
        }
    }
    let last_start: usize = if feeds == 0 {
        0
    } else {
        lin.bound(feeds - 1) as usize + 1
    };
    if last_start < total_chars {
        feeds + 1
    } else {
        feeds
    }
}

/// The citation of the stretch of `source` from `st_pos` to `en_pos`.
pub fn cite_span(source: &str, st_pos: usize, en_pos: usize) -> (res: String)
    requires
        source@.len() < u32::MAX,
        st_pos < u32::MAX,
        en_pos < u32::MAX,
    ensures
        res@ == cite_text(source@, st_pos as int, en_pos as int),
{
    let lin = Liner::from_str(source);
    let st = lin.get_span(st_pos);
    let en = lin.get_span(en_pos);
    let lines = count_lines(source, &lin);
    let mut res = String::new();
    let mut i: usize = 0;
    assert(res@ =~= cite_lines(source@, 0, st, en));
    while i < lines
        invariant
            i <= lines,
            lines == line_count(source@),
            lin.bounds() == newlines(source@),
            source@.len() < u32::MAX,
            res@ == cite_lines(source@, i as int, st, en),
        decreases lines - i,
    {
        push_cite_line(&mut res, source, &lin, i, st, en);
        i = i + 1;
    }
    res
}

} // verus!
