//! Breaking one long line into lines that fit a terminal.
//!
//! What fits on a line is decided by the display width of the text, as the
//! `console` crate measures it: a full-width character takes two columns.

use vstd::prelude::*;
use vstd::string::*;
use crate::text::{joined, repeated, same_text, spaces};

verus! {

/// No line is laid out wider than this, however wide the terminal is.
pub const LINE_LENGTH: usize = 80;

/// The width that lines are cut to in a terminal of `terminal_size` columns.
pub open spec fn line_limit(terminal_size: usize) -> usize {
    if terminal_size < LINE_LENGTH {
        terminal_size
    } else {
        LINE_LENGTH
    }
}

/// What is put between two lines: a line feed and `tab` spaces of indent.
pub open spec fn line_break(tab: nat) -> Seq<char> {
    seq!['\n'] + repeated(' ', tab)
}

/// Whether `s` holds a character that can start a terminal escape sequence.
pub open spec fn has_escape(s: Seq<char>) -> bool {
    s.contains('\u{1b}') || s.contains('\u{9b}')
}

/// The number of terminal columns that `s` takes, as
/// `console::measure_text_width` computes it.
pub uninterp spec fn display_width(s: Seq<char>) -> nat;

/// What `console::truncate_str` returns for `s`, cut to `width` columns, with
/// `tail` appended where it cut.
pub uninterp spec fn truncated(s: Seq<char>, width: nat, tail: Seq<char>) -> Seq<char>;

/// Calls `console::measure_text_width`. Nothing is claimed of the number but
/// that it depends on the text alone.
#[verifier::external_body]
fn text_width(s: &str) -> (w: usize)
    ensures
        w == display_width(s@),
{
    console::measure_text_width(s)
}

/// Calls `console::truncate_str`. Nothing is claimed of the result but that it
/// depends on the three arguments alone. The function subtracts the width of
/// `tail` from `width`, so the tail has to fit; the tail is free of escape
/// sequences so that its measured width is the one that is subtracted.
#[verifier::external_body]
fn truncate(s: &str, width: usize, tail: &str) -> (t: String)
    requires
        !has_escape(tail@),
        display_width(tail@) <= width,
    ensures
        t@ == truncated(s@, width as nat, tail@),
{
    console::truncate_str(s, width, tail).into_owned()
}

/// How many characters of `s` stay on the first line when `s` is cut.
pub open spec fn first_line_len(s: Seq<char>, width: nat, tail: Seq<char>) -> int {
    truncated(s, width, tail).len() - tail.len()
}

/// Whether cutting `s` gives a non-empty first line of `s` followed by `tail`.
pub open spec fn cuts_cleanly(s: Seq<char>, width: nat, tail: Seq<char>) -> bool {
    let k = first_line_len(s, width, tail);
    &&& 0 < k <= s.len()
    &&& truncated(s, width, tail) == s.take(k) + tail
}

/// Whether `s` can be laid out line by line: each cut either leaves the rest
/// whole, because it fits, or takes at least one character off its front.
pub open spec fn wraps(s: Seq<char>, width: nat, tail: Seq<char>) -> bool
    decreases s.len(),
{
    truncated(s, width, tail) == s || (cuts_cleanly(s, width, tail) && wraps(
        s.skip(first_line_len(s, width, tail)),
        width,
        tail,
    ))
}

/// Whether `s` can be reflowed with an indent of `tab` in a terminal of
/// `terminal_size` columns: the line break fits on a line, and every cut makes
/// progress.
pub open spec fn can_wrap(s: Seq<char>, tab: usize, terminal_size: usize) -> bool {
    &&& display_width(line_break(tab as nat)) <= line_limit(terminal_size)
    &&& wraps(s, line_limit(terminal_size) as nat, line_break(tab as nat))
}

/// The pieces of `s` that end up on the lines, in order.
pub open spec fn line_pieces(s: Seq<char>, width: nat, tail: Seq<char>) -> Seq<Seq<char>>
    decreases s.len(),
{
    if truncated(s, width, tail) != s && cuts_cleanly(s, width, tail) {
        let k = first_line_len(s, width, tail);
        seq![s.take(k)] + line_pieces(s.skip(k), width, tail)
    } else {
        seq![s]
    }
}

/// `s` laid out: its pieces, each but the last followed by `tail`.
pub open spec fn reflow(s: Seq<char>, width: nat, tail: Seq<char>) -> Seq<char>
    decreases s.len(),
{
    if truncated(s, width, tail) != s && cuts_cleanly(s, width, tail) {
        let k = first_line_len(s, width, tail);
        s.take(k) + tail + reflow(s.skip(k), width, tail)
    } else {
        s
    }
}

/// The width that lines are cut to in a terminal of `terminal_size` columns.
pub fn limit_for(terminal_size: usize) -> (r: usize)
    ensures
        r == line_limit(terminal_size),
{
    if terminal_size < LINE_LENGTH {
        terminal_size
    } else {
        LINE_LENGTH
    }
}

/// The text that separates two lines: a line feed and `tab` spaces.
pub fn break_for(tab: usize) -> (r: String)
    ensures
        r@ == line_break(tab as nat),
        !has_escape(r@),
{
    proof {
        reveal_strlit("\n");
    }
    let indent = spaces(tab);
    let r = String::from_str("\n").concat(indent.as_str());
    r
}

/// Breaks `s` into lines for a terminal of `terminal_size` columns: the text
/// is cut to the line width again and again, and each line after the first
/// starts with `tab` spaces. The line width is the width of the terminal, and
/// 80 columns where the terminal is wider.
pub fn string_split_new_line(s: String, tab: usize, terminal_size: usize) -> (r: String)
    requires
        can_wrap(s@, tab, terminal_size),
    ensures
        r@ == reflow(s@, line_limit(terminal_size) as nat, line_break(tab as nat)),
{
    let limit: usize = limit_for(terminal_size);
    let tail = break_for(tab);
    let tail_len: usize = tail.as_str().unicode_len();
    let mut out = String::new();
    let mut rest: &str = s.as_str();
    loop
        invariant_except_break
            wraps(rest@, limit as nat, tail@),
            out@ + reflow(rest@, limit as nat, tail@) == reflow(s@, limit as nat, tail@),
        invariant
            tail@ == line_break(tab as nat),
            tail_len == tail@.len(),
            !has_escape(tail@),
            display_width(tail@) <= limit,
        ensures
            out@ == reflow(s@, limit as nat, tail@),
        decreases rest@.len(),
    {
        let line = truncate(rest, limit, tail.as_str());
        let done = same_text(line.as_str(), rest);
        proof {
            if !done {
                let k = first_line_len(rest@, limit as nat, tail@);
                assert(out@ + line@ + reflow(rest@.skip(k), limit as nat, tail@) =~= out@ + reflow(
                    rest@,
                    limit as nat,
                    tail@,
                ));
            } else {
                assert(out@ + line@ =~= out@ + reflow(rest@, limit as nat, tail@));
            }
        }
        out.append(line.as_str());
        if done {
            break;
        }
        let rest_len: usize = rest.unicode_len();
        let line_len: usize = line.as_str().unicode_len();
        let k: usize = line_len - tail_len;
        rest = rest.substring_char(k, rest_len);
    }
    out
}

/// Tells whether `string_split_new_line` can lay out `s`: whether the line
/// break fits in the line width and every line takes some of the text.
pub fn can_split_new_line(s: &str, tab: usize, terminal_size: usize) -> (b: bool)
    ensures
        b == can_wrap(s@, tab, terminal_size),
{
    let limit: usize = limit_for(terminal_size);
    let tail = break_for(tab);
    if text_width(tail.as_str()) > limit {
        return false;
    }
    let tail_len: usize = tail.as_str().unicode_len();
    let mut rest: &str = s;
    loop
        invariant
            tail@ == line_break(tab as nat),
            tail_len == tail@.len(),
            !has_escape(tail@),
            display_width(tail@) <= limit,
            limit == line_limit(terminal_size),
            wraps(rest@, limit as nat, tail@) == wraps(s@, limit as nat, tail@),
        decreases rest@.len(),
    {
        let line = truncate(rest, limit, tail.as_str());
        if same_text(line.as_str(), rest) {
            return true;
        }
        let rest_len: usize = rest.unicode_len();
        let line_len: usize = line.as_str().unicode_len();
        if line_len <= tail_len || line_len - tail_len > rest_len {
            return false;
        }
        let k: usize = line_len - tail_len;
        let mut expected = String::from_str(rest.substring_char(0, k));
        expected.append(tail.as_str());
        if !(expected == line) {
            return false;
        }
        rest = rest.substring_char(k, rest_len);
    }
}

/// Breaks `s` into lines as `string_split_new_line` does, where that is
/// possible, and returns `None` where it is not.
pub fn try_split_new_line(s: String, tab: usize, terminal_size: usize) -> (r: Option<String>)
    ensures
        r is Some <==> can_wrap(s@, tab, terminal_size),
        r matches Some(t) ==> t@ == reflow(
            s@,
            line_limit(terminal_size) as nat,
            line_break(tab as nat),
        ),
{
    if can_split_new_line(s.as_str(), tab, terminal_size) {
        Some(string_split_new_line(s, tab, terminal_size))
    } else {
        None
    }
}

/// Reflowing loses and adds no text: the pieces that end up on the lines,
/// put together, are the input, and the output is those pieces with the line
/// break between each two. No piece but the last is empty.
pub proof fn lemma_reflow_keeps_text(s: Seq<char>, width: nat, tail: Seq<char>)
    ensures
        line_pieces(s, width, tail).len() >= 1,
        line_pieces(s, width, tail).flatten() == s,
        joined(line_pieces(s, width, tail), tail) == reflow(s, width, tail),
        forall|i: int|
            0 <= i < line_pieces(s, width, tail).len() - 1 ==> (#[trigger] line_pieces(
                s,
                width,
                tail,
            )[i]).len() > 0,
    decreases s.len(),
{
    let pieces = line_pieces(s, width, tail);
    if truncated(s, width, tail) != s && cuts_cleanly(s, width, tail) {
        let k = first_line_len(s, width, tail);
        let later = line_pieces(s.skip(k), width, tail);
        lemma_reflow_keeps_text(s.skip(k), width, tail);
        assert(pieces.drop_first() =~= later);
        assert(pieces[0] == s.take(k));
        assert(s.take(k) + s.skip(k) =~= s);
        assert(s.take(k) + tail + reflow(s.skip(k), width, tail) =~= s.take(k) + tail + joined(
            later,
            tail,
        ));
        assert forall|i: int| 0 <= i < pieces.len() - 1 implies (#[trigger] pieces[i]).len()
            > 0 by {
            if i > 0 {
                assert(pieces[i] == later[i - 1]);
            }
        }
    } else {
        assert(pieces.drop_first() =~= Seq::<Seq<char>>::empty());
        assert(pieces.drop_first().flatten() =~= Seq::<char>::empty());
        assert(s + Seq::<char>::empty() =~= s);
    }
}

} // verus!
