//! Fixed-width text layout: a string is cut into lines of a fixed number of
//! characters, with no regard for word boundaries.

use vstd::prelude::*;
use vstd::string::StrSliceExecFns;

verus! {

/// Number of lines that `len` characters occupy at `per_line` characters each.
pub open spec fn line_count(len: int, per_line: int) -> int
    recommends
        len >= 0,
        per_line > 0,
{
    (len + per_line - 1) / per_line
}

/// The `i`-th line of `text` when cut every `per_line` characters.
pub open spec fn line_at(text: Seq<char>, per_line: int, i: int) -> Seq<char>
    recommends
        per_line > 0,
        0 <= i < line_count(text.len() as int, per_line),
{
    text.subrange(
        i * per_line,
        if (i + 1) * per_line <= text.len() {
            (i + 1) * per_line
        } else {
            text.len() as int
        },
    )
}

/// All lines of `text`, in order.
pub open spec fn wrapped(text: Seq<char>, per_line: int) -> Seq<Seq<char>>
    recommends
        per_line > 0,
{
    Seq::new(line_count(text.len() as int, per_line) as nat, |i: int| line_at(text, per_line, i))
}

/// Characters that fit on one line of a display `display_width` pixels wide
/// when every glyph is `glyph_width` pixels wide.
pub open spec fn chars_per_line(display_width: int, glyph_width: int) -> int
    recommends
        glyph_width > 0,
{
    display_width / glyph_width
}

/// The character contents of a list of string slices.
pub open spec fn line_views(lines: Seq<&str>) -> Seq<Seq<char>> {
    Seq::new(lines.len(), |i: int| lines[i]@)
}

/// The lines joined end to end, in order.
pub open spec fn joined(lines: Seq<Seq<char>>) -> Seq<char>
    decreases lines.len(),
{
    if lines.len() == 0 {
        Seq::empty()
    } else {
        joined(lines.drop_last()) + lines.last()
    }
}

/// Cuts `text` into lines for a display `display_size.0` pixels wide drawn
/// with glyphs `font_size.0` pixels wide. Every line but the last holds
/// exactly `display_size.0 / font_size.0` characters; the last holds the
/// rest. Lines are cut between characters, never inside one.
pub fn wrap_text<'a>(
    text: &'a str,
    display_size: (usize, usize),
    font_size: (usize, usize),
) -> (lines: Vec<&'a str>)
    requires
        font_size.0 > 0,
        display_size.0 / font_size.0 > 0,
    ensures
        line_views(lines@) == wrapped(
            text@,
            chars_per_line(display_size.0 as int, font_size.0 as int),
        ),
        text@.len() == 0 ==> lines@.len() == 0,
{
    let per_line: usize = display_size.0 / font_size.0;
    let total: usize = text.unicode_len();
    let mut lines: Vec<&'a str> = Vec::new();
    let mut start: usize = 0;
    proof {
        assert((0 + per_line - 1) / (per_line as int) == 0) by (nonlinear_arith)
            requires
                per_line > 0,
        ;
        assert(lines@.len() == 0);
        assert(lines@.len() * per_line == 0) by (nonlinear_arith)
            requires
                lines@.len() == 0,
        ;
    }
    while start < total
        invariant
            per_line > 0,
            per_line == display_size.0 / font_size.0,
            total == text@.len(),
            start <= total,
            start < total ==> start == lines@.len() * per_line,
            start == total ==> lines@.len() == line_count(total as int, per_line as int),
            forall|i: int|
                0 <= i < lines@.len() ==> #[trigger] lines@[i]@ == line_at(
                    text@,
                    per_line as int,
                    i,
                ),
        decreases total - start,
    {
        let end: usize = if total - start > per_line {
            start + per_line
        } else {
            total
        };
        let ghost k = lines@.len() as int;
        proof {
            lemma_cut_step(total as int, per_line as int, k);
        }
        let line = text.substring_char(start, end);
        lines.push(line);
        start = end;
    }
    assert(line_views(lines@) =~= wrapped(text@, per_line as int));
    lines
}

/// Joining the lines of a wrapped text gives the text back, every line but
/// the last is exactly `per_line` characters long, and the last line is
/// neither empty nor longer than that.
pub proof fn lemma_wrap_rejoins(text: Seq<char>, per_line: int)
    requires
        per_line > 0,
    ensures
        joined(wrapped(text, per_line)) == text,
        forall|i: int|
            0 <= i < wrapped(text, per_line).len() - 1 ==> (#[trigger] wrapped(
                text,
                per_line,
            )[i]).len() == per_line,
        wrapped(text, per_line).len() > 0 ==> 0 < wrapped(text, per_line).last().len()
            <= per_line,
        text.len() == 0 ==> wrapped(text, per_line).len() == 0,
{
    let n = line_count(text.len() as int, per_line);
    let w = wrapped(text, per_line);
    assert(n >= 0 && (n - 1) * per_line < text.len() && text.len() <= n * per_line
        && (text.len() == 0 ==> n == 0)) by (nonlinear_arith)
        requires
            per_line > 0,
            text.len() >= 0,
            n == (text.len() + per_line - 1) / per_line,
    ;
    lemma_joined_prefix(text, per_line, n);
    assert(w.take(n) =~= w);
    assert(text.take(text.len() as int) =~= text);
    assert forall|i: int| 0 <= i < w.len() - 1 implies (#[trigger] w[i]).len() == per_line by {
        assert((i + 1) * per_line <= (n - 1) * per_line && i * per_line >= 0 && (i + 1) * per_line
            == i * per_line + per_line) by (nonlinear_arith)
            requires
                0 <= i < n - 1,
                per_line > 0,
        ;
    }
    if w.len() > 0 {
        assert(n * per_line == (n - 1) * per_line + per_line) by (nonlinear_arith);
    }
}

/// The first `k` lines of a wrapped text, joined, are the first
/// `k * per_line` characters of the text (or all of it, if it is shorter).
proof fn lemma_joined_prefix(text: Seq<char>, per_line: int, k: int)
    requires
        per_line > 0,
        0 <= k <= line_count(text.len() as int, per_line),
    ensures
        joined(wrapped(text, per_line).take(k)) == text.take(
            if k * per_line <= text.len() {
                k * per_line
            } else {
                text.len() as int
            },
        ),
    decreases k,
{
    let w = wrapped(text, per_line);
    if k == 0 {
        assert(k * per_line == 0) by (nonlinear_arith)
            requires
                k == 0,
        ;
        assert(joined(w.take(0)) =~= text.take(0));
    } else {
        lemma_joined_prefix(text, per_line, k - 1);
        let n = line_count(text.len() as int, per_line);
        assert((n - 1) * per_line < text.len()) by (nonlinear_arith)
            requires
                per_line > 0,
                text.len() >= 0,
                n >= 1,
                n == (text.len() + per_line - 1) / per_line,
        ;
        assert((k - 1) * per_line <= (n - 1) * per_line && (k - 1) * per_line >= 0 && k * per_line
            == (k - 1) * per_line + per_line) by (nonlinear_arith)
            requires
                1 <= k <= n,
                per_line > 0,
        ;
        assert(w.take(k).drop_last() =~= w.take(k - 1));
        assert(w.take(k).last() == line_at(text, per_line, k - 1));
        let end = if k * per_line <= text.len() {
            k * per_line
        } else {
            text.len() as int
        };
        assert(text.take((k - 1) * per_line) + line_at(text, per_line, k - 1) =~= text.take(end));
    }
}

/// Arithmetic of one cut: where line `k` ends, and how many lines there are
/// once the text is used up.
proof fn lemma_cut_step(total: int, per_line: int, k: int)
    requires
        per_line > 0,
        k >= 0,
        k * per_line < total,
    ensures
        (k + 1) * per_line == k * per_line + per_line,
        k < line_count(total, per_line),
        total - k * per_line <= per_line ==> line_count(total, per_line) == k + 1,
{
    assert((k + 1) * per_line == k * per_line + per_line) by (nonlinear_arith);
    assert(k < (total + per_line - 1) / per_line) by (nonlinear_arith)
        requires
            per_line > 0,
            k >= 0,
            k * per_line < total,
    ;
    if total - k * per_line <= per_line {
        assert((total + per_line - 1) / per_line == k + 1) by (nonlinear_arith)
            requires
                per_line > 0,
                k >= 0,
                k * per_line < total,
                total - k * per_line <= per_line,
        ;
    }
}

} // verus!
