//! The rewriting pass of the macro formatter: one scan over the macro body
//! that normalises template-level spacing around tags, attributes,
//! `if` / `match` / `for` / `else` and `=>`, keeping literals and comments
//! verbatim.
//!
//! The pass is specified as a state machine: `raw_plain_step` (and the
//! nested-block rule inside `raw_run`) say what one step of the scan does
//! to the position and to the output, and `raw_format` runs the scan from
//! the start. The third component of a step is set when the scan meets the
//! one input shape the formatter does not handle: an `if` followed only by
//! spaces up to the end of the text.
use vstd::prelude::*;
use crate::fmt::scan::{
    block_close_at, block_comment_at, block_comment_end, block_end_at, brace_block_text,
    extract_block_comment, extract_brace_block, extract_brace_content, extract_line_comment,
    extract_string_literal, ident_char, ident_end, is_ident_char, lemma_block_close,
    lemma_brace_close, lemma_ident_end, lemma_line_end, lemma_literal_end, lemma_spaces_end,
    lemma_trimmed, line_comment_at, line_comment_end, literal_end, push_range, quote_char,
    skip_spaces_on_same_line, spaces_end, trim_chars, trimmed,
};
use crate::fmt::rules::{
    brace_block_formatted, else_at, find_ident_before, find_trailing_spaces, for_at,
    format_brace_block, ident_before, if_at, in_at, is_else_keyword, is_for_keyword,
    is_if_keyword, is_in_keyword, is_match_keyword, is_pseudo_selector_after_colon,
    is_raw_ident_before, lemma_blank_start, match_at, pseudo_selector_at, raw_ident_before,
    remove_trailing_spaces, spaces_and_prefix_removed, trailing_blanks, blank_start,
    ident_run_end,
};

verus! {

/// A single `:` (not part of `::`) stands at `a`.
pub open spec fn single_colon_at(s: Seq<char>, a: int, len: int) -> bool {
    a < len && s[a] == ':' && (a + 1 >= len || s[a + 1] != ':')
}

/// An attribute colon stands at `p`: `:` followed by something other than `:`.
pub open spec fn colon_at(s: Seq<char>, p: int, len: int) -> bool {
    p + 1 < len && s[p] == ':' && s[p + 1] != ':'
}

/// `=>` stands at `p`.
pub open spec fn arrow_at(s: Seq<char>, p: int, len: int) -> bool {
    p + 1 < len && s[p] == '=' && s[p + 1] == '>'
}

/// The last character of `o` is `c`.
pub open spec fn last_is(o: Seq<char>, c: char) -> bool {
    o.len() > 0 && o[o.len() - 1] == c
}

/// `o` without one trailing space, if it ends with one.
pub open spec fn without_trailing_space(o: Seq<char>) -> Seq<char> {
    if last_is(o, ' ') {
        o.drop_last()
    } else {
        o
    }
}

/// The first `{` at or after `pos`, or `len`.
pub open spec fn brace_start_from(s: Seq<char>, pos: int, len: int) -> int
    decreases len - pos,
{
    if pos < len && s[pos] != '{' {
        brace_start_from(s, pos + 1, len)
    } else {
        pos
    }
}

/// A keyword that heads a block (`if`, `match`): one space after it, the
/// condition block given single spaces inside its braces, one space before
/// the body block. Followed by a single colon it is an attribute name and
/// keeps at most one following space.
pub open spec fn raw_keyword_step(s: Seq<char>, p: int, out: Seq<char>, kw: Seq<char>, is_if: bool) -> (
    int,
    Seq<char>,
    bool,
) {
    let len = s.len() as int;
    let n = kw.len() as int;
    let a = spaces_end(s, p + n, len);
    let o = out + kw;
    if single_colon_at(s, a, len) {
        if p + n < len && s[p + n] == ' ' {
            (p + n + 1, o.push(' '), false)
        } else {
            (p + n, o, false)
        }
    } else if a < len && s[a] == '{' {
        let o2 = o.push(' ') + brace_block_formatted(brace_block_text(s, a));
        let q = spaces_end(s, block_end_at(s, a), len);
        (q, if q < len && s[q] == '{' { o2.push(' ') } else { o2 }, false)
    } else {
        (a, o.push(' '), is_if && p + n < len && a >= len)
    }
}

/// `else`: one space before it (unless the output already ends with a
/// blank), and one space after it when `if` or a block follows.
pub open spec fn raw_else_step(s: Seq<char>, p: int, out: Seq<char>) -> (int, Seq<char>, bool) {
    let len = s.len() as int;
    let o1 = if last_is(out, ' ') || last_is(out, '\n') || last_is(out, '\t') {
        out
    } else {
        out.push(' ')
    };
    let o2 = o1 + seq!['e', 'l', 's', 'e'];
    let q = spaces_end(s, p + 4, len);
    if if_at(s, q, len) || (q < len && s[q] == '{') {
        (q, o2.push(' '), false)
    } else {
        (q, o2, false)
    }
}

/// The loop pattern of a `for`, copied up to the `in` keyword, with brace
/// blocks formatted and literals kept verbatim.
pub open spec fn for_pattern_run(s: Seq<char>, q: int, o: Seq<char>) -> (int, Seq<char>)
    decreases s.len() - q,
{
    let len = s.len() as int;
    if q < 0 || q >= len || in_at(s, q, len) {
        (q, o)
    } else if s[q] == '{' {
        proof {
            lemma_brace_close(s, q + 1, 1);
        }
        for_pattern_run(s, block_end_at(s, q), o + brace_block_formatted(brace_block_text(s, q)))
    } else if quote_char(s[q]) {
        proof {
            lemma_literal_end(s, s[q], q + 1, len);
        }
        let e = literal_end(s, s[q], q + 1, len);
        for_pattern_run(s, e, o + s.subrange(q, e))
    } else {
        for_pattern_run(s, q + 1, o.push(s[q]))
    }
}

/// `for pattern in expr body`: single spaces between the parts.
pub open spec fn raw_for_step(s: Seq<char>, p: int, out: Seq<char>) -> (int, Seq<char>, bool) {
    let len = s.len() as int;
    let a = spaces_end(s, p + 3, len);
    let o = out + seq!['f', 'o', 'r'];
    if single_colon_at(s, a, len) {
        if p + 3 < len && s[p + 3] == ' ' {
            (p + 4, o.push(' '), false)
        } else {
            (p + 3, o, false)
        }
    } else {
        let o1 = if a < len && !in_at(s, a, len) {
            o.push(' ')
        } else {
            o
        };
        let run = for_pattern_run(s, a, o1);
        let o2 = without_trailing_space(run.1);
        let q = spaces_end(s, run.0, len);
        if in_at(s, q, len) {
            let o3 = o2 + seq![' ', 'i', 'n'];
            let q2 = spaces_end(s, q + 2, len);
            if q2 < len && s[q2] == '{' {
                let o4 = o3.push(' ') + brace_block_formatted(brace_block_text(s, q2));
                let q3 = spaces_end(s, block_end_at(s, q2), len);
                (q3, if q3 < len && s[q3] == '{' { o4.push(' ') } else { o4 }, false)
            } else {
                let q3 = brace_start_from(s, q2, len);
                let o4 = without_trailing_space(o3.push(' ') + s.subrange(q2, q3));
                (q3, if q3 < len && s[q3] == '{' { o4.push(' ') } else { o4 }, false)
            }
        } else {
            (q, o2, false)
        }
    }
}

/// An attribute colon: glued to the name before it, one space after it
/// unless a line break or a CSS pseudo selector follows.
pub open spec fn raw_colon_step(s: Seq<char>, p: int, out: Seq<char>) -> (int, Seq<char>, bool) {
    let len = s.len() as int;
    if last_is(out, ':') {
        (p + 1, out.push(':'), false)
    } else {
        let prefix = ident_before(out);
        if raw_ident_before(out, prefix) {
            (p + 1, out.push(':'), false)
        } else {
            let o = if prefix.len() > 0 {
                spaces_and_prefix_removed(out, prefix.len() as int) + prefix
            } else {
                out
            };
            let o1 = o.push(':');
            let q = spaces_end(s, p + 1, len);
            if q < len && s[q] != '\n' && s[q] != '\r' && !pseudo_selector_at(s, q, len) {
                (q, o1.push(' '), false)
            } else {
                (q, o1, false)
            }
        }
    }
}

/// `=>` with exactly one space on each side.
pub open spec fn raw_arrow_step(s: Seq<char>, p: int, out: Seq<char>) -> (int, Seq<char>, bool) {
    let len = s.len() as int;
    let o = out.subrange(0, blank_start(out, out.len() as int));
    (spaces_end(s, p + 2, len), o + seq![' ', '=', '>', ' '], false)
}

/// An identifier: one space before a following block; a line break before
/// a following `name:` attribute; other same-line spacing kept.
pub open spec fn raw_ident_step(s: Seq<char>, p: int, out: Seq<char>) -> (int, Seq<char>, bool) {
    let len = s.len() as int;
    let q = ident_end(s, p, len);
    let o = out + s.subrange(p, q);
    let w = spaces_end(s, q, len);
    if w < len && s[w] == '{' {
        (w, o.push(' '), false)
    } else if w > q {
        if w < len && ident_char(s[w]) && single_colon_at(
            s,
            spaces_end(s, ident_end(s, w, len), len),
            len,
        ) {
            (w, o.push('\n'), false)
        } else {
            (w, o + s.subrange(q, w), false)
        }
    } else {
        (w, o, false)
    }
}

/// One step of the scan at `p`, for every rule but the nested block.
pub open spec fn raw_plain_step(s: Seq<char>, p: int, out: Seq<char>) -> (int, Seq<char>, bool) {
    let len = s.len() as int;
    if quote_char(s[p]) {
        let e = literal_end(s, s[p], p + 1, len);
        (e, out + s.subrange(p, e), false)
    } else if line_comment_at(s, p, len) {
        let e = line_comment_end(s, p, len);
        (e, out + s.subrange(p, e), false)
    } else if block_comment_at(s, p, len) {
        let e = block_comment_end(s, p, len);
        (e, out + s.subrange(p, e), false)
    } else if if_at(s, p, len) {
        raw_keyword_step(s, p, out, seq!['i', 'f'], true)
    } else if else_at(s, p, len) {
        raw_else_step(s, p, out)
    } else if match_at(s, p, len) {
        raw_keyword_step(s, p, out, seq!['m', 'a', 't', 'c', 'h'], false)
    } else if for_at(s, p, len) {
        raw_for_step(s, p, out)
    } else if colon_at(s, p, len) {
        raw_colon_step(s, p, out)
    } else if arrow_at(s, p, len) {
        raw_arrow_step(s, p, out)
    } else if ident_char(s[p]) {
        raw_ident_step(s, p, out)
    } else {
        (p + 1, out.push(s[p]), false)
    }
}

/// At `p` the scan meets a nested block `{ ... }` (no other rule applies).
pub open spec fn brace_branch_at(s: Seq<char>, p: int) -> bool {
    let len = s.len() as int;
    &&& !quote_char(s[p])
    &&& !line_comment_at(s, p, len)
    &&& !block_comment_at(s, p, len)
    &&& !if_at(s, p, len)
    &&& !else_at(s, p, len)
    &&& !match_at(s, p, len)
    &&& !for_at(s, p, len)
    &&& !colon_at(s, p, len)
    &&& !arrow_at(s, p, len)
    &&& s[p] == '{'
}

/// The scan from `p` with output `out`; the flag records whether the scan
/// met the unhandled shape.
pub open spec fn raw_run(s: Seq<char>, p: int, out: Seq<char>, stuck: bool) -> (Seq<char>, bool)
    decreases s.len(), s.len() - p, 1int,
{
    let len = s.len() as int;
    if p < 0 || p >= len {
        (out, stuck)
    } else if brace_branch_at(s, p) {
        proof {
            lemma_brace_close(s, p + 1, 1);
            lemma_trimmed(s.subrange(p + 1, block_close_at(s, p)));
        }
        let t = trimmed(s.subrange(p + 1, block_close_at(s, p)));
        if t.len() == 0 {
            raw_run(s, block_end_at(s, p), out + seq!['{', '}'], stuck)
        } else {
            let inner = raw_format(t);
            raw_run(
                s,
                block_end_at(s, p),
                out + seq!['{', '\n'] + inner.0 + seq!['\n', '}'],
                stuck || inner.1,
            )
        }
    } else {
        proof {
            lemma_raw_plain_step_advances(s, p, out);
        }
        let st = raw_plain_step(s, p, out);
        raw_run(s, st.0, st.1, stuck || st.2)
    }
}

/// The rewriting pass over a whole macro body: the formatted text, and
/// whether the body holds the shape that the formatter does not handle.
pub open spec fn raw_format(s: Seq<char>) -> (Seq<char>, bool)
    decreases s.len(), s.len() + 1, 2int,
{
    raw_run(s, 0, Seq::empty(), false)
}

// ---------------------------------------------------------------------
// Lemmas
// ---------------------------------------------------------------------

pub proof fn lemma_brace_start_from(s: Seq<char>, pos: int, len: int)
    requires
        pos <= len,
    ensures
        pos <= brace_start_from(s, pos, len) <= len,
        brace_start_from(s, pos, len) < len ==> s[brace_start_from(s, pos, len)] == '{',
    decreases len - pos,
{
    if pos < len && s[pos] != '{' {
        lemma_brace_start_from(s, pos + 1, len);
    }
}

pub proof fn lemma_block_end(s: Seq<char>, a: int)
    requires
        0 <= a < s.len(),
    ensures
        a < block_end_at(s, a) <= s.len(),
        a < block_close_at(s, a) <= s.len(),
{
    lemma_brace_close(s, a + 1, 1);
}

pub proof fn lemma_for_pattern_run(s: Seq<char>, q: int, o: Seq<char>)
    requires
        0 <= q <= s.len(),
    ensures
        q <= for_pattern_run(s, q, o).0 <= s.len(),
    decreases s.len() - q,
{
    let len = s.len() as int;
    if q < 0 || q >= len || in_at(s, q, len) {
    } else if s[q] == '{' {
        lemma_block_end(s, q);
        lemma_for_pattern_run(
            s,
            block_end_at(s, q),
            o + brace_block_formatted(brace_block_text(s, q)),
        );
    } else if quote_char(s[q]) {
        lemma_literal_end(s, s[q], q + 1, len);
        let e = literal_end(s, s[q], q + 1, len);
        lemma_for_pattern_run(s, e, o + s.subrange(q, e));
    } else {
        lemma_for_pattern_run(s, q + 1, o.push(s[q]));
    }
}

pub proof fn lemma_raw_keyword_step(s: Seq<char>, p: int, out: Seq<char>, kw: Seq<char>, is_if: bool)
    requires
        0 <= p,
        kw.len() > 0,
        p + kw.len() <= s.len(),
    ensures
        p < raw_keyword_step(s, p, out, kw, is_if).0 <= s.len(),
{
    let len = s.len() as int;
    let n = kw.len() as int;
    lemma_spaces_end(s, p + n, len);
    let a = spaces_end(s, p + n, len);
    if a < len && s[a] == '{' {
        lemma_block_end(s, a);
        lemma_spaces_end(s, block_end_at(s, a), len);
    }
}

pub proof fn lemma_raw_for_step(s: Seq<char>, p: int, out: Seq<char>)
    requires
        0 <= p,
        p + 3 <= s.len(),
    ensures
        p < raw_for_step(s, p, out).0 <= s.len(),
{
    let len = s.len() as int;
    lemma_spaces_end(s, p + 3, len);
    let a = spaces_end(s, p + 3, len);
    let o = out + seq!['f', 'o', 'r'];
    if !single_colon_at(s, a, len) {
        let o1 = if a < len && !in_at(s, a, len) {
            o.push(' ')
        } else {
            o
        };
        lemma_for_pattern_run(s, a, o1);
        let run = for_pattern_run(s, a, o1);
        lemma_spaces_end(s, run.0, len);
        let q = spaces_end(s, run.0, len);
        if in_at(s, q, len) {
            lemma_spaces_end(s, q + 2, len);
            let q2 = spaces_end(s, q + 2, len);
            if q2 < len && s[q2] == '{' {
                lemma_block_end(s, q2);
                lemma_spaces_end(s, block_end_at(s, q2), len);
            } else {
                lemma_brace_start_from(s, q2, len);
            }
        }
    }
}

pub proof fn lemma_raw_plain_step_advances(s: Seq<char>, p: int, out: Seq<char>)
    requires
        0 <= p < s.len(),
    ensures
        p < raw_plain_step(s, p, out).0 <= s.len(),
{
    let len = s.len() as int;
    if quote_char(s[p]) {
        lemma_literal_end(s, s[p], p + 1, len);
    } else if line_comment_at(s, p, len) {
        lemma_line_end(s, p, len);
    } else if block_comment_at(s, p, len) {
        lemma_block_close(s, p + 2, len);
    } else if if_at(s, p, len) {
        lemma_raw_keyword_step(s, p, out, seq!['i', 'f'], true);
    } else if else_at(s, p, len) {
        lemma_spaces_end(s, p + 4, len);
    } else if match_at(s, p, len) {
        lemma_raw_keyword_step(s, p, out, seq!['m', 'a', 't', 'c', 'h'], false);
    } else if for_at(s, p, len) {
        lemma_raw_for_step(s, p, out);
    } else if colon_at(s, p, len) {
        lemma_spaces_end(s, p + 1, len);
    } else if arrow_at(s, p, len) {
        lemma_spaces_end(s, p + 2, len);
    } else if ident_char(s[p]) {
        lemma_ident_end(s, p, len);
        lemma_spaces_end(s, ident_end(s, p, len), len);
    }
}

/// A `::` path separator is copied as it is: where the scan meets `::`
/// followed by something other than a colon, it emits exactly `::` and
/// carries on after it, and an identifier after the separator is emitted
/// right after it, with no space in between.
pub proof fn law_path_separator_kept(s: Seq<char>, p: int, out: Seq<char>, stuck: bool)
    requires
        0 <= p,
        p + 2 < s.len(),
        s[p] == ':',
        s[p + 1] == ':',
        s[p + 2] != ':',
    ensures
        raw_run(s, p, out, stuck) == raw_run(s, p + 2, out + seq![':', ':'], stuck),
        ident_char(s[p + 2]) && !if_at(s, p + 2, s.len() as int) && !else_at(
            s,
            p + 2,
            s.len() as int,
        ) && !match_at(s, p + 2, s.len() as int) && !for_at(s, p + 2, s.len() as int)
            ==> raw_plain_step(s, p + 2, out + seq![':', ':']).1.subrange(0, out.len() + 3int) == out
            + seq![':', ':', s[p + 2]],
{
    let len = s.len() as int;
    assert(!ident_char(':'));
    let o1 = out.push(':');
    assert(!brace_branch_at(s, p));
    assert(raw_plain_step(s, p, out) == (p + 1, o1, false));
    assert(raw_run(s, p, out, stuck) == raw_run(s, p + 1, o1, stuck));
    assert(colon_at(s, p + 1, len));
    assert(last_is(o1, ':'));
    assert(raw_plain_step(s, p + 1, o1) == (p + 2, o1.push(':'), false));
    assert(!brace_branch_at(s, p + 1));
    assert(o1.push(':') =~= out + seq![':', ':']);
    assert(raw_run(s, p + 1, o1, stuck) == raw_run(s, p + 2, out + seq![':', ':'], stuck));
    let o2 = out + seq![':', ':'];
    if ident_char(s[p + 2]) && !if_at(s, p + 2, len) && !else_at(s, p + 2, len) && !match_at(
        s,
        p + 2,
        len,
    ) && !for_at(s, p + 2, len) {
        lemma_ident_end(s, p + 2, len);
        let q = ident_end(s, p + 2, len);
        assert(q > p + 2) by {
            lemma_ident_end(s, p + 3, len);
        }
        let o = o2 + s.subrange(p + 2, q);
        assert(raw_plain_step(s, p + 2, o2) == raw_ident_step(s, p + 2, o2));
        let r = raw_plain_step(s, p + 2, o2).1;
        assert(r.subrange(0, o.len() as int) =~= o);
        assert(o.subrange(0, out.len() + 3int) =~= out + seq![':', ':', s[p + 2]]);
        assert(r.subrange(0, out.len() + 3int) =~= o.subrange(0, out.len() + 3int));
    }
}

// ---------------------------------------------------------------------
// Executable steps
// ---------------------------------------------------------------------

/// Appends all of `word` to `out`.
fn push_all(out: &mut Vec<char>, word: &Vec<char>)
    ensures
        final(out)@ == old(out)@ + word@,
{
    let n: usize = word.len();
    push_range(out, word.as_slice(), 0, n);
    assert(word@.subrange(0, n as int) =~= word@);
}

/// Appends the formatted brace block opened at `a` and returns where the
/// block ends.
fn push_formatted_block(chars: &[char], a: usize, out: &mut Vec<char>) -> (r: usize)
    requires
        a < chars@.len(),
        chars@[a as int] == '{',
    ensures
        r == block_end_at(chars@, a as int),
        a < r <= chars@.len(),
        final(out)@ == old(out)@ + brace_block_formatted(brace_block_text(chars@, a as int)),
{
    let (block, end) = extract_brace_block(chars, a);
    let formatted: Vec<char> = format_brace_block(block.as_slice());
    push_all(out, &formatted);
    end
}

/// The keyword rule for `if` and `match`.
fn keyword_step(
    chars: &[char],
    p: usize,
    len: usize,
    out: &mut Vec<char>,
    kw: &Vec<char>,
    is_if: bool,
) -> (r: (usize, bool))
    requires
        len == chars@.len(),
        kw@.len() > 0,
        p + kw@.len() <= len,
    ensures
        r.0 == raw_keyword_step(chars@, p as int, old(out)@, kw@, is_if).0,
        final(out)@ == raw_keyword_step(chars@, p as int, old(out)@, kw@, is_if).1,
        r.1 == raw_keyword_step(chars@, p as int, old(out)@, kw@, is_if).2,
{
    let ghost s = chars@;
    let n: usize = kw.len();
    let a: usize = skip_spaces_on_same_line(chars, p + n, len);
    push_all(out, kw);
    if a < len && chars[a] == ':' && (a + 1 >= len || chars[a + 1] != ':') {
        if p + n < len && chars[p + n] == ' ' {
            out.push(' ');
            return (p + n + 1, false);
        }
        return (p + n, false);
    }
    if a < len && chars[a] == '{' {
        out.push(' ');
        let end: usize = push_formatted_block(chars, a, out);
        let q: usize = skip_spaces_on_same_line(chars, end, len);
        if q < len && chars[q] == '{' {
            out.push(' ');
        }
        return (q, false);
    }
    out.push(' ');
    (a, is_if && p + n < len && a >= len)
}

/// The `else` rule.
fn else_step(chars: &[char], p: usize, len: usize, out: &mut Vec<char>) -> (r: usize)
    requires
        len == chars@.len(),
        p + 4 <= len,
    ensures
        r == raw_else_step(chars@, p as int, old(out)@).0,
        final(out)@ == raw_else_step(chars@, p as int, old(out)@).1,
{
    let n: usize = out.len();
    if !(n > 0 && (out[n - 1] == ' ' || out[n - 1] == '\n' || out[n - 1] == '\t')) {
        out.push(' ');
    }
    let word: Vec<char> = vec!['e', 'l', 's', 'e'];
    assert(word@ =~= seq!['e', 'l', 's', 'e']);
    push_all(out, &word);
    let q: usize = skip_spaces_on_same_line(chars, p + 4, len);
    if is_if_keyword(chars, q, len) {
        out.push(' ');
        return q;
    }
    if q < len && chars[q] == '{' {
        out.push(' ');
    }
    q
}

/// Drops one trailing space from `out`, if it ends with one.
fn drop_trailing_space(out: &mut Vec<char>)
    ensures
        final(out)@ == without_trailing_space(old(out)@),
{
    let n: usize = out.len();
    if n > 0 && out[n - 1] == ' ' {
        out.truncate(n - 1);
        assert(out@ =~= old(out)@.drop_last());
    }
}

/// The `for` rule.
fn for_step(chars: &[char], p: usize, len: usize, out: &mut Vec<char>) -> (r: usize)
    requires
        len == chars@.len(),
        p + 3 <= len,
    ensures
        r == raw_for_step(chars@, p as int, old(out)@).0,
        final(out)@ == raw_for_step(chars@, p as int, old(out)@).1,
{
    let ghost s = chars@;
    let a: usize = skip_spaces_on_same_line(chars, p + 3, len);
    let word: Vec<char> = vec!['f', 'o', 'r'];
    assert(word@ =~= seq!['f', 'o', 'r']);
    push_all(out, &word);
    if a < len && chars[a] == ':' && (a + 1 >= len || chars[a + 1] != ':') {
        if p + 3 < len && chars[p + 3] == ' ' {
            out.push(' ');
            return p + 4;
        }
        return p + 3;
    }
    if a < len && !is_in_keyword(chars, a, len) {
        out.push(' ');
    }
    let ghost o1 = out@;
    let mut position: usize = a;
    proof {
        lemma_for_pattern_run(s, a as int, o1);
    }
    while position < len && !is_in_keyword(chars, position, len)
        invariant
            a <= position <= len == chars@.len(),
            s == chars@,
            for_pattern_run(s, position as int, out@) == for_pattern_run(s, a as int, o1),
        decreases len - position,
    {
        if chars[position] == '{' {
            let end: usize = push_formatted_block(chars, position, out);
            position = end;
            continue;
        }
        if chars[position] == '"' || chars[position] == '\'' {
            let (literal, end) = extract_string_literal(chars, position, len);
            push_all(out, &literal);
            position = end;
            continue;
        }
        out.push(chars[position]);
        position = position + 1;
    }
    drop_trailing_space(out);
    position = skip_spaces_on_same_line(chars, position, len);
    if is_in_keyword(chars, position, len) {
        let word_in: Vec<char> = vec![' ', 'i', 'n'];
        assert(word_in@ =~= seq![' ', 'i', 'n']);
        push_all(out, &word_in);
        position = skip_spaces_on_same_line(chars, position + 2, len);
        if position < len && chars[position] == '{' {
            out.push(' ');
            let end: usize = push_formatted_block(chars, position, out);
            position = skip_spaces_on_same_line(chars, end, len);
            if position < len && chars[position] == '{' {
                out.push(' ');
            }
        } else {
            out.push(' ');
            let ghost q2 = position as int;
            let ghost o4 = out@;
            proof {
                lemma_brace_start_from(s, q2, len as int);
            }
            while position < len && chars[position] != '{'
                invariant
                    0 <= q2 <= position <= len == chars@.len(),
                    s == chars@,
                    brace_start_from(s, position as int, len as int) == brace_start_from(
                        s,
                        q2,
                        len as int,
                    ),
                    out@ == o4 + s.subrange(q2, position as int),
                decreases len - position,
            {
                out.push(chars[position]);
                position = position + 1;
                assert(out@ =~= o4 + s.subrange(q2, position as int));
            }
            drop_trailing_space(out);
            if position < len && chars[position] == '{' {
                out.push(' ');
            }
        }
    }
    position
}

/// The attribute colon rule.
fn colon_step(chars: &[char], p: usize, len: usize, out: &mut Vec<char>) -> (r: usize)
    requires
        len == chars@.len(),
        p + 1 < len,
    ensures
        r == raw_colon_step(chars@, p as int, old(out)@).0,
        final(out)@ == raw_colon_step(chars@, p as int, old(out)@).1,
{
    let n: usize = out.len();
    if n > 0 && out[n - 1] == ':' {
        out.push(':');
        return p + 1;
    }
    let prefix: Vec<char> = find_ident_before(out.as_slice());
    if is_raw_ident_before(out.as_slice(), prefix.as_slice()) {
        out.push(':');
        return p + 1;
    }
    if prefix.len() > 0 {
        let before_colon: Vec<char> = remove_trailing_spaces(out.as_slice(), prefix.len());
        *out = before_colon;
        push_all(out, &prefix);
    }
    out.push(':');
    let q: usize = skip_spaces_on_same_line(chars, p + 1, len);
    if q < len && chars[q] != '\n' && chars[q] != '\r' && !is_pseudo_selector_after_colon(
        chars,
        q,
        len,
    ) {
        out.push(' ');
    }
    q
}

/// The `=>` rule.
fn arrow_step(chars: &[char], p: usize, len: usize, out: &mut Vec<char>) -> (r: usize)
    requires
        len == chars@.len(),
        p + 1 < len,
    ensures
        r == raw_arrow_step(chars@, p as int, old(out)@).0,
        final(out)@ == raw_arrow_step(chars@, p as int, old(out)@).1,
{
    let ghost o = out@;
    proof {
        lemma_blank_start(o, o.len() as int);
    }
    let trailing: Vec<char> = find_trailing_spaces(out.as_slice());
    let n: usize = out.len();
    out.truncate(n - trailing.len());
    assert(out@ =~= o.subrange(0, blank_start(o, o.len() as int)));
    let word: Vec<char> = vec![' ', '=', '>', ' '];
    assert(word@ =~= seq![' ', '=', '>', ' ']);
    push_all(out, &word);
    skip_spaces_on_same_line(chars, p + 2, len)
}

/// The identifier rule.
fn ident_step(chars: &[char], p: usize, len: usize, out: &mut Vec<char>) -> (r: usize)
    requires
        len == chars@.len(),
        p < len,
    ensures
        r == raw_ident_step(chars@, p as int, old(out)@).0,
        final(out)@ == raw_ident_step(chars@, p as int, old(out)@).1,
{
    let q: usize = ident_run_end(chars, p, len);
    push_range(out, chars, p, q);
    let w: usize = skip_spaces_on_same_line(chars, q, len);
    if w < len && chars[w] == '{' {
        out.push(' ');
        return w;
    }
    if w > q {
        if w < len && is_ident_char(chars[w]) {
            let ie: usize = ident_run_end(chars, w, len);
            let ai: usize = skip_spaces_on_same_line(chars, ie, len);
            if ai < len && chars[ai] == ':' && (ai + 1 >= len || chars[ai + 1] != ':') {
                out.push('\n');
                return w;
            }
        }
        push_range(out, chars, q, w);
    }
    w
}

/// One step of the scan, for every rule but the nested block.
fn plain_step(chars: &[char], p: usize, len: usize, out: &mut Vec<char>) -> (r: (usize, bool))
    requires
        len == chars@.len(),
        p < len,
    ensures
        r.0 == raw_plain_step(chars@, p as int, old(out)@).0,
        final(out)@ == raw_plain_step(chars@, p as int, old(out)@).1,
        r.1 == raw_plain_step(chars@, p as int, old(out)@).2,
{
    if chars[p] == '"' || chars[p] == '\'' {
        let (literal, end) = extract_string_literal(chars, p, len);
        push_all(out, &literal);
        return (end, false);
    }
    if len - p > 1 && chars[p] == '/' && chars[p + 1] == '/' {
        let (comment, end) = extract_line_comment(chars, p, len);
        push_all(out, &comment);
        return (end, false);
    }
    if len - p > 1 && chars[p] == '/' && chars[p + 1] == '*' {
        let (comment, end) = extract_block_comment(chars, p, len);
        push_all(out, &comment);
        return (end, false);
    }
    if is_if_keyword(chars, p, len) {
        let kw: Vec<char> = vec!['i', 'f'];
        assert(kw@ =~= seq!['i', 'f']);
        return keyword_step(chars, p, len, out, &kw, true);
    }
    if is_else_keyword(chars, p, len) {
        return (else_step(chars, p, len, out), false);
    }
    if is_match_keyword(chars, p, len) {
        let kw: Vec<char> = vec!['m', 'a', 't', 'c', 'h'];
        assert(kw@ =~= seq!['m', 'a', 't', 'c', 'h']);
        return keyword_step(chars, p, len, out, &kw, false);
    }
    if is_for_keyword(chars, p, len) {
        return (for_step(chars, p, len, out), false);
    }
    if len - p > 1 && chars[p] == ':' && chars[p + 1] != ':' {
        return (colon_step(chars, p, len, out), false);
    }
    if len - p > 1 && chars[p] == '=' && chars[p + 1] == '>' {
        return (arrow_step(chars, p, len, out), false);
    }
    if is_ident_char(chars[p]) {
        return (ident_step(chars, p, len, out), false);
    }
    out.push(chars[p]);
    (p + 1, false)
}

/// The rewriting pass over a macro body (without indentation): single
/// spaces between a tag and its `{`, after an attribute colon and around
/// `=>`; `if` / `match` / `for` / `else` spaced as in Rust; every nested
/// block broken onto its own lines. Literals and comments are kept verbatim.
/// The flag tells whether the body holds the one shape the pass does not
/// handle (an `if` followed only by spaces up to the end of a block).
pub fn format_macro_body_raw(body: &[char]) -> (r: (Vec<char>, bool))
    ensures
        r.0@ == raw_format(body@).0,
        r.1 == raw_format(body@).1,
    decreases body@.len(),
{
    let ghost s = body@;
    let len: usize = body.len();
    let mut result: Vec<char> = Vec::new();
    let mut stuck: bool = false;
    let mut position: usize = 0;
    while position < len
        invariant
            position <= len == body@.len(),
            s == body@,
            raw_run(s, position as int, result@, stuck) == raw_format(s),
        decreases len - position,
    {
        if body[position] == '{' {
            assert(brace_branch_at(s, position as int));
            proof {
                lemma_brace_close(s, position + 1, 1);
            }
            let ghost before = result@;
            let (inner, end) = extract_brace_content(body, position);
            let trimmed_inner: Vec<char> = trim_chars(inner.as_slice());
            proof {
                lemma_trimmed(inner@);
            }
            if trimmed_inner.len() == 0 {
                result.push('{');
                result.push('}');
                assert(result@ =~= before + seq!['{', '}']);
            } else {
                let (formatted_inner, inner_stuck) = format_macro_body_raw(
                    trimmed_inner.as_slice(),
                );
                stuck = stuck || inner_stuck;
                result.push('{');
                result.push('\n');
                push_all(&mut result, &formatted_inner);
                result.push('\n');
                result.push('}');
                assert(result@ =~= before + seq!['{', '\n'] + formatted_inner@ + seq!['\n', '}']);
            }
            position = end;
            continue;
        }
        proof {
            lemma_raw_plain_step_advances(s, position as int, result@);
        }
        let (next, step_stuck) = plain_step(body, position, len, &mut result);
        stuck = stuck || step_stuck;
        position = next;
    }
    (result, stuck)
}

} // verus!
