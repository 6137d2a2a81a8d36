//! Indentation of a formatted macro body: four spaces per open brace, and
//! the macro's base indentation prepended to each line.
use vstd::prelude::*;
use crate::text::{whitespace, is_whitespace};
use crate::fmt::scan::{
    all_whitespace, block_close, block_comment_at, extract_string_literal, lemma_block_close,
    lemma_line_end, lemma_literal_end, lemma_spaces_end, line_comment_at, line_end, literal_end,
    push_range, quote_char, find_block_close, skip_spaces_on_same_line, spaces_end,
    is_all_whitespace,
};

verus! {

/// `n` spaces.
pub open spec fn spaces(n: int) -> Seq<char> {
    Seq::new(if n > 0 { n as nat } else { 0 }, |i: int| ' ')
}

/// The indentation of nesting depth `depth`: four spaces per level, none
/// for a depth below one.
pub open spec fn indent_of(depth: int) -> Seq<char> {
    spaces(4 * depth)
}

/// The first position at or after `pos` that does not hold `}`.
pub open spec fn closing_run_end(s: Seq<char>, pos: int, len: int) -> int
    decreases len - pos,
{
    if pos < len && s[pos] == '}' {
        closing_run_end(s, pos + 1, len)
    } else {
        pos
    }
}

/// A character after which a closing brace keeps what follows on its line.
pub open spec fn stays_after_close(c: char) -> bool {
    c == '}' || c == '{' || c == '\n' || c == '\r' || c == ')' || c == ',' || c == ';'
}

/// Where a block comment scanned by the indenter ends: just past `*/`, or,
/// when unterminated, before the last character of the text.
pub open spec fn indent_block_comment_end(s: Seq<char>, i: int, len: int) -> int {
    let c = block_close(s, i + 2, len);
    if c < len {
        c + 2
    } else if i + 2 >= len - 1 {
        i + 2
    } else {
        len - 1
    }
}

/// One step of the indenter at `i`, with the output so far and the current
/// brace depth.
pub open spec fn indent_step(s: Seq<char>, i: int, out: Seq<char>, depth: int) -> (
    int,
    Seq<char>,
    int,
) {
    let len = s.len() as int;
    if quote_char(s[i]) {
        let e = literal_end(s, s[i], i + 1, len);
        (e, out + s.subrange(i, e), depth)
    } else if line_comment_at(s, i, len) {
        let e = line_end(s, i, len);
        (e, out + s.subrange(i, e), depth)
    } else if block_comment_at(s, i, len) {
        let e = indent_block_comment_end(s, i, len);
        (e, out + s.subrange(i, e), depth)
    } else if s[i] == '\n' {
        let j = spaces_end(s, i + 1, len);
        let o = out.push('\n');
        if j >= len || s[j] == '\n' || s[j] == '\r' {
            (j, o, depth)
        } else {
            (j, o + indent_of(depth - (closing_run_end(s, j, len) - j)), depth)
        }
    } else if s[i] == '{' {
        (i + 1, out.push('{'), depth + 1)
    } else if s[i] == '}' {
        let d = depth - 1;
        let o = out.push('}');
        let pk = spaces_end(s, i + 1, len);
        if pk < len && !stays_after_close(s[pk]) && s.subrange(
            pk,
            if pk + 4 <= len { pk + 4 } else { len },
        ) != seq!['e', 'l', 's', 'e'] {
            (pk, o.push('\n') + indent_of(d), d)
        } else {
            (i + 1, o, d)
        }
    } else {
        (i + 1, out.push(s[i]), depth)
    }
}

pub proof fn lemma_indent_step_advances(s: Seq<char>, i: int, out: Seq<char>, depth: int)
    requires
        0 <= i < s.len(),
    ensures
        i < indent_step(s, i, out, depth).0 <= s.len(),
{
    let len = s.len() as int;
    if quote_char(s[i]) {
        lemma_literal_end(s, s[i], i + 1, len);
    } else if line_comment_at(s, i, len) {
        lemma_line_end(s, i + 1, len);
        lemma_line_end(s, i, len);
    } else if block_comment_at(s, i, len) {
        lemma_block_close(s, i + 2, len);
    } else if s[i] == '\n' {
        lemma_spaces_end(s, i + 1, len);
    } else if s[i] == '}' {
        lemma_spaces_end(s, i + 1, len);
    }
}

/// The indenter run from `i`.
pub open spec fn indent_run(s: Seq<char>, i: int, out: Seq<char>, depth: int) -> Seq<char>
    decreases s.len() - i,
{
    if i < 0 || i >= s.len() {
        out
    } else {
        proof {
            lemma_indent_step_advances(s, i, out, depth);
        }
        let st = indent_step(s, i, out, depth);
        indent_run(s, st.0, st.1, st.2)
    }
}

/// A formatted macro body with each line indented by four spaces per open
/// brace; blank lines stay empty.
pub open spec fn indented(s: Seq<char>) -> Seq<char> {
    indent_run(s, 0, Seq::empty(), 0)
}

/// A line of the body with the base indentation prepended, unless it is
/// blank or continues a block comment.
pub open spec fn base_indented_line(line: Seq<char>, in_comment: bool, indent: Seq<char>) -> Seq<
    char,
> {
    if in_comment || all_whitespace(line) {
        line
    } else {
        indent + line
    }
}

/// The base indenter run from `i`: `in_bc` tells whether a block comment is
/// open, `lsic` whether the current line started inside one, `cur` is the
/// current line so far and `out` the finished lines.
pub open spec fn base_indent_run(
    s: Seq<char>,
    indent: Seq<char>,
    i: int,
    in_bc: bool,
    lsic: bool,
    cur: Seq<char>,
    out: Seq<char>,
) -> Seq<char>
    decreases s.len() - i,
{
    let len = s.len() as int;
    if i < 0 || i >= len {
        out + base_indented_line(cur, lsic, indent)
    } else if !in_bc && block_comment_at(s, i, len) {
        base_indent_run(s, indent, i + 2, true, lsic, cur + s.subrange(i, i + 2), out)
    } else if in_bc {
        if s[i] == '*' && i + 1 < len && s[i + 1] == '/' {
            base_indent_run(s, indent, i + 2, false, lsic, cur + s.subrange(i, i + 2), out)
        } else {
            base_indent_run(s, indent, i + 1, true, lsic, cur.push(s[i]), out)
        }
    } else if s[i] == '\n' {
        base_indent_run(
            s,
            indent,
            i + 1,
            false,
            false,
            Seq::empty(),
            out + base_indented_line(cur.push('\n'), lsic, indent),
        )
    } else {
        base_indent_run(s, indent, i + 1, in_bc, lsic, cur.push(s[i]), out)
    }
}

/// The body with `indent` prepended to each non-blank line, except lines
/// that continue a `/* ... */` comment.
pub open spec fn base_indented(s: Seq<char>, indent: Seq<char>) -> Seq<char> {
    base_indent_run(s, indent, 0, false, false, Seq::empty(), Seq::empty())
}

/// Appends four spaces per level of `levels`.
fn push_indent(out: &mut Vec<char>, levels: usize)
    ensures
        final(out)@ == old(out)@ + indent_of(levels as int),
{
    let mut k: usize = 0;
    while k < levels
        invariant
            k <= levels,
            out@ == old(out)@ + indent_of(k as int),
        decreases levels - k,
    {
        out.push(' ');
        out.push(' ');
        out.push(' ');
        out.push(' ');
        k = k + 1;
        assert(out@ =~= old(out)@ + indent_of(k as int));
    }
}

/// Indents each line of a formatted macro body by four spaces per open
/// brace. Literals and comments are skipped so that braces inside them do
/// not count; blank lines stay empty; what follows a `}` on the same line
/// (other than `else` or punctuation) moves to a line of its own.
pub fn add_indentation(body: &[char]) -> (r: Vec<char>)
    ensures
        r@ == indented(body@),
{
    let ghost s = body@;
    let len: usize = body.len();
    let mut result: Vec<char> = Vec::new();
    let mut opens: usize = 0;
    let mut closes: usize = 0;
    let mut index: usize = 0;
    while index < len
        invariant
            index <= len == body@.len(),
            s == body@,
            opens + closes <= index,
            indent_run(s, index as int, result@, opens - closes) == indented(s),
        decreases len - index,
    {
        proof {
            lemma_indent_step_advances(s, index as int, result@, opens - closes);
        }
        let ghost st = indent_step(s, index as int, result@, opens - closes);
        if body[index] == '"' || body[index] == '\'' {
            let (literal, end) = extract_string_literal(body, index, len);
            let n: usize = literal.len();
            push_range(&mut result, literal.as_slice(), 0, n);
            assert(literal@.subrange(0, n as int) =~= literal@);
            index = end;
            continue;
        }
        if len - index > 1 && body[index] == '/' && body[index + 1] == '/' {
            let start: usize = index;
            proof {
                lemma_line_end(s, index as int, len as int);
            }
            while index < len && body[index] != '\n'
                invariant
                    start <= index <= len == body@.len(),
                    s == body@,
                    line_end(s, index as int, len as int) == line_end(s, start as int, len as int),
                decreases len - index,
            {
                index = index + 1;
            }
            push_range(&mut result, body, start, index);
            continue;
        }
        if len - index > 1 && body[index] == '/' && body[index + 1] == '*' {
            let start: usize = index;
            let close: usize = find_block_close(body, start + 2, len);
            index = if close < len {
                close + 2
            } else if len - start <= 3 {
                start + 2
            } else {
                len - 1
            };
            assert(index == indent_block_comment_end(s, start as int, len as int));
            push_range(&mut result, body, start, index);
            continue;
        }
        if body[index] == '\n' {
            result.push('\n');
            let j: usize = skip_spaces_on_same_line(body, index + 1, len);
            index = j;
            if j >= len || body[j] == '\n' || body[j] == '\r' {
                continue;
            }
            let mut peek: usize = j;
            proof {
                lemma_closing_run_end(s, j as int, len as int);
            }
            while peek < len && body[peek] == '}'
                invariant
                    j <= peek <= len == body@.len(),
                    s == body@,
                    closing_run_end(s, peek as int, len as int) == closing_run_end(
                        s,
                        j as int,
                        len as int,
                    ),
                decreases len - peek,
            {
                peek = peek + 1;
            }
            let closing: usize = peek - j;
            let levels: usize = if opens >= closes + closing {
                opens - closes - closing
            } else {
                0
            };
            assert(indent_of(levels as int) =~= indent_of(opens - closes - closing));
            push_indent(&mut result, levels);
            continue;
        }
        if body[index] == '{' {
            opens = opens + 1;
            result.push('{');
            index = index + 1;
            continue;
        }
        if body[index] == '}' {
            closes = closes + 1;
            result.push('}');
            index = index + 1;
            let peek: usize = skip_spaces_on_same_line(body, index, len);
            if peek < len && body[peek] != '}' && body[peek] != '{' && body[peek] != '\n'
                && body[peek] != '\r' && body[peek] != ')' && body[peek] != ','
                && body[peek] != ';' {
                let is_else: bool = len - peek >= 4 && body[peek] == 'e' && body[peek + 1] == 'l'
                    && body[peek + 2] == 's' && body[peek + 3] == 'e';
                proof {
                    let w = s.subrange(peek as int, if peek + 4 <= len { peek + 4 } else { len as int });
                    if is_else {
                        assert(w =~= seq!['e', 'l', 's', 'e']);
                    } else if w == seq!['e', 'l', 's', 'e'] {
                        assert(w.len() == 4);
                        assert(w[0] == body@[peek as int] && w[1] == body@[peek + 1] && w[2]
                            == body@[peek + 2] && w[3] == body@[peek + 3]);
                    }
                }
                if !is_else {
                    result.push('\n');
                    let levels: usize = if opens >= closes {
                        opens - closes
                    } else {
                        0
                    };
                    assert(indent_of(levels as int) =~= indent_of(opens - closes));
                    push_indent(&mut result, levels);
                    index = peek;
                }
            }
            continue;
        }
        result.push(body[index]);
        index = index + 1;
    }
    result
}

pub proof fn lemma_closing_run_end(s: Seq<char>, pos: int, len: int)
    requires
        pos <= len,
    ensures
        pos <= closing_run_end(s, pos, len) <= len,
    decreases len - pos,
{
    if pos < len && s[pos] == '}' {
        lemma_closing_run_end(s, pos + 1, len);
    }
}

/// Appends a finished line to `out`, with `indent_str` before it unless it
/// is blank or continues a block comment.
fn push_line(out: &mut Vec<char>, line: &Vec<char>, in_comment: bool, indent_str: &[char])
    ensures
        final(out)@ == old(out)@ + base_indented_line(line@, in_comment, indent_str@),
{
    let blank: bool = is_all_whitespace(line.as_slice());
    if !(in_comment || blank) {
        let n: usize = indent_str.len();
        push_range(out, indent_str, 0, n);
        assert(indent_str@.subrange(0, n as int) =~= indent_str@);
    }
    let ghost mid = out@;
    let m: usize = line.len();
    push_range(out, line.as_slice(), 0, m);
    assert(line@.subrange(0, m as int) =~= line@);
    assert(out@ =~= old(out)@ + base_indented_line(line@, in_comment, indent_str@));
}

/// Prepends `indent_str` to each line of a macro body, except blank lines
/// and lines that continue a `/* ... */` comment, so that a comment's own
/// alignment is kept and formatting stays stable when run again.
pub fn indented_body_skipping_block_comments(body: &[char], indent_str: &[char]) -> (r: Vec<char>)
    ensures
        r@ == base_indented(body@, indent_str@),
{
    let ghost s = body@;
    let ghost ind = indent_str@;
    let len: usize = body.len();
    let mut in_block_comment: bool = false;
    let mut line_starts_in_comment: bool = false;
    let mut result: Vec<char> = Vec::new();
    let mut current_line: Vec<char> = Vec::new();
    let mut index: usize = 0;
    while index < len
        invariant
            index <= len == body@.len(),
            s == body@,
            ind == indent_str@,
            base_indent_run(
                s,
                ind,
                index as int,
                in_block_comment,
                line_starts_in_comment,
                current_line@,
                result@,
            ) == base_indented(s, ind),
        decreases len - index,
    {
        if !in_block_comment && len - index > 1 && body[index] == '/' && body[index + 1] == '*' {
            in_block_comment = true;
            push_range(&mut current_line, body, index, index + 2);
            index = index + 2;
            continue;
        }
        if in_block_comment {
            if body[index] == '*' && len - index > 1 && body[index + 1] == '/' {
                push_range(&mut current_line, body, index, index + 2);
                index = index + 2;
                in_block_comment = false;
                continue;
            }
            current_line.push(body[index]);
            index = index + 1;
            continue;
        }
        if body[index] == '\n' {
            current_line.push('\n');
            push_line(&mut result, &current_line, line_starts_in_comment, indent_str);
            current_line = Vec::new();
            line_starts_in_comment = in_block_comment;
            index = index + 1;
            continue;
        }
        current_line.push(body[index]);
        index = index + 1;
    }
    push_line(&mut result, &current_line, line_starts_in_comment, indent_str);
    result
}

} // verus!
