//! Formatting of whole source files: every `html!`, `class!`, `vars!` and
//! `watch!` invocation gets its body reformatted and re-indented, the rest
//! of the file is copied unchanged.
use vstd::prelude::*;
use crate::text::{whitespace, chars_of, is_whitespace, string_of};
use crate::fmt::scan::{
    all_whitespace, block_comment_at, block_comment_end, block_end_at, brace_content_text,
    extract_block_comment, extract_brace_content, extract_line_comment, extract_string_literal,
    find_macro_name_end, ident_end, is_all_whitespace, lemma_block_close, lemma_ident_end,
    lemma_line_end, lemma_literal_end, line_comment_at, line_comment_end, line_end, literal_end,
    push_range, quote_char, trim_chars, trimmed,
};
use crate::fmt::rules::{
    euv_macro_at, is_euv_macro_start, lemma_ws_comments_end, skip_whitespace_and_comments,
    ws_comments_end,
};
use crate::fmt::raw::{format_macro_body_raw, last_is, raw_format};
use crate::fmt::indent::{
    add_indentation, indented, indented_body_skipping_block_comments, base_indented, spaces,
};

verus! {

/// The position just past the last newline before `j`, or 0.
pub open spec fn line_start_before(o: Seq<char>, j: int) -> int
    decreases j,
{
    if 0 < j <= o.len() && o[j - 1] != '\n' {
        line_start_before(o, j - 1)
    } else {
        j
    }
}

/// The first position at or after `k` that does not hold a space.
pub open spec fn space_run_end(o: Seq<char>, k: int) -> int
    decreases o.len() - k,
{
    if 0 <= k < o.len() && o[k] == ' ' {
        space_run_end(o, k + 1)
    } else {
        k
    }
}

/// The number of spaces that start the last line of `o`.
pub open spec fn last_line_indent(o: Seq<char>) -> int {
    let a = line_start_before(o, o.len() as int);
    space_run_end(o, a) - a
}

/// The end of the leading whitespace of the line that starts at `i`.
pub open spec fn line_ws_end(b: Seq<char>, i: int) -> int
    decreases b.len() - i,
{
    if 0 <= i < b.len() && b[i] != '\n' && whitespace(b[i]) {
        line_ws_end(b, i + 1)
    } else {
        i
    }
}

/// The smaller of two optional values.
pub open spec fn opt_min(a: Option<int>, b: Option<int>) -> Option<int> {
    match (a, b) {
        (Some(x), Some(y)) => Some(if x <= y { x } else { y }),
        (Some(x), None) => Some(x),
        (None, _) => b,
    }
}

/// The smallest leading-whitespace width among the non-blank lines from the
/// line that starts at `i` on; `None` when all of them are blank.
pub open spec fn min_indent_from(b: Seq<char>, i: int) -> Option<int>
    decreases b.len() - i,
{
    let len = b.len() as int;
    if i < 0 || i >= len {
        None
    } else {
        proof {
            lemma_line_ws_end(b, i);
            lemma_line_end(b, line_ws_end(b, i), len);
        }
        let w = line_ws_end(b, i);
        let e = line_end(b, w, len);
        let rest = if e < len {
            min_indent_from(b, e + 1)
        } else {
            None
        };
        if w < len && b[w] != '\n' {
            opt_min(Some(w - i), rest)
        } else {
            rest
        }
    }
}

/// The smallest indentation among the non-blank lines of `b` (0 if none).
pub open spec fn min_indent(b: Seq<char>) -> int {
    match min_indent_from(b, 0) {
        Some(m) => m,
        None => 0,
    }
}

/// What replaces a macro body whose formatted text is `fb`, given the output
/// `o` written so far: `{}` when nothing is left; otherwise the trimmed text
/// on its own lines, indented by the body's own smallest indentation (or by
/// the macro's indentation plus four when the body has none), and the
/// closing brace aligned with the macro's line.
pub open spec fn macro_block(o: Seq<char>, body: Seq<char>, fb: Seq<char>) -> Seq<char> {
    if all_whitespace(fb) {
        seq!['{', '}']
    } else {
        let mi = last_line_indent(o);
        let mn = min_indent(body);
        let base = if mn > 0 {
            mn
        } else {
            mi + 4
        };
        seq!['{', '\n'] + base_indented(trimmed(fb), spaces(base)) + seq!['\n'] + spaces(mi)
            + seq!['}']
    }
}

/// One step of the source formatter at `p`.
pub open spec fn euv_step(s: Seq<char>, p: int, out: Seq<char>) -> (int, Seq<char>, bool) {
    let len = s.len() as int;
    if euv_macro_at(s, p, len) {
        let e = ident_end(s, p, len);
        let q = ws_comments_end(s, e, len);
        let o = out + s.subrange(p, e) + s.subrange(e, q);
        if q < len && s[q] == '!' {
            let q2 = ws_comments_end(s, q + 1, len);
            let o1 = o.push('!') + s.subrange(q + 1, q2);
            if q2 < len && s[q2] == '{' {
                let o2 = if last_is(o1, ' ') {
                    o1
                } else {
                    o1.push(' ')
                };
                let body = brace_content_text(s, q2);
                let r = raw_format(body);
                (block_end_at(s, q2), o2 + macro_block(o2, body, indented(r.0)), r.1)
            } else {
                (q2, o1, false)
            }
        } else {
            (q, o, false)
        }
    } else if quote_char(s[p]) {
        let e = literal_end(s, s[p], p + 1, len);
        (e, out + s.subrange(p, e), false)
    } else if line_comment_at(s, p, len) {
        let e = line_comment_end(s, p, len);
        (e, out + s.subrange(p, e), false)
    } else if block_comment_at(s, p, len) {
        let e = block_comment_end(s, p, len);
        (e, out + s.subrange(p, e), false)
    } else {
        (p + 1, out.push(s[p]), false)
    }
}

/// The source formatter run from `p`.
pub open spec fn euv_run(s: Seq<char>, p: int, out: Seq<char>, stuck: bool) -> (Seq<char>, bool)
    decreases s.len() - p,
{
    if p < 0 || p >= s.len() {
        (out, stuck)
    } else {
        proof {
            lemma_euv_step_advances(s, p, out);
        }
        let st = euv_step(s, p, out);
        euv_run(s, st.0, st.1, stuck || st.2)
    }
}

/// A source file with all of its framework macro invocations reformatted;
/// the flag tells whether one of their bodies holds the shape that the
/// formatter does not handle.
pub open spec fn euv_format(s: Seq<char>) -> (Seq<char>, bool) {
    euv_run(s, 0, Seq::empty(), false)
}

pub proof fn lemma_line_ws_end(b: Seq<char>, i: int)
    requires
        0 <= i <= b.len(),
    ensures
        i <= line_ws_end(b, i) <= b.len(),
    decreases b.len() - i,
{
    if 0 <= i < b.len() && b[i] != '\n' && whitespace(b[i]) {
        lemma_line_ws_end(b, i + 1);
    }
}

pub proof fn lemma_line_start_before(o: Seq<char>, j: int)
    requires
        0 <= j <= o.len(),
    ensures
        0 <= line_start_before(o, j) <= j,
    decreases j,
{
    if 0 < j <= o.len() && o[j - 1] != '\n' {
        lemma_line_start_before(o, j - 1);
    }
}

pub proof fn lemma_space_run_end(o: Seq<char>, k: int)
    requires
        0 <= k <= o.len(),
    ensures
        k <= space_run_end(o, k) <= o.len(),
    decreases o.len() - k,
{
    if 0 <= k < o.len() && o[k] == ' ' {
        lemma_space_run_end(o, k + 1);
    }
}

pub proof fn lemma_euv_step_advances(s: Seq<char>, p: int, out: Seq<char>)
    requires
        0 <= p < s.len(),
    ensures
        p < euv_step(s, p, out).0 <= s.len(),
{
    let len = s.len() as int;
    if euv_macro_at(s, p, len) {
        lemma_ident_end(s, p, len);
        let e = ident_end(s, p, len);
        assert(s.subrange(p, p + 4)[0] == s[p]);
        lemma_ws_comments_end(s, e, len);
        let q = ws_comments_end(s, e, len);
        if q < len && s[q] == '!' {
            lemma_ws_comments_end(s, q + 1, len);
            let q2 = ws_comments_end(s, q + 1, len);
            if q2 < len && s[q2] == '{' {
                crate::fmt::scan::lemma_brace_close(s, q2 + 1, 1);
            }
        }
    } else if quote_char(s[p]) {
        lemma_literal_end(s, s[p], p + 1, len);
    } else if line_comment_at(s, p, len) {
        lemma_line_end(s, p, len);
    } else if block_comment_at(s, p, len) {
        lemma_block_close(s, p + 2, len);
    }
}

/// Appends `n` spaces.
fn push_spaces(out: &mut Vec<char>, n: usize)
    ensures
        final(out)@ == old(out)@ + spaces(n as int),
{
    let mut k: usize = 0;
    while k < n
        invariant
            k <= n,
            out@ == old(out)@ + spaces(k as int),
        decreases n - k,
    {
        out.push(' ');
        k = k + 1;
        assert(out@ =~= old(out)@ + spaces(k as int));
    }
}

/// The number of spaces that start the last line of `out`.
fn last_line_space_count(out: &Vec<char>) -> (r: usize)
    ensures
        r == last_line_indent(out@),
{
    let ghost o = out@;
    proof {
        lemma_line_start_before(o, o.len() as int);
    }
    let mut a: usize = out.len();
    while a > 0 && out[a - 1] != '\n'
        invariant
            a <= out@.len(),
            o == out@,
            line_start_before(o, a as int) == line_start_before(o, o.len() as int),
        decreases a,
    {
        a = a - 1;
    }
    proof {
        lemma_space_run_end(o, a as int);
    }
    let mut k: usize = a;
    while k < out.len() && out[k] == ' '
        invariant
            a <= k <= out@.len(),
            o == out@,
            space_run_end(o, k as int) == space_run_end(o, a as int),
        decreases out@.len() - k,
    {
        k = k + 1;
    }
    k - a
}

/// The smallest leading-whitespace width among the non-blank lines of
/// `body` (0 when every line is blank).
fn min_line_indent(body: &[char]) -> (r: usize)
    ensures
        r == min_indent(body@),
{
    let ghost b = body@;
    let len: usize = body.len();
    let mut best: Option<usize> = None;
    let mut i: usize = 0;
    while i < len
        invariant
            i <= len == body@.len(),
            b == body@,
            opt_min(
                match best {
                    Some(x) => Some(x as int),
                    None => None,
                },
                min_indent_from(b, i as int),
            ) == min_indent_from(b, 0),
        decreases len - i,
    {
        proof {
            lemma_line_ws_end(b, i as int);
        }
        let start: usize = i;
        let mut w: usize = i;
        while w < len && body[w] != '\n' && is_whitespace(body[w])
            invariant
                start <= w <= len == body@.len(),
                b == body@,
                line_ws_end(b, w as int) == line_ws_end(b, start as int),
            decreases len - w,
        {
            w = w + 1;
        }
        proof {
            lemma_line_end(b, w as int, len as int);
        }
        let mut e: usize = w;
        while e < len && body[e] != '\n'
            invariant
                w <= e <= len == body@.len(),
                b == body@,
                line_end(b, e as int, len as int) == line_end(b, w as int, len as int),
            decreases len - e,
        {
            e = e + 1;
        }
        if w < len && body[w] != '\n' {
            let width: usize = w - start;
            best = match best {
                Some(x) => Some(if x <= width { x } else { width }),
                None => Some(width),
            };
        }
        if e < len {
            i = e + 1;
        } else {
            i = len;
        }
    }
    match best {
        Some(x) => x,
        None => 0,
    }
}

/// Replaces the body of the macro whose `{` stands at `q2` and returns where
/// the body ends and whether it holds the unhandled shape.
fn rewrite_macro_block(chars: &[char], q2: usize, out: &mut Vec<char>) -> (r: (usize, bool))
    requires
        q2 < chars@.len(),
        chars@[q2 as int] == '{',
    ensures
        r.0 == block_end_at(chars@, q2 as int),
        r.1 == raw_format(brace_content_text(chars@, q2 as int)).1,
        final(out)@ == old(out)@ + macro_block(
            old(out)@,
            brace_content_text(chars@, q2 as int),
            indented(raw_format(brace_content_text(chars@, q2 as int)).0),
        ),
{
    let ghost o = out@;
    let (body_content, end_pos) = extract_brace_content(chars, q2);
    let (raw, stuck) = format_macro_body_raw(body_content.as_slice());
    let formatted_body: Vec<char> = add_indentation(raw.as_slice());
    if is_all_whitespace(formatted_body.as_slice()) {
        out.push('{');
        out.push('}');
        assert(out@ =~= o + seq!['{', '}']);
        return (end_pos, stuck);
    }
    let trimmed_body: Vec<char> = trim_chars(formatted_body.as_slice());
    let macro_indent: usize = last_line_space_count(out);
    let min_indent_width: usize = min_line_indent(body_content.as_slice());
    let mut indent_str: Vec<char> = Vec::new();
    if min_indent_width > 0 {
        push_spaces(&mut indent_str, min_indent_width);
        assert(indent_str@ =~= spaces(min_indent_width as int));
    } else {
        push_spaces(&mut indent_str, macro_indent);
        push_spaces(&mut indent_str, 4);
        assert(indent_str@ =~= spaces(macro_indent + 4));
    }
    let indented_body: Vec<char> = indented_body_skipping_block_comments(
        trimmed_body.as_slice(),
        indent_str.as_slice(),
    );
    out.push('{');
    out.push('\n');
    let n: usize = indented_body.len();
    push_range(out, indented_body.as_slice(), 0, n);
    assert(indented_body@.subrange(0, n as int) =~= indented_body@);
    out.push('\n');
    push_spaces(out, macro_indent);
    out.push('}');
    assert(out@ =~= o + macro_block(o, body_content@, formatted_body@));
    (end_pos, stuck)
}

/// Reformats every framework macro invocation in the characters of a source
/// file; the flag tells whether some macro body holds the shape that the
/// formatter does not handle.
pub fn format_euv_macros_chars(chars: &[char]) -> (r: (Vec<char>, bool))
    ensures
        r.0@ == euv_format(chars@).0,
        r.1 == euv_format(chars@).1,
{
    let ghost s = chars@;
    let len: usize = chars.len();
    let mut result: Vec<char> = Vec::new();
    let mut stuck: bool = false;
    let mut position: usize = 0;
    while position < len
        invariant
            position <= len == chars@.len(),
            s == chars@,
            euv_run(s, position as int, result@, stuck) == euv_format(s),
        decreases len - position,
    {
        proof {
            lemma_euv_step_advances(s, position as int, result@);
        }
        if is_euv_macro_start(chars, position, len) {
            let ghost o0 = result@;
            let macro_name_end: usize = find_macro_name_end(chars, position, len);
            push_range(&mut result, chars, position, macro_name_end);
            position = skip_whitespace_and_comments(chars, macro_name_end, len, &mut result);
            if position < len && chars[position] == '!' {
                result.push('!');
                position = skip_whitespace_and_comments(chars, position + 1, len, &mut result);
                if position < len && chars[position] == '{' {
                    let n: usize = result.len();
                    if !(n > 0 && result[n - 1] == ' ') {
                        result.push(' ');
                    }
                    let (end_pos, body_stuck) = rewrite_macro_block(chars, position, &mut result);
                    stuck = stuck || body_stuck;
                    position = end_pos;
                    continue;
                }
            }
            continue;
        }
        if chars[position] == '"' || chars[position] == '\'' {
            let (literal, end_pos) = extract_string_literal(chars, position, len);
            let n: usize = literal.len();
            push_range(&mut result, literal.as_slice(), 0, n);
            assert(literal@.subrange(0, n as int) =~= literal@);
            position = end_pos;
            continue;
        }
        if len - position > 1 && chars[position] == '/' && chars[position + 1] == '/' {
            let (comment, end_pos) = extract_line_comment(chars, position, len);
            let n: usize = comment.len();
            push_range(&mut result, comment.as_slice(), 0, n);
            assert(comment@.subrange(0, n as int) =~= comment@);
            position = end_pos;
            continue;
        }
        if len - position > 1 && chars[position] == '/' && chars[position + 1] == '*' {
            let (comment, end_pos) = extract_block_comment(chars, position, len);
            let n: usize = comment.len();
            push_range(&mut result, comment.as_slice(), 0, n);
            assert(comment@.subrange(0, n as int) =~= comment@);
            position = end_pos;
            continue;
        }
        result.push(chars[position]);
        position = position + 1;
    }
    (result, stuck)
}

/// Finds and reformats all `html!`, `class!`, `vars!` and `watch!`
/// invocations in a source file. Each body gets the formatting rules of
/// `format_macro_body`, is indented under its macro, and ends with the
/// closing brace aligned with the macro's line; everything else in the
/// file is copied unchanged.
pub fn format_euv_macros(source: &str) -> (r: String)
    requires
        !euv_format(source@).1,
    ensures
        r@ == euv_format(source@).0,
{
    let chars: Vec<char> = chars_of(source);
    let (out, _) = format_euv_macros_chars(chars.as_slice());
    string_of(&out)
}

/// `format_euv_macros`, or `None` when a macro body holds the shape that the
/// formatter does not handle (an `if` followed only by spaces up to the end
/// of a block).
pub fn try_format_euv_macros(source: &str) -> (r: Option<String>)
    ensures
        r is None <==> euv_format(source@).1,
        r matches Some(t) ==> t@ == euv_format(source@).0,
{
    let chars: Vec<char> = chars_of(source);
    let (out, stuck) = format_euv_macros_chars(chars.as_slice());
    if stuck {
        None
    } else {
        Some(string_of(&out))
    }
}

/// The formatted text of one macro body: the rewriting pass, then four
/// spaces of indentation per open brace.
pub open spec fn macro_body_formatted(body: Seq<char>) -> Seq<char> {
    indented(raw_format(body).0)
}

/// Formats the body of a framework macro invocation (the text between its
/// outer braces): normalised spacing, nested blocks on lines of their own,
/// four spaces of indentation per open brace.
pub fn format_macro_body(body: &str) -> (r: String)
    requires
        !raw_format(body@).1,
    ensures
        r@ == macro_body_formatted(body@),
{
    let chars: Vec<char> = chars_of(body);
    let (raw, _) = format_macro_body_raw(chars.as_slice());
    let out: Vec<char> = add_indentation(raw.as_slice());
    string_of(&out)
}

/// `format_macro_body`, or `None` when the body holds the shape that the
/// formatter does not handle.
pub fn try_format_macro_body(body: &str) -> (r: Option<String>)
    ensures
        r is None <==> raw_format(body@).1,
        r matches Some(t) ==> t@ == macro_body_formatted(body@),
{
    let chars: Vec<char> = chars_of(body);
    let (raw, stuck) = format_macro_body_raw(chars.as_slice());
    if stuck {
        return None;
    }
    let out: Vec<char> = add_indentation(raw.as_slice());
    Some(string_of(&out))
}

/// The outcome of formatting one source file.
pub struct FmtResult {
    /// Whether formatting changed the text.
    pub changed: bool,
    /// The formatted text.
    pub output: String,
}

impl FmtResult {
    /// Builds a result from its parts.
    pub fn new(changed: bool, output: String) -> (r: FmtResult)
        ensures
            r.changed == changed,
            r.output == output,
    {
        FmtResult { changed, output }
    }

    /// Whether formatting changed the text.
    pub fn get_changed(&self) -> (r: bool)
        ensures
            r == self.changed,
    {
        self.changed
    }

    /// The formatted text.
    pub fn get_output(&self) -> (r: &String)
        ensures
            r == &self.output,
    {
        &self.output
    }
}

/// Formats a single source file, reporting whether anything changed.
pub fn format_source(source: &str) -> (r: FmtResult)
    requires
        !euv_format(source@).1,
    ensures
        r.output@ == euv_format(source@).0,
        r.changed <==> euv_format(source@).0 != source@,
{
    let chars: Vec<char> = chars_of(source);
    let (out, _) = format_euv_macros_chars(chars.as_slice());
    let mut changed: bool = out.len() != chars.len();
    let mut i: usize = 0;
    while i < out.len()
        invariant
            i <= out@.len(),
            chars@ == source@,
            changed ==> out@ != chars@,
            !changed ==> out@.len() == chars@.len() && out@.subrange(0, i as int)
                == chars@.subrange(0, i as int),
        ensures
            !changed ==> i == out@.len(),
        decreases out@.len() - i,
    {
        if changed {
            break;
        }
        if out[i] != chars[i] {
            changed = true;
            assert(out@[i as int] != chars@[i as int]);
            break;
        }
        i = i + 1;
        assert(out@.subrange(0, i as int) =~= chars@.subrange(0, i as int));
    }
    proof {
        if !changed {
            assert(out@ =~= out@.subrange(0, out@.len() as int));
            assert(chars@ =~= chars@.subrange(0, chars@.len() as int));
        }
    }
    FmtResult::new(changed, string_of(&out))
}

} // verus!
