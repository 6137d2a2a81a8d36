//! Character-level scanners shared by the macro formatter: identifiers,
//! string literals, comments, brace blocks and whitespace runs.
//!
//! Every scanner is specified by a spec function that says where the scan
//! stops; the executable versions are proved to stop exactly there.
use vstd::prelude::*;
use crate::text::{alphanumeric, whitespace, is_alphanumeric, is_whitespace};

verus! {

/// A character that may be part of a Rust identifier.
pub open spec fn ident_char(c: char) -> bool {
    alphanumeric(c) || c == '_'
}

/// A space or a horizontal tab.
pub open spec fn space_or_tab(c: char) -> bool {
    c == ' ' || c == '\t'
}

/// The first position at or after `pos`, below `len`, that does not hold a
/// space or a tab.
pub open spec fn spaces_end(s: Seq<char>, pos: int, len: int) -> int
    decreases len - pos,
{
    if pos < len && space_or_tab(s[pos]) {
        spaces_end(s, pos + 1, len)
    } else {
        pos
    }
}

/// The first position at or after `pos`, below `len`, that does not hold an
/// identifier character.
pub open spec fn ident_end(s: Seq<char>, pos: int, len: int) -> int
    decreases len - pos,
{
    if pos < len && ident_char(s[pos]) {
        ident_end(s, pos + 1, len)
    } else {
        pos
    }
}

/// Where a quoted literal whose body starts at `pos` ends: just past the
/// closing `quote`, or `len` when the literal is unterminated. A backslash
/// escapes the character after it.
pub open spec fn literal_end(s: Seq<char>, quote: char, pos: int, len: int) -> int
    decreases len - pos,
{
    if pos >= len {
        pos
    } else if s[pos] == '\\' && pos + 1 < len {
        literal_end(s, quote, pos + 2, len)
    } else if s[pos] == quote {
        pos + 1
    } else {
        literal_end(s, quote, pos + 1, len)
    }
}

/// The first position at or after `pos`, below `len`, holding a newline.
pub open spec fn line_end(s: Seq<char>, pos: int, len: int) -> int
    decreases len - pos,
{
    if pos < len && s[pos] != '\n' {
        line_end(s, pos + 1, len)
    } else {
        pos
    }
}

/// Where a line comment starting at `pos` ends: just past its newline, or
/// `len` when the input ends first.
pub open spec fn line_comment_end(s: Seq<char>, pos: int, len: int) -> int {
    let e = line_end(s, pos, len);
    if e < len {
        e + 1
    } else {
        e
    }
}

/// The position of the first `*/` at or after `pos`, or `len` when there is
/// none.
pub open spec fn block_close(s: Seq<char>, pos: int, len: int) -> int
    decreases len - pos,
{
    if pos + 1 >= len {
        len
    } else if s[pos] == '*' && s[pos + 1] == '/' {
        pos
    } else {
        block_close(s, pos + 1, len)
    }
}

/// Where a block comment opened at `start` ends: just past its `*/`, or `len`
/// when it is unterminated.
pub open spec fn block_comment_end(s: Seq<char>, start: int, len: int) -> int {
    let c = block_close(s, start + 2, len);
    if c < len {
        c + 2
    } else {
        len
    }
}

/// `//` starts at `pos`.
pub open spec fn line_comment_at(s: Seq<char>, pos: int, len: int) -> bool {
    pos + 1 < len && s[pos] == '/' && s[pos + 1] == '/'
}

/// `/*` starts at `pos`.
pub open spec fn block_comment_at(s: Seq<char>, pos: int, len: int) -> bool {
    pos + 1 < len && s[pos] == '/' && s[pos + 1] == '*'
}

/// A double or single quote.
pub open spec fn quote_char(c: char) -> bool {
    c == '"' || c == '\''
}

/// Where the token that the brace scanner skips over as a unit ends, when one
/// starts at `pos`: a quoted literal or a comment. `pos + 1` otherwise.
pub open spec fn skip_unit_end(s: Seq<char>, pos: int) -> int {
    let len = s.len() as int;
    if quote_char(s[pos]) {
        literal_end(s, s[pos], pos + 1, len)
    } else if line_comment_at(s, pos, len) {
        line_comment_end(s, pos, len)
    } else if block_comment_at(s, pos, len) {
        block_comment_end(s, pos, len)
    } else {
        pos + 1
    }
}

/// The position of the `}` that closes a block whose nesting depth is
/// `depth` at `pos`, skipping literals and comments; `s.len()` when the
/// block is never closed.
pub open spec fn brace_close(s: Seq<char>, pos: int, depth: int) -> int
    decreases s.len() - pos,
{
    let len = s.len() as int;
    if pos < 0 || pos >= len {
        len
    } else if quote_char(s[pos]) || line_comment_at(s, pos, len) || block_comment_at(s, pos, len) {
        proof {
            lemma_skip_unit_end(s, pos);
        }
        brace_close(s, skip_unit_end(s, pos), depth)
    } else if s[pos] == '{' {
        brace_close(s, pos + 1, depth + 1)
    } else if s[pos] == '}' {
        if depth - 1 == 0 {
            pos
        } else {
            brace_close(s, pos + 1, depth - 1)
        }
    } else {
        brace_close(s, pos + 1, depth)
    }
}

/// The position of the `}` closing the block opened by the `{` at `start`.
pub open spec fn block_close_at(s: Seq<char>, start: int) -> int {
    brace_close(s, start + 1, 1)
}

/// The position just past the block opened at `start`.
pub open spec fn block_end_at(s: Seq<char>, start: int) -> int {
    let c = block_close_at(s, start);
    if c < s.len() {
        c + 1
    } else {
        s.len() as int
    }
}

/// The text of the block opened at `start`, braces included.
pub open spec fn brace_block_text(s: Seq<char>, start: int) -> Seq<char> {
    s.subrange(start, block_end_at(s, start))
}

/// The text inside the block opened at `start`, braces excluded.
pub open spec fn brace_content_text(s: Seq<char>, start: int) -> Seq<char> {
    s.subrange(start + 1, block_close_at(s, start))
}

/// The first position at or after `i` that does not hold whitespace.
pub open spec fn trim_start_at(s: Seq<char>, i: int) -> int
    decreases s.len() - i,
{
    if 0 <= i < s.len() && whitespace(s[i]) {
        trim_start_at(s, i + 1)
    } else {
        i
    }
}

/// The position just past the last non-whitespace character before `j`.
pub open spec fn trim_end_at(s: Seq<char>, j: int) -> int
    decreases j,
{
    if 0 < j <= s.len() && whitespace(s[j - 1]) {
        trim_end_at(s, j - 1)
    } else {
        j
    }
}

/// Every character of `s` is whitespace.
pub open spec fn all_whitespace(s: Seq<char>) -> bool {
    forall|i: int| 0 <= i < s.len() ==> #[trigger] whitespace(s[i])
}

/// `s` without its leading and trailing whitespace, as `str::trim` gives it.
pub open spec fn trimmed(s: Seq<char>) -> Seq<char> {
    let a = trim_start_at(s, 0);
    let b = trim_end_at(s, s.len() as int);
    if a < b {
        s.subrange(a, b)
    } else {
        Seq::empty()
    }
}

// ---------------------------------------------------------------------
// Lemmas on the scanners
// ---------------------------------------------------------------------

pub proof fn lemma_spaces_end(s: Seq<char>, pos: int, len: int)
    requires
        pos <= len,
    ensures
        pos <= spaces_end(s, pos, len) <= len,
        forall|k: int| pos <= k < spaces_end(s, pos, len) ==> space_or_tab(#[trigger] s[k]),
        spaces_end(s, pos, len) < len ==> !space_or_tab(s[spaces_end(s, pos, len)]),
    decreases len - pos,
{
    if pos < len && space_or_tab(s[pos]) {
        lemma_spaces_end(s, pos + 1, len);
    }
}

pub proof fn lemma_ident_end(s: Seq<char>, pos: int, len: int)
    requires
        pos <= len,
    ensures
        pos <= ident_end(s, pos, len) <= len,
        forall|k: int| pos <= k < ident_end(s, pos, len) ==> ident_char(#[trigger] s[k]),
        ident_end(s, pos, len) < len ==> !ident_char(s[ident_end(s, pos, len)]),
    decreases len - pos,
{
    if pos < len && ident_char(s[pos]) {
        lemma_ident_end(s, pos + 1, len);
    }
}

pub proof fn lemma_literal_end(s: Seq<char>, quote: char, pos: int, len: int)
    requires
        pos <= len,
    ensures
        pos <= literal_end(s, quote, pos, len) <= len,
        pos < len ==> pos < literal_end(s, quote, pos, len),
    decreases len - pos,
{
    if pos >= len {
    } else if s[pos] == '\\' && pos + 1 < len {
        lemma_literal_end(s, quote, pos + 2, len);
    } else if s[pos] == quote {
    } else {
        lemma_literal_end(s, quote, pos + 1, len);
    }
}

pub proof fn lemma_line_end(s: Seq<char>, pos: int, len: int)
    requires
        pos <= len,
    ensures
        pos <= line_end(s, pos, len) <= len,
        line_end(s, pos, len) < len ==> s[line_end(s, pos, len)] == '\n',
        forall|k: int| pos <= k < line_end(s, pos, len) ==> #[trigger] s[k] != '\n',
    decreases len - pos,
{
    if pos < len && s[pos] != '\n' {
        lemma_line_end(s, pos + 1, len);
    }
}

pub proof fn lemma_block_close(s: Seq<char>, pos: int, len: int)
    requires
        pos <= len,
    ensures
        pos <= block_close(s, pos, len) <= len,
        block_close(s, pos, len) < len ==> block_close(s, pos, len) + 1 < len && s[block_close(
            s,
            pos,
            len,
        )] == '*' && s[block_close(s, pos, len) + 1] == '/',
    decreases len - pos,
{
    if pos + 1 >= len {
    } else if s[pos] == '*' && s[pos + 1] == '/' {
    } else {
        lemma_block_close(s, pos + 1, len);
    }
}

pub proof fn lemma_skip_unit_end(s: Seq<char>, pos: int)
    requires
        0 <= pos < s.len(),
    ensures
        pos < skip_unit_end(s, pos) <= s.len(),
{
    let len = s.len() as int;
    if quote_char(s[pos]) {
        lemma_literal_end(s, s[pos], pos + 1, len);
    } else if line_comment_at(s, pos, len) {
        lemma_line_end(s, pos, len);
    } else if block_comment_at(s, pos, len) {
        lemma_block_close(s, pos + 2, len);
    }
}

pub proof fn lemma_brace_close(s: Seq<char>, pos: int, depth: int)
    requires
        0 <= pos <= s.len(),
    ensures
        pos <= brace_close(s, pos, depth) <= s.len(),
        brace_close(s, pos, depth) < s.len() ==> s[brace_close(s, pos, depth)] == '}',
    decreases s.len() - pos,
{
    let len = s.len() as int;
    if pos >= len {
    } else if quote_char(s[pos]) || line_comment_at(s, pos, len) || block_comment_at(
        s,
        pos,
        len,
    ) {
        lemma_skip_unit_end(s, pos);
        lemma_brace_close(s, skip_unit_end(s, pos), depth);
    } else if s[pos] == '{' {
        lemma_brace_close(s, pos + 1, depth + 1);
    } else if s[pos] == '}' {
        if depth - 1 != 0 {
            lemma_brace_close(s, pos + 1, depth - 1);
        }
    } else {
        lemma_brace_close(s, pos + 1, depth);
    }
}

pub proof fn lemma_trim_start(s: Seq<char>, i: int)
    requires
        0 <= i <= s.len(),
    ensures
        i <= trim_start_at(s, i) <= s.len(),
        forall|k: int| i <= k < trim_start_at(s, i) ==> whitespace(#[trigger] s[k]),
        trim_start_at(s, i) < s.len() ==> !whitespace(s[trim_start_at(s, i)]),
    decreases s.len() - i,
{
    if 0 <= i < s.len() && whitespace(s[i]) {
        lemma_trim_start(s, i + 1);
    }
}

pub proof fn lemma_trim_end(s: Seq<char>, j: int)
    requires
        0 <= j <= s.len(),
    ensures
        0 <= trim_end_at(s, j) <= j,
        forall|k: int| trim_end_at(s, j) <= k < j ==> whitespace(#[trigger] s[k]),
        trim_end_at(s, j) > 0 ==> !whitespace(s[trim_end_at(s, j) - 1]),
    decreases j,
{
    if 0 < j <= s.len() && whitespace(s[j - 1]) {
        lemma_trim_end(s, j - 1);
    }
}

/// Trimming keeps a piece of the text and drops only whitespace around it.
pub proof fn lemma_trimmed(s: Seq<char>)
    ensures
        trimmed(s).len() <= s.len(),
        trimmed(s).len() == 0 <==> all_whitespace(s),
        trimmed(s).len() > 0 ==> !whitespace(trimmed(s)[0]) && !whitespace(
            trimmed(s)[trimmed(s).len() - 1],
        ),
{
    lemma_trim_start(s, 0);
    lemma_trim_end(s, s.len() as int);
    let a = trim_start_at(s, 0);
    let b = trim_end_at(s, s.len() as int);
    if a < b {
        assert(!all_whitespace(s)) by {
            assert(!whitespace(s[a]));
        }
    } else {
        assert forall|i: int| 0 <= i < s.len() implies #[trigger] whitespace(s[i]) by {
            if i >= a {
                assert(b <= i);
            }
        }
    }
}

// ---------------------------------------------------------------------
// Executable scanners
// ---------------------------------------------------------------------

/// Whether `character` can be part of a Rust identifier: alphanumeric or `_`.
pub fn is_ident_char(character: char) -> (r: bool)
    ensures
        r == ident_char(character),
{
    is_alphanumeric(character) || character == '_'
}

/// Skips spaces and tabs (not newlines) from `pos`.
pub fn skip_spaces_on_same_line(chars: &[char], pos: usize, len: usize) -> (r: usize)
    requires
        pos <= len <= chars@.len(),
    ensures
        r == spaces_end(chars@, pos as int, len as int),
        pos <= r <= len,
{
    proof {
        lemma_spaces_end(chars@, pos as int, len as int);
    }
    let mut p: usize = pos;
    while p < len && (chars[p] == ' ' || chars[p] == '\t')
        invariant
            pos <= p <= len <= chars@.len(),
            spaces_end(chars@, p as int, len as int) == spaces_end(chars@, pos as int, len as int),
        decreases len - p,
    {
        p = p + 1;
    }
    p
}

/// The end of the identifier that starts at `pos`.
pub fn find_macro_name_end(chars: &[char], pos: usize, _len: usize) -> (r: usize)
    requires
        pos <= chars@.len(),
    ensures
        r == ident_end(chars@, pos as int, chars@.len() as int),
        pos <= r <= chars@.len(),
{
    proof {
        lemma_ident_end(chars@, pos as int, chars@.len() as int);
    }
    let mut end: usize = pos;
    while end < chars.len() && is_ident_char(chars[end])
        invariant
            pos <= end <= chars@.len(),
            ident_end(chars@, end as int, chars@.len() as int) == ident_end(
                chars@,
                pos as int,
                chars@.len() as int,
            ),
        decreases chars@.len() - end,
    {
        end = end + 1;
    }
    end
}

/// Copies `chars[from..to]` onto the end of `out`.
pub fn push_range(out: &mut Vec<char>, chars: &[char], from: usize, to: usize)
    requires
        from <= to <= chars@.len(),
    ensures
        final(out)@ == old(out)@ + chars@.subrange(from as int, to as int),
{
    let mut i: usize = from;
    while i < to
        invariant
            from <= i <= to <= chars@.len(),
            out@ == old(out)@ + chars@.subrange(from as int, i as int),
        decreases to - i,
    {
        out.push(chars[i]);
        i = i + 1;
        assert(out@ == old(out)@ + chars@.subrange(from as int, i as int));
    }
}

/// Extracts the quoted literal opened at `start`, honouring backslash
/// escapes. Returns its text and the position after the closing quote.
pub fn extract_string_literal(chars: &[char], start: usize, len: usize) -> (r: (Vec<char>, usize))
    requires
        start < len <= chars@.len(),
    ensures
        r.1 == literal_end(chars@, chars@[start as int], start + 1, len as int),
        start < r.1 <= len,
        r.0@ == chars@.subrange(start as int, r.1 as int),
{
    let quote: char = chars[start];
    let ghost s = chars@;
    proof {
        lemma_literal_end(s, quote, start + 1, len as int);
    }
    let mut position: usize = start + 1;
    loop
        invariant_except_break
            literal_end(s, quote, position as int, len as int) == literal_end(
                s,
                quote,
                start + 1,
                len as int,
            ),
        invariant
            start < position <= len <= chars@.len(),
            s == chars@,
            quote == s[start as int],
        ensures
            position == literal_end(s, quote, start + 1, len as int),
        decreases len - position,
    {
        if position >= len {
            break;
        }
        if chars[position] == '\\' && position + 1 < len {
            position = position + 2;
            continue;
        }
        if chars[position] == quote {
            position = position + 1;
            break;
        }
        position = position + 1;
    }
    let mut text: Vec<char> = Vec::new();
    push_range(&mut text, chars, start, position);
    (text, position)
}

/// Extracts the line comment starting at `start`, newline included.
pub fn extract_line_comment(chars: &[char], start: usize, len: usize) -> (r: (Vec<char>, usize))
    requires
        start <= len <= chars@.len(),
    ensures
        r.1 == line_comment_end(chars@, start as int, len as int),
        start <= r.1 <= len,
        start < len ==> start < r.1,
        r.0@ == chars@.subrange(start as int, r.1 as int),
{
    proof {
        lemma_line_end(chars@, start as int, len as int);
    }
    let mut position: usize = start;
    while position < len && chars[position] != '\n'
        invariant
            start <= position <= len <= chars@.len(),
            line_end(chars@, position as int, len as int) == line_end(
                chars@,
                start as int,
                len as int,
            ),
        decreases len - position,
    {
        position = position + 1;
    }
    if position < len {
        position = position + 1;
    }
    let mut text: Vec<char> = Vec::new();
    push_range(&mut text, chars, start, position);
    (text, position)
}

/// The position of the first `*/` at or after `pos`, or `len`.
pub fn find_block_close(chars: &[char], pos: usize, len: usize) -> (r: usize)
    requires
        pos <= len <= chars@.len(),
    ensures
        r == block_close(chars@, pos as int, len as int),
        pos <= r <= len,
        r < len ==> r + 1 < len,
{
    proof {
        lemma_block_close(chars@, pos as int, len as int);
    }
    let mut position: usize = pos;
    while len - position > 1
        invariant
            pos <= position <= len <= chars@.len(),
            block_close(chars@, position as int, len as int) == block_close(
                chars@,
                pos as int,
                len as int,
            ),
        decreases len - position,
    {
        if chars[position] == '*' && chars[position + 1] == '/' {
            return position;
        }
        position = position + 1;
    }
    len
}

/// Extracts the block comment opened at `start`, `*/` included (or up to the
/// end when it is unterminated).
pub fn extract_block_comment(chars: &[char], start: usize, len: usize) -> (r: (Vec<char>, usize))
    requires
        start + 1 < len <= chars@.len(),
    ensures
        r.1 == block_comment_end(chars@, start as int, len as int),
        start + 2 <= r.1 <= len,
        r.0@ == chars@.subrange(start as int, r.1 as int),
{
    let close: usize = find_block_close(chars, start + 2, len);
    let end: usize = if close < len {
        close + 2
    } else {
        len
    };
    proof {
        lemma_block_close(chars@, start + 2, len as int);
    }
    let mut text: Vec<char> = Vec::new();
    push_range(&mut text, chars, start, end);
    (text, end)
}

/// Where the unit (literal or comment) starting at `pos` ends, for the brace
/// scanner; `pos + 1` for any other character.
fn skip_unit(chars: &[char], pos: usize) -> (r: usize)
    requires
        pos < chars@.len(),
    ensures
        r == skip_unit_end(chars@, pos as int),
        pos < r <= chars@.len(),
{
    proof {
        lemma_skip_unit_end(chars@, pos as int);
    }
    let len: usize = chars.len();
    if chars[pos] == '"' || chars[pos] == '\'' {
        let (_, end) = extract_string_literal(chars, pos, len);
        end
    } else if pos + 1 < len && chars[pos] == '/' && chars[pos + 1] == '/' {
        let (_, end) = extract_line_comment(chars, pos, len);
        end
    } else if pos + 1 < len && chars[pos] == '/' && chars[pos + 1] == '*' {
        let (_, end) = extract_block_comment(chars, pos, len);
        end
    } else {
        pos + 1
    }
}

/// The position of the `}` closing the block opened at `start` (or the
/// length of `chars` when the block is never closed).
fn find_brace_close(chars: &[char], start: usize) -> (r: usize)
    requires
        start < chars@.len(),
        chars@[start as int] == '{',
    ensures
        r == block_close_at(chars@, start as int),
        start < r <= chars@.len(),
        r < chars@.len() ==> chars@[r as int] == '}',
{
    let ghost s = chars@;
    let n: usize = chars.len();
    proof {
        lemma_brace_close(s, start + 1, 1);
    }
    let mut depth: usize = 1;
    let mut position: usize = start + 1;
    while position < chars.len()
        invariant
            start < position <= chars@.len(),
            s == chars@,
            1 <= depth <= position - start,
            brace_close(s, position as int, depth as int) == block_close_at(s, start as int),
        decreases chars@.len() - position,
    {
        if chars[position] == '"' || chars[position] == '\'' || (position + 1 < chars.len()
            && chars[position] == '/' && (chars[position + 1] == '/' || chars[position + 1]
            == '*')) {
            let end: usize = skip_unit(chars, position);
            position = end;
            continue;
        }
        if chars[position] == '{' {
            depth = depth + 1;
        } else if chars[position] == '}' {
            if depth == 1 {
                return position;
            }
            depth = depth - 1;
        }
        position = position + 1;
    }
    chars.len()
}

/// Extracts the block opened by the `{` at `start`, braces included, and the
/// position after its closing `}`.
pub fn extract_brace_block(chars: &[char], start: usize) -> (r: (Vec<char>, usize))
    requires
        start < chars@.len(),
        chars@[start as int] == '{',
    ensures
        r.1 == block_end_at(chars@, start as int),
        start < r.1 <= chars@.len(),
        r.0@ == brace_block_text(chars@, start as int),
{
    let close: usize = find_brace_close(chars, start);
    let end: usize = if close < chars.len() {
        close + 1
    } else {
        chars.len()
    };
    let mut text: Vec<char> = Vec::new();
    push_range(&mut text, chars, start, end);
    (text, end)
}

/// Extracts the text inside the block opened by the `{` at `start`, braces
/// excluded, and the position after its closing `}`.
pub fn extract_brace_content(chars: &[char], start: usize) -> (r: (Vec<char>, usize))
    requires
        start < chars@.len(),
        chars@[start as int] == '{',
    ensures
        r.1 == block_end_at(chars@, start as int),
        start < r.1 <= chars@.len(),
        r.0@ == brace_content_text(chars@, start as int),
        r.0@.len() < chars@.len(),
{
    let close: usize = find_brace_close(chars, start);
    let end: usize = if close < chars.len() {
        close + 1
    } else {
        chars.len()
    };
    let mut text: Vec<char> = Vec::new();
    push_range(&mut text, chars, start + 1, close);
    (text, end)
}

/// Whether every character of `chars` is whitespace.
pub fn is_all_whitespace(chars: &[char]) -> (r: bool)
    ensures
        r == all_whitespace(chars@),
{
    let mut i: usize = 0;
    while i < chars.len()
        invariant
            i <= chars@.len(),
            forall|k: int| 0 <= k < i ==> #[trigger] whitespace(chars@[k]),
        decreases chars@.len() - i,
    {
        if !is_whitespace(chars[i]) {
            return false;
        }
        i = i + 1;
    }
    true
}

/// `chars` without leading and trailing whitespace.
pub fn trim_chars(chars: &[char]) -> (r: Vec<char>)
    ensures
        r@ == trimmed(chars@),
{
    let ghost s = chars@;
    proof {
        lemma_trim_start(s, 0);
        lemma_trim_end(s, s.len() as int);
    }
    let mut a: usize = 0;
    while a < chars.len() && is_whitespace(chars[a])
        invariant
            a <= chars@.len(),
            s == chars@,
            trim_start_at(s, a as int) == trim_start_at(s, 0),
        decreases chars@.len() - a,
    {
        a = a + 1;
    }
    let mut b: usize = chars.len();
    while b > 0 && is_whitespace(chars[b - 1])
        invariant
            b <= chars@.len(),
            s == chars@,
            trim_end_at(s, b as int) == trim_end_at(s, s.len() as int),
        decreases b,
    {
        b = b - 1;
    }
    let mut out: Vec<char> = Vec::new();
    if a < b {
        push_range(&mut out, chars, a, b);
    }
    out
}

} // verus!
