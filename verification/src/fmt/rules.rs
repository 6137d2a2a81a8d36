//! Recognisers for keywords, macro names, selector colons and the small
//! text edits that the formatter's rules are built from.
use vstd::prelude::*;
use crate::text::{whitespace, is_whitespace};
use crate::fmt::scan::{
    block_close, block_comment_at, block_comment_end, extract_block_comment,
    extract_line_comment, ident_char, ident_end, is_ident_char, lemma_block_close,
    lemma_ident_end, lemma_line_end, lemma_trim_end, line_comment_at, line_comment_end,
    push_range, skip_spaces_on_same_line, space_or_tab, spaces_end, trim_chars, trim_end_at,
    trimmed,
};

verus! {

/// `r#` stands just before `pos`, making the word there a raw identifier.
pub open spec fn raw_prefix(s: Seq<char>, pos: int) -> bool {
    pos >= 2 && s[pos - 2] == 'r' && s[pos - 1] == '#'
}

/// A word of `n` characters at `pos` stands alone: no identifier character
/// right after it or right before it, and no `r#` before it.
pub open spec fn word_boundary(s: Seq<char>, pos: int, n: int, len: int) -> bool {
    &&& (pos + n >= len || !ident_char(s[pos + n]))
    &&& (pos == 0 || !ident_char(s[pos - 1]))
    &&& !raw_prefix(s, pos)
}

/// The keyword `if` stands at `pos`.
pub open spec fn if_at(s: Seq<char>, pos: int, len: int) -> bool {
    pos + 2 <= len && s[pos] == 'i' && s[pos + 1] == 'f' && word_boundary(s, pos, 2, len)
}

/// The keyword `in` stands at `pos`.
pub open spec fn in_at(s: Seq<char>, pos: int, len: int) -> bool {
    pos + 2 <= len && s[pos] == 'i' && s[pos + 1] == 'n' && word_boundary(s, pos, 2, len)
}

/// The keyword `for` stands at `pos`.
pub open spec fn for_at(s: Seq<char>, pos: int, len: int) -> bool {
    pos + 3 <= len && s[pos] == 'f' && s[pos + 1] == 'o' && s[pos + 2] == 'r' && word_boundary(
        s,
        pos,
        3,
        len,
    )
}

/// The keyword `else` stands at `pos`.
pub open spec fn else_at(s: Seq<char>, pos: int, len: int) -> bool {
    pos + 4 <= len && s[pos] == 'e' && s[pos + 1] == 'l' && s[pos + 2] == 's' && s[pos + 3] == 'e'
        && word_boundary(s, pos, 4, len)
}

/// The keyword `match` stands at `pos`.
pub open spec fn match_at(s: Seq<char>, pos: int, len: int) -> bool {
    pos + 5 <= len && s[pos] == 'm' && s[pos + 1] == 'a' && s[pos + 2] == 't' && s[pos + 3] == 'c'
        && s[pos + 4] == 'h' && word_boundary(s, pos, 5, len)
}

/// The macro name `name` stands alone at `pos`.
pub open spec fn name_at(s: Seq<char>, pos: int, len: int, name: Seq<char>) -> bool {
    &&& pos + name.len() <= len
    &&& s.subrange(pos, pos + name.len()) == name
    &&& !(pos > 0 && ident_char(s[pos - 1]))
    &&& !(pos + name.len() < len && ident_char(s[pos + name.len()]))
}

/// One of the framework's macro names (`html`, `class`, `vars`, `watch`)
/// stands alone at `pos`.
pub open spec fn euv_macro_at(s: Seq<char>, pos: int, len: int) -> bool {
    ||| name_at(s, pos, len, seq!['h', 't', 'm', 'l'])
    ||| name_at(s, pos, len, seq!['c', 'l', 'a', 's', 's'])
    ||| name_at(s, pos, len, seq!['v', 'a', 'r', 's'])
    ||| name_at(s, pos, len, seq!['w', 'a', 't', 'c', 'h'])
}

/// Where a run of whitespace and comments starting at `pos` ends.
pub open spec fn ws_comments_end(s: Seq<char>, pos: int, len: int) -> int
    decreases len - pos,
{
    if pos < 0 || pos >= len {
        pos
    } else if whitespace(s[pos]) {
        ws_comments_end(s, pos + 1, len)
    } else if line_comment_at(s, pos, len) {
        proof {
            lemma_line_end(s, pos, len);
        }
        ws_comments_end(s, line_comment_end(s, pos, len), len)
    } else if block_comment_at(s, pos, len) {
        proof {
            lemma_block_close(s, pos + 2, len);
        }
        ws_comments_end(s, block_comment_end(s, pos, len), len)
    } else {
        pos
    }
}

/// A brace block with single-line content gets one space inside each brace;
/// an empty one becomes `{}`; a block spanning lines is kept as it is.
pub open spec fn brace_block_formatted(b: Seq<char>) -> Seq<char> {
    if b.len() < 2 || b[0] != '{' || b[b.len() - 1] != '}' {
        b
    } else {
        let inner = b.subrange(1, b.len() - 1);
        if inner.contains('\n') {
            b
        } else {
            let t = trimmed(inner);
            if t.len() == 0 {
                seq!['{', '}']
            } else {
                seq!['{', ' '] + t + seq![' ', '}']
            }
        }
    }
}

/// Where a chain of `-word` pieces after an identifier ends (as in
/// `focus-visible`).
pub open spec fn hyphen_ident_end(s: Seq<char>, pos: int, len: int) -> int
    decreases len - pos,
{
    if 0 <= pos && pos + 1 < len && s[pos] == '-' && ident_char(s[pos + 1]) {
        proof {
            lemma_ident_end(s, pos + 1, len);
        }
        hyphen_ident_end(s, ident_end(s, pos + 1, len), len)
    } else {
        pos
    }
}

/// The position of the `)` that brings the parenthesis depth from `depth`
/// to zero, or `len`.
pub open spec fn paren_close(s: Seq<char>, pos: int, depth: int, len: int) -> int
    decreases len - pos,
{
    if pos >= len {
        len
    } else if s[pos] == '(' {
        paren_close(s, pos + 1, depth + 1, len)
    } else if s[pos] == ')' {
        if depth - 1 == 0 {
            pos
        } else {
            paren_close(s, pos + 1, depth - 1, len)
        }
    } else {
        paren_close(s, pos + 1, depth, len)
    }
}

/// `if`, `match` or `for`: words that start an attribute value expression.
pub open spec fn rust_keyword(w: Seq<char>) -> bool {
    w == seq!['i', 'f'] || w == seq!['m', 'a', 't', 'c', 'h'] || w == seq!['f', 'o', 'r']
}

/// What follows a colon at `pos` is a CSS pseudo selector: an identifier
/// (not `if`, `match` or `for`), possibly hyphenated and possibly followed
/// by a parenthesised argument list, then `{`.
pub open spec fn pseudo_selector_at(s: Seq<char>, pos: int, len: int) -> bool {
    if pos < 0 || pos >= len || !ident_char(s[pos]) {
        false
    } else {
        let q = ident_end(s, pos, len);
        if rust_keyword(s.subrange(pos, q)) {
            false
        } else {
            let a = spaces_end(s, hyphen_ident_end(s, q, len), len);
            if a < len && s[a] == '{' {
                true
            } else if a < len && s[a] == '(' {
                let c = paren_close(s, a + 1, 1, len);
                c < len && spaces_end(s, c + 1, len) < len && s[spaces_end(s, c + 1, len)] == '{'
            } else {
                false
            }
        }
    }
}

/// The start of the run of spaces that ends at `j`.
pub open spec fn trailing_space_start(s: Seq<char>, j: int) -> int
    decreases j,
{
    if 0 < j <= s.len() && s[j - 1] == ' ' {
        trailing_space_start(s, j - 1)
    } else {
        j
    }
}

/// The start of the run of identifier characters that ends at `j`.
pub open spec fn ident_start_before(s: Seq<char>, j: int) -> int
    decreases j,
{
    if 0 < j <= s.len() && ident_char(s[j - 1]) {
        ident_start_before(s, j - 1)
    } else {
        j
    }
}

/// The start of the run of spaces and tabs that ends at `j`.
pub open spec fn blank_start(s: Seq<char>, j: int) -> int
    decreases j,
{
    if 0 < j <= s.len() && space_or_tab(s[j - 1]) {
        blank_start(s, j - 1)
    } else {
        j
    }
}

/// The identifier that ends `s`, trailing spaces aside.
pub open spec fn ident_before(s: Seq<char>) -> Seq<char> {
    let e = trailing_space_start(s, s.len() as int);
    s.subrange(ident_start_before(s, e), e)
}

/// `s` without its trailing spaces and without the `k` characters before them.
pub open spec fn spaces_and_prefix_removed(s: Seq<char>, k: int) -> Seq<char> {
    let e = trailing_space_start(s, s.len() as int);
    if k > e {
        s
    } else {
        s.subrange(0, e - k)
    }
}

/// The spaces and tabs that end `s`.
pub open spec fn trailing_blanks(s: Seq<char>) -> Seq<char> {
    s.subrange(blank_start(s, s.len() as int), s.len() as int)
}

/// `t` ends with `suffix`.
pub open spec fn ends_with(t: Seq<char>, suffix: Seq<char>) -> bool {
    suffix.len() <= t.len() && t.subrange(t.len() - suffix.len(), t.len() as int) == suffix
}

/// `s`, trailing whitespace aside, ends with `r#` followed by `ident`.
pub open spec fn raw_ident_before(s: Seq<char>, ident: Seq<char>) -> bool {
    ends_with(s.subrange(0, trim_end_at(s, s.len() as int)), seq!['r', '#'] + ident)
}

pub proof fn lemma_ws_comments_end(s: Seq<char>, pos: int, len: int)
    requires
        0 <= pos <= len,
    ensures
        pos <= ws_comments_end(s, pos, len) <= len,
    decreases len - pos,
{
    if pos >= len {
    } else if whitespace(s[pos]) {
        lemma_ws_comments_end(s, pos + 1, len);
    } else if line_comment_at(s, pos, len) {
        lemma_line_end(s, pos, len);
        lemma_ws_comments_end(s, line_comment_end(s, pos, len), len);
    } else if block_comment_at(s, pos, len) {
        lemma_block_close(s, pos + 2, len);
        lemma_ws_comments_end(s, block_comment_end(s, pos, len), len);
    }
}

pub proof fn lemma_hyphen_ident_end(s: Seq<char>, pos: int, len: int)
    requires
        0 <= pos <= len,
    ensures
        pos <= hyphen_ident_end(s, pos, len) <= len,
    decreases len - pos,
{
    if 0 <= pos && pos + 1 < len && s[pos] == '-' && ident_char(s[pos + 1]) {
        lemma_ident_end(s, pos + 1, len);
        lemma_hyphen_ident_end(s, ident_end(s, pos + 1, len), len);
    }
}

pub proof fn lemma_paren_close(s: Seq<char>, pos: int, depth: int, len: int)
    requires
        pos <= len,
    ensures
        pos <= paren_close(s, pos, depth, len) <= len,
    decreases len - pos,
{
    if pos >= len {
    } else if s[pos] == '(' {
        lemma_paren_close(s, pos + 1, depth + 1, len);
    } else if s[pos] == ')' {
        if depth - 1 != 0 {
            lemma_paren_close(s, pos + 1, depth - 1, len);
        }
    } else {
        lemma_paren_close(s, pos + 1, depth, len);
    }
}

pub proof fn lemma_trailing_space_start(s: Seq<char>, j: int)
    requires
        0 <= j <= s.len(),
    ensures
        0 <= trailing_space_start(s, j) <= j,
        forall|k: int| trailing_space_start(s, j) <= k < j ==> #[trigger] s[k] == ' ',
    decreases j,
{
    if 0 < j <= s.len() && s[j - 1] == ' ' {
        lemma_trailing_space_start(s, j - 1);
    }
}

pub proof fn lemma_ident_start_before(s: Seq<char>, j: int)
    requires
        0 <= j <= s.len(),
    ensures
        0 <= ident_start_before(s, j) <= j,
        forall|k: int| ident_start_before(s, j) <= k < j ==> ident_char(#[trigger] s[k]),
    decreases j,
{
    if 0 < j <= s.len() && ident_char(s[j - 1]) {
        lemma_ident_start_before(s, j - 1);
    }
}

pub proof fn lemma_blank_start(s: Seq<char>, j: int)
    requires
        0 <= j <= s.len(),
    ensures
        0 <= blank_start(s, j) <= j,
        forall|k: int| blank_start(s, j) <= k < j ==> space_or_tab(#[trigger] s[k]),
        blank_start(s, j) > 0 ==> !space_or_tab(s[blank_start(s, j) - 1]),
    decreases j,
{
    if 0 < j <= s.len() && space_or_tab(s[j - 1]) {
        lemma_blank_start(s, j - 1);
    }
}

/// The end of the run of identifier characters starting at `pos`.
pub fn ident_run_end(chars: &[char], pos: usize, len: usize) -> (r: usize)
    requires
        pos <= len <= chars@.len(),
    ensures
        r == ident_end(chars@, pos as int, len as int),
        pos <= r <= len,
{
    proof {
        lemma_ident_end(chars@, pos as int, len as int);
    }
    let mut p: usize = pos;
    while p < len && is_ident_char(chars[p])
        invariant
            pos <= p <= len <= chars@.len(),
            ident_end(chars@, p as int, len as int) == ident_end(chars@, pos as int, len as int),
        decreases len - p,
    {
        p = p + 1;
    }
    p
}

/// Whether `r#` stands just before `pos`.
pub fn is_raw_prefix(chars: &[char], pos: usize) -> (r: bool)
    requires
        pos <= chars@.len(),
    ensures
        r == raw_prefix(chars@, pos as int),
{
    if pos < 2 {
        return false;
    }
    chars[pos - 2] == 'r' && chars[pos - 1] == '#'
}

/// Whether the word of `n` characters at `pos` stands alone.
fn is_word_boundary(chars: &[char], pos: usize, n: usize, len: usize) -> (r: bool)
    requires
        pos + n <= len <= chars@.len(),
    ensures
        r == word_boundary(chars@, pos as int, n as int, len as int),
{
    (pos + n >= len || !is_ident_char(chars[pos + n])) && (pos == 0 || !is_ident_char(
        chars[pos - 1],
    )) && !is_raw_prefix(chars, pos)
}

/// Whether the keyword `if` stands at `pos`.
pub fn is_if_keyword(chars: &[char], pos: usize, len: usize) -> (r: bool)
    requires
        len <= chars@.len(),
    ensures
        r == if_at(chars@, pos as int, len as int),
{
    if pos >= len || len - pos < 2 {
        return false;
    }
    chars[pos] == 'i' && chars[pos + 1] == 'f' && is_word_boundary(chars, pos, 2, len)
}

/// Whether the keyword `else` stands at `pos`.
pub fn is_else_keyword(chars: &[char], pos: usize, len: usize) -> (r: bool)
    requires
        len <= chars@.len(),
    ensures
        r == else_at(chars@, pos as int, len as int),
{
    if pos >= len || len - pos < 4 {
        return false;
    }
    chars[pos] == 'e' && chars[pos + 1] == 'l' && chars[pos + 2] == 's' && chars[pos + 3] == 'e'
        && is_word_boundary(chars, pos, 4, len)
}

/// Whether the keyword `match` stands at `pos`.
pub fn is_match_keyword(chars: &[char], pos: usize, len: usize) -> (r: bool)
    requires
        len <= chars@.len(),
    ensures
        r == match_at(chars@, pos as int, len as int),
{
    if pos >= len || len - pos < 5 {
        return false;
    }
    chars[pos] == 'm' && chars[pos + 1] == 'a' && chars[pos + 2] == 't' && chars[pos + 3] == 'c'
        && chars[pos + 4] == 'h' && is_word_boundary(chars, pos, 5, len)
}

/// Whether the keyword `for` stands at `pos`.
pub fn is_for_keyword(chars: &[char], pos: usize, len: usize) -> (r: bool)
    requires
        len <= chars@.len(),
    ensures
        r == for_at(chars@, pos as int, len as int),
{
    if pos >= len || len - pos < 3 {
        return false;
    }
    chars[pos] == 'f' && chars[pos + 1] == 'o' && chars[pos + 2] == 'r' && is_word_boundary(
        chars,
        pos,
        3,
        len,
    )
}

/// Whether the keyword `in` stands at `pos`.
pub fn is_in_keyword(chars: &[char], pos: usize, len: usize) -> (r: bool)
    requires
        len <= chars@.len(),
    ensures
        r == in_at(chars@, pos as int, len as int),
{
    if pos >= len || len - pos < 2 {
        return false;
    }
    chars[pos] == 'i' && chars[pos + 1] == 'n' && is_word_boundary(chars, pos, 2, len)
}

/// Whether `name` stands alone at `pos`.
fn is_name_at(chars: &[char], pos: usize, len: usize, name: &Vec<char>) -> (r: bool)
    requires
        len <= chars@.len(),
    ensures
        r == name_at(chars@, pos as int, len as int, name@),
{
    let n: usize = name.len();
    if pos > len || len - pos < n {
        return false;
    }
    let mut i: usize = 0;
    while i < n
        invariant
            i <= n == name@.len(),
            pos + n <= len <= chars@.len(),
            forall|k: int| 0 <= k < i ==> chars@[pos + k] == name@[k],
        decreases n - i,
    {
        if chars[pos + i] != name[i] {
            assert(chars@.subrange(pos as int, pos + n)[i as int] != name@[i as int]);
            return false;
        }
        i = i + 1;
    }
    assert(chars@.subrange(pos as int, pos + n) =~= name@);
    !(pos > 0 && is_ident_char(chars[pos - 1])) && !(pos + n < len && is_ident_char(
        chars[pos + n],
    ))
}

/// Whether one of the framework's macro names stands alone at `pos`.
pub fn is_euv_macro_start(chars: &[char], pos: usize, len: usize) -> (r: bool)
    requires
        len <= chars@.len(),
    ensures
        r == euv_macro_at(chars@, pos as int, len as int),
{
    let html: Vec<char> = vec!['h', 't', 'm', 'l'];
    let class: Vec<char> = vec!['c', 'l', 'a', 's', 's'];
    let vars: Vec<char> = vec!['v', 'a', 'r', 's'];
    let watch: Vec<char> = vec!['w', 'a', 't', 'c', 'h'];
    assert(html@ =~= seq!['h', 't', 'm', 'l']);
    assert(class@ =~= seq!['c', 'l', 'a', 's', 's']);
    assert(vars@ =~= seq!['v', 'a', 'r', 's']);
    assert(watch@ =~= seq!['w', 'a', 't', 'c', 'h']);
    is_name_at(chars, pos, len, &html) || is_name_at(chars, pos, len, &class) || is_name_at(
        chars,
        pos,
        len,
        &vars,
    ) || is_name_at(chars, pos, len, &watch)
}

/// Copies the whitespace and comments starting at `pos` onto `result` and
/// returns where they end.
pub fn skip_whitespace_and_comments(
    chars: &[char],
    pos: usize,
    len: usize,
    result: &mut Vec<char>,
) -> (r: usize)
    requires
        pos <= len <= chars@.len(),
    ensures
        r == ws_comments_end(chars@, pos as int, len as int),
        pos <= r <= len,
        final(result)@ == old(result)@ + chars@.subrange(pos as int, r as int),
{
    let ghost s = chars@;
    proof {
        lemma_ws_comments_end(s, pos as int, len as int);
    }
    let mut p: usize = pos;
    while p < len
        invariant_except_break
            ws_comments_end(s, p as int, len as int) == ws_comments_end(s, pos as int, len as int),
        invariant
            pos <= p <= len <= chars@.len(),
            s == chars@,
            result@ == old(result)@ + s.subrange(pos as int, p as int),
        ensures
            p == ws_comments_end(s, pos as int, len as int),
        decreases len - p,
    {
        if is_whitespace(chars[p]) {
            result.push(chars[p]);
            p = p + 1;
            assert(result@ == old(result)@ + s.subrange(pos as int, p as int));
        } else if len - p > 1 && chars[p] == '/' && chars[p + 1] == '/' {
            let (comment, end) = extract_line_comment(chars, p, len);
            result.append(&mut comment.clone());
            assert(result@ == old(result)@ + s.subrange(pos as int, end as int));
            p = end;
        } else if len - p > 1 && chars[p] == '/' && chars[p + 1] == '*' {
            let (comment, end) = extract_block_comment(chars, p, len);
            result.append(&mut comment.clone());
            assert(result@ == old(result)@ + s.subrange(pos as int, end as int));
            p = end;
        } else {
            break;
        }
    }
    p
}

/// Gives a single-line brace block one space inside each brace, turns an
/// empty one into `{}`, and keeps a block that spans lines as it is.
pub fn format_brace_block(block: &[char]) -> (r: Vec<char>)
    ensures
        r@ == brace_block_formatted(block@),
{
    let n: usize = block.len();
    let mut whole: Vec<char> = Vec::new();
    push_range(&mut whole, block, 0, n);
    assert(whole@ =~= block@);
    if n < 2 || block[0] != '{' || block[n - 1] != '}' {
        return whole;
    }
    let mut inner: Vec<char> = Vec::new();
    push_range(&mut inner, block, 1, n - 1);
    assert(inner@ =~= block@.subrange(1, n - 1));
    let mut i: usize = 0;
    while i < inner.len()
        invariant
            i <= inner@.len(),
            whole@ == block@,
            inner@ == block@.subrange(1, block@.len() - 1),
            forall|k: int| 0 <= k < i ==> inner@[k] != '\n',
        decreases inner@.len() - i,
    {
        if inner[i] == '\n' {
            assert(inner@[i as int] == '\n');
            assert(inner@.contains('\n'));
            return whole;
        }
        i = i + 1;
    }
    let trimmed_inner: Vec<char> = trim_chars(inner.as_slice());
    let mut out: Vec<char> = Vec::new();
    out.push('{');
    if trimmed_inner.len() == 0 {
        out.push('}');
        assert(out@ =~= seq!['{', '}']);
        return out;
    }
    out.push(' ');
    let m: usize = trimmed_inner.len();
    push_range(&mut out, trimmed_inner.as_slice(), 0, m);
    out.push(' ');
    out.push('}');
    assert(out@ =~= seq!['{', ' '] + trimmed_inner@ + seq![' ', '}']);
    out
}

/// Whether `ident` is `if`, `match` or `for`.
pub fn is_rust_keyword(ident: &[char]) -> (r: bool)
    ensures
        r == rust_keyword(ident@),
{
    let n: usize = ident.len();
    if n == 2 && ident[0] == 'i' && ident[1] == 'f' {
        assert(ident@ =~= seq!['i', 'f']);
        return true;
    }
    if n == 5 && ident[0] == 'm' && ident[1] == 'a' && ident[2] == 't' && ident[3] == 'c'
        && ident[4] == 'h' {
        assert(ident@ =~= seq!['m', 'a', 't', 'c', 'h']);
        return true;
    }
    if n == 3 && ident[0] == 'f' && ident[1] == 'o' && ident[2] == 'r' {
        assert(ident@ =~= seq!['f', 'o', 'r']);
        return true;
    }
    proof {
        if ident@ == seq!['i', 'f'] {
            assert(ident@[0] == 'i' && ident@[1] == 'f');
        }
        if ident@ == seq!['m', 'a', 't', 'c', 'h'] {
            assert(ident@[0] == 'm' && ident@[1] == 'a' && ident@[2] == 't' && ident@[3] == 'c'
                && ident@[4] == 'h');
        }
        if ident@ == seq!['f', 'o', 'r'] {
            assert(ident@[0] == 'f' && ident@[1] == 'o' && ident@[2] == 'r');
        }
    }
    false
}

/// Whether what follows the colon (from `pos`, spaces already skipped) is a
/// CSS pseudo-class or pseudo-element selector such as `:hover {` or
/// `:nth-child(2n+1) {`, rather than an attribute value.
pub fn is_pseudo_selector_after_colon(chars: &[char], pos: usize, len: usize) -> (r: bool)
    requires
        len <= chars@.len(),
    ensures
        r == pseudo_selector_at(chars@, pos as int, len as int),
{
    let ghost s = chars@;
    if pos >= len || !is_ident_char(chars[pos]) {
        return false;
    }
    let mut p: usize = ident_run_end(chars, pos, len);
    let mut first: Vec<char> = Vec::new();
    push_range(&mut first, chars, pos, p);
    if is_rust_keyword(first.as_slice()) {
        return false;
    }
    let ghost q = p as int;
    proof {
        lemma_hyphen_ident_end(s, q, len as int);
    }
    while p < len && chars[p] == '-' && len - p > 1 && is_ident_char(chars[p + 1])
        invariant
            q <= p <= len <= chars@.len(),
            s == chars@,
            hyphen_ident_end(s, p as int, len as int) == hyphen_ident_end(s, q, len as int),
        decreases len - p,
    {
        p = ident_run_end(chars, p + 1, len);
    }
    let after_ident: usize = skip_spaces_on_same_line(chars, p, len);
    if after_ident < len && chars[after_ident] == '{' {
        return true;
    }
    if after_ident < len && chars[after_ident] == '(' {
        let ghost a = after_ident as int;
        proof {
            lemma_paren_close(s, a + 1, 1, len as int);
        }
        assert(a == spaces_end(s, hyphen_ident_end(s, ident_end(s, pos as int, len as int), len as int), len as int));
        assert(!rust_keyword(s.subrange(pos as int, ident_end(s, pos as int, len as int))));
        let mut depth: usize = 1;
        let mut paren_pos: usize = after_ident + 1;
        while paren_pos < len
            invariant
                a < paren_pos <= len <= chars@.len(),
                s == chars@,
                1 <= depth <= paren_pos - a,
                depth <= paren_pos,
                pos < len && ident_char(s[pos as int]),
                a < len && s[a] == '(',
                a == spaces_end(s, hyphen_ident_end(s, ident_end(s, pos as int, len as int), len as int), len as int),
                !rust_keyword(s.subrange(pos as int, ident_end(s, pos as int, len as int))),
                paren_close(s, paren_pos as int, depth as int, len as int) == paren_close(
                    s,
                    a + 1,
                    1,
                    len as int,
                ),
            decreases len - paren_pos,
        {
            if chars[paren_pos] == '(' {
                depth = depth + 1;
            } else if chars[paren_pos] == ')' {
                if depth == 1 {
                    let after_paren: usize = skip_spaces_on_same_line(chars, paren_pos + 1, len);
                    return after_paren < len && chars[after_paren] == '{';
                }
                depth = depth - 1;
            }
            paren_pos = paren_pos + 1;
        }
    }
    false
}

/// The identifier that ends `result`, trailing spaces aside (empty when
/// there is none).
pub fn find_ident_before(result: &[char]) -> (r: Vec<char>)
    ensures
        r@ == ident_before(result@),
{
    let ghost s = result@;
    proof {
        lemma_trailing_space_start(s, s.len() as int);
    }
    let mut end: usize = result.len();
    while end > 0 && result[end - 1] == ' '
        invariant
            end <= result@.len(),
            s == result@,
            trailing_space_start(s, end as int) == trailing_space_start(s, s.len() as int),
        decreases end,
    {
        end = end - 1;
    }
    proof {
        lemma_ident_start_before(s, end as int);
    }
    let mut start: usize = end;
    while start > 0 && is_ident_char(result[start - 1])
        invariant
            start <= end <= result@.len(),
            s == result@,
            ident_start_before(s, start as int) == ident_start_before(s, end as int),
        decreases start,
    {
        start = start - 1;
    }
    let mut out: Vec<char> = Vec::new();
    push_range(&mut out, result, start, end);
    out
}

/// `result` without its trailing spaces and the `prefix_len` characters
/// before them; unchanged when there are fewer such characters.
pub fn remove_trailing_spaces(result: &[char], prefix_len: usize) -> (r: Vec<char>)
    ensures
        r@ == spaces_and_prefix_removed(result@, prefix_len as int),
{
    let ghost s = result@;
    proof {
        lemma_trailing_space_start(s, s.len() as int);
    }
    let total_len: usize = result.len();
    let mut end: usize = total_len;
    while end > 0 && result[end - 1] == ' '
        invariant
            end <= result@.len(),
            s == result@,
            trailing_space_start(s, end as int) == trailing_space_start(s, s.len() as int),
        decreases end,
    {
        end = end - 1;
    }
    let mut out: Vec<char> = Vec::new();
    if prefix_len > end {
        push_range(&mut out, result, 0, total_len);
        assert(out@ =~= s);
        return out;
    }
    push_range(&mut out, result, 0, end - prefix_len);
    out
}

/// The spaces and tabs that end `result`.
pub fn find_trailing_spaces(result: &[char]) -> (r: Vec<char>)
    ensures
        r@ == trailing_blanks(result@),
{
    let ghost s = result@;
    proof {
        lemma_blank_start(s, s.len() as int);
    }
    let mut start: usize = result.len();
    while start > 0 && (result[start - 1] == ' ' || result[start - 1] == '\t')
        invariant
            start <= result@.len(),
            s == result@,
            blank_start(s, start as int) == blank_start(s, s.len() as int),
        decreases start,
    {
        start = start - 1;
    }
    let mut out: Vec<char> = Vec::new();
    let n: usize = result.len();
    push_range(&mut out, result, start, n);
    out
}

/// Whether `result`, trailing whitespace aside, ends with `r#` followed by
/// `ident`: the colon after a raw identifier is left alone.
pub fn is_raw_ident_before(result: &[char], ident: &[char]) -> (r: bool)
    ensures
        r == raw_ident_before(result@, ident@),
{
    let ghost s = result@;
    proof {
        lemma_trim_end(s, s.len() as int);
    }
    let mut end: usize = result.len();
    while end > 0 && is_whitespace(result[end - 1])
        invariant
            end <= result@.len(),
            s == result@,
            trim_end_at(s, end as int) == trim_end_at(s, s.len() as int),
        decreases end,
    {
        end = end - 1;
    }
    assert(end == trim_end_at(s, s.len() as int));
    let ghost t = s.subrange(0, end as int);
    let ghost suffix = seq!['r', '#'] + ident@;
    let n: usize = ident.len();
    if end < 2 || end - 2 < n {
        return false;
    }
    let base: usize = end - n - 2;
    assert(t.len() == end && suffix.len() == n + 2);
    assert(suffix[0] == 'r' && suffix[1] == '#');
    if result[base] != 'r' || result[base + 1] != '#' {
        proof {
            assert(t.subrange(t.len() - suffix.len(), t.len() as int)[0] == result@[base as int]);
            assert(t.subrange(t.len() - suffix.len(), t.len() as int)[1] == result@[base + 1]);
        }
        return false;
    }
    let mut i: usize = 0;
    while i < n
        invariant
            i <= n == ident@.len(),
            base + 2 + n == end <= result@.len(),
            s == result@,
            t == s.subrange(0, end as int),
            end == trim_end_at(s, s.len() as int),
            suffix == seq!['r', '#'] + ident@,
            t.len() == end && suffix.len() == n + 2,
            forall|k: int| 0 <= k < i ==> result@[base + 2 + k] == ident@[k],
        decreases n - i,
    {
        if result[base + 2 + i] != ident[i] {
            proof {
                assert(suffix[i + 2] == ident@[i as int]);
                assert(t.subrange(t.len() - suffix.len(), t.len() as int)[i + 2] == result@[base
                    + 2 + i]);
            }
            return false;
        }
        i = i + 1;
    }
    assert forall|k: int| 0 <= k < suffix.len() implies t.subrange(
        t.len() - suffix.len(),
        t.len() as int,
    )[k] == suffix[k] by {
        if k >= 2 {
            assert(suffix[k] == ident@[k - 2]);
        }
    }
    assert(t.subrange(t.len() - suffix.len(), t.len() as int) =~= suffix);
    true
}

} // verus!
