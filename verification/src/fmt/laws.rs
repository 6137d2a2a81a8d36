//! What formatting keeps: the formatter only changes whitespace, apart from
//! supplying the closing brace of a block that the input leaves open.
use vstd::prelude::*;
use crate::text::whitespace;
use crate::fmt::scan::{
    all_whitespace, block_close, block_close_at, block_comment_at, block_comment_end,
    block_end_at, brace_block_text, brace_content_text, ident_char, ident_end,
    lemma_block_close, lemma_brace_close, lemma_ident_end, lemma_line_end, lemma_literal_end,
    lemma_spaces_end, lemma_trim_end, lemma_trim_start, lemma_trimmed, line_comment_at,
    line_comment_end, line_end, literal_end, quote_char, space_or_tab, spaces_end, trim_end_at,
    trim_start_at, trimmed,
};
use crate::fmt::rules::{
    blank_start, brace_block_formatted, else_at, euv_macro_at, for_at, ident_before,
    ident_start_before, if_at, in_at, lemma_blank_start, lemma_ident_start_before,
    lemma_trailing_space_start, lemma_ws_comments_end, match_at, raw_ident_before,
    spaces_and_prefix_removed, trailing_space_start, ws_comments_end,
};
use crate::fmt::raw::{
    arrow_at, brace_branch_at, brace_start_from, colon_at, for_pattern_run, last_is,
    lemma_block_end, lemma_brace_start_from, lemma_for_pattern_run, lemma_raw_plain_step_advances,
    raw_colon_step, raw_else_step, raw_for_step, raw_format, raw_keyword_step, raw_plain_step,
    raw_run, single_colon_at, without_trailing_space,
};
use crate::fmt::source::{
    euv_format, euv_run, euv_step, lemma_euv_step_advances, macro_block, macro_body_formatted,
};
use crate::fmt::indent::{
    base_indent_run, base_indented, base_indented_line, closing_run_end, indent_block_comment_end,
    indent_of, indent_run, indent_step, indented, lemma_indent_step_advances, spaces,
    stays_after_close,
};

verus! {

broadcast use vstd::seq_lib::group_filter_ensures;

/// The characters of `s` that are not whitespace, in order.
pub open spec fn visible(s: Seq<char>) -> Seq<char> {
    s.filter(|c: char| !whitespace(c))
}

/// The characters of `s` that are neither whitespace nor a closing brace,
/// in order.
pub open spec fn visible_unclosed(s: Seq<char>) -> Seq<char> {
    s.filter(|c: char| !whitespace(c) && c != '}')
}

/// The predicate `f` keeps no whitespace character.
pub open spec fn drops_whitespace(f: spec_fn(char) -> bool) -> bool {
    forall|c: char| #[trigger] f(c) ==> !whitespace(c)
}

pub proof fn lemma_keep_none(a: Seq<char>, f: spec_fn(char) -> bool)
    requires
        forall|i: int| 0 <= i < a.len() ==> !f(#[trigger] a[i]),
    ensures
        a.filter(f) == Seq::<char>::empty(),
    decreases a.len(),
{
    reveal(Seq::filter);
    if a.len() > 0 {
        lemma_keep_none(a.drop_last(), f);
    }
}

pub proof fn lemma_keep_add(a: Seq<char>, b: Seq<char>, f: spec_fn(char) -> bool)
    ensures
        (a + b).filter(f) == a.filter(f) + b.filter(f),
{
    Seq::filter_distributes_over_add(a, b, f);
}

pub proof fn lemma_keep_push(a: Seq<char>, c: char, f: spec_fn(char) -> bool)
    ensures
        a.push(c).filter(f) == if f(c) {
            a.filter(f).push(c)
        } else {
            a.filter(f)
        },
{
    a.lemma_filter_push(c, f);
}

pub proof fn lemma_keep_split(s: Seq<char>, a: int, b: int, c: int, f: spec_fn(char) -> bool)
    requires
        0 <= a <= b <= c <= s.len(),
    ensures
        s.subrange(a, c).filter(f) == s.subrange(a, b).filter(f) + s.subrange(b, c).filter(f),
{
    assert(s.subrange(a, c) =~= s.subrange(a, b) + s.subrange(b, c));
    lemma_keep_add(s.subrange(a, b), s.subrange(b, c), f);
}

/// A run of spaces and tabs keeps nothing.
pub proof fn lemma_keep_spaces(s: Seq<char>, p: int, len: int, f: spec_fn(char) -> bool)
    requires
        0 <= p <= len <= s.len(),
        drops_whitespace(f),
    ensures
        p <= spaces_end(s, p, len) <= len,
        s.subrange(p, spaces_end(s, p, len)).filter(f) == Seq::<char>::empty(),
{
    lemma_spaces_end(s, p, len);
    let e = spaces_end(s, p, len);
    assert forall|i: int| 0 <= i < e - p implies !f(#[trigger] s.subrange(p, e)[i]) by {
        assert(space_or_tab(s[p + i]));
        assert(whitespace(s[p + i]));
    }
    lemma_keep_none(s.subrange(p, e), f);
}

/// Trimming keeps everything but whitespace.
pub proof fn lemma_keep_trimmed(x: Seq<char>, f: spec_fn(char) -> bool)
    requires
        drops_whitespace(f),
    ensures
        trimmed(x).filter(f) == x.filter(f),
{
    lemma_trim_start(x, 0);
    lemma_trim_end(x, x.len() as int);
    let a = trim_start_at(x, 0);
    let b = trim_end_at(x, x.len() as int);
    if a < b {
        lemma_keep_split(x, 0, a, x.len() as int, f);
        lemma_keep_split(x, a, b, x.len() as int, f);
        assert forall|i: int| 0 <= i < a implies !f(#[trigger] x.subrange(0, a)[i]) by {
            assert(whitespace(x[i]));
        }
        assert forall|i: int| 0 <= i < x.len() - b implies !f(
            #[trigger] x.subrange(b, x.len() as int)[i],
        ) by {
            assert(whitespace(x[b + i]));
        }
        lemma_keep_none(x.subrange(0, a), f);
        lemma_keep_none(x.subrange(b, x.len() as int), f);
        assert(x.subrange(0, x.len() as int) =~= x);
    } else {
        assert forall|i: int| 0 <= i < x.len() implies !f(#[trigger] x[i]) by {
            if i >= a {
                assert(b <= i);
            }
            assert(whitespace(x[i]));
        }
        lemma_keep_none(x, f);
        lemma_keep_none(Seq::<char>::empty(), f);
    }
}

/// Formatting a brace block keeps everything but whitespace.
pub proof fn lemma_keep_brace_block(b: Seq<char>, f: spec_fn(char) -> bool)
    requires
        drops_whitespace(f),
    ensures
        brace_block_formatted(b).filter(f) == b.filter(f),
{
    if !(b.len() < 2 || b[0] != '{' || b[b.len() - 1] != '}') {
        let inner = b.subrange(1, b.len() - 1);
        if !inner.contains('\n') {
            let t = trimmed(inner);
            lemma_keep_trimmed(inner, f);
            assert(b =~= seq!['{'] + inner + seq!['}']);
            lemma_keep_add(seq!['{'] + inner, seq!['}'], f);
            lemma_keep_add(seq!['{'], inner, f);
            assert(!f(' ')) by {
                assert(whitespace(' '));
            }
            if t.len() == 0 {
                assert(seq!['{', '}'] =~= seq!['{'] + seq!['}']);
                lemma_keep_add(seq!['{'], seq!['}'], f);
                crate::fmt::scan::lemma_trimmed(inner);
                lemma_keep_none(t, f);
            } else {
                assert(seq!['{', ' '] + t + seq![' ', '}'] =~= seq!['{'] + (seq![' '] + t + seq![' ']) + seq!['}']);
                lemma_keep_add(seq!['{'] + (seq![' '] + t + seq![' ']), seq!['}'], f);
                lemma_keep_add(seq!['{'], seq![' '] + t + seq![' '], f);
                lemma_keep_add(seq![' '] + t, seq![' '], f);
                lemma_keep_add(seq![' '], t, f);
                lemma_keep_none(seq![' '], f);
            }
        }
    }
}

/// `n` spaces keep nothing.
pub proof fn lemma_keep_indent(d: int, f: spec_fn(char) -> bool)
    requires
        drops_whitespace(f),
    ensures
        indent_of(d).filter(f) == Seq::<char>::empty(),
{
    assert forall|i: int| 0 <= i < indent_of(d).len() implies !f(#[trigger] indent_of(d)[i]) by {
        assert(indent_of(d)[i] == ' ');
        assert(whitespace(' '));
    }
    lemma_keep_none(indent_of(d), f);
}

proof fn lemma_indent_step_keeps(s: Seq<char>, i: int, out: Seq<char>, depth: int, f: spec_fn(char) -> bool)
    requires
        0 <= i < s.len(),
        drops_whitespace(f),
    ensures
        indent_step(s, i, out, depth).1.filter(f) == out.filter(f) + s.subrange(
            i,
            indent_step(s, i, out, depth).0,
        ).filter(f),
{
    let len = s.len() as int;
    lemma_indent_step_advances(s, i, out, depth);
    let st = indent_step(s, i, out, depth);
    if quote_char(s[i]) || line_comment_at(s, i, len) || block_comment_at(s, i, len) {
        lemma_keep_add(out, s.subrange(i, st.0), f);
    } else if s[i] == '\n' {
        let j = spaces_end(s, i + 1, len);
        lemma_keep_spaces(s, i + 1, len, f);
        lemma_keep_split(s, i, i + 1, j, f);
        assert(s.subrange(i, i + 1) =~= seq!['\n']);
        assert(seq!['\n'].filter(f) == Seq::<char>::empty()) by {
            assert(whitespace('\n'));
            lemma_keep_none(seq!['\n'], f);
        }
        lemma_keep_push(out, '\n', f);
        assert(whitespace('\n'));
        if !(j >= len || s[j] == '\n' || s[j] == '\r') {
            let d = depth - (closing_run_end(s, j, len) - j);
            lemma_keep_add(out.push('\n'), indent_of(d), f);
            lemma_keep_indent(d, f);
        }
    } else if s[i] == '{' || s[i] == '}' {
        assert(s.subrange(i, i + 1) =~= seq![s[i]]);
        lemma_keep_push(out, s[i], f);
        lemma_keep_push(Seq::<char>::empty(), s[i], f);
        reveal(Seq::filter);
        if s[i] == '}' {
            let pk = spaces_end(s, i + 1, len);
            lemma_keep_spaces(s, i + 1, len, f);
            if st.0 == pk && pk != i + 1 {
                lemma_keep_split(s, i, i + 1, pk, f);
                let o = out.push('}');
                lemma_keep_push(o, '\n', f);
                assert(whitespace('\n'));
                lemma_keep_add(o.push('\n'), indent_of(depth - 1), f);
                lemma_keep_indent(depth - 1, f);
            } else if st.0 == pk {
                lemma_keep_split(s, i, i + 1, pk, f);
                let o = out.push('}');
                lemma_keep_push(o, '\n', f);
                assert(whitespace('\n'));
                lemma_keep_add(o.push('\n'), indent_of(depth - 1), f);
                lemma_keep_indent(depth - 1, f);
            }
        }
    } else {
        assert(s.subrange(i, i + 1) =~= seq![s[i]]);
        lemma_keep_push(out, s[i], f);
        lemma_keep_push(Seq::<char>::empty(), s[i], f);
        reveal(Seq::filter);
    }
}

proof fn lemma_indent_run_keeps(s: Seq<char>, i: int, out: Seq<char>, depth: int, f: spec_fn(char) -> bool)
    requires
        0 <= i <= s.len(),
        drops_whitespace(f),
    ensures
        indent_run(s, i, out, depth).filter(f) == out.filter(f) + s.subrange(i, s.len() as int).filter(f),
    decreases s.len() - i,
{
    if i >= s.len() {
        lemma_keep_none(s.subrange(i, s.len() as int), f);
        assert(out.filter(f) + Seq::<char>::empty() =~= out.filter(f));
    } else {
        lemma_indent_step_advances(s, i, out, depth);
        let st = indent_step(s, i, out, depth);
        lemma_indent_step_keeps(s, i, out, depth, f);
        lemma_indent_run_keeps(s, st.0, st.1, st.2, f);
        lemma_keep_split(s, i, st.0, s.len() as int, f);
        assert(out.filter(f) + s.subrange(i, st.0).filter(f) + s.subrange(st.0, s.len() as int).filter(f)
            =~= out.filter(f) + (s.subrange(i, st.0).filter(f) + s.subrange(st.0, s.len() as int).filter(f)));
    }
}

/// Indenting a formatted body changes only whitespace: its non-whitespace
/// characters stay as they are, in order.
pub proof fn law_indentation_changes_only_whitespace(s: Seq<char>)
    ensures
        visible(indented(s)) == visible(s),
{
    let f = |c: char| !whitespace(c);
    lemma_indent_run_keeps(s, 0, Seq::empty(), 0, f);
    lemma_keep_none(Seq::<char>::empty(), f);
    assert(s.subrange(0, s.len() as int) =~= s);
    assert(Seq::<char>::empty() + s.filter(f) =~= s.filter(f));
}


/// The predicate `f` keeps neither whitespace nor closing braces.
pub open spec fn drops_closing(f: spec_fn(char) -> bool) -> bool {
    drops_whitespace(f) && !f('}')
}

/// Appending a whitespace character keeps the same characters.
pub proof fn lemma_keep_push_blank(o: Seq<char>, c: char, f: spec_fn(char) -> bool)
    requires
        drops_whitespace(f),
        whitespace(c),
    ensures
        o.push(c).filter(f) == o.filter(f),
{
    lemma_keep_push(o, c, f);
}

/// A word of the source that is copied to the output.
proof fn lemma_keep_word(s: Seq<char>, p: int, w: Seq<char>, f: spec_fn(char) -> bool)
    requires
        0 <= p,
        p + w.len() <= s.len(),
        forall|k: int| 0 <= k < w.len() ==> s[p + k] == #[trigger] w[k],
    ensures
        s.subrange(p, p + w.len()) == w,
{
    assert(s.subrange(p, p + w.len()) =~= w);
}

proof fn lemma_keyword_step_keeps(s: Seq<char>, p: int, out: Seq<char>, kw: Seq<char>, is_if: bool, f: spec_fn(char) -> bool)
    requires
        0 <= p,
        kw.len() > 0,
        p + kw.len() <= s.len(),
        s.subrange(p, p + kw.len()) == kw,
        drops_whitespace(f),
    ensures
        raw_keyword_step(s, p, out, kw, is_if).1.filter(f) == out.filter(f) + s.subrange(
            p,
            raw_keyword_step(s, p, out, kw, is_if).0,
        ).filter(f),
{
    let len = s.len() as int;
    let n = kw.len() as int;
    let a = spaces_end(s, p + n, len);
    lemma_keep_spaces(s, p + n, len, f);
    let o = out + kw;
    lemma_keep_add(out, kw, f);
    assert(whitespace(' '));
    if single_colon_at(s, a, len) {
        if p + n < len && s[p + n] == ' ' {
            lemma_keep_push_blank(o, ' ', f);
            lemma_keep_split(s, p, p + n, p + n + 1, f);
            assert(s.subrange(p + n, p + n + 1) =~= seq![' ']);
            lemma_keep_none(seq![' '], f);
        }
    } else if a < len && s[a] == '{' {
        lemma_block_end(s, a);
        let e = block_end_at(s, a);
        let q = spaces_end(s, e, len);
        lemma_keep_spaces(s, e, len, f);
        let b = brace_block_text(s, a);
        lemma_keep_brace_block(b, f);
        lemma_keep_push_blank(o, ' ', f);
        lemma_keep_add(o.push(' '), brace_block_formatted(b), f);
        let o2 = o.push(' ') + brace_block_formatted(b);
        lemma_keep_push_blank(o2, ' ', f);
        lemma_keep_split(s, p, p + n, q, f);
        lemma_keep_split(s, p + n, a, q, f);
        lemma_keep_split(s, a, e, q, f);
    } else {
        lemma_keep_push_blank(o, ' ', f);
        lemma_keep_split(s, p, p + n, a, f);
    }
}

proof fn lemma_else_step_keeps(s: Seq<char>, p: int, out: Seq<char>, f: spec_fn(char) -> bool)
    requires
        0 <= p,
        else_at(s, p, s.len() as int),
        drops_whitespace(f),
    ensures
        raw_else_step(s, p, out).1.filter(f) == out.filter(f) + s.subrange(
            p,
            raw_else_step(s, p, out).0,
        ).filter(f),
{
    let len = s.len() as int;
    let w = seq!['e', 'l', 's', 'e'];
    lemma_keep_word(s, p, w, f);
    assert(whitespace(' '));
    let o1 = if last_is(out, ' ') || last_is(out, '\n') || last_is(out, '\t') {
        out
    } else {
        out.push(' ')
    };
    lemma_keep_push_blank(out, ' ', f);
    lemma_keep_add(o1, w, f);
    let q = spaces_end(s, p + 4, len);
    lemma_keep_spaces(s, p + 4, len, f);
    lemma_keep_push_blank(o1 + w, ' ', f);
    lemma_keep_split(s, p, p + 4, q, f);
}

proof fn lemma_for_pattern_run_keeps(s: Seq<char>, q: int, o: Seq<char>, f: spec_fn(char) -> bool)
    requires
        0 <= q <= s.len(),
        drops_whitespace(f),
    ensures
        for_pattern_run(s, q, o).1.filter(f) == o.filter(f) + s.subrange(
            q,
            for_pattern_run(s, q, o).0,
        ).filter(f),
    decreases s.len() - q,
{
    let len = s.len() as int;
    lemma_for_pattern_run(s, q, o);
    if q < 0 || q >= len || in_at(s, q, len) {
        lemma_keep_none(s.subrange(q, q), f);
        assert(o.filter(f) + Seq::<char>::empty() =~= o.filter(f));
    } else if s[q] == '{' {
        lemma_block_end(s, q);
        let e = block_end_at(s, q);
        let b = brace_block_text(s, q);
        lemma_keep_brace_block(b, f);
        lemma_keep_add(o, brace_block_formatted(b), f);
        lemma_for_pattern_run_keeps(s, e, o + brace_block_formatted(b), f);
        lemma_for_pattern_run(s, e, o + brace_block_formatted(b));
        lemma_keep_split(s, q, e, for_pattern_run(s, q, o).0, f);
    } else if quote_char(s[q]) {
        lemma_literal_end(s, s[q], q + 1, len);
        let e = literal_end(s, s[q], q + 1, len);
        lemma_keep_add(o, s.subrange(q, e), f);
        lemma_for_pattern_run_keeps(s, e, o + s.subrange(q, e), f);
        lemma_for_pattern_run(s, e, o + s.subrange(q, e));
        lemma_keep_split(s, q, e, for_pattern_run(s, q, o).0, f);
    } else {
        lemma_keep_push(o, s[q], f);
        lemma_for_pattern_run_keeps(s, q + 1, o.push(s[q]), f);
        lemma_for_pattern_run(s, q + 1, o.push(s[q]));
        lemma_keep_split(s, q, q + 1, for_pattern_run(s, q, o).0, f);
        assert(s.subrange(q, q + 1) =~= Seq::<char>::empty().push(s[q]));
        lemma_keep_push(Seq::<char>::empty(), s[q], f);
        lemma_keep_none(Seq::<char>::empty(), f);
    }
}

proof fn lemma_without_trailing_space_keeps(o: Seq<char>, f: spec_fn(char) -> bool)
    requires
        drops_whitespace(f),
    ensures
        without_trailing_space(o).filter(f) == o.filter(f),
{
    if last_is(o, ' ') {
        assert(o =~= o.drop_last().push(' '));
        assert(whitespace(' '));
        lemma_keep_push_blank(o.drop_last(), ' ', f);
    }
}

#[verifier::rlimit(80)]
#[verifier::spinoff_prover]
proof fn lemma_for_step_keeps(s: Seq<char>, p: int, out: Seq<char>, f: spec_fn(char) -> bool)
    requires
        0 <= p,
        for_at(s, p, s.len() as int),
        drops_whitespace(f),
    ensures
        raw_for_step(s, p, out).1.filter(f) == out.filter(f) + s.subrange(
            p,
            raw_for_step(s, p, out).0,
        ).filter(f),
{
    let len = s.len() as int;
    let kw = seq!['f', 'o', 'r'];
    lemma_keep_word(s, p, kw, f);
    assert(whitespace(' '));
    let a = spaces_end(s, p + 3, len);
    lemma_keep_spaces(s, p + 3, len, f);
    let o = out + kw;
    lemma_keep_add(out, kw, f);
    if single_colon_at(s, a, len) {
        if p + 3 < len && s[p + 3] == ' ' {
            lemma_keep_push_blank(o, ' ', f);
            lemma_keep_split(s, p, p + 3, p + 4, f);
            assert(s.subrange(p + 3, p + 4) =~= seq![' ']);
            lemma_keep_none(seq![' '], f);
        }
    } else {
        let o1 = if a < len && !in_at(s, a, len) {
            o.push(' ')
        } else {
            o
        };
        lemma_keep_push_blank(o, ' ', f);
        lemma_for_pattern_run(s, a, o1);
        lemma_for_pattern_run_keeps(s, a, o1, f);
        let run = for_pattern_run(s, a, o1);
        let o2 = without_trailing_space(run.1);
        lemma_without_trailing_space_keeps(run.1, f);
        let q = spaces_end(s, run.0, len);
        lemma_keep_spaces(s, run.0, len, f);
        lemma_keep_split(s, p, p + 3, q, f);
        lemma_keep_split(s, p + 3, a, q, f);
        lemma_keep_split(s, a, run.0, q, f);
        if in_at(s, q, len) {
            let w = seq![' ', 'i', 'n'];
            let o3 = o2 + w;
            lemma_keep_add(o2, w, f);
            assert(w =~= seq![' '] + seq!['i', 'n']);
            lemma_keep_add(seq![' '], seq!['i', 'n'], f);
            lemma_keep_none(seq![' '], f);
            lemma_keep_word(s, q, seq!['i', 'n'], f);
            let q2 = spaces_end(s, q + 2, len);
            lemma_keep_spaces(s, q + 2, len, f);
            lemma_keep_push_blank(o3, ' ', f);
            if q2 < len && s[q2] == '{' {
                lemma_block_end(s, q2);
                let e = block_end_at(s, q2);
                let b = brace_block_text(s, q2);
                lemma_keep_brace_block(b, f);
                lemma_keep_add(o3.push(' '), brace_block_formatted(b), f);
                let o4 = o3.push(' ') + brace_block_formatted(b);
                let q3 = spaces_end(s, e, len);
                lemma_keep_spaces(s, e, len, f);
                lemma_keep_push_blank(o4, ' ', f);
                lemma_keep_split(s, p, q, q3, f);
                lemma_keep_split(s, q, q + 2, q3, f);
                lemma_keep_split(s, q + 2, q2, q3, f);
                lemma_keep_split(s, q2, e, q3, f);
            } else {
                lemma_brace_start_from(s, q2, len);
                let q3 = brace_start_from(s, q2, len);
                lemma_keep_add(o3.push(' '), s.subrange(q2, q3), f);
                let o4 = without_trailing_space(o3.push(' ') + s.subrange(q2, q3));
                lemma_without_trailing_space_keeps(o3.push(' ') + s.subrange(q2, q3), f);
                lemma_keep_push_blank(o4, ' ', f);
                lemma_keep_split(s, p, q, q3, f);
                lemma_keep_split(s, q, q + 2, q3, f);
                lemma_keep_split(s, q + 2, q2, q3, f);
            }
        }
    }
}

proof fn lemma_colon_step_keeps(s: Seq<char>, p: int, out: Seq<char>, f: spec_fn(char) -> bool)
    requires
        0 <= p,
        colon_at(s, p, s.len() as int),
        drops_whitespace(f),
    ensures
        raw_colon_step(s, p, out).1.filter(f) == out.filter(f) + s.subrange(
            p,
            raw_colon_step(s, p, out).0,
        ).filter(f),
{
    let len = s.len() as int;
    assert(s.subrange(p, p + 1) =~= Seq::<char>::empty().push(':'));
    lemma_keep_push(Seq::<char>::empty(), ':', f);
    lemma_keep_none(Seq::<char>::empty(), f);
    lemma_keep_push(out, ':', f);
    assert(whitespace(' '));
    if !last_is(out, ':') && !raw_ident_before(out, ident_before(out)) {
        let prefix = ident_before(out);
        let e = trailing_space_start(out, out.len() as int);
        lemma_trailing_space_start(out, out.len() as int);
        lemma_ident_start_before(out, e);
        let b = ident_start_before(out, e);
        let o = if prefix.len() > 0 {
            spaces_and_prefix_removed(out, prefix.len() as int) + prefix
        } else {
            out
        };
        assert(o.filter(f) == out.filter(f)) by {
            if prefix.len() > 0 {
                assert(o =~= out.subrange(0, e));
                lemma_keep_split(out, 0, e, out.len() as int, f);
                assert forall|i: int| 0 <= i < out.len() - e implies !f(
                    #[trigger] out.subrange(e, out.len() as int)[i],
                ) by {
                    assert(out[e + i] == ' ');
                }
                lemma_keep_none(out.subrange(e, out.len() as int), f);
                assert(out.subrange(0, out.len() as int) =~= out);
            }
        }
        lemma_keep_push(o, ':', f);
        let o1 = o.push(':');
        let q = spaces_end(s, p + 1, len);
        lemma_keep_spaces(s, p + 1, len, f);
        lemma_keep_push_blank(o1, ' ', f);
        lemma_keep_split(s, p, p + 1, q, f);
    }
}

proof fn lemma_plain_step_keeps(s: Seq<char>, p: int, out: Seq<char>, f: spec_fn(char) -> bool)
    requires
        0 <= p < s.len(),
        drops_whitespace(f),
    ensures
        raw_plain_step(s, p, out).1.filter(f) == out.filter(f) + s.subrange(
            p,
            raw_plain_step(s, p, out).0,
        ).filter(f),
{
    let len = s.len() as int;
    lemma_raw_plain_step_advances(s, p, out);
    let st = raw_plain_step(s, p, out);
    assert(whitespace(' '));
    if quote_char(s[p]) || line_comment_at(s, p, len) || block_comment_at(s, p, len) {
        lemma_keep_add(out, s.subrange(p, st.0), f);
    } else if if_at(s, p, len) {
        lemma_keep_word(s, p, seq!['i', 'f'], f);
        lemma_keyword_step_keeps(s, p, out, seq!['i', 'f'], true, f);
    } else if else_at(s, p, len) {
        lemma_else_step_keeps(s, p, out, f);
    } else if match_at(s, p, len) {
        lemma_keep_word(s, p, seq!['m', 'a', 't', 'c', 'h'], f);
        lemma_keyword_step_keeps(s, p, out, seq!['m', 'a', 't', 'c', 'h'], false, f);
    } else if for_at(s, p, len) {
        lemma_for_step_keeps(s, p, out, f);
    } else if colon_at(s, p, len) {
        lemma_colon_step_keeps(s, p, out, f);
    } else if arrow_at(s, p, len) {
        let bs = blank_start(out, out.len() as int);
        lemma_blank_start(out, out.len() as int);
        let o = out.subrange(0, bs);
        lemma_keep_split(out, 0, bs, out.len() as int, f);
        assert forall|i: int| 0 <= i < out.len() - bs implies !f(
            #[trigger] out.subrange(bs, out.len() as int)[i],
        ) by {
            assert(space_or_tab(out[bs + i]));
        }
        lemma_keep_none(out.subrange(bs, out.len() as int), f);
        assert(out.subrange(0, out.len() as int) =~= out);
        let w = seq![' ', '=', '>', ' '];
        assert(w =~= seq![' '] + seq!['=', '>'] + seq![' ']);
        lemma_keep_add(o, w, f);
        lemma_keep_add(seq![' '] + seq!['=', '>'], seq![' '], f);
        lemma_keep_add(seq![' '], seq!['=', '>'], f);
        lemma_keep_none(seq![' '], f);
        lemma_keep_word(s, p, seq!['=', '>'], f);
        lemma_keep_spaces(s, p + 2, len, f);
        lemma_keep_split(s, p, p + 2, st.0, f);
    } else if ident_char(s[p]) {
        lemma_ident_end(s, p, len);
        let q = ident_end(s, p, len);
        let o = out + s.subrange(p, q);
        lemma_keep_add(out, s.subrange(p, q), f);
        let w = spaces_end(s, q, len);
        lemma_keep_spaces(s, q, len, f);
        lemma_keep_split(s, p, q, w, f);
        lemma_keep_push_blank(o, ' ', f);
        assert(whitespace('\n'));
        lemma_keep_push_blank(o, '\n', f);
        lemma_keep_add(o, s.subrange(q, w), f);
    } else {
        lemma_keep_push(out, s[p], f);
        assert(s.subrange(p, p + 1) =~= Seq::<char>::empty().push(s[p]));
        lemma_keep_push(Seq::<char>::empty(), s[p], f);
        lemma_keep_none(Seq::<char>::empty(), f);
    }
}

proof fn lemma_raw_run_keeps(s: Seq<char>, p: int, out: Seq<char>, stuck: bool, f: spec_fn(char) -> bool)
    requires
        0 <= p <= s.len(),
        drops_closing(f),
    ensures
        raw_run(s, p, out, stuck).0.filter(f) == out.filter(f) + s.subrange(p, s.len() as int).filter(f),
    decreases s.len(), s.len() - p,
{
    let len = s.len() as int;
    if p >= len {
        lemma_keep_none(s.subrange(p, len), f);
        assert(out.filter(f) + Seq::<char>::empty() =~= out.filter(f));
    } else if brace_branch_at(s, p) {
        lemma_brace_close(s, p + 1, 1);
        let c = block_close_at(s, p);
        let e = block_end_at(s, p);
        let inner = s.subrange(p + 1, c);
        lemma_trimmed(inner);
        let t = trimmed(inner);
        lemma_keep_trimmed(inner, f);
        assert(whitespace('\n'));
        // the source block: `{`, the inner text, and `}` when it is closed
        lemma_keep_split(s, p, e, len, f);
        lemma_keep_split(s, p, p + 1, e, f);
        lemma_keep_split(s, p + 1, c, e, f);
        assert(s.subrange(p, p + 1) =~= seq!['{']);
        if c < len {
            assert(s.subrange(c, e) =~= seq!['}']);
        }
        lemma_keep_none(s.subrange(c, e), f);
        lemma_keep_none(seq!['}'], f);
        let o2 = if t.len() == 0 {
            out + seq!['{', '}']
        } else {
            out + seq!['{', '\n'] + raw_format(t).0 + seq!['\n', '}']
        };
        assert(o2.filter(f) == out.filter(f) + seq!['{'].filter(f) + inner.filter(f)) by {
            assert(seq!['{', '}'] =~= seq!['{'] + seq!['}']);
            lemma_keep_add(seq!['{'], seq!['}'], f);
            assert(seq!['{', '\n'] =~= seq!['{'] + seq!['\n']);
            lemma_keep_add(seq!['{'], seq!['\n'], f);
            lemma_keep_none(seq!['\n'], f);
            assert(seq!['\n', '}'] =~= seq!['\n'] + seq!['}']);
            lemma_keep_add(seq!['\n'], seq!['}'], f);
            if t.len() == 0 {
                lemma_keep_add(out, seq!['{', '}'], f);
                lemma_keep_none(t, f);
            } else {
                lemma_raw_run_keeps(t, 0, Seq::empty(), false, f);
                lemma_keep_none(Seq::<char>::empty(), f);
                assert(t.subrange(0, t.len() as int) =~= t);
                lemma_keep_add(out + seq!['{', '\n'] + raw_format(t).0, seq!['\n', '}'], f);
                lemma_keep_add(out + seq!['{', '\n'], raw_format(t).0, f);
                lemma_keep_add(out, seq!['{', '\n'], f);
            }
        }
        lemma_raw_run_keeps(s, e, o2, if t.len() == 0 { stuck } else { stuck || raw_format(t).1 }, f);
    } else {
        lemma_raw_plain_step_advances(s, p, out);
        let st = raw_plain_step(s, p, out);
        lemma_plain_step_keeps(s, p, out, f);
        lemma_raw_run_keeps(s, st.0, st.1, stuck || st.2, f);
        lemma_keep_split(s, p, st.0, len, f);
    }
}

/// The rewriting pass only changes whitespace and supplies the closing
/// brace of a block that the body leaves open: every other character of
/// the body is kept, in order.
pub proof fn law_raw_format_keeps_characters(s: Seq<char>)
    ensures
        visible_unclosed(raw_format(s).0) == visible_unclosed(s),
{
    let f = |c: char| !whitespace(c) && c != '}';
    lemma_raw_run_keeps(s, 0, Seq::empty(), false, f);
    lemma_keep_none(Seq::<char>::empty(), f);
    assert(s.subrange(0, s.len() as int) =~= s);
    assert(Seq::<char>::empty() + s.filter(f) =~= s.filter(f));
}


proof fn lemma_base_indent_run_keeps(
    s: Seq<char>,
    ind: Seq<char>,
    i: int,
    in_bc: bool,
    lsic: bool,
    cur: Seq<char>,
    out: Seq<char>,
    f: spec_fn(char) -> bool,
)
    requires
        0 <= i <= s.len(),
        drops_whitespace(f),
        all_whitespace(ind),
    ensures
        base_indent_run(s, ind, i, in_bc, lsic, cur, out).filter(f) == out.filter(f) + cur.filter(f)
            + s.subrange(i, s.len() as int).filter(f),
    decreases s.len() - i,
{
    let len = s.len() as int;
    assert(ind.filter(f) == Seq::<char>::empty()) by {
        assert forall|k: int| 0 <= k < ind.len() implies !f(#[trigger] ind[k]) by {}
        lemma_keep_none(ind, f);
    }
    assert forall|line: Seq<char>, c: bool| #[trigger] base_indented_line(line, c, ind).filter(f)
        == line.filter(f) by {
        lemma_keep_add(ind, line, f);
        assert(Seq::<char>::empty() + line.filter(f) =~= line.filter(f));
    }
    if i >= len {
        lemma_keep_none(s.subrange(i, len), f);
        lemma_keep_add(out, base_indented_line(cur, lsic, ind), f);
        assert(out.filter(f) + cur.filter(f) + Seq::<char>::empty() =~= out.filter(f) + cur.filter(f));
    } else if !in_bc && block_comment_at(s, i, len) {
        lemma_base_indent_run_keeps(s, ind, i + 2, true, lsic, cur + s.subrange(i, i + 2), out, f);
        lemma_keep_add(cur, s.subrange(i, i + 2), f);
        lemma_keep_split(s, i, i + 2, len, f);
        assert(out.filter(f) + (cur.filter(f) + s.subrange(i, i + 2).filter(f)) + s.subrange(i + 2, len).filter(f)
            =~= out.filter(f) + cur.filter(f) + (s.subrange(i, i + 2).filter(f) + s.subrange(i + 2, len).filter(f)));
    } else if in_bc && s[i] == '*' && i + 1 < len && s[i + 1] == '/' {
        lemma_base_indent_run_keeps(s, ind, i + 2, false, lsic, cur + s.subrange(i, i + 2), out, f);
        lemma_keep_add(cur, s.subrange(i, i + 2), f);
        lemma_keep_split(s, i, i + 2, len, f);
        assert(out.filter(f) + (cur.filter(f) + s.subrange(i, i + 2).filter(f)) + s.subrange(i + 2, len).filter(f)
            =~= out.filter(f) + cur.filter(f) + (s.subrange(i, i + 2).filter(f) + s.subrange(i + 2, len).filter(f)));
    } else if !in_bc && s[i] == '\n' {
        let line = cur.push('\n');
        lemma_base_indent_run_keeps(s, ind, i + 1, false, false, Seq::empty(), out + base_indented_line(line, lsic, ind), f);
        lemma_keep_add(out, base_indented_line(line, lsic, ind), f);
        lemma_keep_none(Seq::<char>::empty(), f);
        lemma_keep_push(cur, '\n', f);
        lemma_keep_split(s, i, i + 1, len, f);
        assert(s.subrange(i, i + 1) =~= Seq::<char>::empty().push('\n'));
        lemma_keep_push(Seq::<char>::empty(), '\n', f);
        assert(whitespace('\n'));
        assert(out.filter(f) + cur.filter(f) + Seq::<char>::empty() + s.subrange(i + 1, len).filter(f)
            =~= out.filter(f) + cur.filter(f) + (Seq::<char>::empty() + s.subrange(i + 1, len).filter(f)));
    } else {
        lemma_base_indent_run_keeps(s, ind, i + 1, in_bc, lsic, cur.push(s[i]), out, f);
        lemma_keep_push(cur, s[i], f);
        lemma_keep_split(s, i, i + 1, len, f);
        assert(s.subrange(i, i + 1) =~= Seq::<char>::empty().push(s[i]));
        lemma_keep_push(Seq::<char>::empty(), s[i], f);
        lemma_keep_none(Seq::<char>::empty(), f);
        assert(out.filter(f) + cur.push(s[i]).filter(f) + s.subrange(i + 1, len).filter(f)
            =~= out.filter(f) + cur.filter(f) + (s.subrange(i, i + 1).filter(f) + s.subrange(i + 1, len).filter(f)));
    }
}

/// Prepending a whitespace indentation to the lines of a body changes only
/// whitespace.
pub proof fn law_base_indent_changes_only_whitespace(s: Seq<char>, indent: Seq<char>)
    requires
        all_whitespace(indent),
    ensures
        visible(base_indented(s, indent)) == visible(s),
{
    let f = |c: char| !whitespace(c);
    lemma_base_indent_run_keeps(s, indent, 0, false, false, Seq::empty(), Seq::empty(), f);
    lemma_keep_none(Seq::<char>::empty(), f);
    assert(s.subrange(0, s.len() as int) =~= s);
    assert(Seq::<char>::empty() + Seq::<char>::empty() + s.filter(f) =~= s.filter(f));
}

/// From `i`, with a block comment open or not as `in_bc` says, the text
/// has no line break outside block comments: every line break it holds
/// continues a comment.
pub open spec fn breaks_only_in_comments(s: Seq<char>, i: int, in_bc: bool) -> bool
    decreases s.len() - i,
{
    let len = s.len() as int;
    if i < 0 || i >= len {
        true
    } else if !in_bc && block_comment_at(s, i, len) {
        breaks_only_in_comments(s, i + 2, true)
    } else if in_bc {
        if s[i] == '*' && i + 1 < len && s[i + 1] == '/' {
            breaks_only_in_comments(s, i + 2, false)
        } else {
            breaks_only_in_comments(s, i + 1, true)
        }
    } else if s[i] == '\n' {
        false
    } else {
        breaks_only_in_comments(s, i + 1, in_bc)
    }
}

proof fn lemma_base_indent_one_line(
    s: Seq<char>,
    ind: Seq<char>,
    i: int,
    in_bc: bool,
    cur: Seq<char>,
    out: Seq<char>,
)
    requires
        0 <= i <= s.len(),
        breaks_only_in_comments(s, i, in_bc),
    ensures
        base_indent_run(s, ind, i, in_bc, false, cur, out) == out + base_indented_line(
            cur + s.subrange(i, s.len() as int),
            false,
            ind,
        ),
    decreases s.len() - i,
{
    let len = s.len() as int;
    if i >= len {
        assert(cur + s.subrange(i, len) =~= cur);
    } else if !in_bc && block_comment_at(s, i, len) {
        lemma_base_indent_one_line(s, ind, i + 2, true, cur + s.subrange(i, i + 2), out);
        assert(cur + s.subrange(i, i + 2) + s.subrange(i + 2, len) =~= cur + s.subrange(i, len));
    } else if in_bc {
        if s[i] == '*' && i + 1 < len && s[i + 1] == '/' {
            lemma_base_indent_one_line(s, ind, i + 2, false, cur + s.subrange(i, i + 2), out);
            assert(cur + s.subrange(i, i + 2) + s.subrange(i + 2, len) =~= cur + s.subrange(i, len));
        } else {
            lemma_base_indent_one_line(s, ind, i + 1, true, cur.push(s[i]), out);
            assert(cur.push(s[i]) + s.subrange(i + 1, len) =~= cur + s.subrange(i, len));
        }
    } else {
        lemma_base_indent_one_line(s, ind, i + 1, in_bc, cur.push(s[i]), out);
        assert(cur.push(s[i]) + s.subrange(i + 1, len) =~= cur + s.subrange(i, len));
    }
}

/// The lines that continue a block comment get no indentation, and the line
/// a comment opens on gets it once: a body whose only line breaks lie inside
/// block comments is indented once, at its start, and is otherwise kept as
/// it is, so that the comment's own alignment survives every run.
pub proof fn law_base_indent_skips_comment_continuations(s: Seq<char>, indent: Seq<char>)
    requires
        breaks_only_in_comments(s, 0, false),
        !all_whitespace(s),
    ensures
        base_indented(s, indent) == indent + s,
{
    lemma_base_indent_one_line(s, indent, 0, false, Seq::empty(), Seq::empty());
    assert(Seq::<char>::empty() + s.subrange(0, s.len() as int) =~= s);
    assert(Seq::<char>::empty() + (indent + s) =~= indent + s);
}

proof fn lemma_macro_body_keeps(body: Seq<char>, f: spec_fn(char) -> bool)
    requires
        drops_closing(f),
    ensures
        macro_body_formatted(body).filter(f) == body.filter(f),
{
    let r = raw_format(body).0;
    lemma_raw_run_keeps(body, 0, Seq::empty(), false, f);
    lemma_indent_run_keeps(r, 0, Seq::empty(), 0, f);
    lemma_keep_none(Seq::<char>::empty(), f);
    assert(body.subrange(0, body.len() as int) =~= body);
    assert(r.subrange(0, r.len() as int) =~= r);
    assert(Seq::<char>::empty() + body.filter(f) =~= body.filter(f));
    assert(Seq::<char>::empty() + r.filter(f) =~= r.filter(f));
}

/// Formatting a macro body only changes whitespace and supplies the closing
/// brace of a block that the body leaves open: every other character is
/// kept, in order.
pub proof fn law_format_macro_body_keeps_characters(body: Seq<char>)
    ensures
        visible_unclosed(macro_body_formatted(body)) == visible_unclosed(body),
{
    lemma_macro_body_keeps(body, |c: char| !whitespace(c) && c != '}');
}

proof fn lemma_macro_block_keeps(o: Seq<char>, body: Seq<char>, f: spec_fn(char) -> bool)
    requires
        drops_closing(f),
    ensures
        macro_block(o, body, macro_body_formatted(body)).filter(f) == seq!['{'].filter(f)
            + body.filter(f),
{
    let fb = macro_body_formatted(body);
    lemma_macro_body_keeps(body, f);
    assert(whitespace('\n'));
    lemma_keep_none(seq!['}'], f);
    if all_whitespace(fb) {
        assert forall|k: int| 0 <= k < fb.len() implies !f(#[trigger] fb[k]) by {}
        lemma_keep_none(fb, f);
        assert(seq!['{', '}'] =~= seq!['{'] + seq!['}']);
        lemma_keep_add(seq!['{'], seq!['}'], f);
        assert(seq!['{'].filter(f) + Seq::<char>::empty() =~= seq!['{'].filter(f));
    } else {
        let mi = crate::fmt::source::last_line_indent(o);
        let mn = crate::fmt::source::min_indent(body);
        let base = if mn > 0 { mn } else { mi + 4 };
        let t = trimmed(fb);
        lemma_keep_trimmed(fb, f);
        assert(all_whitespace(spaces(base)));
        assert(all_whitespace(spaces(mi)));
        let bi = base_indented(t, spaces(base));
        lemma_base_indent_run_keeps(t, spaces(base), 0, false, false, Seq::empty(), Seq::empty(), f);
        lemma_keep_none(Seq::<char>::empty(), f);
        assert(t.subrange(0, t.len() as int) =~= t);
        assert(bi.filter(f) == t.filter(f)) by {
            assert(Seq::<char>::empty() + Seq::<char>::empty() + t.filter(f) =~= t.filter(f));
        }
        assert forall|k: int| 0 <= k < spaces(mi).len() implies !f(#[trigger] spaces(mi)[k]) by {}
        lemma_keep_none(spaces(mi), f);
        lemma_keep_none(seq!['\n'], f);
        let whole = seq!['{', '\n'] + bi + seq!['\n'] + spaces(mi) + seq!['}'];
        assert(seq!['{', '\n'] =~= seq!['{'] + seq!['\n']);
        lemma_keep_add(seq!['{'], seq!['\n'], f);
        lemma_keep_add(seq!['{', '\n'], bi, f);
        lemma_keep_add(seq!['{', '\n'] + bi, seq!['\n'], f);
        lemma_keep_add(seq!['{', '\n'] + bi + seq!['\n'], spaces(mi), f);
        lemma_keep_add(seq!['{', '\n'] + bi + seq!['\n'] + spaces(mi), seq!['}'], f);
        assert(seq!['{'].filter(f) + Seq::<char>::empty() + t.filter(f) + Seq::<char>::empty()
            + Seq::<char>::empty() + Seq::<char>::empty() =~= seq!['{'].filter(f) + t.filter(f));
    }
}

proof fn lemma_euv_step_keeps(s: Seq<char>, p: int, out: Seq<char>, f: spec_fn(char) -> bool)
    requires
        0 <= p < s.len(),
        drops_closing(f),
    ensures
        euv_step(s, p, out).1.filter(f) == out.filter(f) + s.subrange(p, euv_step(s, p, out).0).filter(f),
{
    let len = s.len() as int;
    lemma_euv_step_advances(s, p, out);
    let st = euv_step(s, p, out);
    if euv_macro_at(s, p, len) {
        lemma_ident_end(s, p, len);
        let e = ident_end(s, p, len);
        lemma_ws_comments_end(s, e, len);
        let q = ws_comments_end(s, e, len);
        let o = out + s.subrange(p, e) + s.subrange(e, q);
        lemma_keep_add(out, s.subrange(p, e), f);
        lemma_keep_add(out + s.subrange(p, e), s.subrange(e, q), f);
        lemma_keep_split(s, p, e, q, f);
        assert(o.filter(f) == out.filter(f) + s.subrange(p, q).filter(f));
        if q < len && s[q] == '!' {
            lemma_ws_comments_end(s, q + 1, len);
            let q2 = ws_comments_end(s, q + 1, len);
            let o1 = o.push('!') + s.subrange(q + 1, q2);
            lemma_keep_push(o, '!', f);
            lemma_keep_add(o.push('!'), s.subrange(q + 1, q2), f);
            lemma_keep_split(s, p, q, q2, f);
            lemma_keep_split(s, q, q + 1, q2, f);
            assert(s.subrange(q, q + 1) =~= Seq::<char>::empty().push('!'));
            lemma_keep_push(Seq::<char>::empty(), '!', f);
            lemma_keep_none(Seq::<char>::empty(), f);
            assert(o1.filter(f) == out.filter(f) + s.subrange(p, q2).filter(f));
            if q2 < len && s[q2] == '{' {
                assert(whitespace(' '));
                let o2 = if last_is(o1, ' ') { o1 } else { o1.push(' ') };
                lemma_keep_push_blank(o1, ' ', f);
                let body = brace_content_text(s, q2);
                lemma_brace_close(s, q2 + 1, 1);
                let c = block_close_at(s, q2);
                let pos = block_end_at(s, q2);
                lemma_macro_block_keeps(o2, body, f);
                lemma_keep_add(o2, macro_block(o2, body, macro_body_formatted(body)), f);
                lemma_keep_split(s, p, q2, pos, f);
                lemma_keep_split(s, q2, q2 + 1, pos, f);
                lemma_keep_split(s, q2 + 1, c, pos, f);
                assert(s.subrange(q2, q2 + 1) =~= seq!['{']);
                if c < len {
                    assert(s.subrange(c, pos) =~= seq!['}']);
                }
                lemma_keep_none(s.subrange(c, pos), f);
            }
        }
    } else if quote_char(s[p]) || line_comment_at(s, p, len) || block_comment_at(s, p, len) {
        lemma_keep_add(out, s.subrange(p, st.0), f);
    } else {
        lemma_keep_push(out, s[p], f);
        assert(s.subrange(p, p + 1) =~= Seq::<char>::empty().push(s[p]));
        lemma_keep_push(Seq::<char>::empty(), s[p], f);
        lemma_keep_none(Seq::<char>::empty(), f);
    }
}

proof fn lemma_euv_run_keeps(s: Seq<char>, p: int, out: Seq<char>, stuck: bool, f: spec_fn(char) -> bool)
    requires
        0 <= p <= s.len(),
        drops_closing(f),
    ensures
        euv_run(s, p, out, stuck).0.filter(f) == out.filter(f) + s.subrange(p, s.len() as int).filter(f),
    decreases s.len() - p,
{
    let len = s.len() as int;
    if p >= len {
        lemma_keep_none(s.subrange(p, len), f);
        assert(out.filter(f) + Seq::<char>::empty() =~= out.filter(f));
    } else {
        lemma_euv_step_advances(s, p, out);
        let st = euv_step(s, p, out);
        lemma_euv_step_keeps(s, p, out, f);
        lemma_euv_run_keeps(s, st.0, st.1, stuck || st.2, f);
        lemma_keep_split(s, p, st.0, len, f);
    }
}

/// Formatting a source file only changes whitespace and supplies the
/// closing brace of a macro block that the file leaves open: every other
/// character of the file is kept, in order.
pub proof fn law_format_euv_macros_keeps_characters(src: Seq<char>)
    ensures
        visible_unclosed(euv_format(src).0) == visible_unclosed(src),
{
    let f = |c: char| !whitespace(c) && c != '}';
    lemma_euv_run_keeps(src, 0, Seq::empty(), false, f);
    lemma_keep_none(Seq::<char>::empty(), f);
    assert(src.subrange(0, src.len() as int) =~= src);
    assert(Seq::<char>::empty() + src.filter(f) =~= src.filter(f));
}

} // verus!
