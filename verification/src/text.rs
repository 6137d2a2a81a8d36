use vstd::prelude::*;
use vstd::std_specs::iter::IteratorSpec;

verus! {

/// Whether `c` is Unicode whitespace, as decided by `char::is_whitespace`.
pub uninterp spec fn char_is_whitespace(c: char) -> bool;

/// Whether `c` is Unicode alphanumeric, as decided by `char::is_alphanumeric`.
pub uninterp spec fn char_is_alphanumeric(c: char) -> bool;

/// The ASCII whitespace characters: space, tab, line feed, vertical tab,
/// form feed and carriage return.
pub open spec fn ascii_whitespace(c: char) -> bool {
    c == ' ' || c == '\t' || c == '\n' || c == '\r' || c == '\u{0B}' || c == '\u{0C}'
}

/// The ASCII alphanumeric characters: letters and decimal digits.
pub open spec fn ascii_alphanumeric(c: char) -> bool {
    ('a' <= c && c <= 'z') || ('A' <= c && c <= 'Z') || ('0' <= c && c <= '9')
}

/// Whitespace in the sense of `char::is_whitespace`, spelled out for ASCII.
pub open spec fn whitespace(c: char) -> bool {
    if (c as u32) < 128 {
        ascii_whitespace(c)
    } else {
        char_is_whitespace(c)
    }
}

/// Alphanumeric in the sense of `char::is_alphanumeric`, spelled out for
/// ASCII.
pub open spec fn alphanumeric(c: char) -> bool {
    if (c as u32) < 128 {
        ascii_alphanumeric(c)
    } else {
        char_is_alphanumeric(c)
    }
}

/// Calls `char::is_whitespace`. Trusted: the result is the named predicate
/// `char_is_whitespace`; for ASCII characters std documents whitespace as
/// space, tab, line feed, vertical tab, form feed and carriage return.
#[verifier::external_body]
fn std_is_whitespace(c: char) -> (r: bool)
    ensures
        r == char_is_whitespace(c),
        (c as u32) < 128 ==> (r <==> ascii_whitespace(c)),
{
    c.is_whitespace()
}

/// Calls `char::is_alphanumeric`. Trusted: the result is the named
/// predicate `char_is_alphanumeric`; for ASCII characters std documents the
/// alphanumeric ones as the letters and the decimal digits.
#[verifier::external_body]
fn std_is_alphanumeric(c: char) -> (r: bool)
    ensures
        r == char_is_alphanumeric(c),
        (c as u32) < 128 ==> (r <==> ascii_alphanumeric(c)),
{
    c.is_alphanumeric()
}

/// Whether `c` is whitespace.
pub fn is_whitespace(c: char) -> (r: bool)
    ensures
        r == whitespace(c),
{
    std_is_whitespace(c)
}

/// Whether `c` is alphanumeric.
pub fn is_alphanumeric(c: char) -> (r: bool)
    ensures
        r == alphanumeric(c),
{
    std_is_alphanumeric(c)
}

/// Collects the characters of `s` into a vector.
pub fn chars_of(s: &str) -> (r: Vec<char>)
    ensures
        r@ == s@,
{
    let mut out: Vec<char> = Vec::new();
    let mut iter = s.chars();
    proof {
        vstd::string::axiom_spec_iter(s);
    }
    loop
        invariant
            out@ + iter.remaining() == s@,
            iter.decrease() is Some,
        ensures
            out@ == s@,
        decreases iter.decrease()->0,
    {
        let ghost before = iter;
        match iter.next() {
            Some(c) => {
                proof { vstd::string::next_postcondition(&before, &iter, Some(c)); }
                out.push(c);
            },
            None => {
                proof { vstd::string::next_postcondition(&before, &iter, None); }
                break;
            },
        }
    }
    out
}

/// Whether `a` and `b` hold the same characters.
pub fn same_text(a: &str, b: &str) -> (r: bool)
    ensures
        r == (a@ == b@),
{
    let x: Vec<char> = chars_of(a);
    let y: Vec<char> = chars_of(b);
    if x.len() != y.len() {
        return false;
    }
    let mut i: usize = 0;
    while i < x.len()
        invariant
            x@ == a@,
            y@ == b@,
            x@.len() == y@.len(),
            i <= x@.len(),
            forall|k: int| 0 <= k < i ==> x@[k] == y@[k],
        decreases x@.len() - i,
    {
        if x[i] != y[i] {
            return false;
        }
        i = i + 1;
    }
    assert(x@ =~= y@);
    true
}

/// Calls `String::push`, which appends one character to the string.
#[verifier::external_body]
fn push_char(s: &mut String, c: char)
    ensures
        final(s)@ == old(s)@.push(c),
{
    s.push(c);
}

/// Builds a string holding the characters of `chars`, in order.
pub fn string_of(chars: &Vec<char>) -> (r: String)
    ensures
        r@ == chars@,
{
    let mut out: String = String::new();
    let mut i: usize = 0;
    while i < chars.len()
        invariant
            i <= chars.len(),
            out@ == chars@.subrange(0, i as int),
        decreases chars.len() - i,
    {
        push_char(&mut out, chars[i]);
        i = i + 1;
        assert(out@ == chars@.subrange(0, i as int));
    }
    assert(chars@.subrange(0, chars.len() as int) == chars@);
    out
}

} // verus!
