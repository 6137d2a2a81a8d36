//! Stopwatch and countdown timers: what each button press, interval tick and
//! input edit does to a timer, and what it asks of the one-second interval
//! that drives it.
use vstd::prelude::*;
use crate::text::{chars_of, string_of};

verus! {

/// A decimal digit character.
pub open spec fn is_digit(c: char) -> bool {
    '0' <= c && c <= '9'
}

/// The value of a decimal digit character.
pub open spec fn digit_value(c: char) -> int {
    c as int - '0' as int
}

/// Every character of `s` is a decimal digit.
pub open spec fn all_digits(s: Seq<char>) -> bool {
    forall|i: int| 0 <= i < s.len() ==> is_digit(#[trigger] s[i])
}

/// The number that the digits `s` spell, most significant first.
pub open spec fn digits_value(s: Seq<char>) -> int
    decreases s.len(),
{
    if s.len() == 0 {
        0
    } else {
        digits_value(s.drop_last()) * 10 + digit_value(s.last())
    }
}

/// What parsing `s` as an `i32` gives: an optional `+` or `-` sign followed
/// by at least one decimal digit and nothing else, with a value in the range
/// of `i32`.
pub open spec fn parsed_i32(s: Seq<char>) -> Option<i32> {
    let signed = s.len() > 0 && (s[0] == '-' || s[0] == '+');
    let body = if signed {
        s.drop_first()
    } else {
        s
    };
    let v = if s.len() > 0 && s[0] == '-' {
        -digits_value(body)
    } else {
        digits_value(body)
    };
    if body.len() == 0 || !all_digits(body) || v < i32::MIN || v > i32::MAX {
        None
    } else {
        Some(v as i32)
    }
}

/// Digits never spell a negative number, and more digits never spell less.
pub proof fn lemma_digits_value_grows(s: Seq<char>, i: int)
    requires
        all_digits(s),
        0 <= i <= s.len(),
    ensures
        0 <= digits_value(s.subrange(0, i)) <= digits_value(s),
    decreases s.len(),
{
    if s.len() > 0 {
        assert(all_digits(s.drop_last()));
        assert(is_digit(s[s.len() - 1]));
        if i == s.len() {
            assert(s.subrange(0, i) =~= s);
            lemma_digits_value_grows(s.drop_last(), s.len() - 1);
            assert(s.drop_last().subrange(0, s.len() - 1) =~= s.drop_last());
        } else {
            lemma_digits_value_grows(s.drop_last(), i);
            assert(s.drop_last().subrange(0, i) =~= s.subrange(0, i));
            lemma_digits_value_grows(s.drop_last(), s.len() - 1);
            assert(s.drop_last().subrange(0, s.len() - 1) =~= s.drop_last());
        }
    } else {
        assert(s.subrange(0, i) =~= s);
    }
}

/// Parses `text` as an `i32`: an optional sign and decimal digits, within
/// range; `None` otherwise.
pub fn parse_i32(text: &str) -> (r: Option<i32>)
    ensures
        r == parsed_i32(text@),
{
    let chars: Vec<char> = chars_of(text);
    let n: usize = chars.len();
    if n == 0 {
        return None;
    }
    let negative: bool = chars[0] == '-';
    let start: usize = if chars[0] == '-' || chars[0] == '+' {
        1
    } else {
        0
    };
    let ghost body: Seq<char> = chars@.subrange(start as int, n as int);
    proof {
        if start == 1 {
            assert(body =~= chars@.drop_first());
        } else {
            assert(body =~= chars@);
        }
    }
    if start == n {
        return None;
    }
    let mut acc: i64 = 0;
    let mut i: usize = start;
    while i < n
        invariant
            chars@ == text@,
            n == chars@.len(),
            n > 0,
            start == (if chars@[0] == '-' || chars@[0] == '+' {
                1int
            } else {
                0int
            }),
            negative == (chars@[0] == '-'),
            body == (if chars@[0] == '-' || chars@[0] == '+' {
                chars@.drop_first()
            } else {
                chars@
            }),
            start < n,
            start <= i <= n,
            body == chars@.subrange(start as int, n as int),
            0 <= acc <= 2147483648,
            acc == digits_value(chars@.subrange(start as int, i as int)),
            all_digits(chars@.subrange(start as int, i as int)),
        decreases n - i,
    {
        let c: char = chars[i];
        let ghost done: Seq<char> = chars@.subrange(start as int, i as int);
        let ghost next: Seq<char> = chars@.subrange(start as int, i + 1);
        proof {
            assert(next.drop_last() =~= done);
            assert(next.last() == c);
            assert(body[i - start] == c);
        }
        if !('0' <= c && c <= '9') {
            return None;
        }
        let d: i64 = (c as u32 - '0' as u32) as i64;
        acc = acc * 10 + d;
        proof {
            assert forall|k: int| 0 <= k < next.len() implies is_digit(#[trigger] next[k]) by {
                if k < done.len() {
                    assert(next[k] == done[k]);
                }
            }
        }
        if acc > 2147483648 {
            proof {
                if all_digits(body) {
                    lemma_digits_value_grows(body, i + 1 - start);
                    assert(body.subrange(0, i + 1 - start) =~= next);
                }
            }
            return None;
        }
        i = i + 1;
    }
    proof {
        assert(chars@.subrange(start as int, i as int) =~= body);
    }
    let v: i64 = if negative {
        -acc
    } else {
        acc
    };
    if v < -2147483648 || v > 2147483647 {
        return None;
    }
    Some(v as i32)
}

/// What a timer asks of its one-second interval.
#[derive(Clone, Copy, Debug, PartialEq, Eq, Structural)]
pub struct IntervalAction {
    /// Cancel the interval that is scheduled.
    pub clear: bool,
    /// Schedule a new one-second interval.
    pub start: bool,
}

/// A stopwatch: the seconds counted, whether it runs, and whether an
/// interval is scheduled for it.
#[derive(Clone, Copy, Debug, PartialEq, Eq, Structural)]
pub struct Stopwatch {
    pub seconds: i32,
    pub running: bool,
    pub scheduled: bool,
}

impl Stopwatch {
    /// The stopwatch's invariant: the count is not negative, and a running
    /// stopwatch has its interval.
    pub open spec fn wf(&self) -> bool {
        &&& self.seconds >= 0
        &&& self.running ==> self.scheduled
    }
}

/// A stopped stopwatch at zero.
pub fn use_stopwatch() -> (r: Stopwatch)
    ensures
        r.wf(),
        r == (Stopwatch { seconds: 0, running: false, scheduled: false }),
{
    Stopwatch { seconds: 0, running: false, scheduled: false }
}

/// Starts a stopped stopwatch: it runs, and its interval is replaced by a
/// new one. A running stopwatch is left as it is.
pub fn stopwatch_on_start_inner(state: &mut Stopwatch) -> (a: IntervalAction)
    ensures
        old(state).running ==> *final(state) == *old(state) && a == (IntervalAction {
            clear: false,
            start: false,
        }),
        !old(state).running ==> *final(state) == (Stopwatch {
            running: true,
            scheduled: true,
            ..*old(state)
        }) && a == (IntervalAction { clear: old(state).scheduled, start: true }),
{
    if state.running {
        return IntervalAction { clear: false, start: false };
    }
    state.running = true;
    let clear: bool = state.scheduled;
    state.scheduled = true;
    IntervalAction { clear, start: true }
}

/// Pauses a stopwatch: its interval is cancelled and it stops; the count
/// stays.
pub fn stopwatch_on_pause_inner(state: &mut Stopwatch) -> (a: IntervalAction)
    ensures
        *final(state) == (Stopwatch { running: false, scheduled: false, ..*old(state) }),
        a == (IntervalAction { clear: old(state).scheduled, start: false }),
{
    let clear: bool = state.scheduled;
    state.scheduled = false;
    state.running = false;
    IntervalAction { clear, start: false }
}

/// The start button: pauses a running stopwatch, starts a stopped one.
pub fn stopwatch_on_start(state: &mut Stopwatch) -> (a: IntervalAction)
    requires
        old(state).wf(),
    ensures
        final(state).wf(),
        final(state).seconds == old(state).seconds,
        final(state).running == !old(state).running,
        final(state).scheduled == !old(state).running,
        a == (IntervalAction { clear: old(state).scheduled, start: !old(state).running }),
{
    if state.running {
        stopwatch_on_pause_inner(state)
    } else {
        stopwatch_on_start_inner(state)
    }
}

/// One second passes on the stopwatch's interval: the count goes up by one.
pub fn stopwatch_on_tick(state: &mut Stopwatch)
    requires
        old(state).wf(),
        old(state).seconds < i32::MAX,
    ensures
        final(state).wf(),
        *final(state) == (Stopwatch { seconds: (old(state).seconds + 1) as i32, ..*old(state) }),
{
    state.seconds = state.seconds + 1;
}

/// The reset button: the interval is cancelled, the stopwatch stops and its
/// count goes back to zero.
pub fn stopwatch_on_reset(state: &mut Stopwatch) -> (a: IntervalAction)
    ensures
        final(state).wf(),
        *final(state) == (Stopwatch { seconds: 0, running: false, scheduled: false }),
        a == (IntervalAction { clear: old(state).scheduled, start: false }),
{
    let clear: bool = state.scheduled;
    state.scheduled = false;
    state.running = false;
    state.seconds = 0;
    IntervalAction { clear, start: false }
}

/// The length a countdown starts from when its input is not a positive
/// number.
pub const COUNTDOWN_DEFAULT_SECONDS: i32 = 60;

/// A countdown: its length, the seconds left, whether it runs, whether an
/// interval is scheduled for it, and the text of its length input.
pub struct Countdown {
    pub total: i32,
    pub remaining: i32,
    pub running: bool,
    pub scheduled: bool,
    pub input: String,
}

impl Countdown {
    /// The countdown's invariant: a positive length, the seconds left
    /// between zero and the length, and a running countdown has its
    /// interval.
    pub open spec fn wf(&self) -> bool {
        &&& 0 < self.total
        &&& 0 <= self.remaining <= self.total
        &&& self.running ==> self.scheduled
    }
}

/// The length that a countdown started from `input` runs: the parsed
/// number when it is positive, otherwise the default.
pub open spec fn countdown_length(input: Seq<char>) -> i32 {
    match parsed_i32(input) {
        Some(v) => if v > 0 {
            v
        } else {
            COUNTDOWN_DEFAULT_SECONDS
        },
        None => COUNTDOWN_DEFAULT_SECONDS,
    }
}

/// A stopped countdown of the default length, with the input showing it.
pub fn use_countdown() -> (r: Countdown)
    ensures
        r.wf(),
        r.total == COUNTDOWN_DEFAULT_SECONDS,
        r.remaining == COUNTDOWN_DEFAULT_SECONDS,
        !r.running,
        !r.scheduled,
        r.input@ == seq!['6', '0'],
{
    let digits: Vec<char> = vec!['6', '0'];
    let input: String = string_of(&digits);
    Countdown {
        total: COUNTDOWN_DEFAULT_SECONDS,
        remaining: COUNTDOWN_DEFAULT_SECONDS,
        running: false,
        scheduled: false,
        input,
    }
}

/// Starts a stopped countdown. One that was paused part-way resumes where
/// it stood; any other restarts from the length its input gives. It runs,
/// and its interval is replaced by a new one. A running countdown is left
/// as it is.
pub fn countdown_on_start_inner(state: &mut Countdown) -> (a: IntervalAction)
    requires
        old(state).wf(),
    ensures
        final(state).wf(),
        final(state).input@ == old(state).input@,
        old(state).running ==> final(state).total == old(state).total && final(state).remaining
            == old(state).remaining && final(state).running && final(state).scheduled
            == old(state).scheduled && a == (IntervalAction { clear: false, start: false }),
        !old(state).running ==> {
            let paused = 0 < old(state).remaining < old(state).total;
            &&& final(state).total == if paused {
                old(state).total
            } else {
                countdown_length(old(state).input@)
            }
            &&& final(state).remaining == if paused {
                old(state).remaining
            } else {
                countdown_length(old(state).input@)
            }
            &&& final(state).running
            &&& final(state).scheduled
            &&& a == (IntervalAction { clear: old(state).scheduled, start: true })
        },
{
    if state.running {
        return IntervalAction { clear: false, start: false };
    }
    let paused: bool = state.remaining > 0 && state.remaining < state.total;
    if !paused {
        let parsed: Option<i32> = parse_i32(state.input.as_str());
        let length: i32 = match parsed {
            Some(v) => if v > 0 {
                v
            } else {
                COUNTDOWN_DEFAULT_SECONDS
            },
            None => COUNTDOWN_DEFAULT_SECONDS,
        };
        state.total = length;
        state.remaining = length;
    }
    state.running = true;
    let clear: bool = state.scheduled;
    state.scheduled = true;
    IntervalAction { clear, start: true }
}

/// Pauses a countdown: its interval is cancelled and it stops where it
/// stands.
pub fn countdown_on_pause_inner(state: &mut Countdown) -> (a: IntervalAction)
    requires
        old(state).wf(),
    ensures
        final(state).wf(),
        final(state).total == old(state).total,
        final(state).remaining == old(state).remaining,
        final(state).input@ == old(state).input@,
        !final(state).running,
        !final(state).scheduled,
        a == (IntervalAction { clear: old(state).scheduled, start: false }),
{
    let clear: bool = state.scheduled;
    state.scheduled = false;
    state.running = false;
    IntervalAction { clear, start: false }
}

/// The start button: pauses a running countdown, starts a stopped one.
pub fn countdown_on_start(state: &mut Countdown) -> (a: IntervalAction)
    requires
        old(state).wf(),
    ensures
        final(state).wf(),
        final(state).input@ == old(state).input@,
        final(state).running == !old(state).running,
        old(state).running ==> final(state).total == old(state).total
            && final(state).remaining == old(state).remaining && !final(state).scheduled
            && a == (IntervalAction { clear: old(state).scheduled, start: false }),
        !old(state).running ==> {
            let paused = 0 < old(state).remaining < old(state).total;
            &&& final(state).total == if paused {
                old(state).total
            } else {
                countdown_length(old(state).input@)
            }
            &&& final(state).remaining == if paused {
                old(state).remaining
            } else {
                countdown_length(old(state).input@)
            }
            &&& final(state).scheduled
            &&& a == (IntervalAction { clear: old(state).scheduled, start: true })
        },
{
    if state.running {
        countdown_on_pause_inner(state)
    } else {
        countdown_on_start_inner(state)
    }
}

/// One second passes on the countdown's interval. A running countdown with
/// time left loses a second; one with none left stops and forgets its
/// interval (which keeps firing, to no effect, since the countdown no
/// longer runs). A stopped countdown is left as it is.
pub fn countdown_on_tick(state: &mut Countdown)
    requires
        old(state).wf(),
    ensures
        final(state).wf(),
        final(state).total == old(state).total,
        final(state).input@ == old(state).input@,
        !old(state).running ==> final(state).remaining == old(state).remaining
            && final(state).running == old(state).running && final(state).scheduled
            == old(state).scheduled,
        old(state).running && old(state).remaining > 0 ==> final(state).remaining
            == old(state).remaining - 1 && final(state).running && final(state).scheduled,
        old(state).running && old(state).remaining == 0 ==> final(state).remaining == 0
            && !final(state).running && !final(state).scheduled,
{
    if state.running {
        if state.remaining > 0 {
            state.remaining = state.remaining - 1;
        } else {
            state.running = false;
            state.scheduled = false;
        }
    }
}

/// The reset button: the interval is cancelled, the countdown stops and
/// its time goes back to its full length.
pub fn countdown_on_reset(state: &mut Countdown) -> (a: IntervalAction)
    requires
        old(state).wf(),
    ensures
        final(state).wf(),
        final(state).total == old(state).total,
        final(state).remaining == old(state).total,
        final(state).input@ == old(state).input@,
        !final(state).running,
        !final(state).scheduled,
        a == (IntervalAction { clear: old(state).scheduled, start: false }),
{
    let clear: bool = state.scheduled;
    state.scheduled = false;
    state.running = false;
    state.remaining = state.total;
    IntervalAction { clear, start: false }
}

/// An edit of the length input: the countdown keeps the new text.
pub fn countdown_on_input(state: &mut Countdown, value: String)
    requires
        old(state).wf(),
    ensures
        final(state).wf(),
        final(state).input@ == value@,
        final(state).total == old(state).total,
        final(state).remaining == old(state).remaining,
        final(state).running == old(state).running,
        final(state).scheduled == old(state).scheduled,
{
    state.input = value;
}

} // verus!
