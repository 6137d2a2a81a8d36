use euv::timer::{
    countdown_on_input, countdown_on_reset, countdown_on_start, countdown_on_tick, parse_i32,
    stopwatch_on_reset, stopwatch_on_start, stopwatch_on_tick, use_countdown, use_stopwatch,
    IntervalAction, Stopwatch,
};

#[test]
fn parse_i32_agrees_with_std() {
    let cases = [
        "60", "+5", "-7", "0", "-0", "", "-", "+", "12a", " 1", "1 ", "1_000", "2147483647",
        "2147483648", "-2147483648", "-2147483649", "99999999999", "00042", "--1", "+-1", "٣",
    ];
    for case in cases {
        assert_eq!(parse_i32(case), case.parse::<i32>().ok(), "input {case:?}");
    }
}

#[test]
fn stopwatch_counts_while_running_and_resets() {
    let mut watch: Stopwatch = use_stopwatch();
    let start = stopwatch_on_start(&mut watch);
    assert_eq!(start, IntervalAction { clear: false, start: true });
    assert!(watch.running && watch.scheduled);
    stopwatch_on_tick(&mut watch);
    stopwatch_on_tick(&mut watch);
    assert_eq!(watch.seconds, 2);
    let pause = stopwatch_on_start(&mut watch);
    assert_eq!(pause, IntervalAction { clear: true, start: false });
    assert!(!watch.running && !watch.scheduled);
    assert_eq!(watch.seconds, 2);
    let reset = stopwatch_on_reset(&mut watch);
    assert_eq!(reset, IntervalAction { clear: false, start: false });
    assert_eq!(watch, use_stopwatch());
}

#[test]
fn countdown_runs_down_from_its_input_and_stops_at_zero() {
    let mut countdown = use_countdown();
    assert_eq!(countdown.total, 60);
    assert_eq!(countdown.input, "60");
    countdown_on_input(&mut countdown, "2".to_string());
    let start = countdown_on_start(&mut countdown);
    assert_eq!(start, IntervalAction { clear: false, start: true });
    assert_eq!((countdown.total, countdown.remaining), (2, 2));
    countdown_on_tick(&mut countdown);
    countdown_on_tick(&mut countdown);
    assert_eq!(countdown.remaining, 0);
    assert!(countdown.running);
    countdown_on_tick(&mut countdown);
    assert!(!countdown.running && !countdown.scheduled);
    countdown_on_tick(&mut countdown);
    assert_eq!(countdown.remaining, 0);
}

#[test]
fn countdown_resumes_where_it_was_paused() {
    let mut countdown = use_countdown();
    countdown_on_input(&mut countdown, "10".to_string());
    countdown_on_start(&mut countdown);
    countdown_on_tick(&mut countdown);
    countdown_on_tick(&mut countdown);
    let pause = countdown_on_start(&mut countdown);
    assert_eq!(pause, IntervalAction { clear: true, start: false });
    countdown_on_input(&mut countdown, "30".to_string());
    countdown_on_start(&mut countdown);
    assert_eq!((countdown.total, countdown.remaining), (10, 8));
}

#[test]
fn countdown_falls_back_to_default_length() {
    for input in ["0", "-5", "abc", ""] {
        let mut countdown = use_countdown();
        countdown_on_input(&mut countdown, input.to_string());
        countdown_on_start(&mut countdown);
        assert_eq!((countdown.total, countdown.remaining), (60, 60), "input {input:?}");
    }
}

#[test]
fn countdown_reset_restores_full_length() {
    let mut countdown = use_countdown();
    countdown_on_input(&mut countdown, "5".to_string());
    countdown_on_start(&mut countdown);
    countdown_on_tick(&mut countdown);
    let reset = countdown_on_reset(&mut countdown);
    assert_eq!(reset, IntervalAction { clear: true, start: false });
    assert_eq!((countdown.total, countdown.remaining), (5, 5));
    assert!(!countdown.running && !countdown.scheduled);
}
