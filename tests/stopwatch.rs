use tea_timer::clock::{later_reading, Clock};
use tea_timer::hms::format_seconds;
use tea_timer::session::{Display, Tick, TICK_MILLIS};
use tea_timer::terminal::{cleanup_text, frame_text, startup_text};

#[test]
fn formats_zero() {
    assert_eq!(format_seconds(0), "00:00:00");
}

#[test]
fn formats_last_second_of_first_minute() {
    assert_eq!(format_seconds(59), "00:00:59");
}

#[test]
fn formats_one_minute() {
    assert_eq!(format_seconds(60), "00:01:00");
}

#[test]
fn formats_hour_minute_second() {
    assert_eq!(format_seconds(3661), "01:01:01");
}

#[test]
fn formats_hours_past_two_digits() {
    assert_eq!(format_seconds(360000), "100:00:00");
}

#[test]
fn formats_largest_two_digit_time() {
    assert_eq!(format_seconds(359999), "99:59:59");
}

#[test]
fn formats_largest_input() {
    assert_eq!(format_seconds(u64::MAX), "5124095576030431:00:15");
}

#[test]
fn formats_fields_independently() {
    for s in [0u64, 1, 9, 10, 61, 599, 3599, 3600, 86399, 86400, 1234567] {
        let expected = format!("{:02}:{:02}:{:02}", s / 3600, (s / 60) % 60, s % 60);
        assert_eq!(format_seconds(s), expected);
    }
}

#[test]
fn frame_saves_clears_writes_restores() {
    assert_eq!(frame_text(3661), "\x1b7\x1b[J01:01:01\x1b8");
}

#[test]
fn startup_hides_cursor() {
    assert_eq!(startup_text(), "\x1b[?25l");
}

#[test]
fn cleanup_shows_cursor_then_newline() {
    assert_eq!(cleanup_text(), "\x1b[?25h\n");
}

#[test]
fn tick_interval_is_a_tenth_of_a_second() {
    assert_eq!(TICK_MILLIS, 100);
}

#[test]
fn later_reading_keeps_larger() {
    assert_eq!(later_reading(5, 7), 7);
    assert_eq!(later_reading(7, 5), 7);
    assert_eq!(later_reading(4, 4), 4);
}

#[test]
fn clock_readings_never_decrease() {
    let mut clock = Clock::start();
    let mut last = clock.elapsed_seconds();
    assert!(last <= 1);
    for _ in 0..1000 {
        let next = clock.elapsed_seconds();
        assert!(next >= last);
        last = next;
    }
}

fn render(t: Tick) -> Option<String> {
    match t {
        Tick::Render(text) => Some(text),
        Tick::Stop(_) => None,
    }
}

fn stop(t: Tick) -> Option<Option<String>> {
    match t {
        Tick::Render(_) => None,
        Tick::Stop(text) => Some(text),
    }
}

#[test]
fn running_tick_renders_whole_frame() {
    let mut d = Display::new();
    assert_eq!(render(d.tick(true, 59)), Some("\x1b7\x1b[J00:00:59\x1b8".to_string()));
    assert!(!d.finished());
}

#[test]
fn loop_cleans_up_when_handler_missed_lock() {
    let mut d = Display::new();
    let mut out = Vec::new();
    out.push(render(d.tick(true, 1)).unwrap());
    // The handler's try-lock failed: it wrote nothing. The loop then reads the flag down.
    let last = stop(d.tick(false, 1)).unwrap();
    assert_eq!(last, Some("\x1b[?25h\n".to_string()));
    out.push(last.unwrap());
    assert_eq!(out.iter().filter(|t| t.as_str() == "\x1b[?25h\n").count(), 1);
    assert!(d.finished());
}

#[test]
fn handler_cleans_up_when_it_wins_lock() {
    let mut d = Display::new();
    let mut out = Vec::new();
    out.push(render(d.tick(true, 2)).unwrap());
    out.push(d.finish().unwrap());
    assert_eq!(stop(d.tick(false, 2)), Some(None));
    assert_eq!(out.last().map(|t| t.as_str()), Some("\x1b[?25h\n"));
    assert_eq!(out.iter().filter(|t| t.as_str() == "\x1b[?25h\n").count(), 1);
}

#[test]
fn loop_draws_nothing_after_handler_cleanup() {
    let mut d = Display::new();
    assert_eq!(d.finish(), Some("\x1b[?25h\n".to_string()));
    assert_eq!(stop(d.tick(true, 3)), Some(None));
    assert_eq!(d.finish(), None);
}

#[test]
fn stop_follows_first_tick_with_flag_down() {
    let mut d = Display::new();
    let mut ticks = 0;
    for running in [true, true, true, false] {
        ticks += 1;
        if stop(d.tick(running, ticks)).is_some() {
            break;
        }
    }
    assert_eq!(ticks, 4);
}
