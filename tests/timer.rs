use solanum::ascii::{Ascii, DOTS, ONE, ZERO};
use solanum::error::{Error, TimerSyntax};
use solanum::event::Event;
use solanum::session::Activity;
use solanum::timer::{tick_budget, Stage, Step, Timer, Wake};
use std::str::FromStr;

#[test]
/// Timer displaying as `_h_m_s` format.
fn timer_display() {
    assert_eq!(Timer::new(2, 10, 4).to_string(), "2h10m4s");
    assert_eq!(Timer::new(0, 2, 122).to_string(), "4m2s");
    assert_eq!(Timer::new(1, 0, 10).to_string(), "1h10s");
    assert_eq!(Timer::new(0, 5, 0).to_string(), "5m");
}

#[test]
/// Timer constructing from string.
fn timer_from_string() {
    assert_eq!(Timer::from_str("2h10m4s").unwrap().to_string(), "2h10m4s");
    assert_eq!(Timer::from_str("4m2s").unwrap().to_string(), "4m2s");
    assert_eq!(Timer::from_str("1h10s").unwrap().to_string(), "1h10s");
    assert_eq!(Timer::from_str("5m").unwrap().to_string(), "5m");
}

#[test]
fn timer_parse_totals() {
    assert_eq!(Timer::parse("90s").unwrap().total(), 90);
    assert_eq!(Timer::parse("1H2M3S").unwrap().total(), 3723);
    assert_eq!(Timer::parse("5s5s").unwrap().total(), 10);
    assert_eq!(Timer::parse("0s").unwrap().total(), 0);
    assert_eq!(Timer::parse("007m").unwrap().residue(), 420);
}

#[test]
fn timer_parse_errors() {
    assert_eq!(Timer::parse(""), Err(Error::ParseTimer(TimerSyntax::MissingUnit)));
    assert_eq!(Timer::parse("10"), Err(Error::ParseTimer(TimerSyntax::MissingUnit)));
    assert_eq!(Timer::parse("h"), Err(Error::ParseTimer(TimerSyntax::NullValue('h'))));
    assert_eq!(Timer::parse("5mm"), Err(Error::ParseTimer(TimerSyntax::NullValue('m'))));
    assert_eq!(Timer::parse("1x5s"), Err(Error::ParseTimer(TimerSyntax::NotADigit('x'))));
    assert_eq!(Timer::parse("-5s"), Err(Error::ParseTimer(TimerSyntax::NotADigit('-'))));
    assert_eq!(Timer::parse("99999999999999999999999s"), Err(Error::TimerOverflow));
    assert_eq!(Timer::parse("6000000000000000h"), Err(Error::TimerOverflow));
    let max = format!("{}s", usize::MAX);
    assert_eq!(Timer::parse(&max).unwrap().total(), usize::MAX);
    let over = format!("{}s1s", usize::MAX);
    assert_eq!(Timer::parse(&over), Err(Error::TimerOverflow));
}

#[test]
fn timer_clock_text() {
    assert_eq!(Timer::new(2, 10, 4).hhmmss(), "02:10:04");
    assert_eq!(Timer::new(0, 0, 0).hhmmss(), "00:00:00");
    assert_eq!(Timer::new(123, 0, 59).hhmmss(), "123:00:59");
    assert_eq!(Timer::new(1, 2, 3).hms(), (1, 2, 3));
}

#[test]
fn timer_ascii_art() {
    let art = Timer::new(0, 0, 1).to_ascii_art();
    let mut rows = vec![String::new(); 5];
    for glyph in [ZERO, ZERO, DOTS, ZERO, ZERO, DOTS, ZERO, ONE] {
        for i in 0..5 {
            rows[i].push_str(glyph[i]);
        }
    }
    assert_eq!(art, rows.join("\n"));
    assert_eq!(art.lines().count(), 5);
}

fn ticked(total: usize, ticks: usize) -> Timer {
    let mut t = Timer::new(0, 0, total);
    for _ in 0..ticks {
        t.step(Stage::Ticking, Wake::TimedOut);
    }
    t
}

#[test]
fn timer_percent_rounds() {
    assert_eq!(Timer::new(0, 0, 10).remaining_percentage(), 100);
    assert_eq!(ticked(3, 1).remaining_percentage(), 67);
    assert_eq!(ticked(3, 2).remaining_percentage(), 33);
    assert_eq!(ticked(8, 7).remaining_percentage(), 13);
    assert_eq!(ticked(200, 199).remaining_percentage(), 1);
    assert_eq!(ticked(201, 200).remaining_percentage(), 0);
}

#[test]
fn timer_percent_never_rises() {
    let mut t = Timer::new(0, 0, 7);
    let mut last = t.remaining_percentage();
    assert_eq!(last, 100);
    while t.residue() > 1 {
        t.step(Stage::Ticking, Wake::TimedOut);
        let p = t.remaining_percentage();
        assert!(p <= last && p <= 100);
        last = p;
    }
}

#[test]
fn timer_snapshot() {
    let t = ticked(10, 5);
    let d = t.snapshot(Activity::ShortBreak);
    assert_eq!(d.activity, Activity::ShortBreak);
    assert_eq!(d.perc, 50);
    assert_eq!(d.ascii, t.to_ascii_art());
}

#[test]
fn countdown_fresh_run() {
    let mut t = Timer::new(0, 0, 5);
    let (mut stage, mut step) = t.start();
    let mut shown = vec![];
    while step == Step::Tick {
        shown.push(t.residue());
        let next = t.step(stage, Wake::TimedOut);
        stage = next.0;
        step = next.1;
    }
    assert_eq!(shown, vec![5, 4, 3, 2, 1]);
    assert_eq!((stage, step), (Stage::Confirming, Step::Expire));
    assert_eq!(t.residue(), 0);
    assert_eq!(t.step(stage, Wake::TimedOut), (Stage::Done, Step::Finish(false)));
    assert_eq!(t.residue(), 5);

    // A second run repeats the first.
    let (mut stage, mut step) = t.start();
    let mut again = vec![];
    while step == Step::Tick {
        again.push(t.residue());
        let next = t.step(stage, Wake::TimedOut);
        stage = next.0;
        step = next.1;
    }
    assert_eq!(again, shown);
    assert_eq!(step, Step::Expire);
}

#[test]
fn countdown_empty_timer_expires_at_once() {
    let t = Timer::new(0, 0, 0);
    assert_eq!(t.start(), (Stage::Confirming, Step::Expire));
}

#[test]
fn countdown_skip_at_three() {
    let mut t = ticked(10, 7);
    assert_eq!(t.residue(), 3);
    assert_eq!(
        t.step(Stage::Ticking, Wake::Intent(Event::Skip)),
        (Stage::Confirming, Step::Expire)
    );
    assert_eq!(t.residue(), 3);
    assert_eq!(
        t.step(Stage::Confirming, Wake::Intent(Event::TogglePause)),
        (Stage::Done, Step::Finish(false))
    );
    assert_eq!(t.residue(), 10);
}

#[test]
fn countdown_pause_and_resume() {
    let mut t = ticked(10, 4);
    assert_eq!(
        t.step(Stage::Ticking, Wake::Intent(Event::TogglePause)),
        (Stage::Paused, Step::Pause)
    );
    assert_eq!(t.residue(), 6);
    assert_eq!(
        t.step(Stage::Paused, Wake::Intent(Event::TogglePause)),
        (Stage::Ticking, Step::Tick)
    );
    assert_eq!(t.residue(), 6);
    assert_eq!(
        t.step(Stage::Ticking, Wake::Intent(Event::TogglePause)),
        (Stage::Paused, Step::Pause)
    );
    assert_eq!(
        t.step(Stage::Paused, Wake::Intent(Event::Skip)),
        (Stage::Confirming, Step::Expire)
    );
}

#[test]
fn countdown_disconnect_while_paused() {
    let mut t = ticked(10, 2);
    t.step(Stage::Ticking, Wake::Intent(Event::TogglePause));
    assert_eq!(t.step(Stage::Paused, Wake::Disconnected), (Stage::Done, Step::Finish(true)));
    assert_eq!(t.residue(), 8);
}

#[test]
fn countdown_disconnect_while_ticking_and_confirming() {
    let mut t = ticked(10, 2);
    assert_eq!(t.step(Stage::Ticking, Wake::Disconnected), (Stage::Done, Step::Finish(true)));
    let mut u = ticked(2, 2);
    assert_eq!(u.step(Stage::Confirming, Wake::Disconnected), (Stage::Done, Step::Finish(true)));
    assert_eq!(u.residue(), 2);
}

#[test]
fn countdown_render_overrun() {
    assert_eq!(tick_budget(0), Some(1000));
    assert_eq!(tick_budget(250), Some(750));
    assert_eq!(tick_budget(999), Some(1));
    assert_eq!(tick_budget(1000), None);
    assert_eq!(tick_budget(1200), None);
    let mut t = Timer::new(0, 0, 10);
    assert_eq!(
        t.step(Stage::Ticking, Wake::Overrun),
        (Stage::Done, Step::Fail(Error::RenderTime))
    );
}
