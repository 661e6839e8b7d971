use solanum::args::Args;
use solanum::config::Config;
use solanum::error::Error;
use solanum::event::{Event, EventHandler, Input, KeyInput, Reaction};
use solanum::figlet::{Font, EXCLAMATION};
use solanum::ascii::{ONE, TWO, DOTS};
use solanum::notification::{notice, Urgency};
use solanum::session::{Activity, Cursor, Session};
use solanum::timer::{Stage, Step, Timer, TimerData, TimerStatus, Wake};
use solanum::ui::{Color, Screen, Ui, UiCommand, UiOptions};

fn policy() -> Session {
    Session {
        pomodoro_count: 0,
        pomodoro: Timer::new(0, 0, 5),
        short_break: Timer::new(0, 0, 2),
        long_break: Timer::new(0, 0, 3),
        pomodoros: 2,
    }
}

fn left(s: &Session, a: Activity) -> usize {
    match a {
        Activity::Pomodoro(_) => s.pomodoro.residue(),
        Activity::ShortBreak => s.short_break.residue(),
        Activity::LongBreak => s.long_break.residue(),
    }
}

#[derive(Debug, PartialEq)]
enum Seen {
    Running(Activity, usize),
    Expired(Activity),
}

/// Runs `n` intervals of the session, every wait running out.
fn observe(s: &mut Session, n: usize) -> Vec<Seen> {
    let mut seen = vec![];
    let (mut cursor, mut step): (Cursor, Step) = s.start();
    let mut ended = 0;
    while ended < n {
        match step {
            Step::Tick => seen.push(Seen::Running(cursor.activity, left(s, cursor.activity))),
            Step::Expire => {
                seen.push(Seen::Expired(cursor.activity));
                ended += 1;
            }
            other => panic!("unexpected step {:?}", other),
        }
        let next = s.advance(cursor, Wake::TimedOut);
        cursor = next.0;
        step = next.1;
    }
    seen
}

#[test]
fn session_policy_sequence() {
    let mut s = policy();
    let seen = observe(&mut s, 7);
    let mut expected = vec![];
    for (a, d) in [
        (Activity::Pomodoro(1), 5),
        (Activity::ShortBreak, 2),
        (Activity::Pomodoro(2), 5),
        (Activity::LongBreak, 3),
        (Activity::Pomodoro(3), 5),
        (Activity::ShortBreak, 2),
        (Activity::Pomodoro(4), 5),
    ] {
        for r in (1..=d).rev() {
            expected.push(Seen::Running(a, r));
        }
        expected.push(Seen::Expired(a));
    }
    assert_eq!(seen, expected);
    assert_eq!(s.pomodoro_count, 4);
}

#[test]
fn session_long_break_every_nth() {
    let mut s = policy();
    s.pomodoros = 3;
    let seen = observe(&mut s, 12);
    let ended: Vec<Activity> = seen
        .into_iter()
        .filter_map(|e| match e {
            Seen::Expired(a) => Some(a),
            _ => None,
        })
        .collect();
    assert_eq!(
        ended,
        vec![
            Activity::Pomodoro(1),
            Activity::ShortBreak,
            Activity::Pomodoro(2),
            Activity::ShortBreak,
            Activity::Pomodoro(3),
            Activity::LongBreak,
            Activity::Pomodoro(4),
            Activity::ShortBreak,
            Activity::Pomodoro(5),
            Activity::ShortBreak,
            Activity::Pomodoro(6),
            Activity::LongBreak
        ]
    );
}

#[test]
fn session_quit_and_overrun() {
    let mut s = policy();
    let (c, step) = s.start();
    assert_eq!(step, Step::Tick);
    assert_eq!(s.advance(c, Wake::Disconnected).1, Step::Finish(true));

    let mut s = policy();
    let (c, _) = s.start();
    let (c2, step) = s.advance(c, Wake::Overrun);
    assert_eq!(step, Step::Fail(Error::RenderTime));
    assert_eq!(c2.stage, Stage::Done);
}

#[test]
fn session_skip_goes_to_break() {
    let mut s = policy();
    let (c, _) = s.start();
    let (c, _) = s.advance(c, Wake::TimedOut);
    let (c, step) = s.advance(c, Wake::Intent(Event::Skip));
    assert_eq!(step, Step::Expire);
    assert_eq!(c.activity, Activity::Pomodoro(1));
    let (c, step) = s.advance(c, Wake::TimedOut);
    assert_eq!(c.activity, Activity::ShortBreak);
    assert_eq!(step, Step::Tick);
    assert_eq!(s.pomodoro.residue(), 5);
}

#[test]
fn session_default_policy() {
    let s = Session::default();
    assert_eq!(s.pomodoro.total(), 1500);
    assert_eq!(s.short_break.total(), 300);
    assert_eq!(s.long_break.total(), 900);
    assert_eq!(s.pomodoros, 4);
    assert_eq!(s.pomodoro_count, 0);
    assert!(s.is_valid());
    let mut bad = s;
    bad.pomodoros = 0;
    assert!(!bad.is_valid());
}

#[test]
fn activity_names() {
    assert_eq!(Activity::Pomodoro(12).to_string(), "Pomodoro #12");
    assert_eq!(Activity::ShortBreak.to_string(), "Short break");
    assert_eq!(Activity::LongBreak.to_string(), "Long break");
}

fn key(c: char) -> Input {
    Input::Key(KeyInput { code: Some(c), no_modifiers: true, no_state: true, press: true })
}

#[test]
fn input_classification() {
    assert_eq!(EventHandler::classify(key('p')), Reaction::Send(Event::TogglePause));
    assert_eq!(EventHandler::classify(key(' ')), Reaction::Send(Event::TogglePause));
    assert_eq!(EventHandler::classify(key('s')), Reaction::Send(Event::Skip));
    assert_eq!(EventHandler::classify(key('q')), Reaction::Quit);
    assert_eq!(EventHandler::classify(key('x')), Reaction::Ignore);
    assert_eq!(EventHandler::classify(Input::Resize), Reaction::Refresh);
    assert_eq!(EventHandler::classify(Input::Other), Reaction::Ignore);
    let ctrl_q = KeyInput { code: Some('q'), no_modifiers: false, no_state: true, press: true };
    assert_eq!(EventHandler::classify(Input::Key(ctrl_q)), Reaction::Ignore);
    let release = KeyInput { code: Some('p'), no_modifiers: true, no_state: true, press: false };
    assert_eq!(EventHandler::classify(Input::Key(release)), Reaction::Ignore);
    let locked = KeyInput { code: Some('s'), no_modifiers: true, no_state: false, press: true };
    assert_eq!(EventHandler::classify(Input::Key(locked)), Reaction::Ignore);
    let arrow = KeyInput { code: None, no_modifiers: true, no_state: true, press: true };
    assert_eq!(EventHandler::classify(Input::Key(arrow)), Reaction::Ignore);
}

#[test]
fn ui_follows_commands() {
    let mut ui = Ui::new(UiOptions::default());
    assert_eq!(ui.screen(), Screen::Running);
    assert_eq!(ui.timer_data().perc, 100);
    assert_eq!(ui.color(), Color::Green);
    ui.apply(UiCommand::Draw(TimerStatus::Running(TimerData::new(
        Activity::LongBreak,
        "art".to_string(),
        40,
    ))));
    assert_eq!(ui.screen(), Screen::Running);
    assert_eq!(ui.timer_data().perc, 40);
    assert_eq!(ui.timer_data().ascii, "art");
    assert_eq!(ui.color(), Color::Red);
    ui.apply(UiCommand::Draw(TimerStatus::Paused));
    assert_eq!(ui.screen(), Screen::Paused);
    assert_eq!(ui.timer_data().perc, 40);
    ui.apply(UiCommand::Refresh);
    assert_eq!(ui.screen(), Screen::Paused);
    ui.apply(UiCommand::Draw(TimerStatus::Expired));
    assert_eq!(ui.screen(), Screen::Expired);
    assert_eq!(ui.options().background_color, Color::DarkGray);
}

#[test]
fn config_override_with_args() {
    let config = Config::default();
    let args = Args::new(Some(Timer::new(0, 50, 0)), None, Some(Timer::new(0, 0, 30)), Some(2), None);
    let (session, _ui) = config.override_with_args(args).split();
    assert_eq!(session.pomodoro.total(), 3000);
    assert_eq!(session.short_break.total(), 300);
    assert_eq!(session.long_break.total(), 30);
    assert_eq!(session.pomodoros, 2);

    let (kept, _) = Config::default().override_with_args(Args::new(None, None, None, None, None)).split();
    assert_eq!(kept.pomodoro.total(), 1500);
    assert_eq!(kept.pomodoros, 4);
}

#[test]
fn args_getters() {
    let args = Args::new(None, Some(Timer::new(0, 1, 0)), None, Some(3), Some("/tmp/c.toml".to_string()));
    assert_eq!(args.get_config_path(), Some("/tmp/c.toml"));
    assert_eq!(args.get_short_break().unwrap().total(), 60);
    assert!(args.get_pomodoro().is_none());
    assert_eq!(args.get_pomodoros(), Some(3));
    assert_eq!(Args::new(None, None, None, None, None).get_config_path(), None);
}

#[test]
fn notification_content() {
    let n = notice(Activity::Pomodoro(3));
    assert_eq!(n.summary, "Pomodoro completed");
    assert_eq!(n.body, "Pomodoro #3 completed");
    assert_eq!(n.urgency, Urgency::Normal);
    assert_eq!(n.timeout_ms, 5000);
    let n = notice(Activity::ShortBreak);
    assert_eq!(n.summary, "Short break ended");
    assert_eq!(n.body, "Prepare for next pomodoro");
    assert_eq!(n.urgency, Urgency::Critical);
    assert_eq!(notice(Activity::LongBreak).summary, "Long break ended");
}

#[test]
fn font_convert_default() {
    let font = Font::default();
    let text = font.convert("12:!");
    let mut rows = vec![String::new(); 5];
    for glyph in [ONE, TWO, DOTS, EXCLAMATION] {
        for i in 0..5 {
            rows[i].push_str(glyph[i]);
        }
    }
    assert_eq!(text, rows.join("\n"));
    assert_eq!(font.convert(""), "\n\n\n\n");
}
