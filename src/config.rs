use vstd::prelude::*;

use crate::args::Args;
use crate::session::Session;
use crate::ui::{Screen, Ui};

verus! {

/// `choice` where there is one, else `current`.
pub open spec fn or_keep<T>(choice: Option<T>, current: T) -> T {
    match choice {
        Some(v) => v,
        None => current,
    }
}

/// Configuration options.
#[derive(Debug, Clone)]
pub struct Config {
    ui: Ui,
    session: Session,
}

impl Config {
    pub closed spec fn spec_ui(&self) -> Ui {
        self.ui
    }

    pub closed spec fn spec_session(&self) -> Session {
        self.session
    }

    /// A configuration of the given user interface and session.
    pub fn new(ui: Ui, session: Session) -> (r: Config)
        ensures
            r.spec_ui() == ui,
            r.spec_session() == session,
    {
        Config { ui, session }
    }

    /// Overrides the session's durations and count with those given on the command line.
    pub fn override_with_args(self, args: Args) -> (r: Config)
        ensures
            r.spec_ui() == self.spec_ui(),
            r.spec_session().pomodoro_count == self.spec_session().pomodoro_count,
            r.spec_session().pomodoro == or_keep(
                args.spec_pomodoro(),
                self.spec_session().pomodoro,
            ),
            r.spec_session().short_break == or_keep(
                args.spec_short_break(),
                self.spec_session().short_break,
            ),
            r.spec_session().long_break == or_keep(
                args.spec_long_break(),
                self.spec_session().long_break,
            ),
            r.spec_session().pomodoros == or_keep(
                args.spec_pomodoros(),
                self.spec_session().pomodoros,
            ),
    {
        let mut config = self;
        if let Some(pomodoro) = args.get_pomodoro() {
            config.session.pomodoro = pomodoro;
        }
        if let Some(short_break) = args.get_short_break() {
            config.session.short_break = short_break;
        }
        if let Some(long_break) = args.get_long_break() {
            config.session.long_break = long_break;
        }
        if let Some(pomodoros) = args.get_pomodoros() {
            config.session.pomodoros = pomodoros;
        }
        config
    }

    /// Splits the configuration into its session and its user interface.
    pub fn split(self) -> (r: (Session, Ui))
        ensures
            r.0 == self.spec_session(),
            r.1 == self.spec_ui(),
    {
        (self.session, self.ui)
    }
}

impl Default for Config {
    /// The default user interface and session.
    fn default() -> (r: Config)
        ensures
            r.spec_session().wf(),
            r.spec_session().pomodoro_count == 0,
            r.spec_session().pomodoros == 4,
            r.spec_ui().spec_screen() == Screen::Running,
    {
        Config { ui: Ui::default(), session: Session::default() }
    }
}

} // verus!
