use vstd::prelude::*;

use crate::timer::Timer;

verus! {

/// Command line choices: durations and count that override the configuration, and where the
/// configuration file is.
#[derive(Debug, Clone)]
pub struct Args {
    pomodoro: Option<Timer>,
    short_break: Option<Timer>,
    long_break: Option<Timer>,
    pomodoros: Option<u8>,
    config: Option<String>,
}

impl Args {
    pub closed spec fn spec_pomodoro(&self) -> Option<Timer> {
        self.pomodoro
    }

    pub closed spec fn spec_short_break(&self) -> Option<Timer> {
        self.short_break
    }

    pub closed spec fn spec_long_break(&self) -> Option<Timer> {
        self.long_break
    }

    pub closed spec fn spec_pomodoros(&self) -> Option<u8> {
        self.pomodoros
    }

    pub closed spec fn spec_config(&self) -> Option<String> {
        self.config
    }

    /// Gathers the choices read from the command line.
    pub fn new(
        pomodoro: Option<Timer>,
        short_break: Option<Timer>,
        long_break: Option<Timer>,
        pomodoros: Option<u8>,
        config: Option<String>,
    ) -> (r: Args)
        ensures
            r.spec_pomodoro() == pomodoro,
            r.spec_short_break() == short_break,
            r.spec_long_break() == long_break,
            r.spec_pomodoros() == pomodoros,
            r.spec_config() == config,
    {
        Args { pomodoro, short_break, long_break, pomodoros, config }
    }

    /// The configuration file named on the command line, if any.
    pub fn get_config_path(&self) -> (r: Option<&str>)
        ensures
            r is Some <==> self.spec_config() is Some,
            r is Some ==> r->0@ == self.spec_config()->0@,
    {
        match &self.config {
            Some(path) => Some(path.as_str()),
            None => None,
        }
    }

    pub fn get_pomodoro(&self) -> (r: Option<Timer>)
        ensures
            r == self.spec_pomodoro(),
    {
        self.pomodoro
    }

    pub fn get_short_break(&self) -> (r: Option<Timer>)
        ensures
            r == self.spec_short_break(),
    {
        self.short_break
    }

    pub fn get_long_break(&self) -> (r: Option<Timer>)
        ensures
            r == self.spec_long_break(),
    {
        self.long_break
    }

    pub fn get_pomodoros(&self) -> (r: Option<u8>)
        ensures
            r == self.spec_pomodoros(),
    {
        self.pomodoros
    }
}

} // verus!
