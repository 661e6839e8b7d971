use vstd::prelude::*;

use crate::session::Activity;
use crate::timer::{TimerData, TimerStatus};

verus! {

/// UI colors.
#[derive(Debug, Clone, Copy, PartialEq, Eq, Structural)]
pub enum Color {
    Red,
    Black,
    Green,
    Yellow,
    Blue,
    Magenta,
    Cyan,
    Gray,
    DarkGray,
    LightRed,
    LightGreen,
    LightYellow,
    LightBlue,
    LightMagenta,
    LightCyan,
}

/// User interface commands.
#[derive(Debug, Clone)]
pub enum UiCommand {
    /// Show a new state of the countdown.
    Draw(TimerStatus),
    /// Draw the current screen again.
    Refresh,
}

/// User interface screens.
#[derive(Debug, Clone, Copy, PartialEq, Eq, Structural)]
pub enum Screen {
    Running,
    Paused,
    Expired,
}

impl Default for Screen {
    fn default() -> (r: Screen)
        ensures
            r == Screen::Running,
    {
        Screen::Running
    }
}

/// User interface options, such as colors.
#[derive(Debug, Clone, Copy, PartialEq, Eq, Structural)]
pub struct UiOptions {
    /// Pomodoro color.
    pub pomodoro_color: Color,
    /// Short break color.
    pub short_break_color: Color,
    /// Long break color.
    pub long_break_color: Color,
    /// Progress bar background.
    pub background_color: Color,
}

fn default_pomodoro_color() -> (r: Color)
    ensures
        r == Color::Green,
{
    Color::Green
}

fn default_short_break_color() -> (r: Color)
    ensures
        r == Color::Magenta,
{
    Color::Magenta
}

fn default_long_break_color() -> (r: Color)
    ensures
        r == Color::Red,
{
    Color::Red
}

fn default_background_color() -> (r: Color)
    ensures
        r == Color::DarkGray,
{
    Color::DarkGray
}

impl Default for UiOptions {
    /// Green pomodoros, magenta short breaks, red long breaks, on dark gray.
    fn default() -> (r: UiOptions)
        ensures
            r == (UiOptions {
                pomodoro_color: Color::Green,
                short_break_color: Color::Magenta,
                long_break_color: Color::Red,
                background_color: Color::DarkGray,
            }),
    {
        UiOptions {
            pomodoro_color: default_pomodoro_color(),
            short_break_color: default_short_break_color(),
            long_break_color: default_long_break_color(),
            background_color: default_background_color(),
        }
    }
}

/// The color of activity `a` under options `o`.
pub open spec fn activity_color(o: UiOptions, a: Activity) -> Color {
    match a {
        Activity::Pomodoro(_) => o.pomodoro_color,
        Activity::ShortBreak => o.short_break_color,
        Activity::LongBreak => o.long_break_color,
    }
}

/// State of the presentation side: its options, the last snapshot and the current screen.
#[derive(Debug, Clone)]
pub struct Ui {
    options: UiOptions,
    timer_data: TimerData,
    screen: Screen,
}

impl Ui {
    pub closed spec fn spec_options(&self) -> UiOptions {
        self.options
    }

    pub closed spec fn spec_timer_data(&self) -> TimerData {
        self.timer_data
    }

    pub closed spec fn spec_screen(&self) -> Screen {
        self.screen
    }

    /// A user interface with the given options, showing the running screen of an empty snapshot.
    pub fn new(options: UiOptions) -> (r: Ui)
        ensures
            r.spec_options() == options,
            r.spec_screen() == Screen::Running,
            r.spec_timer_data().activity == Activity::Pomodoro(0),
            r.spec_timer_data().ascii@ == Seq::<char>::empty(),
            r.spec_timer_data().perc == 100,
    {
        Ui { options, timer_data: TimerData::default(), screen: Screen::default() }
    }

    pub fn options(&self) -> (r: UiOptions)
        ensures
            r == self.spec_options(),
    {
        self.options
    }

    pub fn timer_data(&self) -> (r: &TimerData)
        ensures
            *r == self.spec_timer_data(),
    {
        &self.timer_data
    }

    pub fn screen(&self) -> (r: Screen)
        ensures
            r == self.spec_screen(),
    {
        self.screen
    }

    /// Takes in a command; the screen to draw next is `screen()`. A running status brings a new
    /// snapshot, a paused or expired status only changes the screen, a refresh changes nothing.
    pub fn apply(&mut self, command: UiCommand)
        ensures
            final(self).spec_options() == old(self).spec_options(),
            match command {
                UiCommand::Draw(TimerStatus::Running(d)) => final(self).spec_screen()
                    == Screen::Running && final(self).spec_timer_data() == d,
                UiCommand::Draw(TimerStatus::Paused) => final(self).spec_screen() == Screen::Paused
                    && final(self).spec_timer_data() == old(self).spec_timer_data(),
                UiCommand::Draw(TimerStatus::Expired) => final(self).spec_screen()
                    == Screen::Expired && final(self).spec_timer_data()
                    == old(self).spec_timer_data(),
                UiCommand::Refresh => final(self).spec_screen() == old(self).spec_screen()
                    && final(self).spec_timer_data() == old(self).spec_timer_data(),
            },
    {
        match command {
            UiCommand::Draw(status) => {
                self.screen = match status {
                    TimerStatus::Running(timer_data) => {
                        self.timer_data = timer_data;
                        Screen::Running
                    },
                    TimerStatus::Paused => Screen::Paused,
                    TimerStatus::Expired => Screen::Expired,
                };
            },
            UiCommand::Refresh => {},
        }
    }

    /// The color in which the current snapshot is drawn, after its activity.
    pub fn color(&self) -> (r: Color)
        ensures
            r == activity_color(self.spec_options(), self.spec_timer_data().activity),
    {
        match self.timer_data.activity {
            Activity::Pomodoro(_) => self.options.pomodoro_color,
            Activity::ShortBreak => self.options.short_break_color,
            Activity::LongBreak => self.options.long_break_color,
        }
    }
}

impl Default for Ui {
    fn default() -> (r: Ui)
        ensures
            r.spec_options() == (UiOptions {
                pomodoro_color: Color::Green,
                short_break_color: Color::Magenta,
                long_break_color: Color::Red,
                background_color: Color::DarkGray,
            }),
            r.spec_screen() == Screen::Running,
    {
        Ui::new(UiOptions::default())
    }
}

} // verus!
