//! A pomodoro session engine: countdown timers that tick, pause, skip and expire, a scheduler
//! that sequences pomodoros and breaks, the classification of terminal input into intents, the
//! state of the presentation side, and the text they show (durations, clock art, FIGlet fonts,
//! notifications). Each decision is a function from state and event to the next state and the
//! next action, so that a driver can run it against real channels, clocks and terminals.

pub mod args;
pub mod ascii;
pub mod config;
pub mod digits;
pub mod error;
pub mod event;
pub mod figlet;
pub mod notification;
pub mod path;
pub mod session;
pub mod text;
pub mod timer;
pub mod ui;
