use vstd::prelude::*;

use crate::digits::{decimal, push_decimal};
use crate::session::Activity;

verus! {

/// How long a notification stays up, in milliseconds.
pub const NOTIFICATION_TIMEOUT_MS: u32 = 5000;

/// How pressing a notification is.
#[derive(Debug, Clone, Copy, PartialEq, Eq, Structural)]
pub enum Urgency {
    Normal,
    Critical,
}

/// The desktop notification sent when an interval ends.
#[derive(Debug, Clone)]
pub struct Notice {
    pub summary: String,
    pub body: String,
    pub urgency: Urgency,
    /// How long it stays up, in milliseconds.
    pub timeout_ms: u32,
}

pub open spec fn notice_summary(a: Activity) -> Seq<char> {
    match a {
        Activity::Pomodoro(_) => "Pomodoro completed"@,
        Activity::ShortBreak => "Short break ended"@,
        Activity::LongBreak => "Long break ended"@,
    }
}

pub open spec fn notice_body(a: Activity) -> Seq<char> {
    match a {
        Activity::Pomodoro(n) => "Pomodoro #"@ + decimal(n as nat) + " completed"@,
        _ => "Prepare for next pomodoro"@,
    }
}

/// A finished pomodoro is news; the end of a break calls the user back.
pub open spec fn notice_urgency(a: Activity) -> Urgency {
    match a {
        Activity::Pomodoro(_) => Urgency::Normal,
        _ => Urgency::Critical,
    }
}

/// The notification for the end of an interval of `activity`.
pub fn notice(activity: Activity) -> (r: Notice)
    ensures
        r.summary@ == notice_summary(activity),
        r.body@ == notice_body(activity),
        r.urgency == notice_urgency(activity),
        r.timeout_ms == NOTIFICATION_TIMEOUT_MS,
{
    let mut summary = String::new();
    let mut body = String::new();
    let urgency = match activity {
        Activity::Pomodoro(n) => {
            summary.append("Pomodoro completed");
            body.append("Pomodoro #");
            push_decimal(&mut body, n);
            body.append(" completed");
            Urgency::Normal
        },
        Activity::ShortBreak => {
            summary.append("Short break ended");
            body.append("Prepare for next pomodoro");
            Urgency::Critical
        },
        Activity::LongBreak => {
            summary.append("Long break ended");
            body.append("Prepare for next pomodoro");
            Urgency::Critical
        },
    };
    assert(summary@ =~= notice_summary(activity));
    assert(body@ =~= notice_body(activity));
    Notice { summary, body, urgency, timeout_ms: NOTIFICATION_TIMEOUT_MS }
}

} // verus!
