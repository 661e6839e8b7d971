use vstd::prelude::*;

use crate::digits::{decimal, push_decimal};
use crate::timer::{countdown, opening, stage_fits, Stage, Step, Timer, Wake};

verus! {

/// Kind of activity associated to a timer.
#[derive(Debug, Clone, Copy, PartialEq, Eq, Structural)]
pub enum Activity {
    /// A pomodoro, with its ordinal in the session.
    Pomodoro(u64),
    ShortBreak,
    LongBreak,
}

/// The name of an activity as shown to the user.
pub open spec fn activity_text(a: Activity) -> Seq<char> {
    match a {
        Activity::Pomodoro(n) => seq!['P', 'o', 'm', 'o', 'd', 'o', 'r', 'o', ' ', '#'] + decimal(
            n as nat,
        ),
        Activity::ShortBreak => seq!['S', 'h', 'o', 'r', 't', ' ', 'b', 'r', 'e', 'a', 'k'],
        Activity::LongBreak => seq!['L', 'o', 'n', 'g', ' ', 'b', 'r', 'e', 'a', 'k'],
    }
}

impl Activity {
    /// The name of the activity, such as `Pomodoro #3` or `Short break`.
    pub fn to_string(&self) -> (r: String)
        ensures
            r@ == activity_text(*self),
    {
        let mut out = String::new();
        match *self {
            Activity::Pomodoro(n) => {
                out.append("Pomodoro #");
                push_decimal(&mut out, n);
                proof {
                    reveal_strlit("Pomodoro #");
                    assert(out@ =~= activity_text(*self));
                }
            },
            Activity::ShortBreak => {
                out.append("Short break");
                proof {
                    reveal_strlit("Short break");
                    assert(out@ =~= activity_text(*self));
                }
            },
            Activity::LongBreak => {
                out.append("Long break");
                proof {
                    reveal_strlit("Long break");
                    assert(out@ =~= activity_text(*self));
                }
            },
        }
        out
    }
}

/// The interval that follows `done`, where `count` pomodoros have started so far and a long
/// break comes after every `pomodoros` of them.
pub open spec fn next_activity(done: Activity, count: nat, pomodoros: nat) -> Activity {
    match done {
        Activity::Pomodoro(_) => if count % pomodoros == 0 {
            Activity::LongBreak
        } else {
            Activity::ShortBreak
        },
        _ => Activity::Pomodoro((count + 1) as u64),
    }
}

/// A session: the scheduling policy and the count of pomodoros started.
#[derive(Debug, Clone, Copy)]
pub struct Session {
    /// Count of pomodoros started so far.
    pub pomodoro_count: u64,
    /// Pomodoro duration.
    pub pomodoro: Timer,
    /// Short break duration.
    pub short_break: Timer,
    /// Long break duration.
    pub long_break: Timer,
    /// Pomodoros before long break.
    pub pomodoros: u8,
}

/// Where a running session stands: the interval that runs and the stage of its countdown.
#[derive(Debug, Clone, Copy, PartialEq, Eq, Structural)]
pub struct Cursor {
    pub activity: Activity,
    pub stage: Stage,
}

fn default_pomodoro() -> (r: Timer)
    ensures
        r.spec_total() == 1500,
        r.spec_residue() == 1500,
{
    Timer::new(0, 25, 0)
}

fn default_short_break() -> (r: Timer)
    ensures
        r.spec_total() == 300,
        r.spec_residue() == 300,
{
    Timer::new(0, 5, 0)
}

fn default_long_break() -> (r: Timer)
    ensures
        r.spec_total() == 900,
        r.spec_residue() == 900,
{
    Timer::new(0, 15, 0)
}

fn default_pomodoros() -> (r: u8)
    ensures
        r == 4,
{
    4
}

impl Default for Session {
    /// Pomodoros of 25 minutes, short breaks of 5, long breaks of 15, every 4 pomodoros.
    fn default() -> (r: Session)
        ensures
            r.wf(),
            r.pomodoro_count == 0,
            r.pomodoro.spec_total() == 1500,
            r.short_break.spec_total() == 300,
            r.long_break.spec_total() == 900,
            r.pomodoro.spec_residue() == 1500,
            r.short_break.spec_residue() == 300,
            r.long_break.spec_residue() == 900,
            r.pomodoros == 4,
    {
        Session {
            pomodoro_count: 0,
            pomodoro: default_pomodoro(),
            short_break: default_short_break(),
            long_break: default_long_break(),
            pomodoros: default_pomodoros(),
        }
    }
}

impl Session {
    /// A usable policy: a long break every one or more pomodoros, and sound timers.
    pub open spec fn wf(self) -> bool {
        self.pomodoros > 0 && self.pomodoro.wf() && self.short_break.wf() && self.long_break.wf()
    }

    /// The timer that runs the intervals of activity `a`.
    pub open spec fn timer_of(self, a: Activity) -> Timer {
        match a {
            Activity::Pomodoro(_) => self.pomodoro,
            Activity::ShortBreak => self.short_break,
            Activity::LongBreak => self.long_break,
        }
    }

    /// `c` is a place that a run of this session can reach: a pomodoro that runs is the latest
    /// one started, and a countdown that counts has something left.
    pub open spec fn holds(self, c: Cursor) -> bool {
        &&& c.stage != Stage::Done
        &&& (c.activity matches Activity::Pomodoro(k) ==> k == self.pomodoro_count)
        &&& stage_fits(c.stage, self.timer_of(c.activity).spec_residue())
    }

    /// `self` and `other` have the same policy and timers, but for those of activity `a`.
    pub open spec fn same_but(self, other: Session, a: Activity) -> bool {
        &&& self.pomodoros == other.pomodoros
        &&& (!(a is Pomodoro) ==> self.pomodoro == other.pomodoro)
        &&& (!(a is ShortBreak) ==> self.short_break == other.short_break)
        &&& (!(a is LongBreak) ==> self.long_break == other.long_break)
        &&& self.timer_of(a).spec_total() == other.timer_of(a).spec_total()
    }

    /// Whether the policy is usable (see `wf`).
    pub fn is_valid(&self) -> (r: bool)
        ensures
            r == self.wf(),
    {
        self.pomodoros > 0 && self.pomodoro.is_wf() && self.short_break.is_wf()
            && self.long_break.is_wf()
    }

    /// The timer that runs the intervals of `activity`.
    pub fn timer_for(&self, activity: Activity) -> (r: Timer)
        ensures
            r == self.timer_of(activity),
    {
        match activity {
            Activity::Pomodoro(_) => self.pomodoro,
            Activity::ShortBreak => self.short_break,
            Activity::LongBreak => self.long_break,
        }
    }

    /// Starts the session: the next pomodoro begins.
    pub fn start(&mut self) -> (r: (Cursor, Step))
        requires
            old(self).wf(),
            old(self).pomodoro_count < u64::MAX,
        ensures
            final(self).wf(),
            final(self).pomodoro_count == old(self).pomodoro_count + 1,
            final(self).pomodoro == old(self).pomodoro,
            final(self).short_break == old(self).short_break,
            final(self).long_break == old(self).long_break,
            final(self).pomodoros == old(self).pomodoros,
            r.0.activity == Activity::Pomodoro(final(self).pomodoro_count),
            (r.0.stage, r.1) == opening(old(self).pomodoro.spec_residue()),
            r.1 != Step::Finish(false) ==> final(self).holds(r.0),
    {
        self.pomodoro_count = self.pomodoro_count + 1;
        let (stage, step) = self.pomodoro.start();
        (Cursor { activity: Activity::Pomodoro(self.pomodoro_count), stage }, step)
    }

    /// Moves the session on by how the last wait ended. The countdown of the current interval
    /// takes the wake (see `countdown`); when it ends normally the next interval begins (see
    /// `next_activity`), a new pomodoro raising the count.
    pub fn advance(&mut self, cursor: Cursor, wake: Wake) -> (r: (Cursor, Step))
        requires
            old(self).wf(),
            old(self).holds(cursor),
            old(self).pomodoro_count < u64::MAX,
        ensures
            final(self).wf(),
            ({
                let t = old(self).timer_of(cursor.activity);
                let (stage, residue, step) = countdown(
                    cursor.stage,
                    t.spec_residue(),
                    t.spec_total(),
                    wake,
                );
                let next = next_activity(
                    cursor.activity,
                    old(self).pomodoro_count as nat,
                    old(self).pomodoros as nat,
                );
                &&& final(self).timer_of(cursor.activity).spec_residue() == residue
                &&& if step == Step::Finish(false) {
                    &&& final(self).pomodoro_count == if next is Pomodoro {
                        old(self).pomodoro_count + 1
                    } else {
                        old(self).pomodoro_count as int
                    }
                    &&& r.0.activity == next
                    &&& (r.0.stage, r.1) == opening(old(self).timer_of(next).spec_residue())
                    &&& final(self).timer_of(next) == old(self).timer_of(next)
                } else {
                    &&& final(self).pomodoro_count == old(self).pomodoro_count
                    &&& r == (Cursor { activity: cursor.activity, stage }, step)
                }
            }),
            final(self).same_but(*old(self), cursor.activity),
            r.1 != Step::Finish(false),
            (r.1 == Step::Tick || r.1 == Step::Pause || r.1 == Step::Expire) ==> final(self).holds(
                r.0,
            ),
    {
        let (stage, step) = match cursor.activity {
            Activity::Pomodoro(_) => self.pomodoro.step(cursor.stage, wake),
            Activity::ShortBreak => self.short_break.step(cursor.stage, wake),
            Activity::LongBreak => self.long_break.step(cursor.stage, wake),
        };
        if step != Step::Finish(false) {
            return (Cursor { activity: cursor.activity, stage }, step);
        }
        match cursor.activity {
            Activity::Pomodoro(_) => {
                if self.pomodoro_count % (self.pomodoros as u64) == 0 {
                    let (stage, step) = self.long_break.start();
                    (Cursor { activity: Activity::LongBreak, stage }, step)
                } else {
                    let (stage, step) = self.short_break.start();
                    (Cursor { activity: Activity::ShortBreak, stage }, step)
                }
            },
            _ => {
                self.pomodoro_count = self.pomodoro_count + 1;
                let (stage, step) = self.pomodoro.start();
                (Cursor { activity: Activity::Pomodoro(self.pomodoro_count), stage }, step)
            },
        }
    }
}

/// A long break comes right after the pomodoro whose ordinal is a multiple of the policy's
/// count, and after no other; a short break is never followed by a long break.
pub proof fn lemma_long_break_schedule(done: Activity, count: nat, pomodoros: nat)
    requires
        pomodoros > 0,
    ensures
        done is Pomodoro ==> (next_activity(done, count, pomodoros) == Activity::LongBreak <==> count
            % pomodoros == 0),
        done == Activity::ShortBreak ==> next_activity(done, count, pomodoros) != Activity::LongBreak,
        done == Activity::ShortBreak ==> next_activity(done, count, pomodoros) is Pomodoro,
{
}

/// In a running session, when the confirmation window of pomodoro number `k` ends without a
/// disconnect, the next interval is a long break exactly when `k` is a multiple of the policy's
/// count, and a short break otherwise.
pub proof fn lemma_pomodoro_then_break(s: Session, c: Cursor, wake: Wake)
    requires
        s.wf(),
        s.holds(c),
        c.activity is Pomodoro,
        c.stage == Stage::Confirming,
        wake != Wake::Disconnected,
    ensures
        countdown(
            c.stage,
            s.timer_of(c.activity).spec_residue(),
            s.timer_of(c.activity).spec_total(),
            wake,
        ).2 == Step::Finish(false),
        next_activity(c.activity, s.pomodoro_count as nat, s.pomodoros as nat) == if (
        c.activity->Pomodoro_0 as nat) % (s.pomodoros as nat) == 0 {
            Activity::LongBreak
        } else {
            Activity::ShortBreak
        },
{
}

} // verus!
