use vstd::prelude::*;

use crate::ascii::{art, is_clock_char, render, Ascii};
use crate::digits::{decimal, digit_char, push_decimal, push_two_digits, two_digits};
use crate::error::{Error, TimerSyntax};
use crate::event::Event;
use crate::session::Activity;

verus! {

/// Length of one tick, in milliseconds.
pub const TICK_MILLIS: u64 = 1000;

/// How long the expired screen waits for the user, in seconds.
pub const EXPIRED_DURATION: u64 = 5;

/// `h:m:s` text of a number of seconds, each field at least two digits wide.
pub open spec fn clock_text(secs: nat) -> Seq<char> {
    two_digits(secs / 3600) + seq![':'] + two_digits((secs % 3600) / 60) + seq![':'] + two_digits(
        secs % 60,
    )
}

/// `1h2m30s` text of a number of seconds; a field that is zero is left out.
pub open spec fn duration_text(secs: nat) -> Seq<char> {
    (if secs / 3600 > 0 {
        decimal(secs / 3600).push('h')
    } else {
        seq![]
    }) + (if (secs % 3600) / 60 > 0 {
        decimal((secs % 3600) / 60).push('m')
    } else {
        seq![]
    }) + (if secs % 60 > 0 {
        decimal(secs % 60).push('s')
    } else {
        seq![]
    })
}

/// `residue / total` as a percentage, rounded to the nearest integer (halves round up).
pub open spec fn percent(residue: nat, total: nat) -> nat {
    (200 * residue + total) / (2 * total)
}

/// A unit letter of a duration text.
pub open spec fn is_unit(c: char) -> bool {
    c == 'h' || c == 'H' || c == 'm' || c == 'M' || c == 's' || c == 'S'
}

/// Seconds in one of the unit `c`.
pub open spec fn unit_seconds(c: char) -> nat {
    if c == 'h' || c == 'H' {
        3600
    } else if c == 'm' || c == 'M' {
        60
    } else {
        1
    }
}

pub open spec fn is_digit(c: char) -> bool {
    '0' <= c && c <= '9'
}

pub open spec fn digit_value(c: char) -> nat {
    (c as u32 - '0' as u32) as nat
}

/// Reads `s` from index `i` on, with the digits read since the last unit (`pending`) and the
/// seconds summed so far (`acc`).
pub open spec fn scan(s: Seq<char>, i: nat, pending: Option<nat>, acc: nat) -> Result<nat, Error>
    decreases s.len() - i,
{
    if i >= s.len() {
        Ok(acc)
    } else {
        let c = s[i as int];
        if is_unit(c) {
            match pending {
                None => Err(Error::ParseTimer(TimerSyntax::NullValue(c))),
                Some(v) => {
                    let sum = acc + v * unit_seconds(c);
                    if sum > usize::MAX {
                        Err(Error::TimerOverflow)
                    } else {
                        scan(s, i + 1, None, sum)
                    }
                },
            }
        } else if is_digit(c) {
            let v = match pending {
                None => 0,
                Some(v) => v,
            };
            scan(s, i + 1, Some(v * 10 + digit_value(c)), acc)
        } else {
            Err(Error::ParseTimer(TimerSyntax::NotADigit(c)))
        }
    }
}

/// The number of seconds that a text of the form `[[<H>h]<M>m]<S>s` stands for.
/// Fields may repeat and come in any order; their values add up.
pub open spec fn parse_duration(s: Seq<char>) -> Result<nat, Error> {
    if s.len() == 0 || !is_unit(s.last()) {
        Err(Error::ParseTimer(TimerSyntax::MissingUnit))
    } else {
        scan(s, 0, None, 0)
    }
}

proof fn lemma_decimal_digits(n: nat)
    ensures
        forall|k: int| 0 <= k < decimal(n).len() ==> is_clock_char(#[trigger] decimal(n)[k]),
    decreases n,
{
    let d = decimal(n);
    if n >= 10 {
        lemma_decimal_digits(n / 10);
        lemma_digit_char(n % 10);
        assert forall|k: int| 0 <= k < d.len() implies is_clock_char(#[trigger] d[k]) by {
            if k < d.len() - 1 {
                assert(d[k] == decimal(n / 10)[k]);
            }
        }
    } else {
        lemma_digit_char(n);
    }
}

proof fn lemma_digit_char(d: nat)
    requires
        d < 10,
    ensures
        is_clock_char(digit_char(d)),
{
    let s = seq!['0', '1', '2', '3', '4', '5', '6', '7', '8', '9'];
    assert(digit_char(d) == s[d as int]);
    assert(forall|k: int| 0 <= k < 10 ==> is_clock_char(#[trigger] s[k]));
}

proof fn lemma_clock_text_chars(secs: nat)
    ensures
        forall|k: int|
            0 <= k < clock_text(secs).len() ==> is_clock_char(#[trigger] clock_text(secs)[k]),
{
    lemma_decimal_digits(secs / 3600);
    lemma_decimal_digits((secs % 3600) / 60);
    lemma_decimal_digits(secs % 60);
    let a = two_digits(secs / 3600);
    let b = two_digits((secs % 3600) / 60);
    let c = two_digits(secs % 60);
    assert forall|k: int| 0 <= k < clock_text(secs).len() implies is_clock_char(
        #[trigger] clock_text(secs)[k],
    ) by {
        let t = clock_text(secs);
        if k < a.len() {
            assert(t[k] == a[k]);
        } else if k == a.len() {
        } else if k < a.len() + 1 + b.len() {
            assert(t[k] == b[k - a.len() - 1]);
        } else if k == a.len() + 1 + b.len() {
        } else {
            assert(t[k] == c[k - a.len() - 2 - b.len()]);
        }
    }
}

/// Rounding keeps the percentage within `[0, 100]`.
pub proof fn lemma_percent_bounded(residue: nat, total: nat)
    requires
        residue <= total,
        total > 0,
    ensures
        percent(residue, total) <= 100,
{
    let a = 200 * residue + total;
    let d = 2 * total;
    let q = a / d;
    vstd::arithmetic::div_mod::lemma_fundamental_div_mod(a as int, d as int);
    assert(q <= 100) by (nonlinear_arith)
        requires
            a == q * d + a % d,
            0 <= a % d,
            a <= 201 * total,
            d == 2 * total,
            total > 0,
            q >= 0,
    ;
}

/// The percentage never rises while the residue falls, and stays within `[0, 100]`.
pub proof fn lemma_percent_monotonic(r1: nat, r2: nat, total: nat)
    requires
        r1 <= r2,
        r2 <= total,
        total > 0,
    ensures
        percent(r1, total) <= percent(r2, total),
        percent(r2, total) <= 100,
{
    vstd::arithmetic::div_mod::lemma_div_is_ordered(
        (200 * r1 + total) as int,
        (200 * r2 + total) as int,
        2 * total as int,
    );
    lemma_percent_bounded(r2, total);
}

/// Pomodoro or break timer: a total duration and what is left of it, in seconds.
#[derive(Debug, Clone, Copy, PartialEq, Eq, Structural)]
pub struct Timer {
    total: usize,
    residue: usize,
}

impl Timer {
    /// The length of the timer in seconds.
    pub closed spec fn spec_total(self) -> nat {
        self.total as nat
    }

    /// The seconds still left to run.
    pub closed spec fn spec_residue(self) -> nat {
        self.residue as nat
    }

    /// What is left never exceeds the length.
    pub open spec fn wf(self) -> bool {
        self.spec_residue() <= self.spec_total()
    }

    /// Builds a timer of the given length, with nothing elapsed yet.
    pub fn new(hours: usize, minutes: usize, seconds: usize) -> (r: Timer)
        requires
            seconds + (minutes + hours * 60) * 60 <= usize::MAX,
        ensures
            r.spec_total() == seconds + (minutes + hours * 60) * 60,
            r.spec_residue() == r.spec_total(),
    {
        let duration = seconds + (minutes + hours * 60) * 60;
        Timer { total: duration, residue: duration }
    }

    /// Whether what is left fits in the length.
    pub fn is_wf(&self) -> (r: bool)
        ensures
            r == self.wf(),
    {
        self.residue <= self.total
    }

    /// The length of the timer in seconds.
    pub fn total(&self) -> (r: usize)
        ensures
            r == self.spec_total(),
    {
        self.total
    }

    /// The seconds still left to run.
    pub fn residue(&self) -> (r: usize)
        ensures
            r == self.spec_residue(),
    {
        self.residue
    }

    /// What is left, as hours, minutes and seconds.
    pub fn hms(&self) -> (r: (usize, usize, usize))
        ensures
            r.0 == self.spec_residue() / 3600,
            r.1 == (self.spec_residue() % 3600) / 60,
            r.2 == self.spec_residue() % 60,
    {
        let hours = self.residue / 3600;
        let minutes = (self.residue % 3600) / 60;
        let seconds = self.residue % 60;
        (hours, minutes, seconds)
    }

    /// What is left, as `HH:MM:SS`.
    pub fn hhmmss(&self) -> (r: String)
        ensures
            r@ == clock_text(self.spec_residue()),
    {
        let (hours, minutes, seconds) = self.hms();
        let mut out = String::new();
        push_two_digits(&mut out, hours as u64);
        out.append(":");
        push_two_digits(&mut out, minutes as u64);
        out.append(":");
        push_two_digits(&mut out, seconds as u64);
        proof {
            reveal_strlit(":");
            assert(out@ =~= clock_text(self.spec_residue()));
        }
        out
    }

    /// What is left as a whole percentage of the length, rounded to the nearest.
    pub fn remaining_percentage(&self) -> (r: u16)
        requires
            self.wf(),
            self.spec_total() > 0,
        ensures
            r == percent(self.spec_residue(), self.spec_total()),
    {
        let t = self.total as u128;
        let r = self.residue as u128;
        assert(200 * r <= 200 * 0xffff_ffff_ffff_ffffu128) by (nonlinear_arith)
            requires
                r <= 0xffff_ffff_ffff_ffffu128,
        ;
        let p = (200 * r + t) / (2 * t);
        proof {
            lemma_percent_bounded(self.spec_residue(), self.spec_total());
        }
        p as u16
    }

    /// What is left, as `1h2m30s`; fields that are zero are left out.
    pub fn to_string(&self) -> (r: String)
        ensures
            r@ == duration_text(self.spec_residue()),
    {
        let (hours, minutes, seconds) = self.hms();
        let mut out = String::new();
        proof {
            reveal_strlit("h");
            reveal_strlit("m");
            reveal_strlit("s");
        }
        if hours > 0 {
            push_decimal(&mut out, hours as u64);
            out.append("h");
        }
        if minutes > 0 {
            push_decimal(&mut out, minutes as u64);
            out.append("m");
        }
        if seconds > 0 {
            push_decimal(&mut out, seconds as u64);
            out.append("s");
        }
        assert(out@ =~= duration_text(self.spec_residue()));
        out
    }
    /// Reads a duration such as `1h2m30s` (see `parse_duration`).
    pub fn parse(s: &str) -> (r: Result<Timer, Error>)
        ensures
            r is Ok <==> parse_duration(s@) is Ok,
            r is Ok ==> r->Ok_0.spec_total() == parse_duration(s@)->Ok_0 && r->Ok_0.spec_residue()
                == r->Ok_0.spec_total(),
            r is Err ==> parse_duration(s@) == Err::<nat, Error>(r->Err_0),
    {
        let n = s.unicode_len();
        if n == 0 {
            return Err(Error::ParseTimer(TimerSyntax::MissingUnit));
        }
        let last = s.get_char(n - 1);
        if !(last == 'h' || last == 'H' || last == 'm' || last == 'M' || last == 's' || last
            == 'S') {
            return Err(Error::ParseTimer(TimerSyntax::MissingUnit));
        }
        let mut has_digits = false;
        let mut pending: usize = 0;
        let mut too_big = false;
        let ghost mut value: nat = 0;
        let mut duration: usize = 0;
        let mut i: usize = 0;
        while i < n
            invariant
                n == s@.len(),
                i <= n,
                n > 0 && is_unit(s@.last()),
                too_big ==> has_digits && value > usize::MAX,
                !too_big ==> value == pending,
                parse_duration(s@) == scan(
                    s@,
                    i as nat,
                    if has_digits {
                        Some(value)
                    } else {
                        None
                    },
                    duration as nat,
                ),
            decreases n - i,
        {
            let c = s.get_char(i);
            if c == 'h' || c == 'H' || c == 'm' || c == 'M' || c == 's' || c == 'S' {
                if !has_digits {
                    return Err(Error::ParseTimer(TimerSyntax::NullValue(c)));
                }
                let mult: u128 = if c == 'h' || c == 'H' {
                    3600
                } else if c == 'm' || c == 'M' {
                    60
                } else {
                    1
                };
                if too_big {
                    assert(value * unit_seconds(c) >= value) by (nonlinear_arith)
                        requires
                            unit_seconds(c) >= 1,
                    ;
                    return Err(Error::TimerOverflow);
                }
                assert(pending as u128 * mult <= 0xffff_ffff_ffff_ffffu128 * 3600) by (
                nonlinear_arith)
                    requires
                        pending <= 0xffff_ffff_ffff_ffffu128,
                        mult <= 3600,
                ;
                let sum: u128 = duration as u128 + pending as u128 * mult;
                if sum > usize::MAX as u128 {
                    return Err(Error::TimerOverflow);
                }
                duration = sum as usize;
                has_digits = false;
                pending = 0;
                proof {
                    value = 0;
                }
            } else if '0' <= c && c <= '9' {
                let d = (c as u32 - '0' as u32) as usize;
                if !has_digits {
                    proof {
                        value = 0;
                    }
                    pending = 0;
                    too_big = false;
                }
                proof {
                    value = value * 10 + digit_value(c);
                }
                if too_big || pending > (usize::MAX - d) / 10 {
                    too_big = true;
                } else {
                    pending = pending * 10 + d;
                }
                has_digits = true;
            } else {
                return Err(Error::ParseTimer(TimerSyntax::NotADigit(c)));
            }
            i = i + 1;
        }
        Ok(Timer { total: duration, residue: duration })
    }
}

impl std::str::FromStr for Timer {
    type Err = Error;

    fn from_str(s: &str) -> Result<Timer, Error> {
        Timer::parse(s)
    }
}


impl Ascii for Timer {
    open spec fn ascii_view(&self) -> Seq<char> {
        art(clock_text(self.spec_residue()))
    }

    /// Draws what is left as `HH:MM:SS` in large digits.
    fn to_ascii_art(&self) -> (r: String) {
        let text = self.hhmmss();
        proof {
            lemma_clock_text_chars(self.spec_residue());
        }
        render(text.as_str())
    }
}

/// What the countdown shows on each tick, sent by value to the presentation side.
#[derive(Debug, Clone)]
pub struct TimerData {
    /// Current activity.
    pub activity: Activity,
    /// ASCII art of what is left.
    pub ascii: String,
    /// What is left, as a whole percentage.
    pub perc: u16,
}

impl TimerData {
    pub fn new(activity: Activity, ascii: String, perc: u16) -> (r: TimerData)
        ensures
            r.activity == activity,
            r.ascii@ == ascii@,
            r.perc == perc,
    {
        TimerData { activity, ascii, perc }
    }
}

impl Default for TimerData {
    fn default() -> (r: TimerData)
        ensures
            r.activity == Activity::Pomodoro(0),
            r.ascii@ == Seq::<char>::empty(),
            r.perc == 100,
    {
        TimerData { activity: Activity::Pomodoro(0), ascii: String::new(), perc: 100 }
    }
}

/// State of a countdown, as the presentation side draws it.
#[derive(Debug, Clone)]
pub enum TimerStatus {
    Running(TimerData),
    Paused,
    Expired,
}

/// Where one run of a countdown stands.
#[derive(Debug, Clone, Copy, PartialEq, Eq, Structural)]
pub enum Stage {
    /// Counting down, one tick at a time.
    Ticking,
    /// Paused until the next intent.
    Paused,
    /// Expired; the confirmation window is open.
    Confirming,
    /// The run is over.
    Done,
}

/// What the driver of a countdown does next.
#[derive(Debug, Clone, Copy, PartialEq, Eq, Structural)]
pub enum Step {
    /// Note the time, draw a running snapshot, then wait for an intent for what is left of the
    /// tick (see `tick_budget`).
    Tick,
    /// Draw the paused screen, then wait for the next intent with no time limit.
    Pause,
    /// Notify that the interval ended (a failure is ignored), draw the expired screen, then wait
    /// for an intent for at most `EXPIRED_DURATION` seconds.
    Expire,
    /// The run is over; `true` asks the whole program to stop.
    Finish(bool),
    /// The run failed.
    Fail(Error),
}

/// How the driver's wait ended.
#[derive(Debug, Clone, Copy, PartialEq, Eq, Structural)]
pub enum Wake {
    /// The wait ran out with no intent.
    TimedOut,
    /// An intent came.
    Intent(Event),
    /// The intent source is gone.
    Disconnected,
    /// Drawing took the whole tick, so no wait was left.
    Overrun,
}

/// The stage and step that a run begins with, given what is left.
pub open spec fn opening(residue: nat) -> (Stage, Step) {
    if residue > 0 {
        (Stage::Ticking, Step::Tick)
    } else {
        (Stage::Confirming, Step::Expire)
    }
}

/// One transition of a countdown: from a stage and what is left, on how the wait ended, to the
/// next stage, what is left then, and the next step.
pub open spec fn countdown(stage: Stage, residue: nat, total: nat, wake: Wake) -> (Stage, nat, Step) {
    match stage {
        Stage::Ticking => match wake {
            Wake::TimedOut => if residue > 1 {
                (Stage::Ticking, (residue - 1) as nat, Step::Tick)
            } else {
                (Stage::Confirming, 0, Step::Expire)
            },
            Wake::Intent(Event::TogglePause) => (Stage::Paused, residue, Step::Pause),
            Wake::Intent(Event::Skip) => (Stage::Confirming, residue, Step::Expire),
            Wake::Disconnected => (Stage::Done, residue, Step::Finish(true)),
            Wake::Overrun => (Stage::Done, residue, Step::Fail(Error::RenderTime)),
        },
        Stage::Paused => match wake {
            Wake::Intent(Event::TogglePause) => (Stage::Ticking, residue, Step::Tick),
            Wake::Intent(Event::Skip) => (Stage::Confirming, residue, Step::Expire),
            Wake::Disconnected => (Stage::Done, residue, Step::Finish(true)),
            _ => (Stage::Paused, residue, Step::Pause),
        },
        Stage::Confirming => match wake {
            Wake::Disconnected => (Stage::Done, total, Step::Finish(true)),
            _ => (Stage::Done, total, Step::Finish(false)),
        },
        Stage::Done => (Stage::Done, residue, Step::Finish(false)),
    }
}

/// A stage that counts down has something left to count.
pub open spec fn stage_fits(stage: Stage, residue: nat) -> bool {
    (stage == Stage::Ticking || stage == Stage::Paused) ==> residue > 0
}

/// The wait left of a tick once `elapsed_millis` went on drawing; none when the tick is used up.
pub fn tick_budget(elapsed_millis: u64) -> (r: Option<u64>)
    ensures
        elapsed_millis < TICK_MILLIS ==> r == Some((TICK_MILLIS - elapsed_millis) as u64),
        elapsed_millis >= TICK_MILLIS ==> r is None,
{
    if elapsed_millis < TICK_MILLIS {
        Some(TICK_MILLIS - elapsed_millis)
    } else {
        None
    }
}

impl Timer {
    /// Begins a run: a tick if anything is left, else straight to expiry.
    pub fn start(&self) -> (r: (Stage, Step))
        ensures
            r == opening(self.spec_residue()),
            stage_fits(r.0, self.spec_residue()),
    {
        if self.residue > 0 {
            (Stage::Ticking, Step::Tick)
        } else {
            (Stage::Confirming, Step::Expire)
        }
    }

    /// Moves the run on by how the last wait ended (see `countdown`).
    pub fn step(&mut self, stage: Stage, wake: Wake) -> (r: (Stage, Step))
        requires
            old(self).wf(),
            stage != Stage::Done,
            stage_fits(stage, old(self).spec_residue()),
        ensures
            final(self).wf(),
            final(self).spec_total() == old(self).spec_total(),
            (r.0, final(self).spec_residue(), r.1) == countdown(
                stage,
                old(self).spec_residue(),
                old(self).spec_total(),
                wake,
            ),
            stage_fits(r.0, final(self).spec_residue()),
    {
        match stage {
            Stage::Ticking => match wake {
                Wake::TimedOut => {
                    self.residue = self.residue - 1;
                    if self.residue > 0 {
                        (Stage::Ticking, Step::Tick)
                    } else {
                        (Stage::Confirming, Step::Expire)
                    }
                },
                Wake::Intent(Event::TogglePause) => (Stage::Paused, Step::Pause),
                Wake::Intent(Event::Skip) => (Stage::Confirming, Step::Expire),
                Wake::Disconnected => (Stage::Done, Step::Finish(true)),
                Wake::Overrun => (Stage::Done, Step::Fail(Error::RenderTime)),
            },
            Stage::Paused => match wake {
                Wake::Intent(Event::TogglePause) => (Stage::Ticking, Step::Tick),
                Wake::Intent(Event::Skip) => (Stage::Confirming, Step::Expire),
                Wake::Disconnected => (Stage::Done, Step::Finish(true)),
                _ => (Stage::Paused, Step::Pause),
            },
            _ => {
                self.residue = self.total;
                match wake {
                    Wake::Disconnected => (Stage::Done, Step::Finish(true)),
                    _ => (Stage::Done, Step::Finish(false)),
                }
            },
        }
    }

    /// The snapshot drawn on a tick: the activity, what is left as art, and as a percentage.
    pub fn snapshot(&self, activity: Activity) -> (r: TimerData)
        requires
            self.wf(),
            self.spec_total() > 0,
        ensures
            r.activity == activity,
            r.ascii@ == self.ascii_view(),
            r.perc == percent(self.spec_residue(), self.spec_total()),
    {
        TimerData::new(activity, self.to_ascii_art(), self.remaining_percentage())
    }
}

/// `n` waits that all run out.
pub open spec fn timeouts(n: nat) -> Seq<Wake> {
    Seq::new(n, |k: int| Wake::TimedOut)
}

/// The transitions of a countdown fed `wakes` in order, from `stage` with `residue` left.
pub open spec fn run_from(stage: Stage, residue: nat, total: nat, wakes: Seq<Wake>) -> Seq<
    (Stage, nat, Step),
>
    decreases wakes.len(),
{
    if wakes.len() == 0 {
        seq![]
    } else {
        let n = countdown(stage, residue, total, wakes[0]);
        seq![n] + run_from(n.0, n.1, total, wakes.drop_first())
    }
}

/// With `r` seconds left and no intent, a ticking countdown ticks with `r - 1`, ..., `1` left,
/// then expires with nothing left.
pub proof fn lemma_uninterrupted(r: nat, total: nat)
    requires
        r >= 1,
    ensures
        run_from(Stage::Ticking, r, total, timeouts(r)).len() == r,
        forall|k: int|
            0 <= k < r - 1 ==> #[trigger] run_from(Stage::Ticking, r, total, timeouts(r))[k] == (
            Stage::Ticking,
            (r - 1 - k) as nat,
            Step::Tick,
            ),
        run_from(Stage::Ticking, r, total, timeouts(r))[r - 1] == (Stage::Confirming, 0nat, Step::Expire),
    decreases r,
{
    let run = run_from(Stage::Ticking, r, total, timeouts(r));
    assert(timeouts(r)[0] == Wake::TimedOut);
    assert(timeouts(r).drop_first() =~= timeouts((r - 1) as nat));
    if r > 1 {
        lemma_uninterrupted((r - 1) as nat, total);
        let rest = run_from(Stage::Ticking, (r - 1) as nat, total, timeouts((r - 1) as nat));
        assert(run == seq![(Stage::Ticking, (r - 1) as nat, Step::Tick)] + rest);
        assert forall|k: int| 0 <= k < r - 1 implies #[trigger] run[k] == (
            Stage::Ticking,
            (r - 1 - k) as nat,
            Step::Tick,
        ) by {
            if k > 0 {
                assert(run[k] == rest[k - 1]);
            }
        }
        assert(run[r - 1] == rest[r - 2]);
    } else {
        assert(timeouts((r - 1) as nat) =~= Seq::<Wake>::empty());
        assert(run_from(Stage::Confirming, 0, total, timeouts(0)) == Seq::<(Stage, nat, Step)>::empty());
        assert(run =~= seq![(Stage::Confirming, 0nat, Step::Expire)]);
    }
}

/// A fresh countdown of `d >= 1` seconds that meets no intent draws exactly `d` running snapshots,
/// with `d`, `d - 1`, ..., `1` seconds left, and then expires.
pub proof fn lemma_fresh_countdown(t: Timer)
    requires
        t.wf(),
        t.spec_total() >= 1,
        t.spec_residue() == t.spec_total(),
    ensures
        opening(t.spec_residue()) == (Stage::Ticking, Step::Tick),
        run_from(Stage::Ticking, t.spec_residue(), t.spec_total(), timeouts(t.spec_total())).len()
            == t.spec_total(),
        forall|k: int|
            0 <= k < t.spec_total() - 1 ==> #[trigger] run_from(
                Stage::Ticking,
                t.spec_residue(),
                t.spec_total(),
                timeouts(t.spec_total()),
            )[k] == (Stage::Ticking, (t.spec_total() - 1 - k) as nat, Step::Tick),
        run_from(Stage::Ticking, t.spec_residue(), t.spec_total(), timeouts(t.spec_total()))[t.spec_total()
            - 1] == (Stage::Confirming, 0nat, Step::Expire),
{
    lemma_uninterrupted(t.spec_total(), t.spec_total());
}

/// A skip while counting down or paused, with anything left, goes straight to expiry; from there
/// the run ends whatever comes next, with no further tick.
pub proof fn lemma_skip_expires(stage: Stage, r: nat, total: nat, next: Wake)
    requires
        stage == Stage::Ticking || stage == Stage::Paused,
        r > 0,
    ensures
        countdown(stage, r, total, Wake::Intent(Event::Skip)) == (Stage::Confirming, r, Step::Expire),
        countdown(Stage::Confirming, r, total, next).0 == Stage::Done,
        countdown(Stage::Confirming, r, total, next).2 is Finish,
{
}

/// Pausing keeps what is left, and a second toggle resumes ticking with it unchanged.
pub proof fn lemma_pause_keeps_residue(r: nat, total: nat)
    requires
        r > 0,
    ensures
        countdown(Stage::Ticking, r, total, Wake::Intent(Event::TogglePause)) == (
            Stage::Paused,
            r,
            Step::Pause,
        ),
        countdown(Stage::Paused, r, total, Wake::Intent(Event::TogglePause)) == (
            Stage::Ticking,
            r,
            Step::Tick,
        ),
{
}

/// Once the confirmation window ends without a disconnect, the countdown is whole again, and a
/// new run repeats the fresh countdown exactly.
pub proof fn lemma_window_resets(r: nat, d: nat, wake: Wake)
    requires
        d >= 1,
        wake != Wake::Disconnected,
    ensures
        countdown(Stage::Confirming, r, d, wake) == (Stage::Done, d, Step::Finish(false)),
        opening(countdown(Stage::Confirming, r, d, wake).1) == (Stage::Ticking, Step::Tick),
        run_from(Stage::Ticking, countdown(Stage::Confirming, r, d, wake).1, d, timeouts(d)).len()
            == d,
        forall|k: int|
            0 <= k < d - 1 ==> #[trigger] run_from(
                Stage::Ticking,
                countdown(Stage::Confirming, r, d, wake).1,
                d,
                timeouts(d),
            )[k] == (Stage::Ticking, (d - 1 - k) as nat, Step::Tick),
        run_from(Stage::Ticking, countdown(Stage::Confirming, r, d, wake).1, d, timeouts(d))[d - 1]
            == (Stage::Confirming, 0nat, Step::Expire),
{
    lemma_uninterrupted(d, d);
}

} // verus!
