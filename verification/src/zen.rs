//! The zen screen's state: a pomodoro countdown and the ambient message.
//! The clock is handed in as a monotonic second count, so every operation
//! here is a pure function of its inputs.

use vstd::prelude::*;

use crate::text::{chars_to_string, dec_str, digit_char, push_str_chars, u64_dec_chars};

verus! {

/// A countdown started at a moment, for a duration, both in seconds.
pub struct Pomodoro {
    pub start_secs: u64,
    pub duration_secs: u64,
    pub is_break: bool,
}

/// Seconds elapsed since the start; a clock reading from before the start
/// counts as none.
pub open spec fn elapsed_of(p: Pomodoro, now: u64) -> int {
    if now >= p.start_secs {
        now - p.start_secs
    } else {
        0
    }
}

/// Seconds left of the duration, never below zero.
pub open spec fn remaining_of(p: Pomodoro, now: u64) -> int {
    if elapsed_of(p, now) >= p.duration_secs {
        0
    } else {
        p.duration_secs - elapsed_of(p, now)
    }
}

/// A number padded to at least two digits, as clock displays write it.
pub open spec fn two_digits(n: int) -> Seq<char> {
    if n < 10 {
        seq!['0', digit_char(n)]
    } else {
        dec_str(n)
    }
}

/// The `MM:SS` rendering of a second count.
pub open spec fn clock_text(total: int) -> Seq<char> {
    two_digits(total / 60) + seq![':'] + two_digits(total % 60)
}

impl Pomodoro {
    /// Start a countdown of so many minutes at the given moment.
    pub fn new(duration_mins: u64, now_secs: u64) -> (p: Pomodoro)
        requires
            duration_mins <= u64::MAX / 60,
        ensures
            p.start_secs == now_secs,
            p.duration_secs == duration_mins * 60,
            !p.is_break,
    {
        Pomodoro { start_secs: now_secs, duration_secs: duration_mins * 60, is_break: false }
    }

    /// Seconds run since the start, at the given clock reading.
    pub fn elapsed_secs(&self, now_secs: u64) -> (r: u64)
        ensures
            r == elapsed_of(*self, now_secs),
    {
        if now_secs >= self.start_secs {
            now_secs - self.start_secs
        } else {
            0
        }
    }

    /// Seconds left of the duration, at the given clock reading.
    pub fn remaining_secs(&self, now_secs: u64) -> (r: u64)
        ensures
            r == remaining_of(*self, now_secs),
    {
        let e = self.elapsed_secs(now_secs);
        if e >= self.duration_secs {
            0
        } else {
            self.duration_secs - e
        }
    }

    /// Has the whole duration run?
    pub fn is_complete(&self, now_secs: u64) -> (r: bool)
        ensures
            r == (elapsed_of(*self, now_secs) >= self.duration_secs),
    {
        self.elapsed_secs(now_secs) >= self.duration_secs
    }

    /// The remaining time as `MM:SS` (the minute field grows past two digits
    /// for long countdowns).
    pub fn format_remaining(&self, now_secs: u64) -> (r: String)
        ensures
            r@ == clock_text(remaining_of(*self, now_secs)),
    {
        let remaining = self.remaining_secs(now_secs);
        let mins = remaining / 60;
        let secs = remaining % 60;
        let mut out: Vec<char> = Vec::new();
        push_two_digits(&mut out, mins);
        push_str_chars(&mut out, ":");
        push_two_digits(&mut out, secs);
        proof {
            reveal_strlit(":");
            assert(":"@ =~= seq![':']);
            assert(out@ =~= clock_text(remaining_of(*self, now_secs)));
        }
        chars_to_string(&out)
    }
}

fn push_two_digits(out: &mut Vec<char>, n: u64)
    ensures
        final(out)@ == old(out)@ + two_digits(n as int),
{
    if n < 10 {
        push_str_chars(out, "0");
        let d = u64_dec_chars(n);
        out.extend_from_slice(d.as_slice());
        proof {
            reveal_strlit("0");
            assert(final(out)@ =~= old(out)@ + two_digits(n as int));
        }
    } else {
        let d = u64_dec_chars(n);
        out.extend_from_slice(d.as_slice());
    }
}

/// The zen screen's state: the countdown and the ambient message. The
/// floating decoration around it is a renderer concern, not state.
pub struct ZenState {
    pub pomodoro: Option<Pomodoro>,
    pub tick: u64,
    pub message: String,
}

/// A counter stepped with wrap-around.
pub open spec fn wrapping_inc(n: u64) -> u64 {
    if n == u64::MAX {
        0
    } else {
        (n + 1) as u64
    }
}

impl ZenState {
    /// Enter zen: a fresh countdown and the resting message.
    pub fn new(duration_mins: u64, now_secs: u64) -> (z: ZenState)
        requires
            duration_mins <= u64::MAX / 60,
        ensures
            z.pomodoro matches Some(p) && p.start_secs == now_secs && p.duration_secs
                == duration_mins * 60 && !p.is_break,
            z.tick == 0,
            z.message@ == "Focus on what matters"@,
    {
        ZenState {
            pomodoro: Some(Pomodoro::new(duration_mins, now_secs)),
            tick: 0,
            message: String::from_str("Focus on what matters"),
        }
    }

    /// One animation tick: step the counter; when the countdown has run out
    /// (and it is no break), switch to the break message.
    pub fn update(&mut self, now_secs: u64)
        ensures
            final(self).tick == wrapping_inc(old(self).tick),
            final(self).pomodoro == old(self).pomodoro,
            ({
                let done = old(self).pomodoro matches Some(p) && elapsed_of(p, now_secs)
                    >= p.duration_secs && !p.is_break;
                if done {
                    final(self).message@ == "Time for a break! \u{1f375}"@
                } else {
                    final(self).message == old(self).message
                }
            }),
    {
        self.tick = if self.tick == u64::MAX {
            0
        } else {
            self.tick + 1
        };
        let done = match &self.pomodoro {
            Some(p) => p.is_complete(now_secs) && !p.is_break,
            None => false,
        };
        if done {
            self.message = String::from_str("Time for a break! \u{1f375}");
        }
    }
}

} // verus!
