use vstd::prelude::*;

use crate::text::{decimal, push_decimal, string_from_chars};

verus! {

/// Nanoseconds in a second.
pub const NANOS_PER_SEC: u128 = 1_000_000_000;

/// The length of a pomodoro in seconds; the animation runs over it.
pub const POMODORO_SECS: u64 = 1500;

/// The state of the pomodoro service: when the running timer ends (seconds
/// since the epoch), how long a paused one has left (seconds), and whether it
/// runs.
#[derive(Clone, Copy, Debug, PartialEq, Eq, Structural)]
pub struct Timer {
    pub end: Option<u64>,
    pub remaining: Option<u64>,
    pub active: bool,
}

/// Whole seconds left at the instant `now_secs` s + `now_nanos` ns since the
/// epoch: for a running timer the time until its end (none once it has
/// passed), for a paused one what it has left (none when it does not say).
pub open spec fn remaining_secs(t: Timer, now_secs: u64, now_nanos: u32) -> nat {
    if t.active {
        match t.end {
            Some(e) => {
                let end_ns = e * NANOS_PER_SEC;
                let now_ns = now_secs * NANOS_PER_SEC + now_nanos;
                if end_ns >= now_ns {
                    ((end_ns - now_ns) / (NANOS_PER_SEC as int)) as nat
                } else {
                    0
                }
            },
            None => 0,
        }
    } else {
        match t.remaining {
            Some(r) => r as nat,
            None => 0,
        }
    }
}

impl Timer {
    /// Whole seconds left at the given instant.
    pub fn remaining(&self, now_secs: u64, now_nanos: u32) -> (r: u64)
        requires
            now_nanos < NANOS_PER_SEC,
        ensures
            r == remaining_secs(*self, now_secs, now_nanos),
    {
        if self.active {
            match self.end {
                Some(e) => {
                    let end_ns = (e as u128) * NANOS_PER_SEC;
                    let now_ns = (now_secs as u128) * NANOS_PER_SEC + (now_nanos as u128);
                    if end_ns >= now_ns {
                        let q = (end_ns - now_ns) / NANOS_PER_SEC;
                        assert(q <= e) by (nonlinear_arith)
                            requires
                                q == (end_ns - now_ns) / (NANOS_PER_SEC as int),
                                end_ns == e * NANOS_PER_SEC,
                                end_ns >= now_ns,
                                now_ns >= 0,
                        ;
                        q as u64
                    } else {
                        0
                    }
                },
                None => 0,
            }
        } else {
            match self.remaining {
                Some(r) => r,
                None => 0,
            }
        }
    }
}

/// The animation frame reached with `remaining` seconds left out of a
/// pomodoro, with `frames` frames in all.
pub open spec fn frame_at(frames: nat, remaining: nat) -> int {
    frames - (frames * remaining) / (POMODORO_SECS as nat)
}

/// A running countdown: the seconds left, the animation frame shown and the
/// number of frames.
#[derive(Clone, Copy, Debug, PartialEq, Eq, Structural)]
pub struct Countdown {
    pub remaining: u64,
    pub frame: u64,
    pub frames: u64,
}

/// What to do after a second has passed.
#[derive(Clone, Copy, Debug, PartialEq, Eq, Structural)]
pub enum Tick {
    /// The countdown goes on; the label shows the new time, and the picture
    /// is redrawn when the frame changed.
    Continue { redraw: bool },
    /// The countdown has reached zero and stops.
    Finished,
}

impl Countdown {
    /// The countdown well-formed: its frame is the one for its time.
    pub open spec fn wf(self) -> bool {
        &&& self.remaining <= POMODORO_SECS
        &&& self.frames * POMODORO_SECS <= u64::MAX
        &&& self.frame == frame_at(self.frames as nat, self.remaining as nat)
    }

    /// Starts a countdown with `remaining` seconds left (at most a pomodoro;
    /// beyond it the frame would fall below zero).
    pub fn start(remaining: u64, frames: u64) -> (r: Self)
        requires
            remaining <= POMODORO_SECS,
            frames * POMODORO_SECS <= u64::MAX,
        ensures
            r.wf(),
            r.remaining == remaining,
            r.frames == frames,
    {
        proof {
            assert(frames * remaining <= frames * POMODORO_SECS) by (nonlinear_arith)
                requires
                    remaining <= POMODORO_SECS,
            ;
            assert((frames * remaining) / (POMODORO_SECS as int) <= frames) by (nonlinear_arith)
                requires
                    remaining <= POMODORO_SECS,
            ;
        }
        let frame = frames - frames * remaining / POMODORO_SECS;
        Countdown { remaining, frame, frames }
    }

    /// One second passes: the time goes down by one and the frame follows it;
    /// at zero the countdown finishes and nothing changes.
    pub fn tick(&mut self) -> (r: Tick)
        requires
            old(self).wf(),
        ensures
            final(self).wf(),
            final(self).frames == old(self).frames,
            old(self).remaining == 0 ==> r is Finished && *final(self) == *old(self),
            old(self).remaining > 0 ==> {
                &&& final(self).remaining == old(self).remaining - 1
                &&& r == (Tick::Continue { redraw: final(self).frame != old(self).frame })
            },
    {
        if self.remaining == 0 {
            return Tick::Finished;
        }
        self.remaining = self.remaining - 1;
        let rem = self.remaining;
        let frames = self.frames;
        proof {
            assert(frames * rem <= frames * POMODORO_SECS) by (nonlinear_arith)
                requires
                    rem <= POMODORO_SECS,
            ;
            assert((frames * rem) / (POMODORO_SECS as int) <= frames) by (nonlinear_arith)
                requires
                    rem <= POMODORO_SECS,
            ;
        }
        let new_frame = frames - frames * rem / POMODORO_SECS;
        let redraw = self.frame != new_frame;
        if redraw {
            self.frame = new_frame;
        }
        Tick::Continue { redraw }
    }
}

/// A well-formed countdown that has run out shows the last frame.
pub proof fn lemma_countdown_ends_on_last_frame(c: Countdown)
    requires
        c.wf(),
        c.remaining == 0,
    ensures
        c.frame == c.frames,
{
}

/// The frame never goes back as time runs down.
pub proof fn lemma_frame_monotone(frames: nat, a: nat, b: nat)
    requires
        a <= b,
        b <= POMODORO_SECS,
    ensures
        frame_at(frames, b) <= frame_at(frames, a),
{
    assert(frames * a <= frames * b) by (nonlinear_arith)
        requires
            a <= b,
    ;
    assert((frames * a) / (POMODORO_SECS as nat) <= (frames * b) / (POMODORO_SECS as nat)) by (nonlinear_arith)
        requires
            frames * a <= frames * b,
    ;
}

/// The index of the picture shown for `frame`: the one before it, or the
/// first.
pub open spec fn picture_index(frame: nat) -> nat {
    if frame >= 1 {
        (frame - 1) as nat
    } else {
        frame
    }
}

pub fn frame_picture(frame: u64) -> (r: u64)
    ensures
        r == picture_index(frame as nat),
{
    if frame >= 1 {
        frame - 1
    } else {
        frame
    }
}

/// `d`'s decimal digits, with a zero put in front of a single one.
pub open spec fn two_digits(d: nat) -> Seq<char> {
    if d < 10 {
        seq!['0'] + decimal(d)
    } else {
        decimal(d)
    }
}

/// The time left as minutes and seconds, `MM:SS`.
pub open spec fn clock_label_spec(secs: nat) -> Seq<char> {
    two_digits(secs / 60) + seq![':'] + two_digits(secs % 60)
}

fn push_two_digits(out: &mut Vec<char>, d: u64)
    ensures
        final(out)@ == old(out)@ + two_digits(d as nat),
{
    if d < 10 {
        out.push('0');
    }
    push_decimal(out, d);
}

/// Formats the time left for the timer's label.
pub fn clock_label(secs: u64) -> (r: String)
    ensures
        r@ == clock_label_spec(secs as nat),
{
    let mut out: Vec<char> = Vec::new();
    push_two_digits(&mut out, secs / 60);
    out.push(':');
    push_two_digits(&mut out, secs % 60);
    string_from_chars(out.as_slice())
}

} // verus!
