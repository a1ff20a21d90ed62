//! The render engine: at every tick it works out, from the lighting state and
//! the time, the colour of every LED of the strip.
//!
//! The engine keeps the frame that the driver is to show. Writing the frame to
//! the hardware is left to the caller, whom `update` tells when to do so.

use crate::pixel::{hsv_rgb, lemma_hsv_hue_periodic, packed, Pixel, FULL_TURN};
use crate::state::{Mode, StateStruct};
use vstd::prelude::*;

verus! {

/// The hue, in thousandths of a degree, by which one LED of the colour wheel
/// differs from the next: 150 LEDs make one full turn.
pub const WHEEL_STEP: i64 = 2400;

/// How many LEDs of the colour wheel make one full turn.
pub const WHEEL_LEDS: usize = 150;

/// The hue, in thousandths of a degree, through which the colour wheel turns
/// in one cycle: forty full turns.
pub const WHEEL_TRAVEL: u64 = 14_400_000;

/// How far a cycle of the animation has gone: the fraction `num / den`, that
/// is the time since the cycle began over the length of a cycle.
#[derive(Clone, Copy, Debug)]
pub struct Progress {
    pub num: u64,
    pub den: u64,
}

impl Progress {
    /// A fraction from 0 up to, but not reaching, 1.
    pub open spec fn wf(self) -> bool {
        self.num < self.den
    }

    /// The beginning of a cycle.
    pub open spec fn zero() -> Progress {
        Progress { num: 0, den: 1 }
    }

    /// Whether this fraction is at most `other`.
    pub open spec fn at_most(self, other: Progress) -> bool {
        self.num * other.den <= other.num * self.den
    }

    /// Whether this fraction is one half or more.
    pub open spec fn half_or_more(self) -> bool {
        2 * self.num >= self.den
    }

    /// This fraction of `x`, parts of a unit dropped.
    pub open spec fn of(self, x: int) -> int {
        (x * self.num) / (self.den as int)
    }

    /// What is left of `x` when this fraction of it is taken away, parts of a
    /// unit dropped.
    pub open spec fn rest_of(self, x: int) -> int {
        (x * (self.den - self.num)) / (self.den as int)
    }

    /// What is left of `x` when half of this fraction of it is taken away,
    /// parts of a unit dropped.
    pub open spec fn rest_of_half(self, x: int) -> int {
        (x * (2 * self.den - self.num)) / (2 * self.den)
    }

    /// The progress of a cycle of `interval` milliseconds after `elapsed`
    /// milliseconds: cycles that are over do not count.
    pub open spec fn after(elapsed: int, interval: int) -> Progress {
        Progress { num: (elapsed % interval) as u64, den: interval as u64 }
    }

    /// The progress of a cycle of `interval` milliseconds after `elapsed` milliseconds.
    pub fn new(elapsed: u64, interval: u64) -> (p: Progress)
        requires
            interval > 0,
        ensures
            p == Progress::after(elapsed as int, interval as int),
            p.wf(),
    {
        Progress { num: elapsed % interval, den: interval }
    }

    /// Whether this fraction is at most `other`.
    pub fn le(&self, other: &Progress) -> (b: bool)
        ensures
            b == self.at_most(*other),
    {
        assert(self.num * other.den <= u64::MAX * u64::MAX) by (nonlinear_arith)
            requires
                0 <= self.num <= u64::MAX,
                0 <= other.den <= u64::MAX,
        ;
        assert(other.num * self.den <= u64::MAX * u64::MAX) by (nonlinear_arith)
            requires
                0 <= other.num <= u64::MAX,
                0 <= self.den <= u64::MAX,
        ;
        (self.num as u128) * (other.den as u128) <= (other.num as u128) * (self.den as u128)
    }

    /// Whether this fraction is one half or more.
    pub fn past_half(&self) -> (b: bool)
        ensures
            b == self.half_or_more(),
    {
        2 * (self.num as u128) >= self.den as u128
    }

    /// This fraction of `x`, parts of a unit dropped.
    pub fn scale(&self, x: u64) -> (r: u64)
        requires
            self.wf(),
        ensures
            r == self.of(x as int),
            r <= x,
    {
        proof {
            lemma_part_bound(
                x as int,
                self.num as int,
                self.den as int,
                u64::MAX as int,
                u64::MAX as int,
            );
        }
        (((x as u128) * (self.num as u128)) / (self.den as u128)) as u64
    }

    /// What is left of `x` when this fraction of it is taken away.
    pub fn rest(&self, x: u64) -> (r: u64)
        requires
            self.wf(),
        ensures
            r == self.rest_of(x as int),
            r <= x,
    {
        proof {
            lemma_part_bound(
                x as int,
                self.den - self.num,
                self.den as int,
                u64::MAX as int,
                u64::MAX as int,
            );
        }
        (((x as u128) * ((self.den - self.num) as u128)) / (self.den as u128)) as u64
    }

    /// What is left of `x` when half of this fraction of it is taken away.
    pub fn rest_half(&self, x: u32) -> (r: u32)
        requires
            self.wf(),
        ensures
            r == self.rest_of_half(x as int),
            r <= x,
    {
        proof {
            lemma_part_bound(
                x as int,
                2 * self.den - self.num,
                2 * self.den,
                u32::MAX as int,
                2 * u64::MAX,
            );
        }
        (((x as u128) * (2 * (self.den as u128) - (self.num as u128))) / (2 * (self.den as u128)))
            as u32
    }
}

/// A part `n / d` of `x`, with `n` at most `d`, is at most `x`, and the
/// product from which it is taken fits in 128 bits where `x` is below `x_max`
/// and `d` below `d_max`.
proof fn lemma_part_bound(x: int, n: int, d: int, x_max: int, d_max: int)
    requires
        0 <= x <= x_max,
        0 <= n <= d,
        0 < d <= d_max,
        x_max * d_max <= u128::MAX,
    ensures
        0 <= x * n <= u128::MAX,
        0 <= (x * n) / d <= x,
{
    assert(0 <= x * n <= x * d && x * d == d * x) by (nonlinear_arith)
        requires
            0 <= x,
            0 <= n <= d,
    ;
    assert(x * d <= x_max * d_max) by (nonlinear_arith)
        requires
            0 <= x <= x_max,
            0 < d <= d_max,
    ;
    vstd::arithmetic::div_mod::lemma_div_is_ordered(x * n, d * x, d);
    vstd::arithmetic::div_mod::lemma_div_multiples_vanish(x, d);
    vstd::arithmetic::div_mod::lemma_div_pos_is_pos(x * n, d);
}

/// The milliseconds from the start of the state's mode to `now`; none if
/// `now` lies before the start.
pub open spec fn elapsed(state: StateStruct, now: u64) -> int {
    if now >= state.start {
        now - state.start
    } else {
        0
    }
}

/// How far the state's cycle has gone at the time `now`.
pub open spec fn progress_at(state: StateStruct, now: u64) -> Progress {
    Progress::after(elapsed(state, now), state.interval as int)
}

/// The hue of LED `i` of the colour wheel at the progress `p`: each LED lies
/// `WHEEL_STEP` beyond the one before, and the wheel turns by `WHEEL_TRAVEL`
/// in one cycle.
pub open spec fn wheel_hue(i: int, p: Progress) -> int {
    WHEEL_STEP * i + p.of(WHEEL_TRAVEL as int)
}

/// The index of the LED that the state's hue points at: its whole degrees.
pub open spec fn identified(state: StateStruct) -> int {
    state.hue as int / 1000
}

/// Red, green and blue of LED `i` in the state `state` at the progress `p`.
pub open spec fn led_rgb(state: StateStruct, p: Progress, i: int) -> (int, int, int) {
    let hue = state.hue as int;
    let sat = state.sat as int;
    let val = state.val as int;
    match state.mode {
        Mode::Off => Pixel::OFF.rgb(),
        Mode::Static => hsv_rgb(hue, sat, val),
        Mode::Rainbow => hsv_rgb(wheel_hue(i, p), sat, val),
        Mode::Sleep => hsv_rgb(wheel_hue(i, p), p.rest_of_half(sat), p.rest_of(val)),
        Mode::Alarm => if p.half_or_more() {
            Pixel::RED.rgb()
        } else {
            Pixel::OFF.rgb()
        },
        Mode::ColorChase => hsv_rgb(p.of(FULL_TURN as int), sat, val),
        Mode::Strobe => if p.half_or_more() {
            Pixel::WHITE.rgb()
        } else {
            Pixel::OFF.rgb()
        },
        Mode::Identify => if i == identified(state) {
            Pixel::RED.rgb()
        } else {
            Pixel::WHITE.rgb()
        },
    }
}

/// The four bytes of LED `i` in the state `state` at the progress `p`.
pub open spec fn led_raw(state: StateStruct, p: Progress, i: int) -> Seq<u8> {
    let (r, g, b) = led_rgb(state, p, i);
    packed(r, g, b)
}

/// Whether a cycle has come to its end between two ticks: the progress has not
/// risen beyond that of the tick before, which itself lay past the beginning.
pub open spec fn cycle_complete(p: Progress, previous: Progress) -> bool {
    p.at_most(previous) && previous.num > 0
}

/// The mode after a tick: sleep ends in `Off` when its cycle is complete, every
/// other mode stays.
pub open spec fn mode_after_tick(mode: Mode, p: Progress, previous: Progress) -> Mode {
    if mode == Mode::Sleep && cycle_complete(p, previous) {
        Mode::Off
    } else {
        mode
    }
}

/// The progress that the engine remembers after a tick: in sleep the present
/// one, or the beginning once the cycle is complete; in every other mode what
/// it remembered before. Only a completed cycle clears it: a sleep that a
/// change of mode cut short leaves its last progress remembered, and the
/// first tick of the next sleep is held against that.
pub open spec fn memory_after_tick(mode: Mode, p: Progress, previous: Progress) -> Progress {
    if mode != Mode::Sleep {
        previous
    } else if cycle_complete(p, previous) {
        Progress::zero()
    } else {
        p
    }
}

/// The frame is to be written to the strip: a redraw is pending, or the mode
/// redraws at every tick.
pub open spec fn must_flush(state: StateStruct) -> bool {
    state.render || state.mode.animates()
}

/// The state after a tick: the mode is that of `mode_after_tick`, a redraw is
/// pending exactly when the frame of this tick is to be written to the strip,
/// and the rest stays. The redraw stays pending until `flushed` is told that
/// the frame was written.
pub open spec fn state_after_tick(state: StateStruct, p: Progress, previous: Progress)
    -> StateStruct {
    StateStruct {
        mode: mode_after_tick(state.mode, p, previous),
        render: must_flush(state),
        ..state
    }
}

/// The state after the caller has tried to write a frame to the strip: a
/// write that went through leaves no redraw pending, a write that failed
/// leaves the state as it was, so that the frame is written again at the
/// next tick.
pub open spec fn after_flush(state: StateStruct, written: bool) -> StateStruct {
    StateStruct { render: state.render && !written, ..state }
}

/// The strip could not be driven.
#[derive(Clone, Copy, Debug)]
pub struct ControllerError;

impl ControllerError {
    /// What this error says.
    pub fn message(&self) -> (s: &'static str)
        ensures
            s@ == "Controller error: unable to process"@,
    {
        "Controller error: unable to process"
    }
}

/// Takes the outcome of writing a frame to the strip. After a write that went
/// through no redraw is pending. After one that failed the state stays as it
/// is, with the redraw still pending, and the failure is returned: the next
/// tick asks for the frame to be written again.
pub fn flushed(state: &mut StateStruct, written: bool) -> (r: Result<(), ControllerError>)
    ensures
        *final(state) == after_flush(*old(state), written),
        r is Ok <==> written,
{
    if written {
        state.render = false;
        Ok(())
    } else {
        Err(ControllerError)
    }
}

/// The engine: the frame, four bytes for every LED of the strip, and the
/// progress of the tick before, by which the end of a sleep cycle is found.
#[derive(Debug)]
pub struct Data {
    pub leds: Vec<[u8; 4]>,
    pub progress_old: Progress,
}

/// An engine for a strip of `count` LEDs, all of them off.
pub fn init(count: usize) -> (data: Data)
    ensures
        data.leds@.len() == count,
        forall|i: int| 0 <= i < count ==> (#[trigger] data.leds@[i])@ == Pixel::OFF.raw(),
        data.progress_old == Progress::zero(),
        data.wf(),
{
    let off: [u8; 4] = Pixel::OFF.to_u8();
    let mut leds: Vec<[u8; 4]> = Vec::new();
    let mut i: usize = 0;
    while i < count
        invariant
            i <= count,
            leds@.len() == i,
            forall|j: int| 0 <= j < i ==> #[trigger] leds@[j] == off,
        decreases count - i,
    {
        leds.push(off);
        i = i + 1;
    }
    Data { leds, progress_old: Progress { num: 0, den: 1 } }
}

impl Data {
    /// The remembered progress is a fraction below 1.
    pub open spec fn wf(self) -> bool {
        self.progress_old.wf()
    }

    /// Gives every LED the colour `raw`.
    fn fill(&mut self, raw: [u8; 4])
        ensures
            final(self).leds@.len() == old(self).leds@.len(),
            forall|i: int| 0 <= i < final(self).leds@.len() ==> #[trigger] final(self).leds@[i] == raw,
            final(self).progress_old == old(self).progress_old,
    {
        let n: usize = self.leds.len();
        let mut i: usize = 0;
        while i < n
            invariant
                i <= n,
                self.leds@.len() == n,
                self.progress_old == old(self).progress_old,
                forall|j: int| 0 <= j < i ==> #[trigger] self.leds@[j] == raw,
            decreases n - i,
        {
            self.leds.set(i, raw);
            i = i + 1;
        }
    }

    /// Gives every LED its colour of the wheel at the progress `p`, with the
    /// saturation `sat` and the value `val`.
    fn paint_wheel(&mut self, p: Progress, sat: u32, val: u32)
        requires
            p.wf(),
        ensures
            final(self).leds@.len() == old(self).leds@.len(),
            forall|i: int|
                0 <= i < final(self).leds@.len() ==> (#[trigger] final(self).leds@[i])@ == ({
                    let (r, g, b) = hsv_rgb(wheel_hue(i, p), sat as int, val as int);
                    packed(r, g, b)
                }),
            final(self).progress_old == old(self).progress_old,
    {
        let turned: u64 = p.scale(WHEEL_TRAVEL);
        let n: usize = self.leds.len();
        let mut i: usize = 0;
        while i < n
            invariant
                i <= n,
                self.leds@.len() == n,
                self.progress_old == old(self).progress_old,
                turned == p.of(WHEEL_TRAVEL as int),
                turned <= WHEEL_TRAVEL,
                forall|j: int|
                    0 <= j < i ==> (#[trigger] self.leds@[j])@ == ({
                        let (r, g, b) = hsv_rgb(wheel_hue(j, p), sat as int, val as int);
                        packed(r, g, b)
                    }),
            decreases n - i,
        {
            let place: usize = i % WHEEL_LEDS;
            let hue: i64 = WHEEL_STEP * (place as i64) + (turned as i64);
            proof {
                let turns: int = (i / WHEEL_LEDS) as int;
                assert(wheel_hue(i as int, p) == hue + turns * FULL_TURN);
                lemma_hsv_hue_periodic(hue as int, sat as int, val as int, turns);
            }
            let raw: [u8; 4] = (Pixel::HSV { h: hue, s: sat as i64, v: val as i64 }).to_u8();
            self.leds.set(i, raw);
            i = i + 1;
        }
    }

    /// Makes the LED at `index` red and every other LED white.
    fn paint_identify(&mut self, index: u32)
        ensures
            final(self).leds@.len() == old(self).leds@.len(),
            forall|i: int|
                0 <= i < final(self).leds@.len() ==> (#[trigger] final(self).leds@[i])@ == (if i
                    == index {
                    Pixel::RED.raw()
                } else {
                    Pixel::WHITE.raw()
                }),
            final(self).progress_old == old(self).progress_old,
    {
        let id_pixel: [u8; 4] = Pixel::RED.to_u8();
        let other_pixel: [u8; 4] = Pixel::WHITE.to_u8();
        let n: usize = self.leds.len();
        let mut i: usize = 0;
        while i < n
            invariant
                i <= n,
                self.leds@.len() == n,
                self.progress_old == old(self).progress_old,
                id_pixel@ == Pixel::RED.raw(),
                other_pixel@ == Pixel::WHITE.raw(),
                forall|j: int|
                    0 <= j < i ==> (#[trigger] self.leds@[j])@ == (if j == index {
                        Pixel::RED.raw()
                    } else {
                        Pixel::WHITE.raw()
                    }),
            decreases n - i,
        {
            let raw: [u8; 4] = if i as u64 == index as u64 {
                id_pixel
            } else {
                other_pixel
            };
            self.leds.set(i, raw);
            i = i + 1;
        }
    }

    /// One tick at the time `now`: gives every LED the colour that the state's
    /// mode asks for at this point of its cycle, and ends a sleep whose cycle
    /// is complete. Returns whether the frame is to be written to the strip:
    /// when a redraw was pending, and at every tick of a mode that animates.
    /// In that case the redraw is pending afterwards, and the caller writes
    /// the frame and hands the outcome to `flushed`.
    pub fn update(&mut self, state: &mut StateStruct, now: u64) -> (flush: bool)
        requires
            old(state).interval > 0,
        ensures
            final(self).leds@.len() == old(self).leds@.len(),
            forall|i: int|
                0 <= i < final(self).leds@.len() ==> (#[trigger] final(self).leds@[i])@ == led_raw(
                    *old(state),
                    progress_at(*old(state), now),
                    i,
                ),
            final(self).progress_old == memory_after_tick(
                old(state).mode,
                progress_at(*old(state), now),
                old(self).progress_old,
            ),
            *final(state) == state_after_tick(
                *old(state),
                progress_at(*old(state), now),
                old(self).progress_old,
            ),
            flush == must_flush(*old(state)),
            final(state).render == flush,
            old(self).wf() ==> final(self).wf(),
    {
        let delta_time: u64 = if now >= state.start {
            now - state.start
        } else {
            0
        };
        let progress: Progress = Progress::new(delta_time, state.interval);
        let hue: u32 = state.hue;
        let sat: u32 = state.sat;
        let val: u32 = state.val;
        match state.mode {
            Mode::Off => {
                self.fill(Pixel::OFF.to_u8());
            },
            Mode::Static => {
                self.fill((Pixel::HSV { h: hue as i64, s: sat as i64, v: val as i64 }).to_u8());
            },
            Mode::Rainbow => {
                self.paint_wheel(progress, sat, val);
                state.render = true;
            },
            Mode::Sleep => {
                if progress.le(&self.progress_old) && self.progress_old.num > 0 {
                    state.mode = Mode::Off;
                    self.progress_old = Progress { num: 0, den: 1 };
                } else {
                    self.progress_old = progress;
                }
                let sleep_sat: u32 = progress.rest_half(sat);
                let sleep_val: u32 = progress.rest(val as u64) as u32;
                self.paint_wheel(progress, sleep_sat, sleep_val);
                state.render = true;
            },
            Mode::Alarm => {
                let pixel_u8: [u8; 4] = if progress.past_half() {
                    Pixel::RED.to_u8()
                } else {
                    Pixel::OFF.to_u8()
                };
                self.fill(pixel_u8);
                state.render = true;
            },
            Mode::ColorChase => {
                let chase_hue: u64 = progress.scale(FULL_TURN as u64);
                self.fill(
                    (Pixel::HSV { h: chase_hue as i64, s: sat as i64, v: val as i64 }).to_u8(),
                );
                state.render = true;
            },
            Mode::Strobe => {
                let pixel_u8: [u8; 4] = if progress.past_half() {
                    Pixel::WHITE.to_u8()
                } else {
                    Pixel::OFF.to_u8()
                };
                self.fill(pixel_u8);
                state.render = true;
            },
            Mode::Identify => {
                self.paint_identify(hue / 1000);
            },
        }
        state.render
    }

    /// Turns every LED off. The caller writes the frame to the strip whatever
    /// the state says.
    pub fn off(&mut self)
        ensures
            final(self).leds@.len() == old(self).leds@.len(),
            forall|i: int|
                0 <= i < final(self).leds@.len() ==> (#[trigger] final(self).leds@[i])@
                    == Pixel::OFF.raw(),
            final(self).progress_old == old(self).progress_old,
    {
        self.fill(Pixel::OFF.to_u8());
    }
}

/// The colour wheel repeats along the strip: in the rainbow and in the sleep,
/// two LEDs that lie `WHEEL_LEDS` apart have the same colour.
pub proof fn lemma_wheel_repeats(state: StateStruct, p: Progress, i: int)
    requires
        state.mode == Mode::Rainbow || state.mode == Mode::Sleep,
    ensures
        led_raw(state, p, i + WHEEL_LEDS) == led_raw(state, p, i),
{
    assert(wheel_hue(i + WHEEL_LEDS, p) == wheel_hue(i, p) + 1 * FULL_TURN);
    let sat = state.sat as int;
    let val = state.val as int;
    lemma_hsv_hue_periodic(wheel_hue(i, p), sat, val, 1);
    lemma_hsv_hue_periodic(wheel_hue(i, p), p.rest_of_half(sat), p.rest_of(val), 1);
}

/// The animation repeats in time: whole cycles later the progress is the same,
/// and with it the colour of every LED.
pub proof fn lemma_cycle_repeats(state: StateStruct, now: u64, later: u64, cycles: int, i: int)
    requires
        state.interval > 0,
        state.start <= now,
        cycles >= 0,
        later == now + cycles * state.interval,
    ensures
        progress_at(state, later) == progress_at(state, now),
        led_raw(state, progress_at(state, later), i) == led_raw(state, progress_at(state, now), i),
{
    assert(cycles * state.interval >= 0) by (nonlinear_arith)
        requires
            cycles >= 0,
            state.interval > 0,
    ;
    assert(cycles * state.interval == state.interval * cycles) by (nonlinear_arith);
    vstd::arithmetic::div_mod::lemma_mod_multiples_vanish(
        cycles,
        elapsed(state, now),
        state.interval as int,
    );
}

/// In the identifying mode the LED that the hue points at is red and every
/// other LED is white: on a strip of `len` LEDs exactly that one is red where
/// the hue points into the strip, and none is where it points beyond.
pub proof fn lemma_identify_one_red(state: StateStruct, p: Progress, len: int)
    requires
        state.mode == Mode::Identify,
    ensures
        Pixel::RED.raw() != Pixel::WHITE.raw(),
        0 <= identified(state),
        forall|i: int|
            0 <= i < len ==> (#[trigger] led_raw(state, p, i) == Pixel::RED.raw() <==> i
                == identified(state)),
        forall|i: int|
            0 <= i < len && i != identified(state) ==> #[trigger] led_raw(state, p, i)
                == Pixel::WHITE.raw(),
        identified(state) >= len ==> forall|i: int|
            0 <= i < len ==> #[trigger] led_raw(state, p, i) == Pixel::WHITE.raw(),
{
    assert(Pixel::RED.raw()[0] == 0u8);
    assert(Pixel::WHITE.raw()[0] == 255u8);
}

/// The mode and the remembered progress after a run of ticks, of which
/// `ticks` gives the progress of each in turn.
pub open spec fn after_ticks(mode: Mode, memory: Progress, ticks: Seq<Progress>) -> (Mode, Progress)
    decreases ticks.len(),
{
    if ticks.len() == 0 {
        (mode, memory)
    } else {
        let (m, mem) = after_ticks(mode, memory, ticks.drop_last());
        (mode_after_tick(m, ticks.last(), mem), memory_after_tick(m, ticks.last(), mem))
    }
}

/// Whether every tick of the run lies at a fraction below 1, and each lies
/// beyond the one before.
pub open spec fn rising(ticks: Seq<Progress>) -> bool {
    &&& forall|i: int| 0 <= i < ticks.len() ==> (#[trigger] ticks[i]).wf()
    &&& forall|i: int| 0 < i < ticks.len() ==> !(#[trigger] ticks[i]).at_most(ticks[i - 1])
}

/// A frame whose write failed is asked for again: after a tick at which a
/// flush was due, a failed write leaves the redraw pending, so that the next
/// tick asks for a flush in every mode. A write that went through leaves none
/// pending, and the next tick asks for a flush only in a mode that animates.
/// Neither outcome touches anything but the pending redraw.
pub proof fn lemma_failed_flush_is_retried(state: StateStruct, p: Progress, previous: Progress)
    requires
        must_flush(state),
    ensures
        ({
            let ticked = state_after_tick(state, p, previous);
            let failed = after_flush(ticked, false);
            let written = after_flush(ticked, true);
            &&& ticked.render
            &&& failed == ticked
            &&& must_flush(failed)
            &&& !written.render
            &&& written == (StateStruct { render: false, ..ticked })
            &&& must_flush(written) <==> written.mode.animates()
        }),
{
}

/// A tick at which no flush is due leaves no redraw pending.
pub proof fn lemma_idle_tick_stays_idle(state: StateStruct, p: Progress, previous: Progress)
    requires
        !must_flush(state),
    ensures
        state_after_tick(state, p, previous) == state,
        !must_flush(state_after_tick(state, p, previous)),
{
}

/// With nothing remembered, a tick of a sleep does not end it, wherever in the
/// cycle it falls: so the first tick of a sleep that follows `init` or a
/// completed sleep never ends it.
pub proof fn lemma_sleep_first_tick(p: Progress)
    ensures
        !cycle_complete(p, Progress::zero()),
        mode_after_tick(Mode::Sleep, p, Progress::zero()) == Mode::Sleep,
        memory_after_tick(Mode::Sleep, p, Progress::zero()) == p,
{
}

/// A tick of a sleep ends it exactly when the progress has not risen beyond
/// that of the tick before and that tick lay past the beginning. The engine
/// then remembers the beginning again.
pub proof fn lemma_sleep_tick(p: Progress, previous: Progress)
    ensures
        mode_after_tick(Mode::Sleep, p, previous) == Mode::Off <==> cycle_complete(p, previous),
        !cycle_complete(p, previous) ==> mode_after_tick(Mode::Sleep, p, previous) == Mode::Sleep
            && memory_after_tick(Mode::Sleep, p, previous) == p,
        cycle_complete(p, previous) ==> memory_after_tick(Mode::Sleep, p, previous)
            == Progress::zero(),
{
}

/// While the progress rises from tick to tick, a sleep that began with
/// nothing remembered goes on, and the engine remembers the last tick.
pub proof fn lemma_sleep_lasts_while_rising(ticks: Seq<Progress>)
    requires
        rising(ticks),
    ensures
        after_ticks(Mode::Sleep, Progress::zero(), ticks).0 == Mode::Sleep,
        after_ticks(Mode::Sleep, Progress::zero(), ticks).1 == (if ticks.len() == 0 {
            Progress::zero()
        } else {
            ticks.last()
        }),
    decreases ticks.len(),
{
    if ticks.len() > 0 {
        let before = ticks.drop_last();
        assert(rising(before)) by {
            assert forall|i: int| 0 <= i < before.len() implies (#[trigger] before[i]).wf() by {
                assert(ticks[i].wf());
            }
            assert forall|i: int| 0 < i < before.len() implies !(#[trigger] before[i]).at_most(
                before[i - 1],
            ) by {
                assert(!ticks[i].at_most(ticks[i - 1]));
            }
        }
        lemma_sleep_lasts_while_rising(before);
        if before.len() > 0 {
            let last = ticks.len() - 1;
            assert(before.last() == ticks[last - 1]);
            assert(!ticks[last].at_most(ticks[last - 1]));
        }
    }
}

/// Once the strip is off with nothing remembered, no tick changes that.
pub proof fn lemma_off_stays_off(ticks: Seq<Progress>)
    ensures
        after_ticks(Mode::Off, Progress::zero(), ticks) == (Mode::Off, Progress::zero()),
    decreases ticks.len(),
{
    if ticks.len() > 0 {
        lemma_off_stays_off(ticks.drop_last());
    }
}

/// A sleep ends once for a completed cycle. Through a run of ticks whose
/// progress rises, the last of them past the beginning, the mode stays
/// `Sleep`; the first tick that does not lie beyond the one before turns the
/// strip off; and whatever ticks follow, it stays off.
pub proof fn lemma_sleep_ends_once(ticks: Seq<Progress>, wrap: Progress, later: Seq<Progress>)
    requires
        rising(ticks),
        ticks.len() > 0,
        ticks.last().num > 0,
        wrap.at_most(ticks.last()),
    ensures
        after_ticks(Mode::Sleep, Progress::zero(), ticks).0 == Mode::Sleep,
        after_ticks(Mode::Sleep, Progress::zero(), ticks.push(wrap)) == (
            Mode::Off,
            Progress::zero(),
        ),
        after_ticks(Mode::Off, Progress::zero(), later) == (Mode::Off, Progress::zero()),
{
    lemma_sleep_lasts_while_rising(ticks);
    lemma_off_stays_off(later);
    let all = ticks.push(wrap);
    assert(all.drop_last() =~= ticks);
    assert(all.last() == wrap);
}

} // verus!
