//! The status LED: each mode has its own blink pattern, a cycle of (brightness, ticks) steps
//! played over and over; when playing, the LED breathes, and it lights fully while the panel
//! button is held.
//!
//! The breathing curve is computed elsewhere and handed in; the [`Led`] here picks the step for
//! each tick.
use vstd::prelude::*;
use crate::anglo_controller::mode::Mode;

verus! {

/// The duty cycle scale that brightness values are fractions of: a brightness of 1000 lights
/// the LED at half strength.
pub const DUTY_SCALE: u32 = 2000;

/// The blink pattern of a mode; `breath` is the breathing curve.
pub open spec fn pattern(mode: Mode, breath: Seq<(u32, u32)>) -> Seq<(u32, u32)> {
    match mode {
        Mode::Startup => seq![(1000u32, 4u32), (0u32, 8u32), (1000u32, 4u32), (0u32, 40u32)],
        Mode::KeyboardInit => seq![
            (1000u32, 4u32),
            (0u32, 8u32),
            (1000u32, 4u32),
            (0u32, 8u32),
            (1000u32, 4u32),
            (0u32, 40u32),
        ],
        Mode::WaitingForFirmware => seq![(1000u32, 8u32), (0u32, 12u32)],
        Mode::ReceivingFirmware => seq![(1000u32, 2u32), (0u32, 4u32)],
        Mode::Ready => breath,
    }
}

/// A pattern the LED can play: at least one step, and every step lasts at least a tick.
pub open spec fn playable(p: Seq<(u32, u32)>) -> bool {
    p.len() > 0 && forall|i: int| 0 <= i < p.len() ==> #[trigger] p[i].1 >= 1
}

/// Every mode's pattern can be played when the breathing curve can.
pub proof fn lemma_patterns_playable(mode: Mode, breath: Seq<(u32, u32)>)
    requires
        playable(breath),
    ensures
        playable(pattern(mode, breath)),
{
}

/// A pattern of steps, in order.
fn steps(s: &[(u32, u32)]) -> (r: Vec<(u32, u32)>)
    ensures
        r@ == s@,
{
    let mut r: Vec<(u32, u32)> = Vec::new();
    let mut i: usize = 0;
    while i < s.len()
        invariant
            i <= s@.len(),
            r@ == s@.subrange(0, i as int),
        decreases s.len() - i,
    {
        r.push(s[i]);
        assert(s@.subrange(0, i + 1) =~= s@.subrange(0, i as int).push(s@[i as int]));
        i += 1;
    }
    assert(s@.subrange(0, i as int) =~= s@);
    r
}

/// The pattern of a mode.
fn pattern_of(mode: Mode, breath: &Vec<(u32, u32)>) -> (r: Vec<(u32, u32)>)
    ensures
        r@ == pattern(mode, breath@),
{
    match mode {
        Mode::Startup => {
            let a = [(1000u32, 4u32), (0u32, 8u32), (1000u32, 4u32), (0u32, 40u32)];
            assert(a@ =~= pattern(mode, breath@));
            steps(&a)
        },
        Mode::KeyboardInit => {
            let a = [
                (1000u32, 4u32),
                (0u32, 8u32),
                (1000u32, 4u32),
                (0u32, 8u32),
                (1000u32, 4u32),
                (0u32, 40u32),
            ];
            assert(a@ =~= pattern(mode, breath@));
            steps(&a)
        },
        Mode::WaitingForFirmware => {
            let a = [(1000u32, 8u32), (0u32, 12u32)];
            assert(a@ =~= pattern(mode, breath@));
            steps(&a)
        },
        Mode::ReceivingFirmware => {
            let a = [(1000u32, 2u32), (0u32, 4u32)];
            assert(a@ =~= pattern(mode, breath@));
            steps(&a)
        },
        Mode::Ready => steps(breath.as_slice()),
    }
}

/// How the LED is driven for a tick.
#[derive(Debug, Clone, Copy, PartialEq, Eq)]
pub enum LedOutput {
    /// Fully on.
    FullOn,
    /// On for this many parts of [`DUTY_SCALE`].
    Fraction(u32),
}

/// What the LED holds: the mode it shows, the breathing curve, the pattern of the mode, the
/// step it plays, its brightness and the ticks left of it.
pub struct LedView {
    pub mode: Mode,
    pub breath: Seq<(u32, u32)>,
    pub step: int,
    pub brightness: u32,
    pub counter: u32,
}

/// What the LED does on a tick, given the mode now and whether the panel button is held. A new
/// mode restarts at its pattern's first step; a step is taken when the last one has run out.
pub open spec fn tick_spec(l: LedView, mode: Mode, button_held: bool) -> (LedView, LedOutput) {
    let (step, counter) = if l.mode != mode { (-1, 0u32) } else { (l.step, l.counter) };
    let p = pattern(mode, l.breath);
    let (step, brightness, counter) = if counter == 0 {
        let next = (step + 1) % (p.len() as int);
        (next, p[next].0, p[next].1)
    } else {
        (step, l.brightness, counter)
    };
    (
        LedView { mode, breath: l.breath, step, brightness, counter: (counter - 1) as u32 },
        if mode == Mode::Ready && button_held {
            LedOutput::FullOn
        } else {
            LedOutput::Fraction(brightness)
        },
    )
}

/// The status LED.
pub struct Led {
    mode: Mode,
    breath: Vec<(u32, u32)>,
    steps: Vec<(u32, u32)>,
    step: usize,
    brightness: u32,
    counter: u32,
}

impl Led {
    /// What the LED holds.
    pub closed spec fn view(&self) -> LedView {
        LedView {
            mode: self.mode,
            breath: self.breath@,
            step: if self.fresh() { -1 } else { self.step as int },
            brightness: self.brightness,
            counter: self.counter,
        }
    }

    /// Whether no step of the pattern has been played yet.
    closed spec fn fresh(&self) -> bool {
        self.steps@.len() == 0
    }

    /// What the LED keeps true: its pattern is its mode's, and it plays one of its steps.
    pub closed spec fn wf(&self) -> bool {
        &&& playable(self.breath@)
        &&& (self.fresh() || (self.steps@ == pattern(self.mode, self.breath@) && self.step < self.steps@.len()))
        &&& (self.fresh() ==> self.step == 0 && self.counter == 0)
    }

    /// An LED that shows `mode`, dark until its first tick, with the breathing curve `breath`.
    pub fn new(mode: Mode, breath: Vec<(u32, u32)>) -> (r: Self)
        requires
            playable(breath@),
        ensures
            r.wf(),
            r@ == (LedView { mode, breath: breath@, step: -1, brightness: 0, counter: 0 }),
    {
        Led { mode, breath, steps: Vec::new(), step: 0, brightness: 0, counter: 0 }
    }

    /// Plays a tick.
    pub fn tick(&mut self, mode: Mode, button_held: bool) -> (r: LedOutput)
        requires
            old(self).wf(),
        ensures
            final(self).wf(),
            (final(self)@, r) == tick_spec(old(self)@, mode, button_held),
    {
        proof {
            lemma_patterns_playable(mode, self.breath@);
        }
        if self.mode != mode || self.steps.len() == 0 {
            self.mode = mode;
            self.steps = pattern_of(mode, &self.breath);
            self.step = self.steps.len() - 1;
            self.counter = 0;
        }
        if self.counter == 0 {
            proof {
                let n = self.steps@.len() as int;
                let k = self.step + 1;
                assert(k % n == if k < n { k } else { 0 }) by (nonlinear_arith)
                    requires
                        0 < k <= n,
                ;
            }
            self.step = if self.step + 1 < self.steps.len() { self.step + 1 } else { 0 };
            let (brightness, count) = self.steps[self.step];
            assert(count >= 1);
            self.brightness = brightness;
            self.counter = count;
        }
        self.counter = self.counter - 1;
        if self.mode == Mode::Ready && button_held {
            LedOutput::FullOn
        } else {
            LedOutput::Fraction(self.brightness)
        }
    }
}

} // verus!
