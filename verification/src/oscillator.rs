//! An integer-phase controlled oscillator: the upstream producer of the
//! sample stream.
//!
//! The phase accumulator holds the oscillator angle as a 32-bit fixed-point
//! fraction of a full turn (one turn is `2^32` units), the classic
//! numerically controlled oscillator layout.  Each input control word adjusts
//! the accumulator according to the configured control kind, the phase before
//! the step is emitted, and the accumulator advances by the current angle
//! rate.  Turning a phase word into an amplitude is waveform synthesis and
//! lives outside this core.

use vstd::prelude::*;

verus! {

/// One full turn of phase, as an exclusive bound on the accumulator.
pub const TURN: u64 = 0x1_0000_0000;

/// Half a turn: the phase jump of a binary phase-shift keying transition.
pub const HALF_TURN: u32 = 0x8000_0000;

/// `a + b` modulo one turn.
pub open spec fn wrap_add(a: u32, b: u32) -> u32 {
    ((a + b) % (TURN as int)) as u32
}

/// The angle-rate word for a tone of `freq_hz` at `sample_rate_hz`:
/// `freq * 2^32 / rate`, truncated.
pub open spec fn spec_rate_word(freq_hz: u32, sample_rate_hz: u32) -> int {
    freq_hz * (TURN as int) / (sample_rate_hz as int)
}

/// The numerically controlled oscillator: a phase accumulator and the angle
/// it advances by on every sample.
#[derive(Clone, Copy, PartialEq, Eq, Structural, Debug)]
pub struct Nco {
    /// Current angle, in `2^-32` turns.
    pub phase: u32,
    /// Phase increment per sample, in `2^-32` turns.
    pub angle_rate: u32,
}

impl Nco {
    /// An oscillator at the given initial angle and angle rate.
    pub fn new(initial_phase: u32, angle_rate: u32) -> (r: Nco)
        ensures
            r.phase == initial_phase,
            r.angle_rate == angle_rate,
    {
        Nco { phase: initial_phase, angle_rate }
    }

    /// Advances the phase by one sample: the accumulator wraps modulo one
    /// turn.
    pub fn step(&mut self)
        ensures
            final(self).phase == wrap_add(old(self).phase, old(self).angle_rate),
            final(self).angle_rate == old(self).angle_rate,
    {
        self.phase = self.phase.wrapping_add(self.angle_rate);
    }

    /// Sets the per-sample phase increment directly.
    pub fn set_angle_rate(&mut self, angle_rate: u32)
        ensures
            final(self).phase == old(self).phase,
            final(self).angle_rate == angle_rate,
    {
        self.angle_rate = angle_rate;
    }

    /// Sets the angle rate so the oscillator completes `freq_hz` turns per
    /// `sample_rate_hz` samples.  The frequency must be below the sample
    /// rate for the rate word to fit one turn.
    pub fn set_frequency(&mut self, freq_hz: u32, sample_rate_hz: u32)
        requires
            0 < sample_rate_hz,
            freq_hz < sample_rate_hz,
        ensures
            final(self).phase == old(self).phase,
            final(self).angle_rate == spec_rate_word(freq_hz, sample_rate_hz),
    {
        let num = (freq_hz as u64) * TURN;
        assert(num == freq_hz * (TURN as int)) by (nonlinear_arith)
            requires
                num == (freq_hz as u64) * TURN,
        ;
        let word = num / (sample_rate_hz as u64);
        assert(word < TURN) by (nonlinear_arith)
            requires
                word == freq_hz * (TURN as int) / (sample_rate_hz as int),
                0 < sample_rate_hz,
                freq_hz < sample_rate_hz,
        ;
        self.angle_rate = word as u32;
    }

    /// Rotates the phase by `delta`, wrapping modulo one turn.
    pub fn adjust_phase(&mut self, delta: u32)
        ensures
            final(self).phase == wrap_add(old(self).phase, delta),
            final(self).angle_rate == old(self).angle_rate,
    {
        self.phase = self.phase.wrapping_add(delta);
    }
}

/// How the input control stream steers the oscillator.
#[derive(Clone, Copy, PartialEq, Eq, Structural, Debug)]
pub enum ControlKind {
    /// The control word is the per-sample angle increment (scaled by the
    /// sensitivity): a voltage-controlled oscillator on angle rate.
    VCO,
    /// The control word is a frequency in Hz (scaled by the sensitivity).
    VcoFreq,
    /// The control word is a symbol; a symbol change flips the phase by half
    /// a turn.
    BPSK,
    /// The control word leaves the angle untouched; amplitude keying happens
    /// downstream of the phase core.
    ASK,
}

/// The oscillator core driven by a control stream.
#[derive(Clone, Copy, PartialEq, Eq, Structural, Debug)]
pub struct ControlledOscillator {
    /// The phase accumulator.
    pub nco: Nco,
    /// How control words steer the accumulator.
    pub kind: ControlKind,
    /// Samples per second of the output stream.
    pub sample_rate_hz: u32,
    /// Multiplier applied to each control word before it steers the
    /// oscillator; mandatory for the two voltage-controlled kinds.
    pub sensitivity: Option<u32>,
    /// The previous symbol seen, for phase-shift keying.
    pub previous: Option<u32>,
}

/// An oscillator is usable when its sample rate is positive and the
/// voltage-controlled kinds have their mandatory sensitivity.
pub open spec fn osc_wf(osc: ControlledOscillator) -> bool {
    &&& 0 < osc.sample_rate_hz
    &&& (osc.kind is VCO || osc.kind is VcoFreq) ==> osc.sensitivity is Some
}

/// The effect of one control word on the oscillator, before the phase step.
pub open spec fn spec_apply(osc: ControlledOscillator, v: u32) -> ControlledOscillator
    recommends
        osc_wf(osc),
{
    match osc.kind {
        ControlKind::VCO => {
            let rate = (v * osc.sensitivity->0) % (TURN as int);
            ControlledOscillator {
                nco: Nco { phase: osc.nco.phase, angle_rate: rate as u32 },
                ..osc
            }
        },
        ControlKind::VcoFreq => {
            let freq = (v * osc.sensitivity->0) % (osc.sample_rate_hz as int);
            let rate = freq * (TURN as int) / (osc.sample_rate_hz as int);
            ControlledOscillator {
                nco: Nco { phase: osc.nco.phase, angle_rate: rate as u32 },
                ..osc
            }
        },
        ControlKind::BPSK => {
            if osc.previous != Some(v) {
                ControlledOscillator {
                    nco: Nco {
                        phase: wrap_add(osc.nco.phase, HALF_TURN),
                        angle_rate: osc.nco.angle_rate,
                    },
                    previous: Some(v),
                    ..osc
                }
            } else {
                osc
            }
        },
        ControlKind::ASK => osc,
    }
}

/// One full sample step: apply the control word, then advance the phase.
/// The emitted phase is the one after the control, before the advance.
pub open spec fn spec_step(osc: ControlledOscillator, v: u32) -> ControlledOscillator {
    let applied = spec_apply(osc, v);
    ControlledOscillator {
        nco: Nco {
            phase: wrap_add(applied.nco.phase, applied.nco.angle_rate),
            angle_rate: applied.nco.angle_rate,
        },
        ..applied
    }
}

/// The oscillator state after consuming a control sequence.
pub open spec fn spec_run(osc: ControlledOscillator, vs: Seq<u32>) -> ControlledOscillator
    decreases vs.len(),
{
    if vs.len() == 0 {
        osc
    } else {
        spec_step(spec_run(osc, vs.drop_last()), vs.last())
    }
}

/// The phases emitted while consuming a control sequence.
pub open spec fn spec_outputs(osc: ControlledOscillator, vs: Seq<u32>) -> Seq<u32>
    decreases vs.len(),
{
    if vs.len() == 0 {
        Seq::empty()
    } else {
        spec_outputs(osc, vs.drop_last()).push(
            spec_apply(spec_run(osc, vs.drop_last()), vs.last()).nco.phase,
        )
    }
}

impl ControlledOscillator {
    /// An oscillator of the given kind around the given accumulator.
    pub fn new(kind: ControlKind, sample_rate_hz: u32, sensitivity: Option<u32>, nco: Nco) -> (r:
        ControlledOscillator)
        requires
            0 < sample_rate_hz,
            (kind is VCO || kind is VcoFreq) ==> sensitivity is Some,
        ensures
            r == (ControlledOscillator { nco, kind, sample_rate_hz, sensitivity, previous: None }),
            osc_wf(r),
    {
        ControlledOscillator { nco, kind, sample_rate_hz, sensitivity, previous: None }
    }

    /// Applies one control word without advancing the phase.
    fn apply_control(&mut self, v: u32)
        requires
            osc_wf(*old(self)),
        ensures
            *final(self) == spec_apply(*old(self), v),
    {
        match self.kind {
            ControlKind::VCO => {
                let sens = match self.sensitivity {
                    Some(s) => s,
                    None => 0,
                };
                assert(v as int * sens as int <= 0xffff_ffff * 0xffff_ffff) by (nonlinear_arith)
                    requires
                        v <= 0xffff_ffff && sens <= 0xffff_ffff,
                ;
                let rate = ((v as u64) * (sens as u64)) % TURN;
                assert(rate == (v * sens) % (TURN as int)) by (nonlinear_arith)
                    requires
                        rate == (v as int * sens as int) % (TURN as int),
                ;
                self.nco.angle_rate = rate as u32;
            },
            ControlKind::VcoFreq => {
                let sens = match self.sensitivity {
                    Some(s) => s,
                    None => 0,
                };
                let fs = self.sample_rate_hz as u64;
                assert(v as int * sens as int <= 0xffff_ffff * 0xffff_ffff) by (nonlinear_arith)
                    requires
                        v <= 0xffff_ffff && sens <= 0xffff_ffff,
                ;
                let freq = ((v as u64) * (sens as u64)) % fs;
                assert(freq == (v * sens) % (self.sample_rate_hz as int)) by (nonlinear_arith)
                    requires
                        freq == (v as int * sens as int) % (fs as int),
                        fs == self.sample_rate_hz,
                        0 < fs,
                ;
                let num = freq * TURN;
                assert(num == freq * (TURN as int) && num <= (fs - 1) * (TURN as int))
                    by (nonlinear_arith)
                    requires
                        num == freq * TURN,
                        freq < fs,
                        0 < fs,
                        fs <= 0xffff_ffff,
                ;
                let word = num / fs;
                assert(word < TURN) by (nonlinear_arith)
                    requires
                        word == freq * (TURN as int) / (fs as int),
                        0 < fs,
                        freq < fs,
                ;
                self.nco.angle_rate = word as u32;
            },
            ControlKind::BPSK => {
                let is_new = match self.previous {
                    Some(p) => p != v,
                    None => true,
                };
                if is_new {
                    self.nco.adjust_phase(HALF_TURN);
                    self.previous = Some(v);
                }
            },
            ControlKind::ASK => {},
        }
    }

    /// Consumes as many control words as both sides allow — the available
    /// input and the free output space — and emits one phase per consumed
    /// word.  Mirrors one work invocation of the stream kernel: the number
    /// of consumed items equals the number of produced items, and the
    /// emitted phases follow the oscillator's step semantics exactly.
    #[verifier::loop_isolation(false)]
    pub fn work(&mut self, input: &Vec<u32>, output_capacity: usize, upstream_finished: bool) -> (r:
        (Vec<u32>, usize, bool))
        requires
            osc_wf(*old(self)),
        ensures
            osc_wf(*final(self)),
            r.1 == if input@.len() <= output_capacity {
                input@.len() as int
            } else {
                output_capacity as int
            },
            r.0@ == spec_outputs(*old(self), input@.take(r.1 as int)),
            r.0@.len() == r.1,
            *final(self) == spec_run(*old(self), input@.take(r.1 as int)),
            r.2 == (upstream_finished && r.1 == input@.len()),
    {
        let m = if input.len() <= output_capacity {
            input.len()
        } else {
            output_capacity
        };
        let ghost start = *self;
        let mut out: Vec<u32> = Vec::new();
        let mut k: usize = 0;
        proof {
            assert(input@.take(0) =~= Seq::<u32>::empty());
        }
        while k < m
            invariant
                0 <= k <= m <= input@.len(),
                osc_wf(*self),
                out@ == spec_outputs(start, input@.take(k as int)),
                out@.len() == k,
                *self == spec_run(start, input@.take(k as int)),
            decreases m - k,
        {
            proof {
                assert(input@.take(k + 1).drop_last() =~= input@.take(k as int));
                assert(input@.take(k + 1).last() == input@[k as int]);
            }
            let v = input[k];
            self.apply_control(v);
            out.push(self.nco.phase);
            self.nco.step();
            k = k + 1;
        }
        let finished = upstream_finished && m == input.len();
        (out, m, finished)
    }
}

/// Entry point for configuring a controlled oscillator.
pub struct ControlledOscillatorBuilder;

/// The accumulated oscillator configuration: control kind, rates and initial
/// conditions, completed by `build`.
#[derive(Clone, Copy, PartialEq, Eq, Structural, Debug)]
pub struct ControlledOscillatorInternalBuilder {
    /// How control words steer the oscillator.
    pub kind: ControlKind,
    /// Samples per second of the output stream.
    pub sample_rate_hz: u32,
    /// The tone emitted before any control is applied, in Hz.
    pub initial_frequency_hz: u32,
    /// The starting angle, in `2^-32` turns.
    pub initial_phase: u32,
    /// Multiplier applied to each control word.
    pub sensitivity: Option<u32>,
}

impl ControlledOscillatorBuilder {
    /// Oscillator controlled by angle rate: the input stream steers the
    /// per-sample phase increment.  `sensitivity` is in `2^-32` turns per
    /// sample per input unit.
    pub fn vco(sample_rate_hz: u32, sensitivity: u32) -> (r: ControlledOscillatorInternalBuilder)
        ensures
            r == (ControlledOscillatorInternalBuilder {
                kind: ControlKind::VCO,
                sample_rate_hz,
                initial_frequency_hz: 0,
                initial_phase: 0,
                sensitivity: Some(sensitivity),
            }),
    {
        ControlledOscillatorInternalBuilder {
            kind: ControlKind::VCO,
            sample_rate_hz,
            initial_frequency_hz: 0,
            initial_phase: 0,
            sensitivity: Some(sensitivity),
        }
    }

    /// Oscillator controlled by frequency: the input stream steers the tone
    /// in Hz.  `sensitivity` is in Hz per input unit.
    pub fn freq_co(sample_rate_hz: u32, sensitivity: u32) -> (r:
        ControlledOscillatorInternalBuilder)
        ensures
            r == (ControlledOscillatorInternalBuilder {
                kind: ControlKind::VcoFreq,
                sample_rate_hz,
                initial_frequency_hz: 0,
                initial_phase: 0,
                sensitivity: Some(sensitivity),
            }),
    {
        ControlledOscillatorInternalBuilder {
            kind: ControlKind::VcoFreq,
            sample_rate_hz,
            initial_frequency_hz: 0,
            initial_phase: 0,
            sensitivity: Some(sensitivity),
        }
    }

    /// A binary phase-shift keyed carrier: the input stream carries symbols,
    /// and each symbol change flips the carrier phase by half a turn.
    pub fn bpsk(sample_rate_hz: u32, frequency_hz: u32) -> (r:
        ControlledOscillatorInternalBuilder)
        ensures
            r == (ControlledOscillatorInternalBuilder {
                kind: ControlKind::BPSK,
                sample_rate_hz,
                initial_frequency_hz: frequency_hz,
                initial_phase: 0,
                sensitivity: None,
            }),
    {
        ControlledOscillatorInternalBuilder {
            kind: ControlKind::BPSK,
            sample_rate_hz,
            initial_frequency_hz: frequency_hz,
            initial_phase: 0,
            sensitivity: None,
        }
    }
}

impl ControlledOscillatorInternalBuilder {
    /// Overrides the starting angle, in `2^-32` turns.
    pub fn initial_phase(self, initial_phase: u32) -> (r: ControlledOscillatorInternalBuilder)
        ensures
            r == (ControlledOscillatorInternalBuilder { initial_phase, ..self }),
    {
        ControlledOscillatorInternalBuilder { initial_phase, ..self }
    }

    /// Overrides the sample rate, in Hz.
    pub fn sample_rate(self, sample_rate_hz: u32) -> (r: ControlledOscillatorInternalBuilder)
        ensures
            r == (ControlledOscillatorInternalBuilder { sample_rate_hz, ..self }),
    {
        ControlledOscillatorInternalBuilder { sample_rate_hz, ..self }
    }

    /// Completes the configuration: an oscillator starting at the configured
    /// phase, emitting the configured initial tone.
    pub fn build(self) -> (r: ControlledOscillator)
        requires
            0 < self.sample_rate_hz,
            self.initial_frequency_hz < self.sample_rate_hz,
            (self.kind is VCO || self.kind is VcoFreq) ==> self.sensitivity is Some,
        ensures
            osc_wf(r),
            r.kind == self.kind,
            r.sample_rate_hz == self.sample_rate_hz,
            r.sensitivity == self.sensitivity,
            r.previous is None,
            r.nco.phase == self.initial_phase,
            r.nco.angle_rate == spec_rate_word(self.initial_frequency_hz, self.sample_rate_hz),
    {
        let mut nco = Nco::new(self.initial_phase, 0);
        nco.set_frequency(self.initial_frequency_hz, self.sample_rate_hz);
        ControlledOscillator::new(self.kind, self.sample_rate_hz, self.sensitivity, nco)
    }
}

} // verus!
