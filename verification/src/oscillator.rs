//! The square-wave tone generator for the synthesized variant.

use crate::channel::{last_message, ControlChannel};
use vstd::prelude::*;

verus! {

/// The mathematical state of the oscillator: the device sample rate, the
/// tone frequency, the phase within the current cycle (in sample-rate
/// units, so `phase / sample_rate` is the fraction of the cycle), the
/// amplitude around the unsigned midline, and the queued pitch updates.
pub struct OscillatorView {
    pub sample_rate: int,
    pub freq: int,
    pub phase: int,
    pub amp: int,
    pub pitch_pending: Seq<u32>,
}

impl OscillatorView {
    /// The oscillator's invariant: a positive sample rate, a phase inside
    /// the cycle, and an amplitude that keeps both half-waves within the
    /// 8-bit sample range around the midline of 128.
    pub open spec fn wf(self) -> bool {
        &&& 0 < self.sample_rate
        &&& 0 <= self.phase < self.sample_rate
        &&& 0 <= self.amp <= 127
    }
}

/// One square-wave sample: in the first half of the cycle the output sits
/// `amp` above the unsigned midline of 128, in the second half `amp` below.
pub open spec fn square_sample(sample_rate: int, phase: int, amp: int) -> u8 {
    if 2 * phase < sample_rate {
        (128 + amp) as u8
    } else {
        (128 - amp) as u8
    }
}

/// The phase after one output step: advanced by `freq` in sample-rate
/// units (the increment `freq / sample_rate` of a cycle), wrapping modulo
/// one full cycle.
pub open spec fn phase_step(sample_rate: int, phase: int, freq: int) -> int {
    (phase + freq) % sample_rate
}

/// The samples that `n` output steps of the tone emit, starting at `phase`.
pub open spec fn tone(sample_rate: int, freq: int, phase: int, amp: int, n: nat) -> Seq<u8>
    decreases n,
{
    if n == 0 {
        Seq::empty()
    } else {
        seq![square_sample(sample_rate, phase, amp)] + tone(
            sample_rate,
            freq,
            phase_step(sample_rate, phase, freq),
            amp,
            (n - 1) as nat,
        )
    }
}

/// The phase after `n` output steps.
pub open spec fn phase_after(sample_rate: int, freq: int, phase: int, n: nat) -> int
    decreases n,
{
    if n == 0 {
        phase
    } else {
        phase_after(sample_rate, freq, phase_step(sample_rate, phase, freq), (n - 1) as nat)
    }
}

/// The frequency once the pitch queue is drained: the last queued update
/// wins; with none pending the frequency stays.
pub open spec fn freq_after_drain(s: OscillatorView) -> int {
    match last_message(s.pitch_pending) {
        Some(f) => f as int,
        None => s.freq,
    }
}

/// The square-wave generator. On every audio callback it first drains the
/// pitch queue, so a pitch change takes effect at the next callback and
/// never in the middle of a buffer, then emits the requested number of
/// samples while advancing its phase.
pub struct Oscillator {
    sample_rate: u32,
    freq: u32,
    phase: u32,
    amp: u8,
    pitch_chan: ControlChannel<u32>,
}

impl View for Oscillator {
    type V = OscillatorView;

    closed spec fn view(&self) -> OscillatorView {
        OscillatorView {
            sample_rate: self.sample_rate as int,
            freq: self.freq as int,
            phase: self.phase as int,
            amp: self.amp as int,
            pitch_pending: self.pitch_chan@,
        }
    }
}

impl Oscillator {
    /// The oscillator's invariant, on its mathematical state.
    pub open spec fn wf(self) -> bool {
        self@.wf()
    }

    /// A fresh oscillator at the given device rate, frequency and
    /// amplitude, starting at the top of a cycle with no updates pending.
    pub fn new(sample_rate: u32, freq: u32, amp: u8) -> (o: Oscillator)
        requires
            0 < sample_rate,
            amp <= 127,
        ensures
            o.wf(),
            o@ == (OscillatorView {
                sample_rate: sample_rate as int,
                freq: freq as int,
                phase: 0,
                amp: amp as int,
                pitch_pending: Seq::empty(),
            }),
    {
        Oscillator { sample_rate, freq, phase: 0, amp, pitch_chan: ControlChannel::new() }
    }

    /// Queues a pitch change to `freq`, to take effect at the next
    /// callback.
    pub fn send_pitch(&mut self, freq: u32)
        requires
            old(self).wf(),
        ensures
            final(self).wf(),
            final(self)@ == (OscillatorView {
                pitch_pending: old(self)@.pitch_pending.push(freq),
                ..old(self)@
            }),
    {
        self.pitch_chan.send(freq);
    }

    /// The current frequency.
    pub fn frequency(&self) -> (f: u32)
        ensures
            f == self@.freq,
    {
        self.freq
    }

    /// Drains the pitch queue; the last queued frequency wins.
    pub fn drain_pitch(&mut self)
        requires
            old(self).wf(),
        ensures
            final(self).wf(),
            final(self)@ == (OscillatorView {
                freq: freq_after_drain(old(self)@),
                pitch_pending: Seq::empty(),
                ..old(self)@
            }),
    {
        match self.pitch_chan.recv_last() {
            Some(f) => {
                self.freq = f;
            }
            None => {}
        }
    }

    /// Emits `n` square-wave samples from the current phase.
    pub fn emit(&mut self, n: usize) -> (out: Vec<u8>)
        requires
            old(self).wf(),
        ensures
            final(self).wf(),
            final(self)@ == (OscillatorView {
                phase: phase_after(old(self)@.sample_rate, old(self)@.freq, old(self)@.phase, n as nat),
                ..old(self)@
            }),
            out@ == tone(
                old(self)@.sample_rate,
                old(self)@.freq,
                old(self)@.phase,
                old(self)@.amp,
                n as nat,
            ),
    {
        let ghost sr = self@.sample_rate;
        let ghost f = self@.freq;
        let ghost p0 = self@.phase;
        let ghost a = self@.amp;
        let ghost g0 = self@;
        let mut out: Vec<u8> = Vec::new();
        let mut i: usize = 0;
        while i < n
            invariant
                i <= n,
                self.wf(),
                self@ == (OscillatorView { phase: phase_after(sr, f, p0, i as nat), ..g0 }),
                g0.wf(),
                sr == g0.sample_rate,
                f == g0.freq,
                p0 == g0.phase,
                a == g0.amp,
                out@ == tone(sr, f, p0, a, i as nat),
            decreases n - i,
        {
            proof {
                lemma_tone_snoc(sr, f, p0, a, i as nat);
            }
            let sample: u8 = if 2 * (self.phase as u64) < (self.sample_rate as u64) {
                128 + self.amp
            } else {
                128 - self.amp
            };
            out.push(sample);
            self.phase = (((self.phase as u64) + (self.freq as u64)) % (self.sample_rate as u64))
                as u32;
            i = i + 1;
        }
        out
    }

    /// One audio callback: drain the pitch queue, then emit `n` samples at
    /// the frequency the drain left behind.
    pub fn callback(&mut self, n: usize) -> (out: Vec<u8>)
        requires
            old(self).wf(),
        ensures
            final(self).wf(),
            final(self)@ == (OscillatorView {
                freq: freq_after_drain(old(self)@),
                phase: phase_after(
                    old(self)@.sample_rate,
                    freq_after_drain(old(self)@),
                    old(self)@.phase,
                    n as nat,
                ),
                pitch_pending: Seq::empty(),
                ..old(self)@
            }),
            out@ == tone(
                old(self)@.sample_rate,
                freq_after_drain(old(self)@),
                old(self)@.phase,
                old(self)@.amp,
                n as nat,
            ),
    {
        self.drain_pitch();
        self.emit(n)
    }
}

/// Peeling one more step off the back of a tone: the samples of `n + 1`
/// steps are those of `n` steps followed by the sample at the phase after
/// `n` steps.
proof fn lemma_tone_snoc(sample_rate: int, freq: int, phase: int, amp: int, n: nat)
    ensures
        phase_after(sample_rate, freq, phase, n + 1) == phase_step(
            sample_rate,
            phase_after(sample_rate, freq, phase, n),
            freq,
        ),
        tone(sample_rate, freq, phase, amp, n + 1) == tone(sample_rate, freq, phase, amp, n).push(
            square_sample(sample_rate, phase_after(sample_rate, freq, phase, n), amp),
        ),
    decreases n,
{
    reveal_with_fuel(phase_after, 2);
    reveal_with_fuel(tone, 2);
    let p = phase_step(sample_rate, phase, freq);
    if n == 0 {
        assert(tone(sample_rate, freq, phase, amp, 1) =~= tone(
            sample_rate,
            freq,
            phase,
            amp,
            0,
        ).push(square_sample(sample_rate, phase, amp)));
    } else {
        lemma_tone_snoc(sample_rate, freq, p, amp, (n - 1) as nat);
        let head = seq![square_sample(sample_rate, phase, amp)];
        let tail = tone(sample_rate, freq, p, amp, (n - 1) as nat);
        let x = square_sample(sample_rate, phase_after(sample_rate, freq, p, (n - 1) as nat), amp);
        assert(head + tail.push(x) =~= (head + tail).push(x));
    }
}

} // verus!
