//! The playback engine that runs inside the audio callback.

use crate::channel::{last_message, ControlChannel};
use crate::ratio::Ratio;
use vstd::prelude::*;

verus! {

/// The mathematical state of the engine: the sample buffer, the gain, the
/// loop window `[begin, end)`, the read position, and the queued control
/// updates that the next callback will drain.
pub struct SoundView {
    pub data: Seq<u8>,
    pub volume: Ratio,
    pub begin: int,
    pub end: int,
    pub pos: int,
    pub position_pending: Seq<Ratio>,
    pub begin_pending: Seq<Ratio>,
    pub end_pending: Seq<Ratio>,
}

impl SoundView {
    /// The engine's invariant: the gain is a valid ratio, both loop bounds
    /// lie within the buffer, the read position is at most one step past it,
    /// and every queued update is a valid ratio.
    pub open spec fn wf(self) -> bool {
        &&& self.volume.wf()
        &&& self.data.len() < usize::MAX
        &&& 0 <= self.begin <= self.data.len()
        &&& 0 <= self.end <= self.data.len()
        &&& 0 <= self.pos <= self.data.len() + 1
        &&& forall|i: int| 0 <= i < self.position_pending.len() ==> (#[trigger] self.position_pending[i]).wf()
        &&& forall|i: int| 0 <= i < self.begin_pending.len() ==> (#[trigger] self.begin_pending[i]).wf()
        &&& forall|i: int| 0 <= i < self.end_pending.len() ==> (#[trigger] self.end_pending[i]).wf()
    }
}

/// The playback engine. It owns the decoded sample buffer and a read cursor,
/// and on every audio callback first drains the pending control updates,
/// then emits the requested number of samples, wrapping the cursor inside
/// the loop window `[begin, end)`.
pub struct Sound {
    data: Vec<u8>,
    volume: Ratio,
    begin: usize,
    end: usize,
    pos: usize,
    position_chan: ControlChannel<Ratio>,
    begin_chan: ControlChannel<Ratio>,
    end_chan: ControlChannel<Ratio>,
}

impl View for Sound {
    type V = SoundView;

    closed spec fn view(&self) -> SoundView {
        SoundView {
            data: self.data@,
            volume: self.volume,
            begin: self.begin as int,
            end: self.end as int,
            pos: self.pos as int,
            position_pending: self.position_chan@,
            begin_pending: self.begin_chan@,
            end_pending: self.end_chan@,
        }
    }
}

/// The value emitted for a read at `pos`: the buffer sample scaled by the
/// gain, or silence when the position lies outside the buffer. An
/// out-of-range read is not an error; the engine substitutes the neutral
/// sample rather than failing.
pub open spec fn sample_at(data: Seq<u8>, volume: Ratio, pos: int) -> u8 {
    let raw: int = if 0 <= pos < data.len() {
        data[pos] as int
    } else {
        0
    };
    (raw * volume.num / volume.den as int) as u8
}

/// The index one output step reads from: a position at or past `end` wraps
/// to `begin` first.
pub open spec fn step_read(begin: int, end: int, pos: int) -> int {
    if pos >= end {
        begin
    } else {
        pos
    }
}

/// The samples that `n` output steps emit, starting from read position `pos`.
pub open spec fn emitted(data: Seq<u8>, volume: Ratio, begin: int, end: int, pos: int, n: nat) -> Seq<u8>
    decreases n,
{
    if n == 0 {
        Seq::empty()
    } else {
        let p = step_read(begin, end, pos);
        seq![sample_at(data, volume, p)] + emitted(data, volume, begin, end, p + 1, (n - 1) as nat)
    }
}

/// The read position after `n` output steps.
pub open spec fn pos_after(begin: int, end: int, pos: int, n: nat) -> int
    decreases n,
{
    if n == 0 {
        pos
    } else {
        pos_after(begin, end, step_read(begin, end, pos) + 1, (n - 1) as nat)
    }
}

/// The loop end after the lazy default: a fresh engine with both bounds
/// still zero plays the whole buffer.
pub open spec fn end_after_init(s: SoundView) -> int {
    if s.begin == 0 && s.end == 0 {
        s.data.len() as int
    } else {
        s.end
    }
}

/// The read position once the position queue is drained: the last queued
/// ratio scaled by the buffer length wins; with no update the position
/// stays.
pub open spec fn pos_after_drain(s: SoundView) -> int {
    match last_message(s.position_pending) {
        Some(r) => r.scale_spec(s.data.len() as int),
        None => s.pos,
    }
}

/// The loop begin once the begin queue is drained.
pub open spec fn begin_after_drain(s: SoundView) -> int {
    match last_message(s.begin_pending) {
        Some(r) => r.scale_spec(s.data.len() as int),
        None => s.begin,
    }
}

/// The loop end once the end queue is drained; with no update the lazy
/// default applies.
pub open spec fn end_after_drain(s: SoundView) -> int {
    match last_message(s.end_pending) {
        Some(r) => r.scale_spec(s.data.len() as int),
        None => end_after_init(s),
    }
}

impl Sound {
    /// A fresh engine over `data` at the given gain: cursor and loop bounds
    /// at zero (the first callback widens the loop to the whole buffer), no
    /// updates pending.
    pub fn new(data: Vec<u8>, volume: Ratio) -> (s: Sound)
        requires
            volume.wf(),
            data.len() < usize::MAX,
        ensures
            s.wf(),
            s@ == (SoundView {
                data: data@,
                volume,
                begin: 0,
                end: 0,
                pos: 0,
                position_pending: Seq::empty(),
                begin_pending: Seq::empty(),
                end_pending: Seq::empty(),
            }),
    {
        Sound {
            data,
            volume,
            begin: 0,
            end: 0,
            pos: 0,
            position_chan: ControlChannel::new(),
            begin_chan: ControlChannel::new(),
            end_chan: ControlChannel::new(),
        }
    }

    /// The engine's invariant, on its mathematical state.
    pub open spec fn wf(self) -> bool {
        self@.wf()
    }

    /// Queues a scrub of the playback position to `r` of the buffer.
    pub fn send_position(&mut self, r: Ratio)
        requires
            old(self).wf(),
            r.wf(),
        ensures
            final(self).wf(),
            final(self)@ == (SoundView { position_pending: old(self)@.position_pending.push(r), ..old(self)@ }),
    {
        self.position_chan.send(r);
    }

    /// Queues a move of the loop begin marker to `r` of the buffer.
    pub fn send_loop_begin(&mut self, r: Ratio)
        requires
            old(self).wf(),
            r.wf(),
        ensures
            final(self).wf(),
            final(self)@ == (SoundView { begin_pending: old(self)@.begin_pending.push(r), ..old(self)@ }),
    {
        self.begin_chan.send(r);
    }

    /// Queues a move of the loop end marker to `r` of the buffer.
    pub fn send_loop_end(&mut self, r: Ratio)
        requires
            old(self).wf(),
            r.wf(),
        ensures
            final(self).wf(),
            final(self)@ == (SoundView { end_pending: old(self)@.end_pending.push(r), ..old(self)@ }),
    {
        self.end_chan.send(r);
    }

    /// The current read position.
    pub fn position(&self) -> (p: usize)
        ensures
            p == self@.pos,
    {
        self.pos
    }

    /// The current loop begin index.
    pub fn loop_begin(&self) -> (b: usize)
        ensures
            b == self@.begin,
    {
        self.begin
    }

    /// The current loop end index.
    pub fn loop_end(&self) -> (e: usize)
        ensures
            e == self@.end,
    {
        self.end
    }

    /// The length of the sample buffer.
    pub fn buffer_len(&self) -> (n: usize)
        ensures
            n == self@.data.len(),
    {
        self.data.len()
    }

    /// Applies every pending control update, in arrival order, so that the
    /// last queued value of each kind wins: the position queue moves the
    /// cursor, the two bound queues move the loop window. Before draining,
    /// a fresh engine (both bounds still zero) widens its loop end to the
    /// whole buffer.
    pub fn drain_controls(&mut self)
        requires
            old(self).wf(),
        ensures
            final(self).wf(),
            final(self)@ == (SoundView {
                begin: begin_after_drain(old(self)@),
                end: end_after_drain(old(self)@),
                pos: pos_after_drain(old(self)@),
                position_pending: Seq::empty(),
                begin_pending: Seq::empty(),
                end_pending: Seq::empty(),
                ..old(self)@
            }),
    {
        let len = self.data.len();
        if self.begin == 0 && self.end == 0 {
            self.end = len;
        }
        match self.position_chan.recv_last() {
            Some(r) => {
                proof {
                    let q = old(self)@.position_pending;
                    assert(q[q.len() - 1].wf());
                }
                self.pos = r.scale(len);
            }
            None => {}
        }
        match self.begin_chan.recv_last() {
            Some(r) => {
                proof {
                    let q = old(self)@.begin_pending;
                    assert(q[q.len() - 1].wf());
                }
                self.begin = r.scale(len);
            }
            None => {}
        }
        match self.end_chan.recv_last() {
            Some(r) => {
                proof {
                    let q = old(self)@.end_pending;
                    assert(q[q.len() - 1].wf());
                }
                self.end = r.scale(len);
            }
            None => {}
        }
    }

    /// Emits `n` samples from the current state: a cursor at or past the
    /// loop end wraps to the loop begin before each read, reads outside the
    /// buffer yield silence, and every sample is scaled by the gain.
    pub fn emit(&mut self, n: usize) -> (out: Vec<u8>)
        requires
            old(self).wf(),
        ensures
            final(self).wf(),
            final(self)@ == (SoundView {
                pos: pos_after(old(self)@.begin, old(self)@.end, old(self)@.pos, n as nat),
                ..old(self)@
            }),
            out@ == emitted(
                old(self)@.data,
                old(self)@.volume,
                old(self)@.begin,
                old(self)@.end,
                old(self)@.pos,
                n as nat,
            ),
    {
        let ghost d = self@.data;
        let ghost vol = self@.volume;
        let ghost b = self@.begin;
        let ghost e = self@.end;
        let ghost p0 = self@.pos;
        let ghost g0 = self@;
        let mut out: Vec<u8> = Vec::new();
        let mut i: usize = 0;
        while i < n
            invariant
                i <= n,
                self.wf(),
                self@ == (SoundView { pos: pos_after(b, e, p0, i as nat), ..g0 }),
                g0.wf(),
                d == g0.data,
                vol == g0.volume,
                b == g0.begin,
                e == g0.end,
                p0 == g0.pos,
                out@ == emitted(d, vol, b, e, p0, i as nat),
            decreases n - i,
        {
            proof {
                lemma_run_snoc(d, vol, b, e, p0, i as nat);
            }
            let p: usize = if self.pos >= self.end {
                self.begin
            } else {
                self.pos
            };
            let raw: u8 = if p < self.data.len() {
                self.data[p]
            } else {
                0
            };
            let sample: u8 = scale_sample(raw, self.volume);
            out.push(sample);
            self.pos = p + 1;
            i = i + 1;
        }
        out
    }

    /// One audio callback: drain every control queue, then emit `n`
    /// samples from the state the drain left behind. The callback never
    /// blocks and never fails, whatever updates were queued.
    pub fn callback(&mut self, n: usize) -> (out: Vec<u8>)
        requires
            old(self).wf(),
        ensures
            final(self).wf(),
            final(self)@ == (SoundView {
                begin: begin_after_drain(old(self)@),
                end: end_after_drain(old(self)@),
                pos: pos_after(
                    begin_after_drain(old(self)@),
                    end_after_drain(old(self)@),
                    pos_after_drain(old(self)@),
                    n as nat,
                ),
                position_pending: Seq::empty(),
                begin_pending: Seq::empty(),
                end_pending: Seq::empty(),
                ..old(self)@
            }),
            out@ == emitted(
                old(self)@.data,
                old(self)@.volume,
                begin_after_drain(old(self)@),
                end_after_drain(old(self)@),
                pos_after_drain(old(self)@),
                n as nat,
            ),
    {
        self.drain_controls();
        self.emit(n)
    }
}

/// Scales one raw sample by the gain, rounding down; the result never
/// exceeds the raw sample, so it stays a valid sample value.
fn scale_sample(raw: u8, volume: Ratio) -> (s: u8)
    requires
        volume.wf(),
    ensures
        s as int == raw * volume.num / volume.den as int,
{
    proof {
        assert((raw as int) * (volume.num as int) < u64::MAX as int) by (nonlinear_arith)
            requires
                0 <= raw <= u8::MAX,
                0 <= volume.num <= u32::MAX,
        ;
        crate::ratio::lemma_scale_mul_div_bounds(raw as int, volume.num as int, volume.den as int);
    }
    let wide: u64 = (raw as u64) * (volume.num as u64) / (volume.den as u64);
    wide as u8
}

/// The buffer indices that `n` output steps read from, in order.
pub open spec fn read_positions(begin: int, end: int, pos: int, n: nat) -> Seq<int>
    decreases n,
{
    if n == 0 {
        Seq::empty()
    } else {
        let p = step_read(begin, end, pos);
        seq![p] + read_positions(begin, end, p + 1, (n - 1) as nat)
    }
}

/// The emitted samples are exactly the reads at the positions of
/// `read_positions`, each scaled by the gain.
pub proof fn lemma_emitted_is_reads(data: Seq<u8>, volume: Ratio, begin: int, end: int, pos: int, n: nat)
    ensures
        emitted(data, volume, begin, end, pos, n).len() == n,
        read_positions(begin, end, pos, n).len() == n,
        forall|i: int| 0 <= i < n ==> #[trigger] emitted(data, volume, begin, end, pos, n)[i]
            == sample_at(data, volume, read_positions(begin, end, pos, n)[i]),
    decreases n,
{
    if n > 0 {
        let p = step_read(begin, end, pos);
        lemma_emitted_is_reads(data, volume, begin, end, p + 1, (n - 1) as nat);
        let es = emitted(data, volume, begin, end, pos, n);
        let rs = read_positions(begin, end, pos, n);
        let et = emitted(data, volume, begin, end, p + 1, (n - 1) as nat);
        let rt = read_positions(begin, end, p + 1, (n - 1) as nat);
        assert forall|i: int| 0 <= i < n implies #[trigger] es[i] == sample_at(data, volume, rs[i]) by {
            if i > 0 {
                assert(es[i] == et[i - 1]);
                assert(rs[i] == rt[i - 1]);
            }
        }
    }
}

/// Law: while the loop window is ordered (`begin <= end`), no read ever
/// passes `end`: each read index stays at most `end`, is below `end` unless
/// the window is empty and it sits at `begin`, and successive reads advance
/// one index at a time except where they wrap back to `begin`.
pub proof fn lemma_loop_containment(begin: int, end: int, pos: int, n: nat)
    requires
        begin <= end,
    ensures
        read_positions(begin, end, pos, n).len() == n,
        forall|i: int| 0 <= i < n ==> #[trigger] read_positions(begin, end, pos, n)[i] <= end,
        forall|i: int| 0 <= i < n ==> (#[trigger] read_positions(begin, end, pos, n)[i] < end
            || read_positions(begin, end, pos, n)[i] == begin),
        forall|i: int| 0 < i < n ==> (#[trigger] read_positions(begin, end, pos, n)[i]
            == read_positions(begin, end, pos, n)[i - 1] + 1
            || read_positions(begin, end, pos, n)[i] == begin),
    decreases n,
{
    if n > 0 {
        let p = step_read(begin, end, pos);
        lemma_loop_containment(begin, end, p + 1, (n - 1) as nat);
        let rs = read_positions(begin, end, pos, n);
        let rt = read_positions(begin, end, p + 1, (n - 1) as nat);
        assert forall|i: int| 0 <= i < n implies #[trigger] rs[i] <= end && (rs[i] < end
            || rs[i] == begin) by {
            if i > 0 {
                assert(rs[i] == rt[i - 1]);
            }
        }
        assert forall|i: int| 0 < i < n implies (#[trigger] rs[i] == rs[i - 1] + 1 || rs[i]
            == begin) by {
            if i == 1 {
                assert(rs[1] == rt[0]);
                assert(rt[0] == step_read(begin, end, p + 1));
            } else {
                assert(rs[i] == rt[i - 1]);
                assert(rs[i - 1] == rt[i - 2]);
            }
        }
    }
}

/// Law: after a drain, the playback position is the last ratio sent on the
/// position queue scaled by the buffer length, `floor(r * len)`, whatever
/// position updates were queued before it.
pub proof fn lemma_position_follows_last_ratio(s: SoundView, r: Ratio)
    ensures
        pos_after_drain((SoundView { position_pending: s.position_pending.push(r), ..s }))
            == r.scale_spec(s.data.len() as int),
{
}

/// Law: queueing the same position ratio twice before a drain leaves the
/// engine at the same position as queueing it once; a repeated send has no
/// cumulative effect.
pub proof fn lemma_position_resend_is_idempotent(s: SoundView, r: Ratio)
    ensures
        pos_after_drain((SoundView {
            position_pending: s.position_pending.push(r).push(r),
            ..s
        })) == pos_after_drain((SoundView { position_pending: s.position_pending.push(r), ..s })),
{
}

/// Law: a read outside the buffer produces the neutral sample, zero; the
/// engine substitutes silence instead of failing.
pub proof fn lemma_out_of_range_read_is_silent(data: Seq<u8>, volume: Ratio, pos: int)
    requires
        volume.wf(),
        !(0 <= pos < data.len()),
    ensures
        sample_at(data, volume, pos) == 0,
{
    assert(0 * volume.num == 0) by (nonlinear_arith);
    vstd::arithmetic::div_mod::lemma_div_of0(volume.den as int);
}

/// Peeling one more step off the back of a run: the samples of `n + 1`
/// steps are those of `n` steps followed by the read that the position
/// after `n` steps determines.
proof fn lemma_run_snoc(data: Seq<u8>, volume: Ratio, begin: int, end: int, pos: int, n: nat)
    ensures
        pos_after(begin, end, pos, n + 1) == step_read(begin, end, pos_after(begin, end, pos, n)) + 1,
        emitted(data, volume, begin, end, pos, n + 1) == emitted(data, volume, begin, end, pos, n).push(
            sample_at(data, volume, step_read(begin, end, pos_after(begin, end, pos, n))),
        ),
    decreases n,
{
    reveal_with_fuel(pos_after, 2);
    reveal_with_fuel(emitted, 2);
    let p = step_read(begin, end, pos);
    if n == 0 {
        assert(emitted(data, volume, begin, end, pos, 1) =~= emitted(
            data,
            volume,
            begin,
            end,
            pos,
            0,
        ).push(sample_at(data, volume, p)));
    } else {
        lemma_run_snoc(data, volume, begin, end, p + 1, (n - 1) as nat);
        let head = seq![sample_at(data, volume, p)];
        let tail = emitted(data, volume, begin, end, p + 1, (n - 1) as nat);
        let x = sample_at(data, volume, step_read(begin, end, pos_after(begin, end, p + 1, (n - 1) as nat)));
        assert(head + tail.push(x) =~= (head + tail).push(x));
    }
}

} // verus!
