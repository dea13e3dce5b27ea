use vstd::prelude::*;

verus! {

/// One complex baseband sample as the radio delivers it: in-phase and
/// quadrature parts as small signed integers.
#[derive(Clone, Copy, PartialEq, Eq, Debug, Structural)]
pub struct Sample {
    pub re: i8,
    pub im: i8,
}

/// Samples skipped between two frames so that frames of `len` samples come
/// `rate` times a second from a stream of `sample_rate` samples a second;
/// zero when the frames alone need more samples than the stream gives.
pub open spec fn discard_count(sample_rate: int, rate: int, len: int) -> int {
    if rate * len > sample_rate {
        0
    } else {
        (sample_rate - rate * len) / rate
    }
}

/// Accumulation state of the framer: the samples of the frame being filled
/// and how many samples were skipped since the last frame.
pub struct FrameState {
    pub pending: Seq<Sample>,
    pub skipped: nat,
}

/// The state right after a frame, or after a reconfiguration.
pub open spec fn fresh_state() -> FrameState {
    FrameState { pending: Seq::empty(), skipped: 0 }
}

/// One sample fed to a framer that skips `d` samples before each frame of
/// `l` samples: the next state, and the frame completed by this sample if any.
pub open spec fn frame_step(st: FrameState, x: Sample, d: nat, l: nat) -> (FrameState, Option<
    Seq<Sample>,
>) {
    if st.skipped < d {
        (FrameState { pending: st.pending, skipped: st.skipped + 1 }, None)
    } else {
        let s = st.pending.push(x);
        if s.len() >= l {
            (fresh_state(), Some(s))
        } else {
            (FrameState { pending: s, skipped: st.skipped }, None)
        }
    }
}

/// The samples `xs` fed one by one: the final state and the frames completed,
/// in order.
pub open spec fn frame_run(st: FrameState, xs: Seq<Sample>, d: nat, l: nat) -> (FrameState, Seq<
    Seq<Sample>,
>)
    decreases xs.len(),
{
    if xs.len() == 0 {
        (st, Seq::empty())
    } else {
        let (mid, frames) = frame_run(st, xs.drop_last(), d, l);
        let (next, out) = frame_step(mid, xs.last(), d, l);
        match out {
            Some(f) => (next, frames.push(f)),
            None => (next, frames),
        }
    }
}

/// Groups a stream of samples into frames of `fft_len` samples, skipping
/// samples between frames so that about `fft_rate_hz` frames come per second.
pub struct SignalProcessor {
    signal: Vec<Sample>,
    fft_rate_hz: u32,
    sample_rate_hz: u32,
    fft_len: usize,
    num_samples_discarded: u64,
}

/// Number of samples skipped between the end of one frame and the start of
/// the next: `(sample_rate_hz - fft_rate_hz * fft_len) / fft_rate_hz`, or zero
/// when that difference would be negative.
pub fn discard_per_frame(sample_rate_hz: u32, fft_rate_hz: u32, fft_len: usize) -> (r: u64)
    requires
        fft_rate_hz > 0,
    ensures
        r == discard_count(sample_rate_hz as int, fft_rate_hz as int, fft_len as int),
{
    assert((fft_rate_hz as int) * (fft_len as int) <= 0xFFFF_FFFFint * 0xFFFF_FFFF_FFFF_FFFFint)
        by (nonlinear_arith)
        requires
            fft_rate_hz <= 0xFFFF_FFFFint,
            fft_len <= 0xFFFF_FFFF_FFFF_FFFFint,
            fft_len >= 0,
            fft_rate_hz >= 0,
    ;
    let need: u128 = (fft_rate_hz as u128) * (fft_len as u128);
    if need > sample_rate_hz as u128 {
        0
    } else {
        ((sample_rate_hz as u128 - need) / (fft_rate_hz as u128)) as u64
    }
}

impl SignalProcessor {
    pub closed spec fn frame_len(&self) -> nat {
        self.fft_len as nat
    }

    pub closed spec fn sample_rate(&self) -> nat {
        self.sample_rate_hz as nat
    }

    pub closed spec fn frame_rate(&self) -> nat {
        self.fft_rate_hz as nat
    }

    /// The samples of the frame being filled, and those skipped since the last one.
    pub closed spec fn state(&self) -> FrameState {
        FrameState { pending: self.signal@, skipped: self.num_samples_discarded as nat }
    }

    /// Samples skipped before each frame.
    pub open spec fn discard(&self) -> nat {
        discard_count(self.sample_rate() as int, self.frame_rate() as int, self.frame_len() as int) as nat
    }

    pub open spec fn wf(&self) -> bool {
        &&& self.frame_len() > 0
        &&& self.frame_rate() > 0
        &&& self.state().pending.len() < self.frame_len()
        &&& self.state().skipped <= self.discard()
    }

    /// A framer for a stream of `sample_rate_hz` samples a second that emits
    /// frames of `fft_len` samples about `fft_rate_hz` times a second.
    pub fn new(sample_rate_hz: u32, fft_rate_hz: u32, fft_len: usize) -> (r: Self)
        requires
            fft_rate_hz > 0,
            fft_len > 0,
        ensures
            r.wf(),
            r.sample_rate() == sample_rate_hz,
            r.frame_rate() == fft_rate_hz,
            r.frame_len() == fft_len,
            r.state() == fresh_state(),
    {
        let r = SignalProcessor {
            signal: Vec::new(),
            fft_rate_hz,
            sample_rate_hz,
            fft_len,
            num_samples_discarded: 0,
        };
        assert(r.state().pending =~= Seq::<Sample>::empty());
        r
    }

    /// The length of the frames emitted from now on.
    pub fn fft_len(&self) -> (r: usize)
        ensures
            r == self.frame_len(),
    {
        self.fft_len
    }

    /// Switches to frames of `fft_len` samples. The frame being filled is
    /// dropped, so no frame mixes the two lengths.
    pub fn new_fft_len(&mut self, fft_len: usize)
        requires
            old(self).wf(),
            fft_len > 0,
        ensures
            final(self).wf(),
            final(self).frame_len() == fft_len,
            final(self).sample_rate() == old(self).sample_rate(),
            final(self).frame_rate() == old(self).frame_rate(),
            final(self).state() == fresh_state(),
    {
        self.signal = Vec::with_capacity(fft_len);
        self.fft_len = fft_len;
        self.num_samples_discarded = 0;
        assert(self.state().pending =~= Seq::<Sample>::empty());
    }

    /// Feeds `buff` in order: each sample is skipped while fewer than the
    /// discard count were skipped since the last frame, and is otherwise added
    /// to the frame being filled. Every frame completed is returned, in order.
    pub fn add_signal_buffer(&mut self, buff: Vec<Sample>) -> (r: Vec<Vec<Sample>>)
        requires
            old(self).wf(),
        ensures
            final(self).wf(),
            final(self).frame_len() == old(self).frame_len(),
            final(self).sample_rate() == old(self).sample_rate(),
            final(self).frame_rate() == old(self).frame_rate(),
            ({
                let (st, frames) = frame_run(
                    old(self).state(),
                    buff@,
                    old(self).discard(),
                    old(self).frame_len(),
                );
                &&& final(self).state() == st
                &&& r@.map_values(|f: Vec<Sample>| f@) == frames
            }),
    {
        let num_samples_to_discard = discard_per_frame(
            self.sample_rate_hz,
            self.fft_rate_hz,
            self.fft_len,
        );
        let ghost d = self.discard();
        let ghost l = self.frame_len();
        let ghost st0 = self.state();
        let mut spectra: Vec<Vec<Sample>> = Vec::new();
        let n = buff.len();
        let mut i: usize = 0;
        while i < n
            invariant
                i <= n,
                n == buff@.len(),
                num_samples_to_discard == d,
                d == self.discard(),
                l == self.frame_len(),
                self.wf(),
                self.sample_rate() == old(self).sample_rate(),
                self.frame_rate() == old(self).frame_rate(),
                self.frame_len() == old(self).frame_len(),
                st0 == old(self).state(),
                ({
                    let (st, frames) = frame_run(st0, buff@.take(i as int), d, l);
                    &&& self.state() == st
                    &&& spectra@.map_values(|f: Vec<Sample>| f@) == frames
                }),
            decreases n - i,
        {
            let x = buff[i];
            proof {
                assert(buff@.take(i as int + 1).drop_last() =~= buff@.take(i as int));
            }
            let ghost prev = spectra@.map_values(|f: Vec<Sample>| f@);
            if self.num_samples_discarded >= num_samples_to_discard {
                self.signal.push(x);
                if self.signal.len() >= self.fft_len {
                    let mut frame: Vec<Sample> = Vec::new();
                    std::mem::swap(&mut frame, &mut self.signal);
                    self.num_samples_discarded = 0;
                    spectra.push(frame);
                    proof {
                        assert(self.state().pending =~= Seq::<Sample>::empty());
                        assert(spectra@.map_values(|f: Vec<Sample>| f@) =~= prev.push(frame@));
                    }
                }
            } else {
                // skipped to keep to the frame rate
                self.num_samples_discarded = self.num_samples_discarded + 1;
            }
            i = i + 1;
        }
        proof {
            assert(buff@.take(n as int) =~= buff@);
        }
        spectra
    }

    /// Handles one chunk of the stream: first switches to frames of
    /// `requested_len` samples if that differs from the current length and is
    /// not zero, then feeds the chunk.
    pub fn process_chunk(&mut self, requested_len: usize, buff: Vec<Sample>) -> (r: Vec<
        Vec<Sample>,
    >)
        requires
            old(self).wf(),
        ensures
            final(self).wf(),
            final(self).frame_len() == if requested_len > 0 {
                requested_len as nat
            } else {
                old(self).frame_len()
            },
            final(self).sample_rate() == old(self).sample_rate(),
            final(self).frame_rate() == old(self).frame_rate(),
            ({
                let start = if requested_len > 0 && requested_len != old(self).frame_len() {
                    fresh_state()
                } else {
                    old(self).state()
                };
                let (st, frames) = frame_run(
                    start,
                    buff@,
                    final(self).discard(),
                    final(self).frame_len(),
                );
                &&& final(self).state() == st
                &&& r@.map_values(|f: Vec<Sample>| f@) == frames
            }),
            forall|i: int| 0 <= i < r@.len() ==> #[trigger] r@[i]@.len() == final(self).frame_len(),
    {
        if requested_len > 0 && requested_len != self.fft_len {
            self.new_fft_len(requested_len);
        }
        let ghost st = self.state();
        let r = self.add_signal_buffer(buff);
        proof {
            lemma_frames_have_frame_len(st, buff@, self.discard(), self.frame_len());
            assert forall|i: int| 0 <= i < r@.len() implies #[trigger] r@[i]@.len()
                == self.frame_len() by {
                assert(r@.map_values(|f: Vec<Sample>| f@)[i] == r@[i]@);
            }
        }
        r
    }
}

/// Feeding `a` then `b` is feeding `a + b`: frames come out in order and the
/// state carries over.
pub proof fn lemma_frame_run_append(st: FrameState, a: Seq<Sample>, b: Seq<Sample>, d: nat, l: nat)
    ensures
        ({
            let (mid, fa) = frame_run(st, a, d, l);
            let (end, fb) = frame_run(mid, b, d, l);
            frame_run(st, a + b, d, l) == (end, fa + fb)
        }),
    decreases b.len(),
{
    if b.len() == 0 {
        assert(a + b =~= a);
        let (mid, fa) = frame_run(st, a, d, l);
        assert(fa + Seq::<Seq<Sample>>::empty() =~= fa);
    } else {
        lemma_frame_run_append(st, a, b.drop_last(), d, l);
        assert((a + b).drop_last() =~= a + b.drop_last());
        assert((a + b).last() == b.last());
        let (mid, fa) = frame_run(st, a, d, l);
        let (end1, fb1) = frame_run(mid, b.drop_last(), d, l);
        let (next, out) = frame_step(end1, b.last(), d, l);
        match out {
            Some(f) => {
                assert((fa + fb1).push(f) =~= fa + fb1.push(f));
            },
            None => {},
        }
    }
}

/// Every frame a framer emits has its frame length, whatever it is fed,
/// provided the frame being filled is shorter than that length, as it always
/// is after a reconfiguration: no frame mixes two lengths.
pub proof fn lemma_frames_have_frame_len(st: FrameState, xs: Seq<Sample>, d: nat, l: nat)
    requires
        st.pending.len() < l,
    ensures
        frame_run(st, xs, d, l).0.pending.len() < l,
        forall|i: int|
            0 <= i < frame_run(st, xs, d, l).1.len() ==> #[trigger] frame_run(st, xs, d, l).1[i].len()
                == l,
    decreases xs.len(),
{
    if xs.len() > 0 {
        lemma_frames_have_frame_len(st, xs.drop_last(), d, l);
    }
}

/// State and output after the first `i` samples of one period of `d + l`
/// samples fed to a fresh framer.
spec fn period_prefix_run(xs: Seq<Sample>, d: nat, l: nat, i: int) -> (FrameState, Seq<
    Seq<Sample>,
>) {
    if i <= d {
        (FrameState { pending: Seq::empty(), skipped: i as nat }, Seq::empty())
    } else if i < d + l {
        (FrameState { pending: xs.subrange(d as int, i), skipped: d }, Seq::empty())
    } else {
        (fresh_state(), seq![xs.subrange(d as int, (d + l) as int)])
    }
}

proof fn lemma_period_prefix(xs: Seq<Sample>, d: nat, l: nat, i: int)
    requires
        l > 0,
        0 <= i <= d + l,
        i <= xs.len(),
    ensures
        frame_run(fresh_state(), xs.take(i), d, l) == period_prefix_run(xs, d, l, i),
    decreases i,
{
    if i > 0 {
        lemma_period_prefix(xs, d, l, i - 1);
        assert(xs.take(i).drop_last() =~= xs.take(i - 1));
        assert(xs.take(i).last() == xs[i - 1]);
        if i - 1 < d {
        } else if i - 1 == d {
            assert(Seq::<Sample>::empty().push(xs[i - 1]) =~= xs.subrange(d as int, i));
        } else {
            assert(xs.subrange(d as int, i - 1).push(xs[i - 1]) =~= xs.subrange(d as int, i));
        }
    } else {
        assert(xs.take(0) =~= Seq::<Sample>::empty());
    }
}

/// Feeding a fresh framer `k` whole periods of `d + l` samples, `d` skipped and
/// `l` kept, yields exactly `k` frames of `l` samples, the `j`-th being the
/// samples kept in period `j`, and leaves the framer fresh again.
pub proof fn lemma_whole_periods_yield_frames(xs: Seq<Sample>, d: nat, l: nat, k: nat)
    requires
        l > 0,
        xs.len() == k * (d + l),
    ensures
        frame_run(fresh_state(), xs, d, l).0 == fresh_state(),
        frame_run(fresh_state(), xs, d, l).1.len() == k,
        forall|j: int|
            0 <= j < k ==> {
                &&& (#[trigger] frame_run(fresh_state(), xs, d, l).1[j]) == xs.subrange(
                    j * (d + l) + d,
                    (j + 1) * (d + l),
                )
                &&& frame_run(fresh_state(), xs, d, l).1[j].len() == l
            },
    decreases k,
{
    let p = (d + l) as int;
    if k == 0 {
        assert(xs.len() == 0) by (nonlinear_arith)
            requires
                k == 0,
                xs.len() == k * p,
        ;
        assert(xs =~= Seq::<Sample>::empty());
    } else {
        let m = (k - 1) * p;
        assert(m + p == k * p) by (nonlinear_arith)
            requires
                m == (k - 1) * p,
                k >= 1,
        ;
        assert(0 <= m) by (nonlinear_arith)
            requires
                m == (k - 1) * p,
                k >= 1,
                p >= 0,
        ;
        let a = xs.take(m);
        let b = xs.subrange(m, m + p);
        assert(a + b =~= xs);
        lemma_whole_periods_yield_frames(a, d, l, (k - 1) as nat);
        lemma_frame_run_append(fresh_state(), a, b, d, l);
        lemma_period_prefix(b, d, l, p);
        assert(b.take(p) =~= b);
        let fa = frame_run(fresh_state(), a, d, l).1;
        let all = frame_run(fresh_state(), xs, d, l).1;
        assert forall|j: int| 0 <= j < k implies {
            &&& (#[trigger] all[j]) == xs.subrange(j * p + d, (j + 1) * p)
            &&& all[j].len() == l
        } by {
            if j < k - 1 {
                assert((j + 1) * p <= m) by (nonlinear_arith)
                    requires
                        m == (k - 1) * p,
                        j < k - 1,
                        p >= 0,
                ;
                assert(0 <= j * p) by (nonlinear_arith)
                    requires
                        0 <= j,
                        p >= 0,
                ;
                assert((j + 1) * p == j * p + p) by (nonlinear_arith);
                assert(a.subrange(j * p + d, (j + 1) * p) =~= xs.subrange(j * p + d, (j + 1) * p));
            } else {
                assert(j * p == m);
                assert((j + 1) * p == m + p) by (nonlinear_arith)
                    requires
                        j * p == m,
                ;
                assert(b.subrange(d as int, p) =~= xs.subrange(j * p + d, (j + 1) * p));
            }
        }
    }
}

} // verus!
