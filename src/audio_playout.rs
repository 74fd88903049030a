use std::collections::VecDeque;
use vstd::prelude::*;

verus! {

/// Number of samples kept by default: two seconds of 48 kHz mono audio.
pub const DEFAULT_MAX_SAMPLES: usize = 96000;

/// The last `max` elements of `s` (all of `s` when it is shorter).
pub open spec fn keep_last(s: Seq<i16>, max: nat) -> Seq<i16> {
    if s.len() > max {
        s.subrange(s.len() - max, s.len() as int)
    } else {
        s
    }
}

/// `n` samples of silence.
pub open spec fn silence(n: nat) -> Seq<i16> {
    Seq::new(n, |i: int| 0i16)
}

/// Bounded buffer of decoded PCM samples waiting for playout.
///
/// The producer pushes decoded audio, the platform output pulls it. When the
/// producer runs ahead, the oldest samples are discarded: skipping audio is
/// better than accumulating latency.
pub struct AudioPlayoutBuffer {
    buffer: VecDeque<i16>,
    max_samples: usize,
}

impl View for AudioPlayoutBuffer {
    type V = Seq<i16>;

    /// The buffered samples, oldest first.
    closed spec fn view(&self) -> Seq<i16> {
        self.buffer@
    }
}

impl AudioPlayoutBuffer {
    /// The most samples the buffer holds.
    pub closed spec fn max_samples(&self) -> nat {
        self.max_samples as nat
    }

    pub closed spec fn wf(&self) -> bool {
        self.buffer@.len() <= self.max_samples
    }

    /// An empty buffer holding up to two seconds of 48 kHz mono audio.
    pub fn new() -> (r: Self)
        ensures
            r.wf(),
            r@ == Seq::<i16>::empty(),
            r.max_samples() == DEFAULT_MAX_SAMPLES,
    {
        Self::with_capacity(DEFAULT_MAX_SAMPLES)
    }

    /// An empty buffer holding up to `max_samples` samples.
    pub fn with_capacity(max_samples: usize) -> (r: Self)
        ensures
            r.wf(),
            r@ == Seq::<i16>::empty(),
            r.max_samples() == max_samples,
    {
        AudioPlayoutBuffer { buffer: VecDeque::new(), max_samples }
    }

    /// Appends `samples`; when the buffer would exceed its bound, the oldest
    /// samples are dropped.
    pub fn push_samples(&mut self, samples: &[i16])
        requires
            old(self).wf(),
        ensures
            final(self).wf(),
            final(self).max_samples() == old(self).max_samples(),
            final(self)@ == keep_last(old(self)@ + samples@, old(self).max_samples()),
    {
        let ghost start = self.buffer@;
        let ghost max = self.max_samples as nat;
        let mut i: usize = 0;
        while i < samples.len()
            invariant
                i <= samples@.len(),
                self.max_samples == max,
                self.buffer@.len() <= max,
                self.buffer@ == keep_last(start + samples@.take(i as int), max),
                start.len() <= max,
            decreases samples@.len() - i,
        {
            let ghost before = start + samples@.take(i as int);
            self.buffer.push_back(samples[i]);
            if self.buffer.len() > self.max_samples {
                self.buffer.pop_front();
            }
            proof {
                lemma_keep_last_push(before, samples@[i as int], max);
                assert(start + samples@.take(i + 1) =~= before.push(samples@[i as int]));
            }
            i = i + 1;
        }
        proof {
            assert(samples@.take(samples@.len() as int) =~= samples@);
        }
    }

    /// Moves up to `out.len()` of the oldest samples into `out` and fills the
    /// rest of `out` with silence. Returns how many samples were moved.
    pub fn pull_samples(&mut self, out: &mut [i16]) -> (n: usize)
        requires
            old(self).wf(),
        ensures
            final(self).wf(),
            final(self).max_samples() == old(self).max_samples(),
            n as int == if old(self)@.len() < old(out)@.len() {
                old(self)@.len() as int
            } else {
                old(out)@.len() as int
            },
            final(out)@ == old(self)@.take(n as int) + silence((old(out)@.len() - n) as nat),
            final(self)@ == old(self)@.skip(n as int),
    {
        let ghost start = self.buffer@;
        let ghost out_len = out@.len();
        let available: usize = if self.buffer.len() < out.len() {
            self.buffer.len()
        } else {
            out.len()
        };
        let mut i: usize = 0;
        while i < out.len()
            invariant
                i <= out@.len(),
                out@.len() == out_len,
                available <= out_len,
                available <= start.len(),
                self.max_samples == old(self).max_samples,
                start == old(self).buffer@,
                start.len() <= self.max_samples,
                i <= available ==> self.buffer@ == start.skip(i as int),
                i > available ==> self.buffer@ == start.skip(available as int),
                forall|k: int| 0 <= k < i && k < available ==> out@[k] == start[k],
                forall|k: int| available <= k < i ==> out@[k] == 0,
            decreases out@.len() - i,
        {
            if i < available {
                let s = self.buffer.pop_front();
                proof {
                    assert(start.skip(i as int)[0] == start[i as int]);
                    assert(start.skip(i as int).skip(1) =~= start.skip(i + 1));
                }
                match s {
                    Some(v) => {
                        out[i] = v;
                    },
                    None => {},
                }
            } else {
                out[i] = 0;
            }
            i = i + 1;
        }
        proof {
            assert(out@ =~= start.take(available as int) + silence((out_len - available) as nat));
        }
        available
    }

    /// Discards every buffered sample.
    pub fn clear(&mut self)
        ensures
            final(self).wf(),
            final(self).max_samples() == old(self).max_samples(),
            final(self)@ == Seq::<i16>::empty(),
    {
        self.buffer.clear();
    }
}

proof fn lemma_keep_last_push(s: Seq<i16>, x: i16, max: nat)
    ensures
        ({
            let k = keep_last(s, max).push(x);
            if k.len() > max {
                k.drop_first() == keep_last(s.push(x), max)
            } else {
                k == keep_last(s.push(x), max)
            }
        }),
{
    let k = keep_last(s, max).push(x);
    if k.len() > max {
        assert(k.drop_first() =~= keep_last(s.push(x), max));
    } else {
        assert(k =~= keep_last(s.push(x), max));
    }
}

} // verus!
