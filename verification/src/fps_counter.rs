use std::collections::VecDeque;
use std::time::Duration;
use vstd::prelude::*;

verus! {

/// The whole number of microseconds in a `Duration`, as `Duration::as_micros` reports it.
pub uninterp spec fn micros_of(d: Duration) -> u128;

/// Calls `Duration::as_micros`; the result is named `micros_of(d)`.
#[verifier::external_body]
fn duration_as_micros(d: &Duration) -> (r: u128)
    ensures
        r == micros_of(*d),
{
    d.as_micros()
}

/// The `Duration` that `Duration::from_micros(micros)` makes.
pub uninterp spec fn duration_of_micros(micros: u64) -> Duration;

/// Calls `Duration::from_micros`; the result is named `duration_of_micros(micros)`.
/// std documents that the duration made holds exactly `micros` microseconds,
/// so its `as_micros` gives `micros` back.
#[verifier::external_body]
fn duration_from_micros(micros: u64) -> (d: Duration)
    ensures
        d == duration_of_micros(micros),
        micros_of(d) == micros as u128,
{
    Duration::from_micros(micros)
}

/// Sum of a sequence of samples, as a mathematical integer.
pub open spec fn sum_of(s: Seq<u32>) -> int
    decreases s.len(),
{
    if s.len() == 0 {
        0
    } else {
        s[0] + sum_of(s.drop_first())
    }
}

pub proof fn lemma_sum_push(s: Seq<u32>, x: u32)
    ensures
        sum_of(s.push(x)) == sum_of(s) + x,
    decreases s.len(),
{
    if s.len() > 0 {
        assert(s.push(x).drop_first() =~= s.drop_first().push(x));
        lemma_sum_push(s.drop_first(), x);
    } else {
        assert(s.push(x).drop_first() =~= s);
    }
}

pub proof fn lemma_sum_nonneg(s: Seq<u32>)
    ensures
        sum_of(s) >= 0,
    decreases s.len(),
{
    if s.len() > 0 {
        lemma_sum_nonneg(s.drop_first());
    }
}

/// Drops the oldest samples until the new one fits in the window, then appends it.
pub open spec fn evict_then_push(samples: Seq<u32>, sample: u32, window: u32) -> Seq<u32>
    decreases samples.len(),
{
    if samples.len() == 0 || sum_of(samples) + sample <= window {
        samples.push(sample)
    } else {
        evict_then_push(samples.drop_first(), sample, window)
    }
}

/// A sample shorter than the window is kept together with the newest old
/// samples that fit beside it: the result is a suffix of the old samples plus
/// the new one, its sum stays within the window, and no older sample could
/// have been kept as well.
pub proof fn law_samples_fit_window(samples: Seq<u32>, sample: u32, window: u32)
    requires
        sample < window,
    ensures
        sum_of(evict_then_push(samples, sample, window)) <= window,
        exists|k: int|
            0 <= k <= samples.len()
            && #[trigger] evict_then_push(samples, sample, window) == samples.subrange(k, samples.len() as int).push(sample)
            && (k > 0 ==> sum_of(samples.subrange(k - 1, samples.len() as int)) + sample > window),
    decreases samples.len(),
{
    if samples.len() == 0 || sum_of(samples) + sample <= window {
        lemma_sum_push(samples, sample);
        lemma_sum_nonneg(samples);
        assert(samples.subrange(0, samples.len() as int) =~= samples);
        assert(evict_then_push(samples, sample, window) == samples.subrange(0, samples.len() as int).push(sample));
    } else {
        let rest = samples.drop_first();
        law_samples_fit_window(rest, sample, window);
        let k = choose|k: int|
            0 <= k <= rest.len()
            && #[trigger] evict_then_push(rest, sample, window) == rest.subrange(k, rest.len() as int).push(sample)
            && (k > 0 ==> sum_of(rest.subrange(k - 1, rest.len() as int)) + sample > window);
        assert(rest.subrange(k, rest.len() as int) =~= samples.subrange(k + 1, samples.len() as int));
        if k > 0 {
            assert(rest.subrange(k - 1, rest.len() as int) =~= samples.subrange(k, samples.len() as int));
        } else {
            assert(samples.subrange(0, samples.len() as int) =~= samples);
        }
        assert(evict_then_push(samples, sample, window) == samples.subrange(k + 1, samples.len() as int).push(sample));
    }
}

/// The samples kept after a sample of `micros` microseconds is added.
pub open spec fn samples_after(samples: Seq<u32>, micros: u128, window: u32) -> Seq<u32> {
    if micros > u32::MAX as u128 {
        seq![u32::MAX]
    } else if micros >= window as u128 {
        seq![micros as u32]
    } else {
        evict_then_push(samples, micros as u32, window)
    }
}

/// The average of the samples in microseconds, as `average` computes it.
pub open spec fn average_micros(samples: Seq<u32>) -> int {
    if samples.len() == 0 || samples.len() > u32::MAX as nat {
        0
    } else {
        sum_of(samples) / (samples.len() as int)
    }
}

/// Adds a sample of `micros` microseconds to samples whose sum is `sum`.
fn push_sample(samples: &mut VecDeque<u32>, sum: &mut u32, window: u32, micros: u128)
    requires
        *old(sum) == sum_of(old(samples)@),
    ensures
        *final(sum) == sum_of(final(samples)@),
        final(samples)@ == samples_after(old(samples)@, micros, window),
{
    if micros > u32::MAX as u128 {
        samples.clear();
        samples.push_back(u32::MAX);
        *sum = u32::MAX;
        proof {
            assert(samples@ =~= seq![u32::MAX]);
            lemma_sum_push(Seq::<u32>::empty(), u32::MAX);
            assert(seq![u32::MAX] =~= Seq::<u32>::empty().push(u32::MAX));
        }
        return;
    }
    let value: u32 = micros as u32;
    if value >= window {
        samples.clear();
        samples.push_back(value);
        *sum = value;
        proof {
            assert(samples@ =~= seq![value]);
            lemma_sum_push(Seq::<u32>::empty(), value);
            assert(seq![value] =~= Seq::<u32>::empty().push(value));
        }
        return;
    }
    let ghost start = samples@;
    loop
        invariant
            *sum == sum_of(samples@),
            value < window,
            evict_then_push(samples@, value, window)
                == evict_then_push(start, value, window),
            start == old(samples)@,
            micros == value,
        decreases samples@.len(),
    {
        match (*sum).checked_add(value) {
            Some(total) if total <= window => {
                proof {
                    lemma_sum_push(samples@, value);
                    assert(evict_then_push(samples@, value, window)
                        == samples@.push(value));
                }
                *sum = total;
                samples.push_back(value);
                return;
            }
            _ => {
                let ghost before = samples@;
                match samples.pop_front() {
                    Some(first) => {
                        assert(samples@ =~= before.drop_first());
                        proof { lemma_sum_nonneg(before.drop_first()); }
                        *sum = *sum - first;
                    }
                    None => {
                        proof { assert(false); }
                        return;
                    }
                }
            }
        }
    }
}


proof fn lemma_sum_constant(s: Seq<u32>, v: u32)
    requires
        forall|i: int| 0 <= i < s.len() ==> s[i] == v,
    ensures
        sum_of(s) == s.len() * v,
    decreases s.len(),
{
    if s.len() > 0 {
        lemma_sum_constant(s.drop_first(), v);
        assert(v + (s.len() - 1) * v == s.len() * v) by (nonlinear_arith);
    }
}

/// The average is the truncated mean of the samples held: it times their
/// number is at most their sum, and one more times their number exceeds it.
pub proof fn law_average_is_truncated_mean(samples: Seq<u32>)
    requires
        0 < samples.len() <= u32::MAX,
    ensures
        average_micros(samples) * samples.len() <= sum_of(samples),
        sum_of(samples) < (average_micros(samples) + 1) * samples.len(),
{
    let n = samples.len() as int;
    let total = sum_of(samples);
    lemma_sum_nonneg(samples);
    let a = average_micros(samples);
    assert(a == total / n);
    assert(a * n <= total && total < (a + 1) * n) by (nonlinear_arith)
        requires n > 0, total >= 0, a == total / n;
}

/// Samples that all take one value average to that value.
pub proof fn law_equal_samples_average(samples: Seq<u32>, v: u32)
    requires
        0 < samples.len() <= u32::MAX,
        forall|i: int| 0 <= i < samples.len() ==> samples[i] == v,
    ensures
        average_micros(samples) == v,
{
    let n = samples.len() as int;
    let total = sum_of(samples);
    let a = average_micros(samples);
    law_average_is_truncated_mean(samples);
    lemma_sum_constant(samples, v);
    assert(a == v) by (nonlinear_arith)
        requires n > 0, total == n * v, a * n <= total, total < (a + 1) * n;
}

/// Averages frame times over a sliding window of time.
pub struct FpsCounter {
    samples: VecDeque<u32>,
    sum: u32,
    window: u32,
}

impl FpsCounter {
    /// The samples held, oldest first, in microseconds.
    pub closed spec fn samples(&self) -> Seq<u32> {
        self.samples@
    }

    /// The width of the window in microseconds.
    pub closed spec fn window(&self) -> u32 {
        self.window
    }

    #[verifier::type_invariant]
    closed spec fn wf(&self) -> bool {
        self.sum == sum_of(self.samples@)
    }

    /// Creates a counter with the given window.
    /// The window must fit in `u32` microseconds.
    pub fn new(window: Duration) -> (r: Self)
        requires
            micros_of(window) <= u32::MAX as u128,
        ensures
            r.window() == micros_of(window),
            r.samples() == Seq::<u32>::empty(),
    {
        let micros: u128 = duration_as_micros(&window);
        let window: u32 = micros as u32;
        FpsCounter { samples: VecDeque::new(), sum: 0, window }
    }

    /// Creates a counter, or returns `None` where the window does not fit in `u32` microseconds.
    pub fn try_new(window: Duration) -> (r: Option<Self>)
        ensures
            match r {
                Some(c) => {
                    &&& micros_of(window) <= u32::MAX as u128
                    &&& c.window() == micros_of(window)
                    &&& c.samples() == Seq::<u32>::empty()
                },
                None => micros_of(window) > u32::MAX as u128,
            },
    {
        let micros: u128 = duration_as_micros(&window);
        if micros <= u32::MAX as u128 {
            Some(Self::new(window))
        } else {
            None
        }
    }

    /// Adds a frame time, dropping the oldest samples so that the sum stays within the window.
    pub fn add_sample(&mut self, sample: Duration)
        ensures
            final(self).window() == old(self).window(),
            final(self).samples() == samples_after(old(self).samples(), micros_of(sample), old(self).window()),
    {
        proof {
            use_type_invariant(&*self);
        }
        let micros: u128 = duration_as_micros(&sample);
        let mut taken = FpsCounter { samples: VecDeque::new(), sum: 0, window: self.window };
        std::mem::swap(self, &mut taken);
        proof {
            use_type_invariant(&taken);
        }
        let FpsCounter { mut samples, mut sum, window } = taken;
        push_sample(&mut samples, &mut sum, window, micros);
        *self = FpsCounter { samples, sum, window };
    }

    /// The average of the samples held; zero when there are none.
    pub fn average(&self) -> (r: Duration)
        ensures
            r == duration_of_micros(average_micros(self.samples()) as u64),
            micros_of(r) == average_micros(self.samples()),
            0 < self.samples().len() <= u32::MAX ==> {
                &&& micros_of(r) * self.samples().len() <= sum_of(self.samples())
                &&& sum_of(self.samples()) < (micros_of(r) + 1) * self.samples().len()
            },
    {
        proof {
            use_type_invariant(self);
            if 0 < self.samples@.len() <= u32::MAX {
                law_average_is_truncated_mean(self.samples@);
            }
        }
        let len: usize = self.samples.len();
        let micros: u32 = if len == 0 {
            0
        } else if len <= u32::MAX as usize {
            let num: u32 = len as u32;
            self.sum / num
        } else {
            0
        };
        duration_from_micros(micros as u64)
    }
}

} // verus!
