//! The fixed-capacity sample history behind the chart: one ring per channel,
//! both advanced together.
//!
//! The rings start full of zero samples and stay exactly as long as they
//! were created: every poll tick drops the oldest sample of each channel and
//! appends one new sample to each, so the two channels can never fall out of
//! step, whether the tick's read succeeded or not.

use std::collections::VecDeque;
use vstd::prelude::*;

verus! {

/// A pair of equally long sample rings, voltage and current, in micro-units.
pub struct ChartHistory {
    volt: VecDeque<i64>,
    curr: VecDeque<i64>,
}

/// A ring after one tick: the oldest sample replaced by the newest.
pub open spec fn advanced(s: Seq<i64>, x: i64) -> Seq<i64> {
    s.drop_first().push(x)
}

/// A ring after a whole sequence of ticks, oldest tick first.
pub open spec fn advanced_all(s: Seq<i64>, xs: Seq<i64>) -> Seq<i64>
    decreases xs.len(),
{
    if xs.len() == 0 {
        s
    } else {
        advanced_all(advanced(s, xs[0]), xs.drop_first())
    }
}

/// A non-empty ring keeps its length across any sequence of ticks: each tick
/// removes exactly one sample and appends exactly one, whether the tick's
/// read succeeded or failed.
pub proof fn lemma_ring_length_invariant(s: Seq<i64>, xs: Seq<i64>)
    requires
        s.len() >= 1,
    ensures
        advanced_all(s, xs).len() == s.len(),
    decreases xs.len(),
{
    if xs.len() > 0 {
        lemma_ring_length_invariant(advanced(s, xs[0]), xs.drop_first());
    }
}

impl ChartHistory {
    pub closed spec fn volt_view(&self) -> Seq<i64> {
        self.volt@
    }

    pub closed spec fn curr_view(&self) -> Seq<i64> {
        self.curr@
    }

    /// Both channels hold the same number of samples, and at least one.
    pub open spec fn wf(&self) -> bool {
        self.volt_view().len() == self.curr_view().len() && self.volt_view().len() >= 1
    }

    /// A history of `cap` zero samples per channel.
    pub fn new(cap: usize) -> (r: ChartHistory)
        requires
            cap >= 1,
        ensures
            r.wf(),
            r.volt_view() =~= Seq::new(cap as nat, |i: int| 0i64),
            r.curr_view() =~= Seq::new(cap as nat, |i: int| 0i64),
    {
        let mut volt: VecDeque<i64> = VecDeque::with_capacity(cap);
        let mut curr: VecDeque<i64> = VecDeque::with_capacity(cap);
        let mut i: usize = 0;
        while i < cap
            invariant
                i <= cap,
                volt@.len() == i,
                curr@.len() == i,
                forall|j: int| 0 <= j < i ==> volt@[j] == 0i64 && curr@[j] == 0i64,
            decreases cap - i,
        {
            volt.push_back(0);
            curr.push_back(0);
            i = i + 1;
        }
        ChartHistory { volt, curr }
    }

    /// The number of samples each channel holds.
    pub fn len(&self) -> (r: usize)
        ensures
            r == self.volt_view().len(),
    {
        self.volt.len()
    }

    /// The most recent voltage sample.
    pub fn last_volt(&self) -> (r: i64)
        requires
            self.wf(),
        ensures
            r == self.volt_view().last(),
    {
        let n = self.volt.len();
        self.volt[n - 1]
    }

    /// The most recent current sample.
    pub fn last_curr(&self) -> (r: i64)
        requires
            self.wf(),
        ensures
            r == self.curr_view().last(),
    {
        let n = self.curr.len();
        self.curr[n - 1]
    }

    /// Advance both channels together by one sample.
    pub fn advance(&mut self, volt_uv: i64, curr_ua: i64)
        requires
            old(self).wf(),
        ensures
            final(self).wf(),
            final(self).volt_view() == advanced(old(self).volt_view(), volt_uv),
            final(self).curr_view() == advanced(old(self).curr_view(), curr_ua),
            final(self).volt_view().len() == old(self).volt_view().len(),
            final(self).curr_view().len() == old(self).curr_view().len(),
    {
        let _ = self.volt.pop_front();
        self.volt.push_back(volt_uv);
        let _ = self.curr.pop_front();
        self.curr.push_back(curr_ua);
        proof {
            assert(self.volt@ =~= advanced(old(self).volt_view(), volt_uv));
            assert(self.curr@ =~= advanced(old(self).curr_view(), curr_ua));
        }
    }

    /// The voltage samples, oldest first, for charting.
    pub fn volt_samples(&self) -> (r: Vec<i64>)
        ensures
            r@ == self.volt_view(),
    {
        let mut out: Vec<i64> = Vec::new();
        let n = self.volt.len();
        let mut i: usize = 0;
        while i < n
            invariant
                i <= n,
                n == self.volt@.len(),
                out@ =~= self.volt@.take(i as int),
            decreases n - i,
        {
            out.push(self.volt[i]);
            proof {
                assert(out@ =~= self.volt@.take(i + 1));
            }
            i = i + 1;
        }
        proof {
            assert(self.volt@.take(n as int) =~= self.volt@);
        }
        out
    }

    /// The current samples, oldest first, for charting.
    pub fn curr_samples(&self) -> (r: Vec<i64>)
        ensures
            r@ == self.curr_view(),
    {
        let mut out: Vec<i64> = Vec::new();
        let n = self.curr.len();
        let mut i: usize = 0;
        while i < n
            invariant
                i <= n,
                n == self.curr@.len(),
                out@ =~= self.curr@.take(i as int),
            decreases n - i,
        {
            out.push(self.curr[i]);
            proof {
                assert(out@ =~= self.curr@.take(i + 1));
            }
            i = i + 1;
        }
        proof {
            assert(self.curr@.take(n as int) =~= self.curr@);
        }
        out
    }
}

} // verus!
