//! The per-episode trace: parallel sequences of action, state, reward and a
//! diagnostic text, one entry per step.

use crate::fixed::{bits_of, fx_add, fx_add_v, Fx};
use vstd::prelude::*;

verus! {

/// The saturating sum of a sequence of fixed-point values, left to right.
pub open spec fn fx_sum_v(s: Seq<int>) -> int
    decreases s.len(),
{
    if s.len() == 0 {
        0
    } else {
        fx_add_v(fx_sum_v(s.drop_last()), s.last())
    }
}

pub struct History {
    pub a: Vec<usize>,
    pub s: Vec<usize>,
    pub r: Vec<Fx>,
    pub info: Vec<String>,
}

impl History {
    /// The four columns stay parallel.
    pub open spec fn wf(&self) -> bool {
        &&& self.s@.len() == self.a@.len()
        &&& self.r@.len() == self.a@.len()
        &&& self.info@.len() == self.a@.len()
    }

    /// The number of recorded steps.
    pub open spec fn len_v(&self) -> int {
        self.a@.len() as int
    }

    /// An empty trace.
    pub fn new() -> (h: History)
        ensures
            h.wf(),
            h.len_v() == 0,
    {
        History { a: Vec::new(), s: Vec::new(), r: Vec::new(), info: Vec::new() }
    }

    /// The number of recorded steps.
    pub fn len(&self) -> (n: usize)
        ensures
            n as int == self.len_v(),
    {
        self.a.len()
    }

    /// Appends one step to the trace.
    pub fn push(&mut self, a: usize, s: usize, r: Fx, info: String)
        requires
            old(self).wf(),
        ensures
            final(self).wf(),
            final(self).len_v() == old(self).len_v() + 1,
            final(self).a@ == old(self).a@.push(a),
            final(self).s@ == old(self).s@.push(s),
            final(self).r@ == old(self).r@.push(r),
            final(self).info@ == old(self).info@.push(info),
    {
        self.a.push(a);
        self.s.push(s);
        self.r.push(r);
        self.info.push(info);
    }

    /// The saturating sum of the recorded rewards: the episode's return.
    pub fn sum_r(&self) -> (t: Fx)
        ensures
            t@ == fx_sum_v(bits_of(self.r@)),
    {
        let ghost rbits = bits_of(self.r@);
        let mut t = Fx::zero();
        let mut i: usize = 0;
        while i < self.r.len()
            invariant
                i <= self.r@.len(),
                rbits == bits_of(self.r@),
                t@ == fx_sum_v(rbits.take(i as int)),
            decreases self.r@.len() - i,
        {
            proof {
                assert(rbits.take(i as int + 1).drop_last() =~= rbits.take(i as int));
                assert(rbits.take(i as int + 1).last() == self.r@[i as int]@);
            }
            t = fx_add(t, self.r[i]);
            i = i + 1;
        }
        proof {
            assert(rbits.take(self.r@.len() as int) =~= rbits);
        }
        t
    }
}

} // verus!
