//! The learning agent interface and the shared pieces of both agents.
//!
//! An agent chooses actions epsilon-greedily and updates one table entry per
//! step by a temporal-difference rule. The two concrete agents differ only
//! in the target they move the entry toward, so the trait exposes that
//! target as a per-implementation specification function and states the
//! update exactly at the trait level.

use crate::config::fx_key_v;
use crate::fixed::{bits_of, fx_add_v, fx_mul_v, fx_sub_v, Fx};
use crate::q_table::QTable;
use vstd::prelude::*;

pub mod q_learning;
pub mod sarsa;

verus! {

/// The configuration values an agent needs: its three hyperparameters.
pub open spec fn agent_config_ok(cfg: Seq<(Seq<char>, Seq<char>)>) -> bool {
    &&& fx_key_v(cfg, "AGENT_ALPHA"@) is Some
    &&& fx_key_v(cfg, "AGENT_GAMMA"@) is Some
    &&& fx_key_v(cfg, "AGENT_EPSILON"@) is Some
}

/// Position `j` holds the first maximum of `row`: no entry is greater, and
/// every earlier entry is strictly smaller.
pub open spec fn is_first_max(row: Seq<int>, j: int) -> bool {
    &&& 0 <= j < row.len()
    &&& forall|k: int| 0 <= k < row.len() ==> #[trigger] row[k] <= row[j]
    &&& forall|k: int| 0 <= k < j ==> #[trigger] row[k] < row[j]
}

/// The temporal-difference update: the stored value `q` moved toward the
/// target `t` by the fraction `alpha`.
pub open spec fn td_update_v(alpha: int, q: int, t: int) -> int {
    fx_add_v(q, fx_mul_v(alpha, fx_sub_v(t, q)))
}

/// The running maximum of a row, scanned left to right.
pub open spec fn seq_max_v(r: Seq<int>) -> int
    recommends
        r.len() >= 1,
    decreases r.len(),
{
    if r.len() <= 1 {
        r[0]
    } else {
        let m = seq_max_v(r.drop_last());
        if r.last() > m {
            r.last()
        } else {
            m
        }
    }
}

/// The row maximum bounds every entry and is itself an entry.
pub proof fn lemma_seq_max_props(r: Seq<int>)
    requires
        r.len() >= 1,
    ensures
        forall|j: int| 0 <= j < r.len() ==> #[trigger] r[j] <= seq_max_v(r),
        exists|j: int| 0 <= j < r.len() && #[trigger] r[j] == seq_max_v(r),
    decreases r.len(),
{
    if r.len() > 1 {
        lemma_seq_max_props(r.drop_last());
        let m = seq_max_v(r.drop_last());
        assert forall|j: int| 0 <= j < r.len() implies #[trigger] r[j] <= seq_max_v(r) by {
            if j < r.len() - 1 {
                assert(r.drop_last()[j] == r[j]);
                assert(r.drop_last()[j] <= m);
            }
        }
        let w = choose|j: int|
            0 <= j < r.drop_last().len() && #[trigger] r.drop_last()[j] == m;
        if r.last() > m {
            assert(r[r.len() - 1] == seq_max_v(r));
        } else {
            assert(r[w] == seq_max_v(r));
        }
    } else {
        assert(r[0] == seq_max_v(r));
    }
}

/// The first index of the strictly greatest value seen while scanning a row
/// left to right: every entry is at most the value there, and every earlier
/// entry is strictly below it, so ties go to the lowest index.
pub fn argmax(row: &Vec<Fx>) -> (best: usize)
    requires
        row@.len() >= 1,
    ensures
        (best as int) < row@.len(),
        forall|j: int| 0 <= j < row@.len() ==> (#[trigger] row@[j])@ <= row@[best as int]@,
        forall|j: int| 0 <= j < best as int ==> (#[trigger] row@[j])@ < row@[best as int]@,
{
    let mut best: usize = 0;
    let mut i: usize = 1;
    while i < row.len()
        invariant
            1 <= i <= row@.len(),
            (best as int) < i,
            forall|j: int| 0 <= j < i ==> (#[trigger] row@[j])@ <= row@[best as int]@,
            forall|j: int| 0 <= j < best as int ==> (#[trigger] row@[j])@ < row@[best as int]@,
        decreases row@.len() - i,
    {
        if row[i].bits > row[best].bits {
            best = i;
        }
        i = i + 1;
    }
    best
}

/// The greatest value of a row.
pub fn max_q(row: &Vec<Fx>) -> (m: Fx)
    requires
        row@.len() >= 1,
    ensures
        m@ == seq_max_v(bits_of(row@)),
{
    let ghost bits = bits_of(row@);
    let mut m: Fx = row[0];
    let mut i: usize = 1;
    while i < row.len()
        invariant
            1 <= i <= row@.len(),
            bits == bits_of(row@),
            m@ == seq_max_v(bits.take(i as int)),
        decreases row@.len() - i,
    {
        proof {
            assert(bits.take(i as int + 1).drop_last() =~= bits.take(i as int));
            assert(bits.take(i as int + 1).last() == row@[i as int]@);
        }
        if row[i].bits > m.bits {
            m = row[i];
        }
        i = i + 1;
    }
    proof {
        assert(bits.take(row@.len() as int) =~= bits);
    }
    m
}

/// A temporal-difference learning agent over a `QTable`.
pub trait Agent: Sized {
    /// The learning rate, in fixed-point units.
    spec fn alpha_v(&self) -> int;

    /// The discount factor, in fixed-point units.
    spec fn gamma_v(&self) -> int;

    /// The exploration rate, in fixed-point units.
    spec fn eps_v(&self) -> int;

    /// The temporal-difference target this agent moves `table[s1][a1]`
    /// toward, given the table, the observed reward and the next state and
    /// action.
    spec fn target_v(&self, q: Seq<Seq<int>>, r: int, s2: int, a2: int) -> int;

    /// Chooses the next action for state `s`: with probability epsilon a
    /// uniformly random action, otherwise the first action index of maximum
    /// value in the row for `s`. Only the agent's generator state changes,
    /// so with zero exploration the choice is deterministic: the first
    /// maximal entry of the row.
    fn a(&mut self, q_table: &QTable, s: usize) -> (act: usize)
        requires
            q_table.wf(),
            (s as int) < q_table.s_space_v(),
        ensures
            (act as int) < q_table.a_space_v(),
            old(self).eps_v() == 0 ==> is_first_max(q_table@[s as int], act as int),
            final(self).alpha_v() == old(self).alpha_v(),
            final(self).gamma_v() == old(self).gamma_v(),
            final(self).eps_v() == old(self).eps_v(),
            forall|q: Seq<Seq<int>>, r: int, s2: int, a2: int|
                #[trigger] final(self).target_v(q, r, s2, a2) == old(self).target_v(q, r, s2, a2),
    ;

    /// Moves `table[s1][a1]` toward the agent's target by the fraction
    /// `alpha`; nothing else in the table changes.
    fn learn(&self, q_table: &mut QTable, s1: usize, a1: usize, r: Fx, s2: usize, a2: usize)
        requires
            old(q_table).wf(),
            (s1 as int) < old(q_table).s_space_v(),
            (a1 as int) < old(q_table).a_space_v(),
            (s2 as int) < old(q_table).s_space_v(),
            (a2 as int) < old(q_table).a_space_v(),
        ensures
            final(q_table).wf(),
            final(q_table).s_space_v() == old(q_table).s_space_v(),
            final(q_table).a_space_v() == old(q_table).a_space_v(),
            final(q_table).init_q_v() == old(q_table).init_q_v(),
            final(q_table)@ == old(q_table)@.update(
                s1 as int,
                old(q_table)@[s1 as int].update(
                    a1 as int,
                    td_update_v(
                        self.alpha_v(),
                        old(q_table)@[s1 as int][a1 as int],
                        self.target_v(old(q_table)@, r@, s2 as int, a2 as int),
                    ),
                ),
            ),
    ;

    /// Freezes the agent for the evaluation episode: zero learning rate and
    /// zero exploration. The discount factor and the target rule keep their
    /// meaning, and the step is irreversible for this instance.
    fn fix(&mut self)
        ensures
            final(self).alpha_v() == 0,
            final(self).eps_v() == 0,
            final(self).gamma_v() == old(self).gamma_v(),
            forall|q: Seq<Seq<int>>, r: int, s2: int, a2: int|
                #[trigger] final(self).target_v(q, r, s2, a2) == old(self).target_v(q, r, s2, a2),
    ;
}

} // verus!
