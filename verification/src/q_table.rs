//! The dense state-action value table.
//!
//! A `QTable` holds one fixed-point value per (state, action) pair. It is
//! owned by the training loop and mutated only through `set` and `zero_row`.
//! Its view is the matrix of integer fixed-point bits, which is what every
//! learning contract in this crate speaks about.

use crate::fixed::{bits_of, Fx};
use vstd::bytes::{
    lemma_auto_spec_u64_to_from_le_bytes, spec_u64_from_le_bytes, spec_u64_to_le_bytes,
    u64_from_le_bytes, u64_to_le_bytes,
};
use vstd::prelude::*;
use vstd::slice::slice_subrange;

verus! {

/// The two's-complement 64-bit image of an `i64`-range integer.
pub open spec fn word_of_bits(b: int) -> u64
    recommends
        i64::MIN as int <= b <= i64::MAX as int,
{
    if b < 0 {
        (b + 0x1_0000_0000_0000_0000) as u64
    } else {
        b as u64
    }
}

/// The signed reading of a 64-bit word.
pub open spec fn bits_of_word(w: u64) -> int {
    if w >= 0x8000_0000_0000_0000u64 {
        w - 0x1_0000_0000_0000_0000
    } else {
        w as int
    }
}

/// The little-endian bytes of one row of entries, first entry first.
pub open spec fn encode_row_v(r: Seq<int>) -> Seq<u8>
    decreases r.len(),
{
    if r.len() == 0 {
        Seq::<u8>::empty()
    } else {
        spec_u64_to_le_bytes(word_of_bits(r[0])) + encode_row_v(r.drop_first())
    }
}

/// The little-endian bytes of all rows, first row first.
pub open spec fn encode_rows_v(t: Seq<Seq<int>>) -> Seq<u8>
    decreases t.len(),
{
    if t.len() == 0 {
        Seq::<u8>::empty()
    } else {
        encode_row_v(t[0]) + encode_rows_v(t.drop_first())
    }
}

/// The snapshot layout: the two dimensions and the initial value as three
/// little-endian 64-bit words, then every entry row-major.
pub open spec fn encode_v(ss: int, aa: int, init: int, t: Seq<Seq<int>>) -> Seq<u8> {
    spec_u64_to_le_bytes(ss as u64) + spec_u64_to_le_bytes(aa as u64) + spec_u64_to_le_bytes(
        word_of_bits(init),
    ) + encode_rows_v(t)
}

/// The signed values of every whole 64-bit word of a byte string.
pub open spec fn decode_words_v(b: Seq<u8>) -> Seq<int>
    decreases b.len(),
{
    if b.len() < 8 {
        Seq::<int>::empty()
    } else {
        seq![bits_of_word(spec_u64_from_le_bytes(b.subrange(0, 8)))] + decode_words_v(b.skip(8))
    }
}

/// The reading of a snapshot: `None` unless the byte string is exactly a
/// 24-byte header announcing positive dimensions followed by that many
/// entry words; otherwise the dimensions, the initial value and the entry
/// matrix.
pub open spec fn decode_v(b: Seq<u8>) -> Option<(int, int, int, Seq<Seq<int>>)> {
    if b.len() < 24 {
        None
    } else {
        let ss = spec_u64_from_le_bytes(b.subrange(0, 8)) as int;
        let aa = spec_u64_from_le_bytes(b.subrange(8, 16)) as int;
        let init = bits_of_word(spec_u64_from_le_bytes(b.subrange(16, 24)));
        if 1 <= ss && 1 <= aa && b.len() == 24 + 8 * ss * aa {
            let ws = decode_words_v(b.skip(24));
            Some(
                (
                    ss,
                    aa,
                    init,
                    Seq::new(ss as nat, |i: int| ws.subrange(i * aa, i * aa + aa)),
                ),
            )
        } else {
            None
        }
    }
}

/// All entries of a row are in the `i64` range.
pub open spec fn row_in_range(r: Seq<int>) -> bool {
    forall|j: int| 0 <= j < r.len() ==> i64::MIN as int <= #[trigger] r[j] <= i64::MAX as int
}

/// Reading back a written word restores the value.
pub proof fn lemma_word_round_trip(b: int)
    requires
        i64::MIN as int <= b <= i64::MAX as int,
    ensures
        bits_of_word(word_of_bits(b)) == b,
{
}

proof fn lemma_encode_row_len(r: Seq<int>)
    ensures
        encode_row_v(r).len() == 8 * r.len(),
    decreases r.len(),
{
    lemma_auto_spec_u64_to_from_le_bytes();
    if r.len() > 0 {
        lemma_encode_row_len(r.drop_first());
    }
}

proof fn lemma_encode_rows_len(t: Seq<Seq<int>>, aa: int)
    requires
        forall|i: int| 0 <= i < t.len() ==> (#[trigger] t[i]).len() == aa,
    ensures
        encode_rows_v(t).len() == 8 * aa * t.len(),
    decreases t.len(),
{
    if t.len() > 0 {
        lemma_encode_row_len(t[0]);
        lemma_encode_rows_len(t.drop_first(), aa);
        assert(8 * aa + 8 * aa * (t.len() - 1) == 8 * aa * t.len()) by (nonlinear_arith);
    }
}

proof fn lemma_encode_row_push(r: Seq<int>, x: int)
    ensures
        encode_row_v(r.push(x)) == encode_row_v(r) + spec_u64_to_le_bytes(word_of_bits(x)),
    decreases r.len(),
{
    let rp = r.push(x);
    let wx = spec_u64_to_le_bytes(word_of_bits(x));
    assert(rp.len() == r.len() + 1);
    if r.len() == 0 {
        assert(rp[0] == x);
        assert(rp.drop_first() =~= Seq::<int>::empty());
        assert(encode_row_v(rp) == spec_u64_to_le_bytes(word_of_bits(rp[0])) + encode_row_v(
            rp.drop_first(),
        ));
        assert(encode_row_v(Seq::<int>::empty()) == Seq::<u8>::empty());
        assert(encode_row_v(rp) =~= encode_row_v(r) + wx);
    } else {
        assert(rp[0] == r[0]);
        assert(rp.drop_first() =~= r.drop_first().push(x));
        lemma_encode_row_push(r.drop_first(), x);
        assert(encode_row_v(rp) == spec_u64_to_le_bytes(word_of_bits(rp[0])) + encode_row_v(
            rp.drop_first(),
        ));
        assert(encode_row_v(r) == spec_u64_to_le_bytes(word_of_bits(r[0])) + encode_row_v(
            r.drop_first(),
        ));
        assert(encode_row_v(rp) =~= encode_row_v(r) + wx);
    }
}

proof fn lemma_encode_rows_push(t: Seq<Seq<int>>, r: Seq<int>)
    ensures
        encode_rows_v(t.push(r)) == encode_rows_v(t) + encode_row_v(r),
    decreases t.len(),
{
    let tp = t.push(r);
    assert(tp.len() == t.len() + 1);
    if t.len() == 0 {
        assert(tp[0] == r);
        assert(tp.drop_first() =~= Seq::<Seq<int>>::empty());
        assert(encode_rows_v(tp) == encode_row_v(tp[0]) + encode_rows_v(tp.drop_first()));
        assert(encode_rows_v(Seq::<Seq<int>>::empty()) == Seq::<u8>::empty());
        assert(encode_rows_v(tp) =~= encode_rows_v(t) + encode_row_v(r));
    } else {
        assert(tp[0] == t[0]);
        assert(tp.drop_first() =~= t.drop_first().push(r));
        lemma_encode_rows_push(t.drop_first(), r);
        assert(encode_rows_v(tp) == encode_row_v(tp[0]) + encode_rows_v(tp.drop_first()));
        assert(encode_rows_v(t) == encode_row_v(t[0]) + encode_rows_v(t.drop_first()));
        assert(encode_rows_v(tp) =~= encode_rows_v(t) + encode_row_v(r));
    }
}

proof fn lemma_decode_words_len(b: Seq<u8>)
    ensures
        decode_words_v(b).len() == b.len() as int / 8,
    decreases b.len(),
{
    if b.len() >= 8 {
        lemma_decode_words_len(b.skip(8));
        assert((b.len() - 8) as int / 8 + 1 == b.len() as int / 8) by (nonlinear_arith);
    }
}

proof fn lemma_decode_words_index(b: Seq<u8>, k: int)
    requires
        0 <= k,
        8 * k + 8 <= b.len(),
    ensures
        decode_words_v(b).len() > k,
        decode_words_v(b)[k] == bits_of_word(
            spec_u64_from_le_bytes(b.subrange(8 * k, 8 * k + 8)),
        ),
    decreases k,
{
    lemma_decode_words_len(b);
    vstd::arithmetic::div_mod::lemma_div_multiples_vanish_fancy(b.len() as int / 8, 0, 8);
    assert(decode_words_v(b).len() > k) by {
        assert(b.len() as int / 8 > k) by (nonlinear_arith)
            requires
                8 * k + 8 <= b.len(),
                b.len() as int / 8 * 8 + b.len() as int % 8 == b.len() as int,
                0 <= b.len() as int % 8 < 8,
        ;
    }
    if k == 0 {
    } else {
        lemma_decode_words_index(b.skip(8), k - 1);
        assert(b.skip(8).subrange(8 * (k - 1), 8 * (k - 1) + 8) =~= b.subrange(
            8 * k,
            8 * k + 8,
        ));
    }
}

/// One row's bytes followed by anything decode to the row followed by the
/// decoding of the rest.
proof fn lemma_decode_words_encode_row(r: Seq<int>, rest: Seq<u8>)
    requires
        row_in_range(r),
    ensures
        decode_words_v(encode_row_v(r) + rest) == r + decode_words_v(rest),
    decreases r.len(),
{
    lemma_auto_spec_u64_to_from_le_bytes();
    if r.len() == 0 {
        assert(encode_row_v(r) + rest =~= rest);
        assert(r + decode_words_v(rest) =~= decode_words_v(rest));
    } else {
        let w = spec_u64_to_le_bytes(word_of_bits(r[0]));
        let tail = encode_row_v(r.drop_first()) + rest;
        assert(encode_row_v(r) + rest =~= w + tail);
        assert((w + tail).subrange(0, 8) =~= w);
        assert((w + tail).skip(8) =~= tail);
        lemma_word_round_trip(r[0]);
        assert(row_in_range(r.drop_first()));
        lemma_decode_words_encode_row(r.drop_first(), rest);
        assert(decode_words_v(w + tail) =~= r + decode_words_v(rest));
    }
}

/// The flattening of a row matrix, first row first.
pub open spec fn flat_v(t: Seq<Seq<int>>) -> Seq<int>
    decreases t.len(),
{
    if t.len() == 0 {
        Seq::<int>::empty()
    } else {
        t[0] + flat_v(t.drop_first())
    }
}

proof fn lemma_decode_words_encode_rows(t: Seq<Seq<int>>, rest: Seq<u8>)
    requires
        forall|i: int| 0 <= i < t.len() ==> row_in_range(#[trigger] t[i]),
    ensures
        decode_words_v(encode_rows_v(t) + rest) == flat_v(t) + decode_words_v(rest),
    decreases t.len(),
{
    if t.len() == 0 {
        assert(encode_rows_v(t) + rest =~= rest);
        assert(flat_v(t) + decode_words_v(rest) =~= decode_words_v(rest));
    } else {
        assert(encode_rows_v(t) + rest =~= encode_row_v(t[0]) + (encode_rows_v(t.drop_first())
            + rest));
        lemma_decode_words_encode_rows(t.drop_first(), rest);
        lemma_decode_words_encode_row(t[0], encode_rows_v(t.drop_first()) + rest);
        assert(decode_words_v(encode_rows_v(t) + rest) =~= flat_v(t) + decode_words_v(rest));
    }
}

proof fn lemma_flat_len(t: Seq<Seq<int>>, aa: int)
    requires
        forall|i: int| 0 <= i < t.len() ==> (#[trigger] t[i]).len() == aa,
    ensures
        flat_v(t).len() == aa * t.len(),
    decreases t.len(),
{
    if t.len() > 0 {
        lemma_flat_len(t.drop_first(), aa);
        assert(aa + aa * (t.len() - 1) == aa * t.len()) by (nonlinear_arith);
    }
}

proof fn lemma_flat_chunk(t: Seq<Seq<int>>, aa: int, i: int)
    requires
        aa >= 0,
        forall|k: int| 0 <= k < t.len() ==> (#[trigger] t[k]).len() == aa,
        0 <= i < t.len(),
    ensures
        flat_v(t).subrange(i * aa, i * aa + aa) == t[i],
    decreases i,
{
    lemma_flat_len(t, aa);
    assert(0 <= i * aa && i * aa + aa <= aa * t.len()) by (nonlinear_arith)
        requires
            aa >= 0,
            0 <= i < t.len(),
    ;
    lemma_flat_len(t.drop_first(), aa);
    if i == 0 {
        assert(i * aa == 0) by (nonlinear_arith)
            requires
                i == 0,
        ;
        assert(flat_v(t).subrange(0, aa) =~= t[0]);
        assert(flat_v(t).subrange(i * aa, i * aa + aa) == t[i]);
    } else {
        lemma_flat_chunk(t.drop_first(), aa, i - 1);
        assert((i - 1) * aa == i * aa - aa) by (nonlinear_arith);
        assert(i * aa >= aa) by (nonlinear_arith)
            requires
                i >= 1,
                aa >= 0,
        ;
        assert(flat_v(t).subrange(i * aa, i * aa + aa) =~= flat_v(t.drop_first()).subrange(
            (i - 1) * aa,
            (i - 1) * aa + aa,
        ));
        assert(flat_v(t).subrange(i * aa, i * aa + aa) == t[i]);
    }
}

/// Law: reading back a written snapshot restores the dimensions, the
/// initial value, and every entry of the table.
pub proof fn lemma_snapshot_round_trip(ss: int, aa: int, init: int, t: Seq<Seq<int>>)
    requires
        1 <= ss <= u64::MAX as int,
        1 <= aa <= u64::MAX as int,
        i64::MIN as int <= init <= i64::MAX as int,
        t.len() == ss,
        forall|i: int| 0 <= i < t.len() ==> (#[trigger] t[i]).len() == aa,
        forall|i: int| 0 <= i < t.len() ==> row_in_range(#[trigger] t[i]),
    ensures
        decode_v(encode_v(ss, aa, init, t)) == Some((ss, aa, init, t)),
{
    lemma_auto_spec_u64_to_from_le_bytes();
    let b = encode_v(ss, aa, init, t);
    let h0 = spec_u64_to_le_bytes(ss as u64);
    let h1 = spec_u64_to_le_bytes(aa as u64);
    let h2 = spec_u64_to_le_bytes(word_of_bits(init));
    let body = encode_rows_v(t);
    lemma_encode_rows_len(t, aa);
    assert(b.subrange(0, 8) =~= h0);
    assert(b.subrange(8, 16) =~= h1);
    assert(b.subrange(16, 24) =~= h2);
    assert(b.skip(24) =~= body);
    lemma_word_round_trip(init);
    assert(8 * aa * t.len() == 8 * (ss * aa)) by (nonlinear_arith)
        requires
            t.len() == ss,
    ;
    assert(b.len() == 24 + 8 * ss * aa) by (nonlinear_arith)
        requires
            b.len() == 24 + 8 * aa * t.len(),
            t.len() == ss,
    ;
    assert(body + Seq::<u8>::empty() =~= body);
    lemma_decode_words_encode_rows(t, Seq::<u8>::empty());
    let ws = decode_words_v(body);
    assert(ws =~= flat_v(t));
    let chunks = Seq::new(ss as nat, |i: int| ws.subrange(i * aa, i * aa + aa));
    assert forall|i: int| 0 <= i < ss implies chunks[i] == t[i] by {
        lemma_flat_chunk(t, aa, i);
    }
    assert(chunks =~= t);
}

pub struct QTable {
    s_space: usize,
    a_space: usize,
    init_q: Fx,
    table: Vec<Vec<Fx>>,
}

impl View for QTable {
    type V = Seq<Seq<int>>;

    closed spec fn view(&self) -> Seq<Seq<int>> {
        self.table@.map(|i: int, row: Vec<Fx>| bits_of(row@))
    }
}

impl QTable {
    /// The number of states, as the contracts see it.
    pub closed spec fn s_space_v(&self) -> int {
        self.s_space as int
    }

    /// The number of actions, as the contracts see it.
    pub closed spec fn a_space_v(&self) -> int {
        self.a_space as int
    }

    /// The configured initial value, as the contracts see it.
    pub closed spec fn init_q_v(&self) -> int {
        self.init_q@
    }

    /// Well-formedness: the table is a non-degenerate `s_space` by `a_space`
    /// matrix.
    pub open spec fn wf(&self) -> bool {
        &&& self@.len() == self.s_space_v()
        &&& 1 <= self.s_space_v()
        &&& 1 <= self.a_space_v()
        &&& forall|i: int| 0 <= i < self@.len() ==> (#[trigger] self@[i]).len() == self.a_space_v()
    }

    /// Builds a table with every entry set to `init_q`.
    pub fn new(init_q: Fx, s_space: usize, a_space: usize) -> (t: QTable)
        requires
            1 <= s_space,
            1 <= a_space,
        ensures
            t.wf(),
            t.s_space_v() == s_space,
            t.a_space_v() == a_space,
            t.init_q_v() == init_q@,
            forall|i: int, j: int|
                0 <= i < s_space && 0 <= j < a_space ==> t@[i][j] == init_q@,
    {
        let mut table: Vec<Vec<Fx>> = Vec::new();
        for i in 0..s_space
            invariant
                table@.len() == i,
                forall|k: int|
                    0 <= k < i ==> (#[trigger] table@[k])@.len() == a_space,
                forall|k: int, j: int|
                    0 <= k < i && 0 <= j < a_space ==> (#[trigger] table@[k]@[j])@ == init_q@,
        {
            let mut row: Vec<Fx> = Vec::new();
            for j in 0..a_space
                invariant
                    row@.len() == j,
                    forall|l: int| 0 <= l < j ==> (#[trigger] row@[l])@ == init_q@,
            {
                row.push(init_q);
            }
            table.push(row);
        }
        QTable { s_space, a_space, init_q, table }
    }

    /// Reads the number of states.
    pub fn s_space(&self) -> (n: usize)
        ensures
            n as int == self.s_space_v(),
    {
        self.s_space
    }

    /// Reads the number of actions.
    pub fn a_space(&self) -> (n: usize)
        ensures
            n as int == self.a_space_v(),
    {
        self.a_space
    }

    /// Reads the configured initial value.
    pub fn init_q(&self) -> (v: Fx)
        ensures
            v@ == self.init_q_v(),
    {
        self.init_q
    }

    /// Reads one entry.
    pub fn get(&self, s: usize, a: usize) -> (v: Fx)
        requires
            self.wf(),
            (s as int) < self.s_space_v(),
            (a as int) < self.a_space_v(),
        ensures
            v@ == self@[s as int][a as int],
    {
        proof {
            assert(self@[s as int] == bits_of(self.table@[s as int]@));
        }
        self.table[s][a]
    }

    /// Borrows one row, for action selection over its values.
    pub fn row(&self, s: usize) -> (r: &Vec<Fx>)
        requires
            self.wf(),
            (s as int) < self.s_space_v(),
        ensures
            bits_of(r@) == self@[s as int],
            r@.len() as int == self.a_space_v(),
    {
        proof {
            assert(self@[s as int] == bits_of(self.table@[s as int]@));
        }
        &self.table[s]
    }

    /// Overwrites one entry, leaving every other entry and the shape
    /// unchanged.
    pub fn set(&mut self, s: usize, a: usize, v: Fx)
        requires
            old(self).wf(),
            (s as int) < old(self).s_space_v(),
            (a as int) < old(self).a_space_v(),
        ensures
            final(self).wf(),
            final(self).s_space_v() == old(self).s_space_v(),
            final(self).a_space_v() == old(self).a_space_v(),
            final(self).init_q_v() == old(self).init_q_v(),
            final(self)@ == old(self)@.update(
                s as int,
                old(self)@[s as int].update(a as int, v@),
            ),
    {
        proof {
            assert(old(self)@[s as int] == bits_of(old(self).table@[s as int]@));
        }
        self.table[s][a] = v;
        proof {
            assert(self@ =~~= old(self)@.update(
                s as int,
                old(self)@[s as int].update(a as int, v@),
            ));
        }
    }

    /// Every entry of a table's view is the value of one stored machine
    /// word, hence in the `i64` range: the fact `lemma_snapshot_round_trip`
    /// asks of an arbitrary table.
    pub proof fn lemma_entries_in_range(&self)
        ensures
            forall|i: int| 0 <= i < self@.len() ==> row_in_range(#[trigger] self@[i]),
    {
        assert forall|i: int| 0 <= i < self@.len() implies row_in_range(#[trigger] self@[i]) by {
            assert(self@[i] == bits_of(self.table@[i]@));
            assert forall|j: int| 0 <= j < self@[i].len() implies i64::MIN as int <= #[trigger] self@[i][j]
                <= i64::MAX as int by {
                assert(self@[i][j] == self.table@[i]@[j]@);
            }
        }
    }

    /// Forces every action value of one state to zero: the terminal
    /// absorption rule applied to a state the episode ends in.
    pub fn zero_row(&mut self, s: usize)
        requires
            old(self).wf(),
            (s as int) < old(self).s_space_v(),
        ensures
            final(self).wf(),
            final(self).s_space_v() == old(self).s_space_v(),
            final(self).a_space_v() == old(self).a_space_v(),
            final(self).init_q_v() == old(self).init_q_v(),
            final(self)@ == old(self)@.update(
                s as int,
                Seq::new(old(self).a_space_v() as nat, |j: int| 0int),
            ),
    {
        let a_space = self.a_space;
        let mut j: usize = 0;
        while j < a_space
            invariant
                self.wf(),
                j <= a_space,
                self.s_space_v() == old(self).s_space_v(),
                self.a_space_v() == old(self).a_space_v(),
                self.a_space_v() == a_space as int,
                self.init_q_v() == old(self).init_q_v(),
                (s as int) < self.s_space_v(),
                forall|k: int| 0 <= k < j ==> self@[s as int][k] == 0int,
                forall|i: int| 0 <= i < self@.len() && i != s as int ==> self@[i] == old(self)@[i],
                forall|k: int| j <= k < a_space ==> self@[s as int][k] == old(self)@[s as int][k],
            decreases a_space - j,
        {
            self.set(s, j, Fx::zero());
            j = j + 1;
        }
        proof {
            assert(self@ =~~= old(self)@.update(
                s as int,
                Seq::new(old(self).a_space_v() as nat, |j: int| 0int),
            ));
        }
    }
}

fn word_bits(b: i64) -> (w: u64)
    ensures
        w == word_of_bits(b as int),
{
    if b < 0 {
        ((b as i128) + 0x1_0000_0000_0000_0000i128) as u64
    } else {
        b as u64
    }
}

fn bits_word(w: u64) -> (b: i64)
    ensures
        b as int == bits_of_word(w),
{
    if w >= 0x8000_0000_0000_0000u64 {
        let off: u64 = w - 0x8000_0000_0000_0000u64;
        (off as i64) + i64::MIN
    } else {
        w as i64
    }
}

impl QTable {
    /// Writes the snapshot of the table: dimensions, initial value, and
    /// every entry, in the fixed little-endian layout of `encode_v`.
    pub fn to_bytes(&self) -> (out: Vec<u8>)
        requires
            self.wf(),
        ensures
            out@ == encode_v(self.s_space_v(), self.a_space_v(), self.init_q_v(), self@),
    {
        proof {
            lemma_auto_spec_u64_to_from_le_bytes();
        }
        let mut out = u64_to_le_bytes(self.s_space as u64);
        let mut h1 = u64_to_le_bytes(self.a_space as u64);
        out.append(&mut h1);
        let mut h2 = u64_to_le_bytes(word_bits(self.init_q.bits));
        out.append(&mut h2);
        let ghost header = out@;
        let s_space = self.s_space;
        let a_space = self.a_space;
        let mut i: usize = 0;
        while i < s_space
            invariant
                self.wf(),
                i <= s_space,
                s_space as int == self.s_space_v(),
                a_space as int == self.a_space_v(),
                out@ == header + encode_rows_v(self@.take(i as int)),
                header == spec_u64_to_le_bytes(self.s_space_v() as u64) + spec_u64_to_le_bytes(
                    self.a_space_v() as u64,
                ) + spec_u64_to_le_bytes(word_of_bits(self.init_q_v())),
            decreases s_space - i,
        {
            let ghost row = self@[i as int];
            let ghost rows_done = encode_rows_v(self@.take(i as int));
            let mut j: usize = 0;
            while j < a_space
                invariant
                    self.wf(),
                    i < s_space,
                    j <= a_space,
                    s_space as int == self.s_space_v(),
                    a_space as int == self.a_space_v(),
                    row == self@[i as int],
                    rows_done == encode_rows_v(self@.take(i as int)),
                    out@ == header + rows_done + encode_row_v(row.take(j as int)),
                decreases a_space - j,
            {
                let mut wb = u64_to_le_bytes(word_bits(self.get(i, j).bits));
                out.append(&mut wb);
                proof {
                    lemma_encode_row_push(row.take(j as int), row[j as int]);
                    assert(row.take(j as int).push(row[j as int]) =~= row.take(j as int + 1));
                }
                j = j + 1;
            }
            proof {
                assert(row.take(a_space as int) =~= row);
                lemma_encode_rows_push(self@.take(i as int), row);
                assert(self@.take(i as int).push(row) =~= self@.take(i as int + 1));
            }
            i = i + 1;
        }
        proof {
            assert(self@.take(s_space as int) =~= self@);
        }
        out
    }

    /// Reads a snapshot back. Returns a table exactly when the bytes are a
    /// well-formed snapshot (see `decode_v`), and then the table carries the
    /// decoded dimensions, initial value and entries.
    pub fn from_bytes(bytes: &Vec<u8>) -> (r: Option<QTable>)
        ensures
            r is Some <==> decode_v(bytes@) is Some,
            r matches Some(t) ==> t.wf() && decode_v(bytes@) == Some(
                (t.s_space_v(), t.a_space_v(), t.init_q_v(), t@),
            ),
    {
        let n = bytes.len();
        if n < 24 {
            return None;
        }
        let sl = bytes.as_slice();
        let w0 = u64_from_le_bytes(slice_subrange(sl, 0, 8));
        let w1 = u64_from_le_bytes(slice_subrange(sl, 8, 16));
        let w2 = u64_from_le_bytes(slice_subrange(sl, 16, 24));
        proof {
            assert(sl@.subrange(0, 8) =~= bytes@.subrange(0, 8));
            assert(sl@.subrange(8, 16) =~= bytes@.subrange(8, 16));
            assert(sl@.subrange(16, 24) =~= bytes@.subrange(16, 24));
        }
        let ghost dss = spec_u64_from_le_bytes(bytes@.subrange(0, 8)) as int;
        let ghost daa = spec_u64_from_le_bytes(bytes@.subrange(8, 16)) as int;
        if w0 < 1 || w1 < 1 {
            return None;
        }
        if w0 > usize::MAX as u64 || w1 > usize::MAX as u64 {
            proof {
                assert(24 + 8 * dss * daa != n as int) by (nonlinear_arith)
                    requires
                        dss >= 1,
                        daa >= 1,
                        dss > usize::MAX as int || daa > usize::MAX as int,
                        n <= usize::MAX,
                ;
            }
            return None;
        }
        let ss = w0 as usize;
        let aa = w1 as usize;
        let body = n - 24;
        if body % 8 != 0 {
            proof {
                vstd::arithmetic::div_mod::lemma_mod_multiples_basic(dss * daa, 8);
                assert(8 * dss * daa == dss * daa * 8) by (nonlinear_arith);
            }
            return None;
        }
        let words_avail = body / 8;
        if words_avail % aa != 0 || words_avail / aa != ss {
            proof {
                if n as int == 24 + 8 * dss * daa {
                    vstd::arithmetic::div_mod::lemma_mod_multiples_basic(dss, daa);
                    vstd::arithmetic::div_mod::lemma_div_by_multiple(dss, daa);
                    assert(8 * dss * daa == dss * daa * 8) by (nonlinear_arith);
                    vstd::arithmetic::div_mod::lemma_div_by_multiple(dss * daa, 8);
                    assert(words_avail as int == dss * daa);
                }
            }
            return None;
        }
        proof {
            vstd::arithmetic::div_mod::lemma_fundamental_div_mod(words_avail as int, daa);
            assert(words_avail as int == dss * daa) by (nonlinear_arith)
                requires
                    words_avail as int == daa * dss + 0,
            ;
            assert(8 * (dss * daa) == 8 * dss * daa) by (nonlinear_arith);
        }
        let ghost dwords = decode_words_v(bytes@.skip(24));
        let mut flat: Vec<i64> = Vec::new();
        let mut k: usize = 0;
        while k < words_avail
            invariant
                k <= words_avail,
                n == bytes@.len(),
                24 <= n <= usize::MAX,
                8 * words_avail == n - 24,
                sl@ == bytes@,
                dwords == decode_words_v(bytes@.skip(24)),
                flat@.len() == k,
                forall|m: int| 0 <= m < k ==> (#[trigger] flat@[m]) as int == dwords[m],
            decreases words_avail - k,
        {
            let w = u64_from_le_bytes(slice_subrange(sl, 24 + 8 * k, 32 + 8 * k));
            proof {
                lemma_decode_words_index(bytes@.skip(24), k as int);
                assert(bytes@.skip(24).subrange(8 * (k as int), 8 * (k as int) + 8) =~= sl@.subrange(
                    24 + 8 * (k as int),
                    32 + 8 * (k as int),
                ));
            }
            flat.push(bits_word(w));
            k = k + 1;
        }
        let mut table: Vec<Vec<Fx>> = Vec::new();
        let mut i: usize = 0;
        while i < ss
            invariant
                i <= ss,
                1 <= ss,
                1 <= aa,
                words_avail as int == ss as int * aa as int,
                flat@.len() == words_avail,
                forall|m: int| 0 <= m < words_avail ==> (#[trigger] flat@[m]) as int == dwords[m],
                table@.len() == i,
                forall|p: int| 0 <= p < i ==> (#[trigger] table@[p])@.len() == aa,
                forall|p: int, q: int|
                    0 <= p < i && 0 <= q < aa ==> (#[trigger] table@[p]@[q])@ == dwords[p * (
                    aa as int) + q],
            decreases ss - i,
        {
            let mut row: Vec<Fx> = Vec::new();
            let mut j: usize = 0;
            proof {
                assert(i as int * aa as int + aa as int <= ss as int * aa as int)
                    by (nonlinear_arith)
                    requires
                        0 <= i < ss,
                        0 <= aa,
                ;
                assert(0 <= i as int * aa as int) by (nonlinear_arith)
                    requires
                        0 <= i,
                        0 <= aa,
                ;
            }
            while j < aa
                invariant
                    j <= aa,
                    i < ss,
                    words_avail as int == ss as int * aa as int,
                    i as int * aa as int + aa as int <= words_avail as int,
                    0 <= i as int * aa as int,
                    flat@.len() == words_avail,
                    forall|m: int|
                        0 <= m < words_avail ==> (#[trigger] flat@[m]) as int == dwords[m],
                    row@.len() == j,
                    forall|q: int|
                        0 <= q < j ==> (#[trigger] row@[q])@ == dwords[i as int * (aa as int) + q],
                decreases aa - j,
            {
                let idx = i * aa + j;
                row.push(Fx { bits: flat[idx] });
                j = j + 1;
            }
            table.push(row);
            i = i + 1;
        }
        let t = QTable { s_space: ss, a_space: aa, init_q: Fx { bits: bits_word(w2) }, table };
        proof {
            let ghost chunks = Seq::new(
                dss as nat,
                |p: int| dwords.subrange(p * daa, p * daa + daa),
            );
            lemma_decode_words_len(bytes@.skip(24));
            vstd::arithmetic::div_mod::lemma_div_by_multiple(words_avail as int, 8);
            assert(8 * words_avail == words_avail as int * 8) by (nonlinear_arith);
            assert(dwords.len() == words_avail);
            assert forall|p: int| 0 <= p < dss implies t@[p] == chunks[p] by {
                assert(0 <= p * daa && p * daa + daa <= dwords.len()) by (nonlinear_arith)
                    requires
                        0 <= p < dss,
                        1 <= daa,
                        dwords.len() == dss * daa,
                ;
                assert(t@[p] == bits_of(t.table@[p]@));
                assert forall|q: int| 0 <= q < daa implies t@[p][q] == chunks[p][q] by {
                    assert(t.table@[p]@[q]@ == dwords[p * daa + q]);
                }
                assert(t@[p] =~= chunks[p]);
            }
            assert(t@ =~= chunks);
            assert(decode_v(bytes@) == Some((dss, daa, t.init_q_v(), chunks)));
        }
        Some(t)
    }
}

} // verus!
