//! The message scheduler: owns the selector and advice column layout,
//! registers the polynomial identities with the constraint system at
//! configuration time, and lays out the witness cells for all 64 schedule
//! words of one block during assignment.

use vstd::prelude::*;
use crate::expr::{Column, ColumnKind, ColumnQuery};
use crate::field::{fmul, modulus};
use crate::gates::{
    Gate, decompose_0_poly, decompose_1_poly, decompose_2_poly, decompose_3_poly, s_word_poly,
    s22_poly, s23_poly, lower_sigma_0_poly, lower_sigma_1_poly, lower_sigma_0_v2_poly,
    lower_sigma_1_v2_poly,
};
use crate::schedule::{schedule_word, expand_message, sigma_0, sigma_1, reduce_spread_sum};
use crate::spread::interleave_u16_with_zeros;
use crate::system::{Cell, ConstraintSystem, Region};

verus! {

/// Rows taken by the (16, 16) decomposition block.
pub const DECOMPOSE_0_ROWS: usize = 2;

/// Rows taken by the (3, 4, 11, 14) decomposition block.
pub const DECOMPOSE_1_ROWS: usize = 2;

/// Rows taken by the (3, 4, 3, 7, 1, 1, 13) decomposition block.
pub const DECOMPOSE_2_ROWS: usize = 3;

/// Rows taken by the (10, 7, 2, 13) decomposition block.
pub const DECOMPOSE_3_ROWS: usize = 2;

/// Rows taken by one sigma_0 block on the v1 split.
pub const SIGMA_0_V1_ROWS: usize = 4;

/// Rows taken by one sigma_0 block on the v2 split.
pub const SIGMA_0_V2_ROWS: usize = 4;

/// Rows taken by one sigma_1 block on the v1 split.
pub const SIGMA_1_V1_ROWS: usize = 4;

/// Rows taken by one sigma_1 block on the v2 split.
pub const SIGMA_1_V2_ROWS: usize = 4;

/// Rows taken by one word-assembly block.
pub const WORD_ROWS: usize = 2;

/// Rows the full 64-word layout occupies.
pub const SCHEDULE_ROWS: usize = 643;

/// The three lookup-bound advice columns of the spread table.
#[derive(Clone, Copy, PartialEq, Eq, Structural, Debug)]
pub struct SpreadInputs {
    pub tag: Column,
    pub dense: Column,
    pub spread: Column,
}

/// One 32-bit input word, present when witnessing an actual proof and
/// absent when only the circuit shape is generated.
#[derive(Clone, Copy, PartialEq, Eq, Structural, Debug)]
pub struct BlockWord {
    pub value: Option<u32>,
}

/// A schedule word handle: the cell the word was written to, and its
/// concrete value when one was witnessed.
#[derive(Clone, Copy, PartialEq, Eq, Structural, Debug)]
pub struct MessageWord {
    pub var: Cell,
    pub value: Option<u32>,
}

/// Assignment fails when a required concrete witness value is missing.
#[derive(Clone, Copy, PartialEq, Eq, Structural, Debug)]
pub enum Error {
    SynthesisError,
}

/// The value the environment gives a column query, reduced to the field.
pub open spec fn qv(env: Map<ColumnQuery, int>, c: Column, r: i32) -> int {
    env[ColumnQuery { column: c, rotation: r }] % modulus()
}

/// The concrete values of a fully witnessed input block.
pub open spec fn block_values(input: Seq<BlockWord>) -> Seq<u32> {
    Seq::new(input.len(), |i: int| input[i].value.unwrap())
}

/// The message scheduler configuration: the lookup columns, the output
/// column, the six extra advice columns, and one fixed selector column
/// per gate kind.
pub struct MessageScheduler {
    pub lookup: SpreadInputs,
    pub message_schedule: Column,
    pub extras: [Column; 6],
    pub s_word: Column,
    pub s_decompose_0: Column,
    pub s_decompose_1: Column,
    pub s_decompose_2: Column,
    pub s_decompose_3: Column,
    pub s_lower_sigma_0: Column,
    pub s_lower_sigma_1: Column,
    pub s_lower_sigma_0_v2: Column,
    pub s_lower_sigma_1_v2: Column,
    pub s_reduce: Column,
    pub s22: Column,
    pub s23: Column,
}

impl MessageScheduler {
    /// Configures the message scheduler: allocates one fixed selector
    /// column per gate kind and registers every gate polynomial, masked
    /// by its selector, with the constraint system.
    ///
    /// `message_schedule` is the column the schedule words are placed in;
    /// the caller wires them into the compression rounds through copy
    /// constraints.  `extras` are advice columns used only for internal
    /// gates.
    pub fn new(
        meta: &mut ConstraintSystem,
        lookup: SpreadInputs,
        message_schedule: Column,
        extras: [Column; 6],
    ) -> (r: MessageScheduler)
        requires
            old(meta).num_fixed + 12 <= usize::MAX,
        ensures
            final(meta).num_fixed == old(meta).num_fixed + 12,
            final(meta).num_advice == old(meta).num_advice,
            final(meta).gates@.len() == old(meta).gates@.len() + 11,
            r.lookup == lookup,
            r.message_schedule == message_schedule,
            r.extras == extras,
            r.s_word == (Column { kind: ColumnKind::Fixed, index: old(meta).num_fixed }),
            r.s_decompose_0 == (Column { kind: ColumnKind::Fixed, index: (old(meta).num_fixed + 1) as usize }),
            r.s_decompose_1 == (Column { kind: ColumnKind::Fixed, index: (old(meta).num_fixed + 2) as usize }),
            r.s_decompose_2 == (Column { kind: ColumnKind::Fixed, index: (old(meta).num_fixed + 3) as usize }),
            r.s_decompose_3 == (Column { kind: ColumnKind::Fixed, index: (old(meta).num_fixed + 4) as usize }),
            r.s_lower_sigma_0 == (Column {
                kind: ColumnKind::Fixed,
                index: (old(meta).num_fixed + 5) as usize }),
            r.s_lower_sigma_1 == (Column {
                kind: ColumnKind::Fixed,
                index: (old(meta).num_fixed + 6) as usize }),
            r.s_lower_sigma_0_v2 == (Column {
                kind: ColumnKind::Fixed,
                index: (old(meta).num_fixed + 7) as usize }),
            r.s_lower_sigma_1_v2 == (Column {
                kind: ColumnKind::Fixed,
                index: (old(meta).num_fixed + 8) as usize }),
            r.s_reduce == (Column { kind: ColumnKind::Fixed, index: (old(meta).num_fixed + 9) as usize }),
            r.s22 == (Column { kind: ColumnKind::Fixed, index: (old(meta).num_fixed + 10) as usize }),
            r.s23 == (Column { kind: ColumnKind::Fixed, index: (old(meta).num_fixed + 11) as usize }),
            forall|env: Map<ColumnQuery, int>|
                #[trigger] final(meta).gates@[old(meta).gates@.len() as int].eval(env) == fmul(
                    qv(env, r.s_decompose_0, 0),
                    decompose_0_poly(
                        qv(env, extras@[0], 0),
                        qv(env, extras@[1], 0),
                        qv(env, message_schedule, 0),
                    ),
                ),
            forall|env: Map<ColumnQuery, int>|
                #[trigger] final(meta).gates@[old(meta).gates@.len() + 1 as int].eval(env) == fmul(
                    qv(env, r.s_decompose_1, 0),
                    decompose_1_poly(
                        qv(env, extras@[0], 1),
                        qv(env, extras@[1], 1),
                        qv(env, lookup.dense, 1),
                        qv(env, lookup.dense, 0),
                        qv(env, message_schedule, 0),
                    ),
                ),
            forall|env: Map<ColumnQuery, int>|
                #[trigger] final(meta).gates@[old(meta).gates@.len() + 2 as int].eval(env) == fmul(
                    qv(env, r.s_decompose_2, 0),
                    decompose_2_poly(
                        qv(env, extras@[0], -1i32),
                        qv(env, lookup.dense, 1),
                        qv(env, extras@[1], -1i32),
                        qv(env, lookup.dense, 0),
                        qv(env, extras@[0], 1),
                        qv(env, extras@[1], 1),
                        qv(env, lookup.dense, -1i32),
                        qv(env, message_schedule, 0),
                    ),
                ),
            forall|env: Map<ColumnQuery, int>|
                #[trigger] final(meta).gates@[old(meta).gates@.len() + 3 as int].eval(env) == fmul(
                    qv(env, r.s_decompose_3, 0),
                    decompose_3_poly(
                        qv(env, extras@[0], 1),
                        qv(env, extras@[1], 1),
                        qv(env, lookup.dense, 1),
                        qv(env, lookup.dense, 0),
                        qv(env, message_schedule, 0),
                    ),
                ),
            forall|env: Map<ColumnQuery, int>|
                #[trigger] final(meta).gates@[old(meta).gates@.len() + 4 as int].eval(env) == fmul(
                    qv(env, r.s_word, 0),
                    s_word_poly(
                        qv(env, extras@[2], -1i32),
                        qv(env, extras@[3], -1i32),
                        qv(env, extras@[4], -1i32),
                        qv(env, lookup.dense, -1i32),
                        qv(env, extras@[2], 0),
                        qv(env, extras@[3], 0),
                        qv(env, extras@[4], 0),
                        qv(env, lookup.dense, 0),
                        qv(env, message_schedule, 0),
                        qv(env, extras@[5], 0),
                    ),
                ),
            forall|env: Map<ColumnQuery, int>|
                #[trigger] final(meta).gates@[old(meta).gates@.len() + 5 as int].eval(env) == fmul(
                    qv(env, r.s22, 0),
                    s22_poly(
                        qv(env, extras@[0], 0),
                        qv(env, extras@[1], 0),
                        qv(env, message_schedule, 0),
                        qv(env, extras@[2], 0),
                    ),
                ),
            forall|env: Map<ColumnQuery, int>|
                #[trigger] final(meta).gates@[old(meta).gates@.len() + 6 as int].eval(env) == fmul(
                    qv(env, r.s23, 0),
                    s23_poly(
                        qv(env, extras@[0], 0),
                        qv(env, extras@[1], 0),
                        qv(env, message_schedule, 0),
                        qv(env, extras@[2], 0),
                    ),
                ),
            forall|env: Map<ColumnQuery, int>|
                #[trigger] final(meta).gates@[old(meta).gates@.len() + 7 as int].eval(env) == fmul(
                    qv(env, r.s_lower_sigma_0, 0),
                    lower_sigma_0_poly(
                        qv(env, lookup.spread, -1i32),
                        qv(env, lookup.spread, 0),
                        qv(env, lookup.spread, 1),
                        qv(env, extras@[0], 0),
                        qv(env, extras@[2], 1),
                        qv(env, extras@[1], -1i32),
                        qv(env, extras@[2], -1i32),
                        qv(env, extras@[1], 0),
                        qv(env, message_schedule, 0),
                    ),
                ),
            forall|env: Map<ColumnQuery, int>|
                #[trigger] final(meta).gates@[old(meta).gates@.len() + 8 as int].eval(env) == fmul(
                    qv(env, r.s_lower_sigma_0_v2, 0),
                    lower_sigma_0_v2_poly(
                        qv(env, lookup.spread, -1i32),
                        qv(env, lookup.spread, 0),
                        qv(env, lookup.spread, 1),
                        qv(env, extras@[0], 0),
                        qv(env, extras@[2], -1i32),
                        qv(env, extras@[1], -1i32),
                        qv(env, extras@[1], 1),
                        qv(env, extras@[2], 1),
                        qv(env, extras@[1], 0),
                        qv(env, extras@[3], -1i32),
                        qv(env, extras@[3], 1),
                        qv(env, message_schedule, 0),
                    ),
                ),
            forall|env: Map<ColumnQuery, int>|
                #[trigger] final(meta).gates@[old(meta).gates@.len() + 9 as int].eval(env) == fmul(
                    qv(env, r.s_lower_sigma_1_v2, 0),
                    lower_sigma_1_v2_poly(
                        qv(env, lookup.spread, -1i32),
                        qv(env, lookup.spread, 0),
                        qv(env, lookup.spread, 1),
                        qv(env, extras@[0], 0),
                        qv(env, extras@[2], -1i32),
                        qv(env, extras@[1], -1i32),
                        qv(env, extras@[1], 1),
                        qv(env, extras@[2], 1),
                        qv(env, extras@[1], 0),
                        qv(env, extras@[3], -1i32),
                        qv(env, extras@[3], 1),
                        qv(env, message_schedule, 0),
                    ),
                ),
            forall|env: Map<ColumnQuery, int>|
                #[trigger] final(meta).gates@[old(meta).gates@.len() + 10 as int].eval(env) == fmul(
                    qv(env, r.s_lower_sigma_1, 0),
                    lower_sigma_1_poly(
                        qv(env, lookup.spread, -1i32),
                        qv(env, lookup.spread, 0),
                        qv(env, lookup.spread, 1),
                        qv(env, extras@[0], 0),
                        qv(env, extras@[1], 0),
                        qv(env, extras@[1], -1i32),
                        qv(env, extras@[2], -1i32),
                        qv(env, extras@[1], 1),
                        qv(env, extras@[2], 1),
                        qv(env, message_schedule, 0),
                    ),
                ),
    {
        // One fixed selector column per gate kind.
        let s_word = meta.fixed_column();
        let s_decompose_0 = meta.fixed_column();
        let s_decompose_1 = meta.fixed_column();
        let s_decompose_2 = meta.fixed_column();
        let s_decompose_3 = meta.fixed_column();
        let s_lower_sigma_0 = meta.fixed_column();
        let s_lower_sigma_1 = meta.fixed_column();
        let s_lower_sigma_0_v2 = meta.fixed_column();
        let s_lower_sigma_1_v2 = meta.fixed_column();
        let s_reduce = meta.fixed_column();
        let s22 = meta.fixed_column();
        let s23 = meta.fixed_column();

        // Short names matching the layout: a_0..a_2 are the lookup
        // columns, a_5 the output column, the rest the extras.
        let a_0 = lookup.tag;
        let a_1 = lookup.dense;
        let a_2 = lookup.spread;
        let a_3 = extras[0];
        let a_4 = extras[1];
        let a_5 = message_schedule;
        let a_6 = extras[2];
        let a_7 = extras[3];
        let a_8 = extras[4];
        let a_9 = extras[5];

        // The (16, 16) decomposition, used for W_0, W_62 and W_63.
        meta.create_gate(
            Gate::s_decompose_0(
                meta.query_fixed(s_decompose_0, 0),
                meta.query_advice(a_3, 0),
                meta.query_advice(a_4, 0),
                meta.query_advice(a_5, 0),
            ),
        );

        // The (3, 4, 11, 14) decomposition for W_1 to W_13.
        meta.create_gate(
            Gate::s_decompose_1(
                meta.query_fixed(s_decompose_1, 0),
                meta.query_advice(a_3, 1),
                meta.query_advice(a_4, 1),
                meta.query_advice(a_1, 1),
                meta.query_advice(a_1, 0),
                meta.query_advice(a_5, 0),
            ),
        );

        // The (3, 4, 3, 7, 1, 1, 13) decomposition for W_14 to W_48.
        meta.create_gate(
            Gate::s_decompose_2(
                meta.query_fixed(s_decompose_2, 0),
                meta.query_advice(a_3, -1),
                meta.query_advice(a_1, 1),
                meta.query_advice(a_4, -1),
                meta.query_advice(a_1, 0),
                meta.query_advice(a_3, 1),
                meta.query_advice(a_4, 1),
                meta.query_advice(a_1, -1),
                meta.query_advice(a_5, 0),
            ),
        );

        // The (10, 7, 2, 13) decomposition for W_49 to W_61.
        meta.create_gate(
            Gate::s_decompose_3(
                meta.query_fixed(s_decompose_3, 0),
                meta.query_advice(a_3, 1),
                meta.query_advice(a_4, 1),
                meta.query_advice(a_1, 1),
                meta.query_advice(a_1, 0),
                meta.query_advice(a_5, 0),
            ),
        );

        // Word assembly for W_16 to W_63.
        meta.create_gate(
            Gate::s_word(
                meta.query_fixed(s_word, 0),
                meta.query_advice(a_6, -1),
                meta.query_advice(a_7, -1),
                meta.query_advice(a_8, -1),
                meta.query_advice(a_1, -1),
                meta.query_advice(a_6, 0),
                meta.query_advice(a_7, 0),
                meta.query_advice(a_8, 0),
                meta.query_advice(a_1, 0),
                meta.query_advice(a_5, 0),
                meta.query_advice(a_9, 0),
            ),
        );

        // Packed checks on two 2-bit words.
        meta.create_gate(
            Gate::s22(
                meta.query_fixed(s22, 0),
                meta.query_advice(a_3, 0),
                meta.query_advice(a_4, 0),
                meta.query_advice(a_5, 0),
                meta.query_advice(a_6, 0),
            ),
        );

        // Packed checks on a 2-bit and a 3-bit word.
        meta.create_gate(
            Gate::s23(
                meta.query_fixed(s23, 0),
                meta.query_advice(a_3, 0),
                meta.query_advice(a_4, 0),
                meta.query_advice(a_5, 0),
                meta.query_advice(a_6, 0),
            ),
        );

        // sigma_0 v1 on W_1 to W_13.
        meta.create_gate(
            Gate::s_lower_sigma_0(
                meta.query_fixed(s_lower_sigma_0, 0),
                meta.query_advice(a_2, -1),
                meta.query_advice(a_2, 0),
                meta.query_advice(a_2, 1),
                meta.query_advice(a_3, 0),
                meta.query_advice(a_6, 1),
                meta.query_advice(a_4, -1),
                meta.query_advice(a_6, -1),
                meta.query_advice(a_4, 0),
                meta.query_advice(a_5, 0),
            ),
        );

        // sigma_0 v2 on W_14 to W_48.
        meta.create_gate(
            Gate::s_lower_sigma_0_v2(
                meta.query_fixed(s_lower_sigma_0_v2, 0),
                meta.query_advice(a_2, -1),
                meta.query_advice(a_2, 0),
                meta.query_advice(a_2, 1),
                meta.query_advice(a_3, 0),
                meta.query_advice(a_6, -1),
                meta.query_advice(a_4, -1),
                meta.query_advice(a_4, 1),
                meta.query_advice(a_6, 1),
                meta.query_advice(a_4, 0),
                meta.query_advice(a_7, -1),
                meta.query_advice(a_7, 1),
                meta.query_advice(a_5, 0),
            ),
        );

        // sigma_1 v2 on W_14 to W_48.
        meta.create_gate(
            Gate::s_lower_sigma_1_v2(
                meta.query_fixed(s_lower_sigma_1_v2, 0),
                meta.query_advice(a_2, -1),
                meta.query_advice(a_2, 0),
                meta.query_advice(a_2, 1),
                meta.query_advice(a_3, 0),
                meta.query_advice(a_6, -1),
                meta.query_advice(a_4, -1),
                meta.query_advice(a_4, 1),
                meta.query_advice(a_6, 1),
                meta.query_advice(a_4, 0),
                meta.query_advice(a_7, -1),
                meta.query_advice(a_7, 1),
                meta.query_advice(a_5, 0),
            ),
        );

        // sigma_1 v1 on W_49 to W_61.
        meta.create_gate(
            Gate::s_lower_sigma_1(
                meta.query_fixed(s_lower_sigma_1, 0),
                meta.query_advice(a_2, -1),
                meta.query_advice(a_2, 0),
                meta.query_advice(a_2, 1),
                meta.query_advice(a_3, 0),
                meta.query_advice(a_4, 0),
                meta.query_advice(a_4, -1),
                meta.query_advice(a_6, -1),
                meta.query_advice(a_4, 1),
                meta.query_advice(a_6, 1),
                meta.query_advice(a_5, 0),
            ),
        );

        MessageScheduler {
            lookup,
            message_schedule,
            extras,
            s_word,
            s_decompose_0,
            s_decompose_1,
            s_decompose_2,
            s_decompose_3,
            s_lower_sigma_0,
            s_lower_sigma_1,
            s_lower_sigma_0_v2,
            s_lower_sigma_1_v2,
            s_reduce,
            s22,
            s23,
        }
    }

    /// The output column is distinct from every other advice column the
    /// layout writes, so writes elsewhere never disturb a schedule word.
    pub open spec fn output_column_distinct(self) -> bool {
        &&& self.message_schedule.index != self.lookup.tag.index
        &&& self.message_schedule.index != self.lookup.dense.index
        &&& self.message_schedule.index != self.lookup.spread.index
        &&& self.message_schedule.index != self.extras@[0].index
        &&& self.message_schedule.index != self.extras@[1].index
        &&& self.message_schedule.index != self.extras@[2].index
        &&& self.message_schedule.index != self.extras@[3].index
        &&& self.message_schedule.index != self.extras@[4].index
        &&& self.message_schedule.index != self.extras@[5].index
    }

    /// The region has every column this configuration writes, each with
    /// the full row budget of one block.
    pub open spec fn region_ready(self, region: Region) -> bool {
        &&& adv_ok(region, self.lookup.tag)
        &&& adv_ok(region, self.lookup.dense)
        &&& adv_ok(region, self.lookup.spread)
        &&& adv_ok(region, self.message_schedule)
        &&& adv_ok(region, self.extras@[0])
        &&& adv_ok(region, self.extras@[1])
        &&& adv_ok(region, self.extras@[2])
        &&& adv_ok(region, self.extras@[3])
        &&& adv_ok(region, self.extras@[4])
        &&& adv_ok(region, self.extras@[5])
        &&& fix_ok(region, self.s_word)
        &&& fix_ok(region, self.s_decompose_0)
        &&& fix_ok(region, self.s_decompose_1)
        &&& fix_ok(region, self.s_decompose_2)
        &&& fix_ok(region, self.s_decompose_3)
        &&& fix_ok(region, self.s_lower_sigma_0)
        &&& fix_ok(region, self.s_lower_sigma_1)
        &&& fix_ok(region, self.s_lower_sigma_0_v2)
        &&& fix_ok(region, self.s_lower_sigma_1_v2)
        &&& fix_ok(region, self.s22)
        &&& fix_ok(region, self.s23)
    }
}

impl MessageScheduler {
    /// Writes one validated lookup triple: the tag, dense and spread
    /// encodings of a 16-bit value, side by side on one row.
    fn assign_lookup_row(&self, region: &mut Region, row: usize, dense: u16)
        requires
            self.region_ready(*old(region)),
            self.output_column_distinct(),
            row < SCHEDULE_ROWS,
        ensures
            self.region_ready(*final(region)),
            final(region).advice@[self.message_schedule.index as int] == old(region).advice@[
                self.message_schedule.index as int
            ],
    {
        let sw = crate::spread::spread_word(dense);
        region.assign_advice(self.lookup.tag, row, sw.tag as u64);
        region.assign_advice(self.lookup.dense, row, sw.dense as u64);
        region.assign_advice(self.lookup.spread, row, sw.spread as u64);
    }

    /// Writes the even/odd reduction witness of one sigma computation:
    /// the spread encodings of the four 16-bit planes of the spread-space
    /// sum, at the rotations the sigma gates query.
    fn assign_sigma_reduction(&self, region: &mut Region, rs: usize, total: u128)
        requires
            self.region_ready(*old(region)),
            self.output_column_distinct(),
            1 <= rs,
            rs + 1 < SCHEDULE_ROWS,
        ensures
            self.region_ready(*final(region)),
            final(region).advice@[self.message_schedule.index as int] == old(region).advice@[
                self.message_schedule.index as int
            ],
    {
        let wit = reduce_spread_sum(total);
        region.assign_advice(
            self.lookup.spread,
            rs - 1,
            interleave_u16_with_zeros(wit.r0_even) as u64,
        );
        region.assign_advice(
            self.lookup.spread,
            rs,
            interleave_u16_with_zeros(wit.r0_odd) as u64,
        );
        region.assign_advice(
            self.lookup.spread,
            rs + 1,
            interleave_u16_with_zeros(wit.r1_even) as u64,
        );
        region.assign_advice(
            self.extras[0],
            rs,
            interleave_u16_with_zeros(wit.r1_odd) as u64,
        );
    }

    /// Lays out one (16, 16) decomposition block: the word, its two
    /// halves, their lookup triples, and the selector on the anchor row.
    fn assign_decompose_0_at(&self, region: &mut Region, row: usize, word: u32) -> (c: Cell)
        requires
            self.region_ready(*old(region)),
            self.output_column_distinct(),
            row + 2 <= SCHEDULE_ROWS,
        ensures
            self.region_ready(*final(region)),
            c == (Cell { column: self.message_schedule, row }),
            final(region).advice@[self.message_schedule.index as int]@ == old(region).advice@[
                self.message_schedule.index as int
            ]@.update(row as int, word as u64),
    {
        let lo = (word % 0x10000) as u16;
        let hi = (word / 0x10000) as u16;
        region.assign_fixed(self.s_decompose_0, row, 1);
        region.assign_advice(self.extras[0], row, lo as u64);
        region.assign_advice(self.extras[1], row, hi as u64);
        let c = region.assign_advice(self.message_schedule, row, word as u64);
        self.assign_lookup_row(region, row, lo);
        self.assign_lookup_row(region, row + 1, hi);
        c
    }

    /// Lays out one W_1..13 block: the (3, 4, 11, 14) decomposition over
    /// two rows, then the sigma_0 v1 block over four rows.
    fn assign_class_1(&self, region: &mut Region, base: usize, word: u32) -> (c: Cell)
        requires
            self.region_ready(*old(region)),
            self.output_column_distinct(),
            base + 6 <= SCHEDULE_ROWS,
        ensures
            self.region_ready(*final(region)),
            c == (Cell { column: self.message_schedule, row: base }),
            final(region).advice@[self.message_schedule.index as int]@[base as int] == word as u64,
            forall|r2: int|
                0 <= r2 < base ==> final(region).advice@[self.message_schedule.index as int]@[r2]
                    == old(region).advice@[self.message_schedule.index as int]@[r2],
    {
        let a = low_chunk(word, 1, 8);
        let b = low_chunk(word, 8, 16);
        let cc = low_chunk(word, 128, 2048);
        let d = low_chunk(word, 0x40000, 0x4000);
        region.assign_fixed(self.s_decompose_1, base, 1);
        let cell = region.assign_advice(self.message_schedule, base, word as u64);
        region.assign_advice(self.extras[0], base + 1, a as u64);
        region.assign_advice(self.extras[1], base + 1, b as u64);
        self.assign_lookup_row(region, base, d);
        self.assign_lookup_row(region, base + 1, cc);

        let rs = base + 3;
        let sa = interleave_u16_with_zeros(a);
        let sbl = interleave_u16_with_zeros(b % 4);
        let sbh = interleave_u16_with_zeros(b / 4);
        let sc = interleave_u16_with_zeros(cc);
        let sd = interleave_u16_with_zeros(d);
        region.assign_fixed(self.s_lower_sigma_0, rs, 1);
        region.assign_advice(self.extras[2], rs + 1, sa as u64);
        region.assign_advice(self.extras[1], rs - 1, sbl as u64);
        region.assign_advice(self.extras[2], rs - 1, sbh as u64);
        region.assign_advice(self.extras[1], rs, sc as u64);
        region.assign_advice(self.message_schedule, rs, sd as u64);
        let total: u128 = term128(sbl, 1) + term128(sbh, 0x10) + term128(sc, 0x100) + term128(
            sd,
            0x40000000,
        ) + term128(sc, 1) + term128(sd, 0x400000) + term128(sa, 0x4000000000000) + term128(
            sbl,
            0x100000000000000,
        ) + term128(sbh, 0x1000000000000000) + term128(sd, 1) + term128(sa, 0x10000000) + term128(
            sbl,
            0x400000000,
        ) + term128(sbh, 0x4000000000) + term128(sc, 0x40000000000);
        self.assign_sigma_reduction(region, rs, total);
        cell
    }

    /// Lays out one (3, 4, 3, 7, 1, 1, 13) decomposition with its
    /// sigma_0 v2 and sigma_1 v2 blocks, eleven rows in all.
    #[verifier::rlimit(50)]
    fn assign_decompose_2_sigma(&self, region: &mut Region, base: usize, word: u32) -> (c: Cell)
        requires
            self.region_ready(*old(region)),
            self.output_column_distinct(),
            base + 11 <= SCHEDULE_ROWS,
        ensures
            self.region_ready(*final(region)),
            c == (Cell { column: self.message_schedule, row: (base + 1) as usize }),
            final(region).advice@[self.message_schedule.index as int]@[base + 1 as int]
                == word as u64,
            forall|r2: int|
                0 <= r2 < base ==> final(region).advice@[self.message_schedule.index as int]@[r2]
                    == old(region).advice@[self.message_schedule.index as int]@[r2],
    {
        let a = low_chunk(word, 1, 8);
        let b = low_chunk(word, 8, 16);
        let cc = low_chunk(word, 128, 8);
        let d = low_chunk(word, 1024, 128);
        let e = low_chunk(word, 0x20000, 2);
        let f = low_chunk(word, 0x40000, 2);
        let g = low_chunk(word, 0x80000, 0x2000);
        let anchor = base + 1;
        region.assign_fixed(self.s_decompose_2, anchor, 1);
        let cell = region.assign_advice(self.message_schedule, anchor, word as u64);
        region.assign_advice(self.extras[0], base, a as u64);
        region.assign_advice(self.extras[1], base, cc as u64);
        region.assign_advice(self.extras[0], base + 2, e as u64);
        region.assign_advice(self.extras[1], base + 2, f as u64);
        self.assign_lookup_row(region, base, g);
        self.assign_lookup_row(region, base + 1, d);
        self.assign_lookup_row(region, base + 2, b);

        let sa = interleave_u16_with_zeros(a);
        let sbl = interleave_u16_with_zeros(b % 4);
        let sbh = interleave_u16_with_zeros(b / 4);
        let sc = interleave_u16_with_zeros(cc);
        let sd = interleave_u16_with_zeros(d);
        let se = interleave_u16_with_zeros(e);
        let sf = interleave_u16_with_zeros(f);
        let sg = interleave_u16_with_zeros(g);

        let rs0 = base + 4;
        region.assign_fixed(self.s_lower_sigma_0_v2, rs0, 1);
        region.assign_advice(self.extras[2], rs0 - 1, sa as u64);
        region.assign_advice(self.extras[1], rs0 - 1, sbl as u64);
        region.assign_advice(self.extras[1], rs0 + 1, sbh as u64);
        region.assign_advice(self.extras[2], rs0 + 1, sc as u64);
        region.assign_advice(self.extras[1], rs0, sd as u64);
        region.assign_advice(self.extras[3], rs0 - 1, se as u64);
        region.assign_advice(self.extras[3], rs0 + 1, sf as u64);
        region.assign_advice(self.message_schedule, rs0, sg as u64);
        let total_0: u128 = term128(sbl, 1) + term128(sbh, 0x10) + term128(sc, 0x100) + term128(
            sd,
            0x4000,
        ) + term128(se, 0x10000000) + term128(sf, 0x40000000) + term128(sg, 0x100000000)
            + term128(sc, 1) + term128(sd, 0x40) + term128(se, 0x100000) + term128(sf, 0x400000)
            + term128(sg, 0x1000000) + term128(sa, 0x4000000000000) + term128(
            sbl,
            0x100000000000000,
        ) + term128(sbh, 0x1000000000000000) + term128(sf, 1) + term128(sg, 0x4) + term128(
            sa,
            0x10000000,
        ) + term128(sbl, 0x400000000) + term128(sbh, 0x4000000000) + term128(sc, 0x40000000000)
            + term128(sd, 0x1000000000000) + term128(se, 0x4000000000000000);
        self.assign_sigma_reduction(region, rs0, total_0);

        let rs1 = base + 8;
        region.assign_fixed(self.s_lower_sigma_1_v2, rs1, 1);
        region.assign_advice(self.extras[2], rs1 - 1, sa as u64);
        region.assign_advice(self.extras[1], rs1 - 1, sbl as u64);
        region.assign_advice(self.extras[1], rs1 + 1, sbh as u64);
        region.assign_advice(self.extras[2], rs1 + 1, sc as u64);
        region.assign_advice(self.extras[1], rs1, sd as u64);
        region.assign_advice(self.extras[3], rs1 - 1, se as u64);
        region.assign_advice(self.extras[3], rs1 + 1, sf as u64);
        region.assign_advice(self.message_schedule, rs1, sg as u64);
        let total_1: u128 = term128(sd, 1) + term128(se, 0x4000) + term128(sf, 0x10000) + term128(
            sg,
            0x40000,
        ) + term128(se, 1) + term128(sf, 0x4) + term128(sg, 0x10) + term128(sa, 0x40000000)
            + term128(sbl, 0x1000000000) + term128(sbh, 0x10000000000) + term128(
            sc,
            0x100000000000,
        ) + term128(sd, 0x4000000000000) + term128(sg, 1) + term128(sa, 0x4000000) + term128(
            sbl,
            0x100000000,
        ) + term128(sbh, 0x1000000000) + term128(sc, 0x10000000000) + term128(sd, 0x400000000000)
            + term128(se, 0x1000000000000000) + term128(sf, 0x4000000000000000);
        self.assign_sigma_reduction(region, rs1, total_1);
        cell
    }

    /// Lays out one (10, 7, 2, 13) decomposition with its sigma_1 v1
    /// block, six rows in all.
    fn assign_decompose_3_sigma(&self, region: &mut Region, base: usize, word: u32) -> (c: Cell)
        requires
            self.region_ready(*old(region)),
            self.output_column_distinct(),
            base + 6 <= SCHEDULE_ROWS,
        ensures
            self.region_ready(*final(region)),
            c == (Cell { column: self.message_schedule, row: base }),
            final(region).advice@[self.message_schedule.index as int]@[base as int] == word as u64,
            forall|r2: int|
                0 <= r2 < base ==> final(region).advice@[self.message_schedule.index as int]@[r2]
                    == old(region).advice@[self.message_schedule.index as int]@[r2],
    {
        let a = low_chunk(word, 1, 1024);
        let b = low_chunk(word, 1024, 128);
        let cc = low_chunk(word, 0x20000, 4);
        let d = low_chunk(word, 0x80000, 0x2000);
        region.assign_fixed(self.s_decompose_3, base, 1);
        let cell = region.assign_advice(self.message_schedule, base, word as u64);
        region.assign_advice(self.extras[0], base + 1, a as u64);
        region.assign_advice(self.extras[1], base + 1, b as u64);
        self.assign_lookup_row(region, base, d);
        self.assign_lookup_row(region, base + 1, cc);

        let rs = base + 3;
        let sa = interleave_u16_with_zeros(a);
        let sbl = interleave_u16_with_zeros(b % 4);
        let sbm = interleave_u16_with_zeros((b / 4) % 4);
        let sbh = interleave_u16_with_zeros(b / 16);
        let sc = interleave_u16_with_zeros(cc);
        let sd = interleave_u16_with_zeros(d);
        region.assign_fixed(self.s_lower_sigma_1, rs, 1);
        region.assign_advice(self.extras[1], rs, sa as u64);
        region.assign_advice(self.extras[1], rs - 1, sbl as u64);
        region.assign_advice(self.extras[2], rs - 1, sbm as u64);
        region.assign_advice(self.extras[1], rs + 1, sbh as u64);
        region.assign_advice(self.extras[2], rs + 1, sc as u64);
        region.assign_advice(self.message_schedule, rs, sd as u64);
        let total: u128 = term128(sbl, 1) + term128(sbm, 0x10) + term128(sbh, 0x100) + term128(
            sc,
            0x4000,
        ) + term128(sd, 0x40000) + term128(sc, 1) + term128(sd, 0x10) + term128(sa, 0x40000000)
            + term128(sbl, 0x4000000000000) + term128(sbm, 0x40000000000000) + term128(
            sbh,
            0x400000000000000,
        ) + term128(sd, 1) + term128(sa, 0x4000000) + term128(sbl, 0x400000000000) + term128(
            sbm,
            0x4000000000000,
        ) + term128(sbh, 0x40000000000000) + term128(sc, 0x1000000000000000);
        self.assign_sigma_reduction(region, rs, total);
        cell
    }

    /// Lays out one word-assembly block: the four 16-bit partial-sum
    /// operands on two rows, the assembled word, and its carry.
    #[verifier::rlimit(30)]
    fn assign_word_block(
        &self,
        region: &mut Region,
        base: usize,
        word: u32,
        sig0: u32,
        sig1: u32,
        w_7: u32,
        w_16: u32,
    ) -> (c: Cell)
        requires
            self.region_ready(*old(region)),
            self.output_column_distinct(),
            base + 2 <= SCHEDULE_ROWS,
        ensures
            self.region_ready(*final(region)),
            c == (Cell { column: self.message_schedule, row: (base + 1) as usize }),
            final(region).advice@[self.message_schedule.index as int]@[base + 1 as int]
                == word as u64,
            forall|r2: int|
                0 <= r2 < base ==> final(region).advice@[self.message_schedule.index as int]@[r2]
                    == old(region).advice@[self.message_schedule.index as int]@[r2],
    {
        let anchor = base + 1;
        region.assign_fixed(self.s_word, anchor, 1);
        region.assign_advice(self.extras[2], base, (sig0 % 0x10000) as u64);
        region.assign_advice(self.extras[3], base, (sig1 % 0x10000) as u64);
        region.assign_advice(self.extras[4], base, (w_7 % 0x10000) as u64);
        region.assign_advice(self.lookup.dense, base, (w_16 % 0x10000) as u64);
        region.assign_advice(self.extras[2], anchor, (sig0 / 0x10000) as u64);
        region.assign_advice(self.extras[3], anchor, (sig1 / 0x10000) as u64);
        region.assign_advice(self.extras[4], anchor, (w_7 / 0x10000) as u64);
        region.assign_advice(self.lookup.dense, anchor, (w_16 / 0x10000) as u64);
        let sum: u64 = sig0 as u64 + sig1 as u64 + w_7 as u64 + w_16 as u64;
        let carry: u64 = sum / 0x100000000;
        region.assign_advice(self.extras[5], anchor, carry);
        let c = region.assign_advice(self.message_schedule, anchor, word as u64);
        c
    }

    /// Performs one per-block assignment pass: expands the 16 input words
    /// into all 64 schedule words, writes every decomposition, sigma and
    /// word-assembly witness into the region at its prescribed offset,
    /// and returns the 64 word handles in index order.
    ///
    /// Fails with a synthesis error, writing nothing, when any input word
    /// lacks a concrete value.
    pub fn process(&self, region: &mut Region, input: &Vec<BlockWord>) -> (r: Result<
        Vec<MessageWord>,
        Error,
    >)
        requires
            input@.len() == 16,
            self.region_ready(*old(region)),
            self.output_column_distinct(),
        ensures
            self.region_ready(*final(region)),
            r is Ok <==> (forall|i: int| 0 <= i < 16 ==> input@[i].value is Some),
            r is Err ==> *final(region) == *old(region),
            r is Ok ==> (r->Ok_0)@.len() == 64,
            r is Ok ==> forall|i: int|
                0 <= i < 64 ==> ((r->Ok_0)@[i]).value == Some(
                    schedule_word(block_values(input@), i),
                ),
            r is Ok ==> forall|i: int|
                0 <= i < 64 ==> ((r->Ok_0)@[i]).var.column == self.message_schedule,
            r is Ok ==> forall|i: int|
                0 <= i < 64 ==> final(region).advice@[self.message_schedule.index as int]@[((
                r->Ok_0)@[i]).var.row as int] == schedule_word(block_values(input@), i) as u64,
    {
        let mut values: Vec<u32> = Vec::new();
        let mut i: usize = 0;
        while i < 16
            invariant
                input@.len() == 16,
                i <= 16,
                values@.len() == i,
                forall|j: int|
                    0 <= j < i ==> (#[trigger] input@[j]).value is Some && values@[j] == input@[
                        j
                    ].value.unwrap(),
                self.region_ready(*region),
                region == old(region),
            decreases 16 - i,
        {
            let bw = input[i];
            match bw.value {
                Some(v) => {
                    values.push(v);
                    proof {
                        assert(input@[i as int].value is Some);
                        assert(values@[i as int] == input@[i as int].value.unwrap());
                    }
                },
                None => {
                    return Err(Error::SynthesisError);
                },
            }
            i = i + 1;
        }
        proof {
            assert(block_values(input@) =~= values@);
        }
        let w = expand_message(&values);

        let mut words: Vec<MessageWord> = Vec::new();

        // W_0: a plain (16, 16) decomposition at the top of the region.
        let c0 = self.assign_decompose_0_at(region, 0, w[0]);
        words.push(MessageWord { var: c0, value: Some(w[0]) });

        // W_1 to W_13: decomposition and sigma_0 v1.
        let mut row: usize = DECOMPOSE_0_ROWS;
        let mut idx: usize = 1;
        while idx < 14
            invariant
                1 <= idx <= 14,
                row == 2 + 6 * (idx - 1),
                w@.len() == 64,
                forall|k: int| 0 <= k < 64 ==> w@[k] == schedule_word(values@, k),
                values@ == block_values(input@),
                words@.len() == idx,
                forall|j: int|
                    0 <= j < idx ==> (#[trigger] words@[j]).value == Some(w@[j])
                        && words@[j].var.column == self.message_schedule
                        && words@[j].var.row < row,
                forall|j: int|
                    0 <= j < idx ==> region.advice@[self.message_schedule.index as int]@[(
                    #[trigger] words@[j]).var.row as int] == w@[j] as u64,
                self.region_ready(*region),
                self.output_column_distinct(),
            decreases 14 - idx,
        {
            let c = self.assign_class_1(region, row, w[idx]);
            words.push(MessageWord { var: c, value: Some(w[idx]) });
            row = row + DECOMPOSE_1_ROWS + SIGMA_0_V1_ROWS;
            idx = idx + 1;
        }

        // W_14 and W_15: decomposition and both v2 sigma blocks.
        while idx < 16
            invariant
                14 <= idx <= 16,
                row == 80 + 11 * (idx - 14),
                w@.len() == 64,
                forall|k: int| 0 <= k < 64 ==> w@[k] == schedule_word(values@, k),
                values@ == block_values(input@),
                words@.len() == idx,
                forall|j: int|
                    0 <= j < idx ==> (#[trigger] words@[j]).value == Some(w@[j])
                        && words@[j].var.column == self.message_schedule
                        && words@[j].var.row < row,
                forall|j: int|
                    0 <= j < idx ==> region.advice@[self.message_schedule.index as int]@[(
                    #[trigger] words@[j]).var.row as int] == w@[j] as u64,
                self.region_ready(*region),
                self.output_column_distinct(),
            decreases 16 - idx,
        {
            let c = self.assign_decompose_2_sigma(region, row, w[idx]);
            words.push(MessageWord { var: c, value: Some(w[idx]) });
            row = row + DECOMPOSE_2_ROWS + SIGMA_0_V2_ROWS + SIGMA_1_V2_ROWS;
            idx = idx + 1;
        }

        // W_16 to W_48: word assembly, then decomposition and both v2
        // sigma blocks.
        while idx < 49
            invariant
                16 <= idx <= 49,
                row == 102 + 13 * (idx - 16),
                w@.len() == 64,
                forall|k: int| 0 <= k < 64 ==> w@[k] == schedule_word(values@, k),
                values@ == block_values(input@),
                words@.len() == idx,
                forall|j: int|
                    0 <= j < idx ==> (#[trigger] words@[j]).value == Some(w@[j])
                        && words@[j].var.column == self.message_schedule
                        && words@[j].var.row < row,
                forall|j: int|
                    0 <= j < idx ==> region.advice@[self.message_schedule.index as int]@[(
                    #[trigger] words@[j]).var.row as int] == w@[j] as u64,
                self.region_ready(*region),
                self.output_column_distinct(),
            decreases 49 - idx,
        {
            let sig0 = sigma_0(w[idx - 15]);
            let sig1 = sigma_1(w[idx - 2]);
            let c = self.assign_word_block(region, row, w[idx], sig0, sig1, w[idx - 7], w[idx
                - 16]);
            self.assign_decompose_2_sigma(region, row + WORD_ROWS, w[idx]);
            words.push(MessageWord { var: c, value: Some(w[idx]) });
            row = row + WORD_ROWS + DECOMPOSE_2_ROWS + SIGMA_0_V2_ROWS + SIGMA_1_V2_ROWS;
            idx = idx + 1;
        }

        // W_49 to W_61: word assembly, then decomposition and sigma_1 v1.
        while idx < 62
            invariant
                49 <= idx <= 62,
                row == 531 + 8 * (idx - 49),
                w@.len() == 64,
                forall|k: int| 0 <= k < 64 ==> w@[k] == schedule_word(values@, k),
                values@ == block_values(input@),
                words@.len() == idx,
                forall|j: int|
                    0 <= j < idx ==> (#[trigger] words@[j]).value == Some(w@[j])
                        && words@[j].var.column == self.message_schedule
                        && words@[j].var.row < row,
                forall|j: int|
                    0 <= j < idx ==> region.advice@[self.message_schedule.index as int]@[(
                    #[trigger] words@[j]).var.row as int] == w@[j] as u64,
                self.region_ready(*region),
                self.output_column_distinct(),
            decreases 62 - idx,
        {
            let sig0 = sigma_0(w[idx - 15]);
            let sig1 = sigma_1(w[idx - 2]);
            let c = self.assign_word_block(region, row, w[idx], sig0, sig1, w[idx - 7], w[idx
                - 16]);
            self.assign_decompose_3_sigma(region, row + WORD_ROWS, w[idx]);
            words.push(MessageWord { var: c, value: Some(w[idx]) });
            row = row + WORD_ROWS + DECOMPOSE_3_ROWS + SIGMA_1_V1_ROWS;
            idx = idx + 1;
        }

        // W_62 and W_63: word assembly and a final (16, 16)
        // decomposition.
        while idx < 64
            invariant
                62 <= idx <= 64,
                row == 635 + 4 * (idx - 62),
                w@.len() == 64,
                forall|k: int| 0 <= k < 64 ==> w@[k] == schedule_word(values@, k),
                values@ == block_values(input@),
                words@.len() == idx,
                forall|j: int|
                    0 <= j < idx ==> (#[trigger] words@[j]).value == Some(w@[j])
                        && words@[j].var.column == self.message_schedule
                        && words@[j].var.row < row,
                forall|j: int|
                    0 <= j < idx ==> region.advice@[self.message_schedule.index as int]@[(
                    #[trigger] words@[j]).var.row as int] == w@[j] as u64,
                self.region_ready(*region),
                self.output_column_distinct(),
            decreases 64 - idx,
        {
            let sig0 = sigma_0(w[idx - 15]);
            let sig1 = sigma_1(w[idx - 2]);
            let c = self.assign_word_block(region, row, w[idx], sig0, sig1, w[idx - 7], w[idx
                - 16]);
            self.assign_decompose_0_at(region, row + WORD_ROWS, w[idx]);
            words.push(MessageWord { var: c, value: Some(w[idx]) });
            row = row + WORD_ROWS + DECOMPOSE_0_ROWS;
            idx = idx + 1;
        }

        Ok(words)
    }
}

/// One chunk of a word: the value divided by a power of two, reduced by
/// the chunk's width.
fn low_chunk(w: u32, div: u32, m: u32) -> (r: u16)
    requires
        div >= 1,
        1 <= m <= 0x10000,
    ensures
        r as int == (w as int / div as int) % (m as int),
{
    ((w / div) % m) as u16
}

/// One spread-space summand, widened so that no sum of rotation terms
/// can overflow.
fn term128(s: u32, c: u64) -> (r: u128)
    ensures
        r == s as int * c as int,
        r < 0x1000000000000000000000000,
{
    proof {
        vstd::arithmetic::mul::lemma_mul_upper_bound(
            s as int,
            0xFFFFFFFF,
            c as int,
            0xFFFFFFFFFFFFFFFF,
        );
        vstd::arithmetic::mul::lemma_mul_nonnegative(s as int, c as int);
    }
    (s as u128) * (c as u128)
}

/// An advice column fits the region with the full row budget.
pub open spec fn adv_ok(region: Region, c: Column) -> bool {
    crate::system::advice_fits(region, c, SCHEDULE_ROWS as int)
}

/// A fixed column fits the region with the full row budget.
pub open spec fn fix_ok(region: Region, c: Column) -> bool {
    crate::system::fixed_fits(region, c, SCHEDULE_ROWS as int)
}

} // verus!
