use table16::expr::{Column, ColumnKind};
use table16::schedule::expand_message;
use table16::scheduler::{BlockWord, Error, MessageScheduler, SpreadInputs, SCHEDULE_ROWS};
use table16::system::{ConstraintSystem, Region};

/// The reference message-schedule expansion, written independently with
/// the standard rotate operations.
fn reference_schedule(input: &[u32; 16]) -> [u32; 64] {
    let mut w = [0u32; 64];
    w[..16].copy_from_slice(input);
    for i in 16..64 {
        let s0 = w[i - 15].rotate_right(7) ^ w[i - 15].rotate_right(18) ^ (w[i - 15] >> 3);
        let s1 = w[i - 2].rotate_right(17) ^ w[i - 2].rotate_right(19) ^ (w[i - 2] >> 10);
        w[i] = s1
            .wrapping_add(w[i - 7])
            .wrapping_add(s0)
            .wrapping_add(w[i - 16]);
    }
    w
}

/// The one-block padding of the three-byte message of the SHA-256
/// standard test vector.
fn abc_block() -> [u32; 16] {
    let mut block = [0u32; 16];
    block[0] = 0x6162_6380;
    block[15] = 0x0000_0018;
    block
}

fn configured() -> (ConstraintSystem, MessageScheduler) {
    let mut meta = ConstraintSystem::new();
    let tag = meta.advice_column();
    let dense = meta.advice_column();
    let spread = meta.advice_column();
    let message_schedule = meta.advice_column();
    let extras: [Column; 6] = [
        meta.advice_column(),
        meta.advice_column(),
        meta.advice_column(),
        meta.advice_column(),
        meta.advice_column(),
        meta.advice_column(),
    ];
    let lookup = SpreadInputs { tag, dense, spread };
    let scheduler = MessageScheduler::new(&mut meta, lookup, message_schedule, extras);
    (meta, scheduler)
}

#[test]
fn expansion_matches_the_reference() {
    let block = abc_block();
    let expected = reference_schedule(&block);
    let input: Vec<u32> = block.to_vec();
    let w = expand_message(&input);
    assert_eq!(w.len(), 64);
    for i in 0..64 {
        assert_eq!(w[i], expected[i]);
    }
}

#[test]
fn configuration_registers_columns_and_gates() {
    let (meta, scheduler) = configured();
    assert_eq!(meta.num_advice, 10);
    assert_eq!(meta.num_fixed, 12);
    assert_eq!(meta.gates.len(), 11);
    assert_eq!(scheduler.s_word.kind, ColumnKind::Fixed);
    assert_eq!(scheduler.s_word.index, 0);
    assert_eq!(scheduler.s23.index, 11);
}

#[test]
fn processing_the_abc_block_yields_the_standard_schedule() {
    let block = abc_block();
    let expected = reference_schedule(&block);
    let (meta, scheduler) = configured();
    let mut region = Region::new_region(meta.num_advice, meta.num_fixed, SCHEDULE_ROWS);
    let input: Vec<BlockWord> = block.iter().map(|&v| BlockWord { value: Some(v) }).collect();
    let words = scheduler.process(&mut region, &input).expect("all inputs are present");
    assert_eq!(words.len(), 64);
    for i in 0..64 {
        assert_eq!(words[i].value, Some(expected[i]));
        assert_eq!(words[i].var.column, scheduler.message_schedule);
        // The cell each handle names holds the word in the region.
        assert_eq!(
            region.advice[scheduler.message_schedule.index][words[i].var.row],
            expected[i] as u64
        );
    }
}

#[test]
fn processing_fails_without_a_concrete_value() {
    let block = abc_block();
    let (meta, scheduler) = configured();
    let mut region = Region::new_region(meta.num_advice, meta.num_fixed, SCHEDULE_ROWS);
    let mut input: Vec<BlockWord> =
        block.iter().map(|&v| BlockWord { value: Some(v) }).collect();
    input[7] = BlockWord { value: None };
    let r = scheduler.process(&mut region, &input);
    assert!(matches!(r, Err(Error::SynthesisError)));
}

#[test]
fn processing_writes_selectors_on_anchor_rows() {
    let block = abc_block();
    let (meta, scheduler) = configured();
    let mut region = Region::new_region(meta.num_advice, meta.num_fixed, SCHEDULE_ROWS);
    let input: Vec<BlockWord> = block.iter().map(|&v| BlockWord { value: Some(v) }).collect();
    scheduler.process(&mut region, &input).expect("all inputs are present");
    // W_0's decomposition selector sits on the first row.
    assert_eq!(region.fixed[scheduler.s_decompose_0.index][0], 1);
    // W_1's decomposition selector sits at the start of its block.
    assert_eq!(region.fixed[scheduler.s_decompose_1.index][2], 1);
    // W_1's sigma_0 selector sits on the sigma anchor row of that block.
    assert_eq!(region.fixed[scheduler.s_lower_sigma_0.index][5], 1);
    // The word cell of W_0 holds the first input word.
    assert_eq!(region.advice[scheduler.message_schedule.index][0], 0x6162_6380);
}

#[test]
fn processing_an_all_ones_block_saturates_every_carry_path() {
    let block = [0xFFFF_FFFFu32; 16];
    let expected = reference_schedule(&block);
    let (meta, scheduler) = configured();
    let mut region = Region::new_region(meta.num_advice, meta.num_fixed, SCHEDULE_ROWS);
    let input: Vec<BlockWord> = block.iter().map(|&v| BlockWord { value: Some(v) }).collect();
    let words = scheduler.process(&mut region, &input).expect("all inputs are present");
    for i in 0..64 {
        assert_eq!(words[i].value, Some(expected[i]));
    }
}
