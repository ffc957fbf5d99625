//! End-to-end tests of the expand-convolute encoder.

use exconv::{Block, CodeError, ExConvCode};

fn pseudo_bytes(len: usize, salt: u64) -> Vec<u8> {
    let mut state: u64 = salt.wrapping_mul(0x2545_F491_4F6C_DD1D).wrapping_add(0x9E37_79B9);
    let mut out = Vec::with_capacity(len);
    for _ in 0..len {
        state = state
            .wrapping_mul(6364136223846793005)
            .wrapping_add(1442695040888963407);
        out.push((state >> 56) as u8);
    }
    out
}

fn pseudo_blocks(len: usize, salt: u64) -> Vec<Block> {
    let mut state: u64 = salt.wrapping_mul(0xD1B5_4A32_D192_ED03).wrapping_add(0x1234_5678);
    let mut out = Vec::with_capacity(len);
    for _ in 0..len {
        state = state
            .wrapping_mul(6364136223846793005)
            .wrapping_add(1442695040888963407);
        let hi = state as u128;
        state = state
            .wrapping_mul(6364136223846793005)
            .wrapping_add(1442695040888963407);
        out.push(Block::new((hi << 64) | state as u128));
    }
    out
}

#[test]
fn new_ex_conv_code() {
    let _code = ExConvCode::new(100, 200, 7, 16).unwrap();
}

#[test]
fn ex_conv_dual_encode() {
    let code = ExConvCode::new(100, 200, 7, 16).unwrap();
    let mut e = vec![Block::default(); 200];
    code.dual_encode_block(&mut e).unwrap()
}

#[test]
fn ex_conv_dual_encode2() {
    let code = ExConvCode::new(256, 512, 7, 24).unwrap();
    let mut e0 = vec![Block::default(); 512];
    // create aligned u8 slice
    let mut e1_storage = vec![0u128; 512 / 16];
    let e1: &mut [u8] = bytemuck::cast_slice_mut(&mut e1_storage);
    code.dual_encode2_block(&mut e0, e1).unwrap();
}

#[test]
fn rejects_equal_message_and_code_size() {
    assert_eq!(
        ExConvCode::new(100, 100, 7, 7).unwrap_err(),
        CodeError::InvalidParameters
    );
}

#[test]
fn rejects_message_larger_than_code() {
    assert_eq!(
        ExConvCode::new(100, 50, 7, 7).unwrap_err(),
        CodeError::InvalidParameters
    );
}

#[test]
fn rejects_zero_and_oversized_weights() {
    assert_eq!(
        ExConvCode::new(0, 200, 7, 16).unwrap_err(),
        CodeError::InvalidParameters
    );
    assert_eq!(
        ExConvCode::new(100, 200, 0, 16).unwrap_err(),
        CodeError::InvalidParameters
    );
    assert_eq!(
        ExConvCode::new(100, 200, 7, 0).unwrap_err(),
        CodeError::InvalidParameters
    );
    assert_eq!(
        ExConvCode::new(100, 200, 200, 16).unwrap_err(),
        CodeError::InvalidParameters
    );
    assert_eq!(
        ExConvCode::new(100, 200, 7, 200).unwrap_err(),
        CodeError::InvalidParameters
    );
}

#[test]
fn zero_input_encodes_to_zero() {
    let code = ExConvCode::new(100, 200, 7, 16).unwrap();
    let mut e = vec![Block::default(); 200];
    code.dual_encode_block(&mut e).unwrap();
    assert_eq!(e.len(), 200);
    for k in 0..100 {
        assert_eq!(e[k], Block::default());
    }
}

#[test]
fn byte_encode_is_deterministic_across_instances() {
    let code_a = ExConvCode::new(100, 200, 7, 16).unwrap();
    let code_b = ExConvCode::new(100, 200, 7, 16).unwrap();
    let input = pseudo_bytes(200, 1);
    let mut ea = input.clone();
    let mut eb = input.clone();
    code_a.dual_encode_byte(&mut ea).unwrap();
    code_b.dual_encode_byte(&mut eb).unwrap();
    assert_eq!(ea.len(), 200);
    assert_eq!(eb.len(), 200);
    assert_eq!(&ea[..100], &eb[..100]);
    // the transform must actually move data around: a nonzero input buffer
    // should not come back unchanged on its defined prefix
    assert_ne!(&ea[..100], &input[..100]);
}

#[test]
fn block_encode_is_deterministic_across_instances() {
    let code_a = ExConvCode::new(64, 128, 5, 9).unwrap();
    let code_b = ExConvCode::new(64, 128, 5, 9).unwrap();
    let input = pseudo_blocks(128, 2);
    let mut ea = input.clone();
    let mut eb = input.clone();
    code_a.dual_encode_block(&mut ea).unwrap();
    code_b.dual_encode_block(&mut eb).unwrap();
    assert_eq!(&ea[..64], &eb[..64]);
    assert_ne!(&ea[..64], &input[..64]);
}

#[test]
fn byte_encode_is_linear() {
    let code = ExConvCode::new(100, 200, 7, 16).unwrap();
    let a = pseudo_bytes(200, 3);
    let b = pseudo_bytes(200, 4);
    let mut ea = a.clone();
    let mut eb = b.clone();
    let mut eab: Vec<u8> = a.iter().zip(b.iter()).map(|(x, y)| x ^ y).collect();
    code.dual_encode_byte(&mut ea).unwrap();
    code.dual_encode_byte(&mut eb).unwrap();
    code.dual_encode_byte(&mut eab).unwrap();
    for k in 0..100 {
        assert_eq!(eab[k], ea[k] ^ eb[k]);
    }
}

#[test]
fn block_encode_is_linear() {
    let code = ExConvCode::new(100, 200, 7, 16).unwrap();
    let a = pseudo_blocks(200, 5);
    let b = pseudo_blocks(200, 6);
    let mut ea = a.clone();
    let mut eb = b.clone();
    let mut eab: Vec<Block> = a
        .iter()
        .zip(b.iter())
        .map(|(x, y)| Block::new(x.value() ^ y.value()))
        .collect();
    code.dual_encode_block(&mut ea).unwrap();
    code.dual_encode_block(&mut eb).unwrap();
    code.dual_encode_block(&mut eab).unwrap();
    for k in 0..100 {
        assert_eq!(eab[k].value(), ea[k].value() ^ eb[k].value());
    }
}

#[test]
fn byte_encode_rejects_wrong_length() {
    let code = ExConvCode::new(100, 200, 7, 16).unwrap();
    let before = pseudo_bytes(150, 7);
    let mut e = before.clone();
    assert_eq!(code.dual_encode_byte(&mut e).unwrap_err(), CodeError::LengthMismatch);
    assert_eq!(e, before);
}

#[test]
fn block_encode_rejects_wrong_length() {
    let code = ExConvCode::new(100, 200, 7, 16).unwrap();
    let before = pseudo_blocks(201, 8);
    let mut e = before.clone();
    assert_eq!(code.dual_encode_block(&mut e).unwrap_err(), CodeError::LengthMismatch);
    assert_eq!(e, before);
}

#[test]
fn paired_encode_matches_single_encodes() {
    let code = ExConvCode::new(100, 200, 7, 16).unwrap();
    let blocks = pseudo_blocks(200, 9);
    let bytes = pseudo_bytes(200, 10);

    let mut e0 = blocks.clone();
    let mut e1_storage = vec![0u128; 200 / 8];
    let e1: &mut [u8] = &mut bytemuck::cast_slice_mut(&mut e1_storage)[..200];
    e1.copy_from_slice(&bytes);
    code.dual_encode2_block(&mut e0, e1).unwrap();

    let mut single_blocks = blocks.clone();
    let mut single_bytes = bytes.clone();
    code.dual_encode_block(&mut single_blocks).unwrap();
    code.dual_encode_byte(&mut single_bytes).unwrap();

    assert_eq!(&e0[..100], &single_blocks[..100]);
    assert_eq!(&e1[..100], &single_bytes[..100]);
}

#[test]
fn paired_encode_rejects_misaligned_bytes_untouched() {
    let code = ExConvCode::new(100, 200, 7, 16).unwrap();
    let blocks = pseudo_blocks(200, 11);
    let bytes = pseudo_bytes(200, 12);

    let mut e0 = blocks.clone();
    // a u128 buffer starts at an even address, so one byte past its start is
    // never 16-byte aligned
    let mut e1_storage = vec![0u128; 32];
    let backing: &mut [u8] = bytemuck::cast_slice_mut(&mut e1_storage);
    let e1 = &mut backing[1..201];
    e1.copy_from_slice(&bytes);

    assert_eq!(
        code.dual_encode2_block(&mut e0, e1).unwrap_err(),
        CodeError::AlignmentViolation
    );
    assert_eq!(e0, blocks);
    assert_eq!(e1, &bytes[..]);
}

#[test]
fn paired_encode_with_negative_verdict_is_rejected_untouched() {
    let code = ExConvCode::new(100, 200, 7, 16).unwrap();
    let blocks = pseudo_blocks(200, 13);
    let bytes = pseudo_bytes(200, 14);
    let mut e0 = blocks.clone();
    let mut e1 = bytes.clone();
    assert_eq!(
        code
            .dual_encode2_with_alignment(&mut e0, &mut e1, false)
            .unwrap_err(),
        CodeError::AlignmentViolation
    );
    assert_eq!(e0, blocks);
    assert_eq!(e1, bytes);
}

#[test]
fn paired_encode_with_positive_verdict_matches_single_encodes() {
    let code = ExConvCode::new(100, 200, 7, 16).unwrap();
    let mut e0 = pseudo_blocks(200, 15);
    let mut e1 = pseudo_bytes(200, 16);
    let mut single_blocks = e0.clone();
    let mut single_bytes = e1.clone();
    code.dual_encode2_with_alignment(&mut e0, &mut e1, true).unwrap();
    code.dual_encode_block(&mut single_blocks).unwrap();
    code.dual_encode_byte(&mut single_bytes).unwrap();
    assert_eq!(&e0[..100], &single_blocks[..100]);
    assert_eq!(&e1[..100], &single_bytes[..100]);
}

#[test]
fn paired_encode_rejects_wrong_length() {
    let code = ExConvCode::new(100, 200, 7, 16).unwrap();
    let mut e0 = vec![Block::default(); 199];
    let mut e1_storage = vec![0u128; 200 / 8];
    let e1: &mut [u8] = bytemuck::cast_slice_mut(&mut e1_storage);
    assert_eq!(
        code.dual_encode2_block(&mut e0, e1).unwrap_err(),
        CodeError::LengthMismatch
    );
}

#[test]
fn expander_rows_are_regular_and_spread_out() {
    let code = ExConvCode::new(500, 1000, 7, 16).unwrap();
    let buckets = 16usize;
    let mut counts = vec![0usize; buckets];
    for k in 0..500u64 {
        let row = code.expander_row(k);
        assert_eq!(row.len(), 7);
        for t in 0..row.len() {
            assert!(row[t] < 1000);
            if t > 0 {
                // strictly increasing, hence distinct
                assert!(row[t - 1] < row[t]);
            }
            counts[(row[t] as usize * buckets) / 1000] += 1;
        }
    }
    // 3500 samples over 16 buckets: a uniform-looking selection leaves no
    // bucket starved
    for &c in &counts {
        assert!(c >= 100, "bucket count {} too small: selection is not spread out", c);
    }
}

#[test]
fn getters_report_configuration() {
    let code = ExConvCode::new(100, 200, 7, 16).unwrap();
    assert_eq!(code.message_size(), 100);
    assert_eq!(code.code_size(), 200);
    assert_eq!(code.expander_weight(), 7);
    assert_eq!(code.accumulator_weight(), 16);
}

#[test]
fn block_value_roundtrip_and_default() {
    let b = Block::new(0x0123_4567_89AB_CDEF_0011_2233_4455_6677);
    assert_eq!(b.value(), 0x0123_4567_89AB_CDEF_0011_2233_4455_6677);
    assert_eq!(Block::default().value(), 0);
    assert_eq!(b.xor(b), Block::default());
}
