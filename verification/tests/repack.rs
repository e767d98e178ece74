//! Weights in other layouts.
use taraference::cuda::repack::{
    align_q6_decode, dequant_q4_0_to_f16, q4_align_col_bytes, q4_col_bytes, q5_1_blocks,
    q5_k_blocks, q5_k_scale_min, q8_0_bytes, q8_col_bytes, repack_q4_0_align32,
    repack_q4_0_block_major, Q8Group, RepackError,
};

#[test]
fn columns_have_lengths() {
    assert_eq!(q8_col_bytes(64), 68);
    assert_eq!(q4_col_bytes(64), 36);
    assert_eq!(q4_align_col_bytes(64), 64);
}

#[test]
fn blocks_stand_side_by_side() {
    // Two columns of two blocks; a block is eighteen bytes with its own mark.
    let mut src = Vec::new();
    for mark in [1u8, 2, 3, 4] {
        src.extend(std::iter::repeat(mark).take(18));
    }
    let out = repack_q4_0_block_major(&src, 64, 2).unwrap();
    let marks: Vec<u8> = out.chunks(18).map(|c| c[0]).collect();
    assert_eq!(marks, vec![1, 3, 2, 4]);
    assert_eq!(repack_q4_0_block_major(&src[1..], 64, 2), Err(RepackError::BlockMajorSize));
}

#[test]
fn blocks_are_padded() {
    let src: Vec<u8> = (0..36u8).collect();
    let out = repack_q4_0_align32(&src, 64, 1).unwrap();
    assert_eq!(out.len(), 64);
    assert_eq!(out[..2], src[..2]);
    assert_eq!(out[2..4], [0, 0]);
    assert_eq!(out[4..20], src[2..18]);
    assert!(out[20..32].iter().all(|b| *b == 0));
    assert_eq!(out[32..34], src[18..20]);
    assert_eq!(out[36..52], src[20..]);
    assert_eq!(
        repack_q4_0_align32(&src, 32, 1),
        Err(RepackError::AlignSize { got: 36, want: 18 })
    );
}

#[test]
fn q4_becomes_half_precision() {
    // Scale one, and every byte 0x98: the low number is 8 - 8, the high one 9 - 8.
    let mut src = vec![0x00u8, 0x3c];
    src.extend(std::iter::repeat(0x98u8).take(16));
    let out = dequant_q4_0_to_f16(&src, 32, 1).unwrap();
    assert_eq!(out.len(), 64);
    let halves: Vec<u16> = out.chunks(2).map(|c| u16::from_le_bytes([c[0], c[1]])).collect();
    assert!(halves[..16].iter().all(|h| h & 0x7fff == 0));
    assert!(halves[16..].iter().all(|h| *h == 0x3c00));
    assert_eq!(
        dequant_q4_0_to_f16(&src, 64, 1),
        Err(RepackError::HalfSize { got: 18, want: 36 })
    );
    assert_eq!(
        RepackError::HalfSize { got: 18, want: 36 }.message(),
        "q4→f16 size mismatch: got 18 want 36"
    );
}

#[test]
fn scales_are_packed_in_six_bits() {
    let scales = [0x41u8, 2, 3, 4, 0x85, 6, 7, 8, 0x9a, 0, 0, 0];
    assert_eq!(q5_k_scale_min(&scales, 0), (1, 5));
    assert_eq!(q5_k_scale_min(&scales, 4), (0x0a + 0x10, 0x09 + 0x20));
}

#[test]
fn q5_blocks_are_unpacked() {
    let mut b = vec![0u8; 176];
    b[1] = 0x3c;
    b[4] = 3;
    b[16] = 1;
    b[48] = 0x2f;
    let blocks = q5_k_blocks(&b).unwrap();
    assert_eq!(blocks.len(), 1);
    assert_eq!(blocks[0].d, 1.0f32.to_bits());
    assert_eq!(blocks[0].values[0].q, 31);
    assert_eq!(blocks[0].values[0].scale, 3);
    assert_eq!(blocks[0].values[32].q, 2);
    assert_eq!(q5_k_blocks(&b[1..]).unwrap_err(), RepackError::Q5KLength { len: 175 });
    let mut c = vec![0u8; 24];
    c[1] = 0x40;
    c[4] = 1;
    c[8] = 0x31;
    let blocks = q5_1_blocks(&c).unwrap();
    assert_eq!(blocks[0].d, 2.0f32.to_bits());
    assert_eq!(blocks[0].q[0], 17);
    assert_eq!(blocks[0].q[16], 3);
    assert_eq!(q5_1_blocks(&c[..23]).unwrap_err(), RepackError::Q51Length { len: 23 });
    assert!(q5_1_blocks(&c[..23]).unwrap_err().message().contains("23"));
}

#[test]
fn q8_groups_are_written() {
    let g = Q8Group { scale: 1.0f32.to_bits(), q: (0..32).map(|i| i as i8 - 16).collect() };
    let b = q8_0_bytes(&[g]);
    assert_eq!(b.len(), 34);
    assert_eq!(b[..2], [0x00, 0x3c]);
    assert_eq!(b[2] as i8, -16);
    assert_eq!(b[33] as i8, 15);
}

#[test]
fn q6_blocks_get_two_bytes() {
    let raw: Vec<u8> = (0..420u32).map(|i| (i % 251) as u8).collect();
    let out = align_q6_decode(&raw, 256, 2, 210);
    assert_eq!(out.len(), 424);
    assert_eq!(out[212..422], raw[210..420]);
    assert_eq!(out[210..212], [0, 0]);
}
