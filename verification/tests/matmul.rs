use taraference::cuda::device::{GemvTuning, Kernel};
use taraference::cuda::launch::{Arg, Buf, Launch, MatId, Part, Shape, VecId};
use taraference::cuda::matmul::{
    embed_batch, embed_one_device, gemm, gemv, gemv_baseline, gemv_n_split, gemv_splitk,
    launch_gemv_q4_0_qkv, quantize_q8, try_gemv_gdn_4way, try_gemv_global_q8, try_gemv_pair,
    try_gemv_prequantized_q8, try_gemv_q4_dual, try_gemv_q4_ffn, try_gemv_qkv, Card, GemvResidual,
    GpuMat, PlanError, WType,
};

type Row = (Kernel, Vec<Arg>, (u32, u32, u32, u32));

fn rows(plan: &[Launch]) -> Vec<Row> {
    plan.iter()
        .map(|l| {
            (
                l.kernel,
                l.args.clone(),
                (l.shape.grid_x, l.shape.grid_y, l.shape.block, l.shape.smem),
            )
        })
        .collect()
}

fn card(stride: usize) -> Card {
    Card {
        tuning: GemvTuning::from_cc(8, None),
        partial_stride: stride,
    }
}

fn mat(id: MatId, wtype: WType, n_rows: usize, n_cols: usize, col_bytes: usize) -> GpuMat {
    GpuMat {
        id,
        has_decode: false,
        has_compact: false,
        n_rows,
        n_cols,
        col_bytes,
        decode_col_bytes: col_bytes,
        compact_col_bytes: 0,
        wtype,
    }
}

fn num(n: i32) -> Arg {
    Arg::Int(n)
}

fn buf(b: Buf) -> Arg {
    Arg::Buf(b)
}

fn data(id: MatId) -> Arg {
    Arg::Mat(id, Part::Data)
}

fn quantized(x: Buf, n: i32, grid: u32) -> Row {
    (
        Kernel::QuantizeQ8,
        vec![buf(x), buf(Buf::Q8X), buf(Buf::Q8D), num(n)],
        (grid, 1, 256, 0),
    )
}

#[test]
fn quantizing_takes_eight_groups_to_a_block() {
    assert_eq!(
        rows(&quantize_q8(Buf::X, Buf::Q8X, Buf::Q8D, 100)),
        vec![quantized(Buf::X, 100, 1)]
    );
    assert_eq!(
        rows(&quantize_q8(Buf::X, Buf::Q8X, Buf::Q8D, 2560)),
        vec![quantized(Buf::X, 2560, 10)]
    );
}

#[test]
fn a_plain_product_has_one_launch() {
    let w = mat(MatId::Wq, WType::Q4K, 2048, 1000, 1152);
    let plan = gemv_baseline(card(8192), w, Buf::Xb, Buf::Q, None, GemvResidual::Nothing);
    assert_eq!(
        rows(&plan),
        vec![(
            Kernel::GemvQ4,
            vec![
                data(MatId::Wq),
                buf(Buf::Xb),
                buf(Buf::Q),
                num(2048),
                num(1000),
                num(1152),
                num(0),
                buf(Buf::Xb),
                num(0),
                buf(Buf::Xb),
            ],
            (32, 1, 1024, 8192)
        )]
    );
    let w = mat(MatId::Wo, WType::Q8_0, 2048, 1000, 2176);
    let plan = gemv_baseline(
        card(8192),
        w,
        Buf::Xb,
        Buf::X,
        Some(VecId::Bq),
        GemvResidual::InPlace,
    );
    assert_eq!(
        rows(&plan),
        vec![(
            Kernel::GemvQ8,
            vec![
                data(MatId::Wo),
                buf(Buf::Xb),
                buf(Buf::X),
                num(2048),
                num(1000),
                num(2176),
                num(1),
                Arg::Vector(VecId::Bq),
                num(2),
                buf(Buf::Xb),
            ],
            (63, 1, 512, 2304)
        )]
    );
}

#[test]
fn six_bits_take_the_copy_that_was_made_for_decoding() {
    let w = mat(MatId::Down, WType::Q6K, 2048, 1000, 1680);
    let add = GemvResidual::Add(Buf::X);
    let plan = gemv_baseline(card(8192), w, Buf::Hb, Buf::Xb, None, add);
    assert_eq!(plan[0].kernel, Kernel::GemvQ6);
    assert_eq!(plan[0].args[0], data(MatId::Down));
    assert_eq!(plan[0].args[8..], [num(1), buf(Buf::X)]);
    assert_eq!(
        plan[0].shape,
        Shape { grid_x: 125, grid_y: 1, block: 256, smem: 8192 }
    );
    let repacked = GpuMat { has_decode: true, decode_col_bytes: 2048, ..w };
    let plan = gemv_baseline(card(8192), repacked, Buf::Hb, Buf::Xb, None, add);
    assert_eq!(plan[0].kernel, Kernel::GemvQ6Repack);
    assert_eq!(plan[0].args[0], Arg::Mat(MatId::Down, Part::Decode));
    assert_eq!(plan[0].args[5], num(2048));
}

#[test]
fn tall_matrices_are_split() {
    assert_eq!(gemv_n_split(4095), 1);
    assert_eq!(gemv_n_split(4096), 4);
    let w = mat(MatId::Down, WType::Q4K, 9728, 1000, 5472);
    let plan = gemv_splitk(card(8192), w, Buf::Hb, Buf::Xb, None, GemvResidual::Nothing, 4);
    let expected = vec![
        (
            Kernel::GemvQ4Splitk,
            vec![
                data(MatId::Down),
                buf(Buf::Hb),
                buf(Buf::GemvPartial),
                num(9728),
                num(1000),
                num(5472),
                num(4),
            ],
            (32, 4, 1024, 10240),
        ),
        (
            Kernel::GemvSplitkReduce,
            vec![
                buf(Buf::GemvPartial),
                buf(Buf::Xb),
                num(1000),
                num(4),
                num(0),
                buf(Buf::Hb),
                num(0),
                buf(Buf::Hb),
            ],
            (4, 1, 256, 0),
        ),
    ];
    assert_eq!(rows(&plan), expected);
    let plan = gemv(card(8192), w, Buf::Hb, Buf::Xb, None, GemvResidual::Nothing);
    assert_eq!(rows(&plan), expected);
    let wide = gemv(card(999), w, Buf::Hb, Buf::Xb, None, GemvResidual::Nothing);
    assert_eq!(wide.len(), 1);
    assert_eq!(wide[0].kernel, Kernel::GemvQ4);
    let q5 = mat(MatId::Down, WType::Q5_0, 4096, 1000, 2816);
    let plan = gemv_splitk(card(8192), q5, Buf::Hb, Buf::Xb, None, GemvResidual::Nothing, 4);
    assert_eq!(plan[0].kernel, Kernel::GemvQ5Splitk);
    assert_eq!(
        plan[0].shape,
        Shape { grid_x: 125, grid_y: 4, block: 256, smem: 4096 }
    );
}

#[test]
fn one_quantization_serves_all_columns() {
    let w = mat(MatId::Output, WType::Q4K, 2048, 1000, 1152);
    let a = try_gemv_global_q8(card(8192), w, Buf::Xb1, Buf::Logits, None, GemvResidual::Nothing);
    assert!(a.done);
    assert_eq!(
        rows(&a.launches),
        vec![
            quantized(Buf::Xb1, 2048, 8),
            (
                Kernel::GemvQ4Global,
                vec![
                    data(MatId::Output),
                    buf(Buf::Q8X),
                    buf(Buf::Q8D),
                    buf(Buf::Logits),
                    num(2048),
                    num(1000),
                    num(1152),
                    num(0),
                    buf(Buf::Xb1),
                    num(0),
                    buf(Buf::Xb1),
                ],
                (63, 1, 512, 2304)
            )
        ]
    );
}

#[test]
fn tall_matrices_are_split_after_one_quantization() {
    let w = mat(MatId::Down, WType::Q4K, 9728, 1000, 5472);
    let a = try_gemv_global_q8(card(8192), w, Buf::Hb, Buf::X, None, GemvResidual::InPlace);
    assert!(a.done);
    assert_eq!(
        rows(&a.launches),
        vec![
            quantized(Buf::Hb, 9728, 38),
            (
                Kernel::GemvQ4GlobalSplitk,
                vec![
                    data(MatId::Down),
                    buf(Buf::Q8X),
                    buf(Buf::Q8D),
                    buf(Buf::GemvPartial),
                    num(9728),
                    num(1000),
                    num(5472),
                    num(4),
                ],
                (1000, 4, 64, 0)
            ),
            (
                Kernel::GemvSplitkReduce,
                vec![
                    buf(Buf::GemvPartial),
                    buf(Buf::X),
                    num(1000),
                    num(4),
                    num(0),
                    buf(Buf::Hb),
                    num(2),
                    buf(Buf::Hb),
                ],
                (4, 1, 256, 0)
            )
        ]
    );
    let q8 = mat(MatId::Down, WType::Q8_0, 9728, 1000, 10336);
    let a = try_gemv_global_q8(card(8192), q8, Buf::Hb, Buf::X, None, GemvResidual::InPlace);
    assert_eq!(a.launches[1].kernel, Kernel::GemvQ8GlobalSplitk);
    assert_eq!(
        a.launches[1].shape,
        Shape { grid_x: 32, grid_y: 4, block: 1024, smem: 0 }
    );
}

#[test]
fn compact_six_bits_are_summed_by_one_block() {
    let w = GpuMat {
        has_compact: true,
        compact_col_bytes: 8056,
        ..mat(MatId::Down, WType::Q6K, 9728, 1000, 7980)
    };
    let a = try_gemv_global_q8(card(8192), w, Buf::Hb, Buf::X, None, GemvResidual::InPlace);
    assert!(a.done);
    assert_eq!(a.launches.len(), 2);
    assert_eq!(a.launches[1].kernel, Kernel::GemvQ6CompactGlobal8way);
    assert_eq!(a.launches[1].args[0], Arg::Mat(MatId::Down, Part::Compact));
    assert_eq!(a.launches[1].args[6], num(8056));
    assert_eq!(
        a.launches[1].shape,
        Shape { grid_x: 1000, grid_y: 1, block: 256, smem: 0 }
    );
    let short = GpuMat { n_rows: 2048, compact_col_bytes: 1696, ..w };
    let a = try_gemv_global_q8(card(8192), short, Buf::Xb, Buf::Q, None, GemvResidual::Nothing);
    assert_eq!(a.launches[1].kernel, Kernel::GemvQ6CompactGlobal);
    assert_eq!(
        a.launches[1].shape,
        Shape { grid_x: 63, grid_y: 1, block: 512, smem: 2304 }
    );
    let plain = GpuMat { has_compact: false, ..w };
    let a = try_gemv_global_q8(card(8192), plain, Buf::Hb, Buf::X, None, GemvResidual::InPlace);
    assert!(!a.done);
    assert!(a.launches.is_empty());
    let narrow = mat(MatId::Down, WType::Q4K, 9728, 1000, 5472);
    let a = try_gemv_global_q8(card(999), narrow, Buf::Hb, Buf::X, None, GemvResidual::InPlace);
    assert!(!a.done);
    assert_eq!(rows(&a.launches), vec![quantized(Buf::Hb, 9728, 38)]);
}

#[test]
fn an_input_that_is_quantized_is_not_quantized_again() {
    let w = mat(MatId::TokenEmbd, WType::Q8_0, 640, 32000, 680);
    let plan = try_gemv_prequantized_q8(card(32000), w, Buf::Logits);
    assert_eq!(
        rows(&plan.unwrap()),
        vec![(
            Kernel::GemvQ8Global,
            vec![
                data(MatId::TokenEmbd),
                buf(Buf::Q8X),
                buf(Buf::Q8D),
                buf(Buf::Logits),
                num(640),
                num(32000),
                num(680),
                num(0),
                buf(Buf::Q8D),
                num(0),
                buf(Buf::Q8D),
            ],
            (2000, 1, 512, 720)
        )]
    );
    let w = mat(MatId::TokenEmbd, WType::Q4K, 1024, 32000, 576);
    assert!(try_gemv_prequantized_q8(card(32000), w, Buf::Logits).is_none());
}

fn pair(a: GpuMat, b: GpuMat, ba: Option<VecId>, bb: Option<VecId>) -> Option<Vec<Row>> {
    try_gemv_pair(card(8192), a, b, Buf::Xb, Buf::Q, Buf::KBuf, ba, bb).map(|p| rows(&p))
}

#[test]
fn pairs_of_matrices_are_fused() {
    let a = mat(MatId::Wq, WType::Q5_0, 896, 896, 616);
    let b = mat(MatId::Wk, WType::Q5_0, 896, 128, 616);
    assert_eq!(
        pair(a, b, Some(VecId::Bq), Some(VecId::Bk)).unwrap(),
        vec![(
            Kernel::GemvQ5Qk,
            vec![
                data(MatId::Wq),
                data(MatId::Wk),
                buf(Buf::Xb),
                buf(Buf::Q),
                buf(Buf::KBuf),
                num(896),
                num(896),
                num(128),
                num(616),
                num(1),
                Arg::Vector(VecId::Bq),
                Arg::Vector(VecId::Bk),
            ],
            (128, 1, 256, 3584)
        )]
    );
    assert!(pair(a, b, Some(VecId::Bq), None).is_none());
    let a = mat(MatId::Wq, WType::Q4K, 2048, 2048, 1152);
    let b = mat(MatId::Wk, WType::Q4K, 2048, 256, 1152);
    assert_eq!(
        pair(a, b, None, None).unwrap(),
        vec![
            quantized(Buf::Xb, 2048, 8),
            (
                Kernel::GemvQ4Pair,
                vec![
                    data(MatId::Wq),
                    data(MatId::Wk),
                    buf(Buf::Q8X),
                    buf(Buf::Q8D),
                    buf(Buf::Q),
                    buf(Buf::KBuf),
                    num(2048),
                    num(2048),
                    num(256),
                    num(1152),
                    num(0),
                    buf(Buf::Xb),
                    buf(Buf::Xb),
                ],
                (2304, 1, 64, 0)
            )
        ]
    );
    let a = mat(MatId::Wq, WType::Q4_0, 640, 640, 360);
    let b = mat(MatId::Wk, WType::Q4_0, 640, 640, 360);
    assert_eq!(
        pair(a, b, None, None).unwrap(),
        vec![
            quantized(Buf::Xb, 640, 3),
            (
                Kernel::GemvQ40Pair,
                vec![
                    data(MatId::Wq),
                    data(MatId::Wk),
                    buf(Buf::Q8X),
                    buf(Buf::Q8D),
                    buf(Buf::Q),
                    buf(Buf::KBuf),
                    num(640),
                    num(640),
                    num(360),
                ],
                (40, 1, 512, 720)
            )
        ]
    );
    assert!(pair(a, b, Some(VecId::Bq), Some(VecId::Bk)).is_none());
    assert!(pair(a, GpuMat { n_cols: 320, ..b }, None, None).is_none());
}

#[test]
fn equal_pairs_share_a_block() {
    let a = mat(MatId::Gate, WType::Q4K, 2048, 500, 1152);
    let b = mat(MatId::Up, WType::Q4K, 2048, 500, 1152);
    let plan = try_gemv_q4_dual(card(8192), a, b, Buf::Xb, Buf::Hb, Buf::Hb2).unwrap();
    assert_eq!(
        rows(&plan),
        vec![
            quantized(Buf::Xb, 2048, 8),
            (
                Kernel::GemvQ4Dual,
                vec![
                    data(MatId::Gate),
                    data(MatId::Up),
                    buf(Buf::Q8X),
                    buf(Buf::Q8D),
                    buf(Buf::Hb),
                    buf(Buf::Hb2),
                    num(2048),
                    num(500),
                    num(1152),
                ],
                (500, 1, 128, 0)
            )
        ]
    );
    let c = GpuMat { n_cols: 501, ..b };
    assert!(try_gemv_q4_dual(card(8192), a, c, Buf::Xb, Buf::Hb, Buf::Hb2).is_none());
}

fn ffn(wtype: WType, n_rows: usize, n_cols: usize, col_bytes: usize) -> Option<Vec<Row>> {
    let gate = mat(MatId::Gate, wtype, n_rows, n_cols, col_bytes);
    let up = mat(MatId::Up, wtype, n_rows, n_cols, col_bytes);
    try_gemv_q4_ffn(card(8192), gate, up, Buf::Xb, Buf::Hb).map(|p| rows(&p))
}

#[test]
fn gate_and_up_are_fused_with_their_product() {
    assert_eq!(
        ffn(WType::Q4K, 2048, 11008, 1152).unwrap(),
        vec![(
            Kernel::GemvQ4FfnMcol,
            vec![
                data(MatId::Gate),
                data(MatId::Up),
                buf(Buf::Xb),
                buf(Buf::Hb),
                num(2048),
                num(11008),
                num(1152),
            ],
            (344, 1, 1024, 2304)
        )]
    );
    let narrow = ffn(WType::Q4K, 2048, 1023, 1152).unwrap();
    assert_eq!(narrow[0], quantized(Buf::Xb, 2048, 8));
    assert_eq!(narrow[1].0, Kernel::GemvQ4Ffn);
    assert_eq!(narrow[1].2, (1023, 1, 128, 0));
    let tall = ffn(WType::Q4K, 4096, 1000, 2304).unwrap();
    assert_eq!(tall[1].0, Kernel::GemvQ4Ffn8way);
    assert_eq!(
        tall[1].1,
        vec![
            data(MatId::Gate),
            data(MatId::Up),
            buf(Buf::Q8X),
            buf(Buf::Q8D),
            buf(Buf::Hb),
            num(4096),
            num(1000),
            num(2304),
        ]
    );
    assert_eq!(tall[1].2, (1000, 1, 256, 0));
    let huge = ffn(WType::Q4K, 43776, 2048, 24624).unwrap();
    assert_eq!(huge[1].0, Kernel::GemvQ4Ffn8way);
    let q40 = ffn(WType::Q4_0, 640, 1280, 360).unwrap();
    assert_eq!(q40[0], quantized(Buf::Xb, 640, 3));
    assert_eq!(q40[1].0, Kernel::GemvQ40Ffn);
    assert_eq!(q40[1].2, (80, 1, 512, 720));
    assert!(ffn(WType::Q8_0, 640, 1280, 680).is_none());
}

fn qkv(wtype: WType, n_rows: usize, col_bytes: usize, bias: bool, stride: usize) -> Option<Vec<Row>> {
    let q = mat(MatId::Wq, wtype, n_rows, 2048, col_bytes);
    let k = mat(MatId::Wk, wtype, n_rows, 256, col_bytes);
    let v = mat(MatId::Wv, wtype, n_rows, 256, col_bytes);
    let of = |id: VecId| if bias { Some(id) } else { None };
    try_gemv_qkv(
        card(stride),
        q,
        k,
        v,
        Buf::Xb,
        Buf::Q,
        Buf::KBuf,
        Buf::VBuf,
        of(VecId::Bq),
        of(VecId::Bk),
        of(VecId::Bv),
    )
    .map(|p| rows(&p))
}

#[test]
fn queries_keys_and_values_are_fused() {
    let weights = vec![data(MatId::Wq), data(MatId::Wk), data(MatId::Wv)];
    let outs = vec![buf(Buf::Q), buf(Buf::KBuf), buf(Buf::VBuf)];
    let sizes = vec![num(2048), num(256), num(256)];
    let biases = vec![
        Arg::Vector(VecId::Bq),
        Arg::Vector(VecId::Bk),
        Arg::Vector(VecId::Bv),
    ];
    let q8 = vec![buf(Buf::Q8X), buf(Buf::Q8D)];
    assert_eq!(
        qkv(WType::Q4K, 2048, 1152, true, 8192).unwrap(),
        vec![
            quantized(Buf::Xb, 2048, 8),
            (
                Kernel::GemvQ4Qkv,
                [
                    weights.clone(),
                    q8.clone(),
                    outs.clone(),
                    vec![num(2048)],
                    sizes.clone(),
                    vec![num(1152), num(1)],
                    biases.clone(),
                ]
                .concat(),
                (160, 1, 512, 2304)
            )
        ]
    );
    let none = vec![buf(Buf::Xb), buf(Buf::Xb), buf(Buf::Xb)];
    assert_eq!(
        qkv(WType::Q5_0, 896, 616, false, 8192).unwrap(),
        vec![(
            Kernel::GemvQ5Qkv,
            [
                weights.clone(),
                vec![buf(Buf::Xb)],
                outs.clone(),
                vec![num(896)],
                sizes.clone(),
                vec![num(616), num(0)],
                none.clone(),
            ]
            .concat(),
            (320, 1, 256, 3584)
        )]
    );
    assert_eq!(
        qkv(WType::Q8_0, 2048, 2176, false, 8192).unwrap(),
        vec![(
            Kernel::GemvQ8Qkv,
            [
                weights.clone(),
                vec![buf(Buf::Xb)],
                outs.clone(),
                vec![num(2048)],
                sizes.clone(),
                vec![num(2176), num(0)],
                none.clone(),
            ]
            .concat(),
            (160, 1, 512, 2304)
        )]
    );
    assert_eq!(
        qkv(WType::Q8_0, 4096, 4352, false, 8192).unwrap(),
        vec![
            quantized(Buf::Xb, 4096, 16),
            (
                Kernel::GemvQ8QkvSplitk,
                [
                    weights.clone(),
                    q8.clone(),
                    vec![buf(Buf::GemvPartial), num(4096)],
                    sizes.clone(),
                    vec![num(4352), num(4)],
                ]
                .concat(),
                (80, 4, 1024, 0)
            ),
            (
                Kernel::GemvSplitkReduceQkv,
                [
                    vec![buf(Buf::GemvPartial)],
                    outs.clone(),
                    sizes.clone(),
                    vec![num(4), num(0)],
                    none.clone(),
                ]
                .concat(),
                (10, 1, 256, 0)
            )
        ]
    );
    let wide = qkv(WType::Q8_0, 4096, 4352, false, 2559).unwrap();
    assert_eq!(wide.len(), 1);
    assert_eq!(wide[0].0, Kernel::GemvQ8Qkv);
    assert!(qkv(WType::Q6K, 2048, 1680, false, 8192).is_none());
}

#[test]
fn four_bits_of_a_pack_take_two_warps_where_they_are_tall() {
    let wide = qkv(WType::Q4_0, 640, 360, false, 8192).unwrap();
    assert_eq!(wide[0], quantized(Buf::Xb, 640, 3));
    assert_eq!(wide[1].0, Kernel::GemvQ40Qkv2w);
    assert_eq!(wide[1].2, (2560, 1, 64, 0));
    let short = qkv(WType::Q4_0, 480, 270, false, 8192).unwrap();
    assert_eq!(short[1].0, Kernel::GemvQ40Qkv);
    assert_eq!(short[1].2, (160, 1, 512, 540));
    let q = mat(MatId::Wq, WType::Q4_0, 640, 640, 360);
    let k = mat(MatId::Wk, WType::Q4_0, 640, 320, 360);
    let v = mat(MatId::Wv, WType::Q4_0, 640, 320, 360);
    let plan = launch_gemv_q4_0_qkv(
        card(8192),
        q,
        k,
        v,
        Buf::Q,
        Buf::KBuf,
        Buf::VBuf,
        None,
        None,
        None,
        Buf::Xb,
    );
    assert_eq!(plan.len(), 1);
    assert_eq!(plan[0].kernel, Kernel::GemvQ40Qkv2w);
    assert_eq!(plan[0].shape.grid_x, 1280);
}

fn gdn(gate: WType, gate_bytes: usize, n_rows: usize, off: bool) -> Option<Vec<Row>> {
    let bytes = n_rows / 32 * 34;
    try_gemv_gdn_4way(
        card(16384),
        mat(MatId::Wqkv, WType::Q8_0, n_rows, 6144, bytes),
        mat(MatId::WGate, gate, n_rows, 2048, gate_bytes),
        mat(MatId::SsmBeta, WType::Q8_0, n_rows, 16, bytes),
        mat(MatId::SsmAlpha, WType::Q8_0, n_rows, 16, bytes),
        Buf::Xb,
        Buf::Q,
        Buf::GdnZ,
        Buf::GdnBeta,
        Buf::GdnAlpha,
        off,
    )
    .map(|p| rows(&p))
}

#[test]
fn four_projections_of_a_linear_layer_are_fused() {
    let weights = vec![
        data(MatId::Wqkv),
        data(MatId::WGate),
        data(MatId::SsmBeta),
        data(MatId::SsmAlpha),
    ];
    let outs = vec![
        buf(Buf::Q),
        buf(Buf::GdnZ),
        buf(Buf::GdnBeta),
        buf(Buf::GdnAlpha),
    ];
    let sizes = vec![num(6144), num(2048), num(16), num(16)];
    assert_eq!(
        gdn(WType::Q8_0, 1088, 1024, false).unwrap(),
        vec![(
            Kernel::GemvQ8Gdn4way,
            [
                weights.clone(),
                vec![buf(Buf::Xb)],
                outs.clone(),
                vec![num(1024)],
                sizes.clone(),
                vec![num(1088)],
            ]
            .concat(),
            (514, 1, 512, 1152)
        )]
    );
    let mixed = gdn(WType::Q4K, 576, 1024, false).unwrap();
    assert_eq!(mixed[0].0, Kernel::GemvHybridGdn4way);
    assert_eq!(mixed[0].1[mixed[0].1.len() - 2..], [num(1088), num(576)]);
    assert_eq!(
        gdn(WType::Q4K, 2304, 4096, false).unwrap(),
        vec![
            quantized(Buf::Xb, 4096, 16),
            (
                Kernel::GemvHybridGdn4waySplitk,
                [
                    weights.clone(),
                    vec![
                        buf(Buf::Q8X),
                        buf(Buf::Q8D),
                        buf(Buf::GemvPartial),
                        num(4096)
                    ],
                    sizes.clone(),
                    vec![num(4352), num(2304), num(4)],
                ]
                .concat(),
                (514, 4, 512, 0)
            ),
            (
                Kernel::GemvSplitkReduceGdn4way,
                [
                    vec![buf(Buf::GemvPartial)],
                    outs.clone(),
                    sizes.clone(),
                    vec![num(4)],
                ]
                .concat(),
                (33, 1, 256, 0)
            )
        ]
    );
    assert!(gdn(WType::Q8_0, 1088, 1024, true).is_none());
    assert!(gdn(WType::Q5K, 704, 1024, false).is_none());
    assert!(gdn(WType::Q8_0, 1089, 1024, false).is_none());
}

#[test]
fn many_tokens_take_one_block_to_a_column() {
    let w = mat(MatId::Wq, WType::Q6K, 2048, 1000, 1680);
    let plan = gemm(card(8192), w, Buf::Xb, Buf::Q, 5).unwrap();
    assert_eq!(
        rows(&plan),
        vec![(
            Kernel::GemmQ6,
            vec![
                data(MatId::Wq),
                buf(Buf::Xb),
                buf(Buf::Q),
                num(2048),
                num(1000),
                num(1680),
                num(5),
            ],
            (1000, 1, 32, 0)
        )]
    );
    let one = gemm(card(8192), w, Buf::Xb, Buf::Q, 1).unwrap();
    assert_eq!(one[0].kernel, Kernel::GemvQ6);
    let q40 = mat(MatId::Wq, WType::Q4_0, 640, 640, 360);
    let refused = gemm(card(8192), q40, Buf::Xb, Buf::Q, 2);
    assert!(matches!(refused, Err(PlanError::Q4ManyTokens)));
}

#[test]
fn tokens_are_looked_up() {
    let w = mat(MatId::TokenEmbd, WType::Q8_0, 1024, 32000, 1088);
    assert_eq!(
        rows(&embed_batch(w, &[7])),
        vec![(
            Kernel::EmbedQ8One,
            vec![
                data(MatId::TokenEmbd),
                buf(Buf::X),
                num(7),
                num(1024),
                num(1088),
            ],
            (1, 1, 32, 0)
        )]
    );
    assert_eq!(
        rows(&embed_batch(w, &[7, 8, 9])),
        vec![(
            Kernel::EmbedQ8,
            vec![
                data(MatId::TokenEmbd),
                buf(Buf::X),
                buf(Buf::TokBuf),
                num(3),
                num(1024),
                num(1088),
            ],
            (3, 1, 32, 0)
        )]
    );
    assert_eq!(
        rows(&embed_one_device(w)),
        vec![(
            Kernel::EmbedQ8OneD,
            vec![
                data(MatId::TokenEmbd),
                buf(Buf::X),
                buf(Buf::DToken),
                num(1024),
                num(1088),
            ],
            (1, 1, 32, 0)
        )]
    );
}
