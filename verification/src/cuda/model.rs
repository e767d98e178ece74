//! A model on the card: its weights as descriptions, the sizes of its
//! buffers, and whether its decoding is recorded as a graph.
use crate::config::{LayerKind, ModelConfig};
use crate::cuda::decode::{DecodeBackend, FLASH_MAX_SPLIT};
use crate::cuda::device::Kernel;
use crate::cuda::kv::CudaKv;
use crate::cuda::launch::{
    elems, extend, one, plan_of, single, to_i32, to_u32, Arg, Buf, Launch, LaunchView, Plan,
};
use crate::cuda::layer::{nothing, ChunkDims, Flags, GpuLayer, Head, RopeConfig};
use crate::cuda::matmul::{Card, MAX_SIDE};
use vstd::prelude::*;

verus! {

/// Tokens of the largest chunk.
pub const MAX_BATCH: usize = 256;

/// The current token and at most eight drafted ones.
pub const MAX_VERIFY_TOKENS: usize = 9;

/// A model on the card. The numbers themselves are on the card; here is what
/// decides over them.
#[derive(Debug)]
pub struct CudaModel {
    pub cfg: ModelConfig,
    /// The attention path.
    pub decode: DecodeBackend,
    pub card: Card,
    pub flags: Flags,
    /// Which layers leave their feed-forward part out.
    pub skip_ffn: Option<String>,
    pub head: Head,
    pub layers: Vec<GpuLayer>,
    /// Whether decoding is to be recorded after the first single token.
    pub cuda_graph: bool,
    /// Whether recording was tried.
    pub graph_tried: bool,
    /// Whether the recording is replayed.
    pub graph_active: bool,
    /// Whether there is a recording.
    pub has_graph: bool,
}

impl CudaModel {
    /// Everything but the three facts about the recording is as in `other`.
    pub open spec fn same_weights(self, other: CudaModel) -> bool {
        &&& self.cfg == other.cfg
        &&& self.decode == other.decode
        &&& self.card == other.card
        &&& self.flags == other.flags
        &&& self.skip_ffn == other.skip_ffn
        &&& self.head == other.head
        &&& self.layers == other.layers
    }

    /// There is a recording exactly where one is replayed.
    pub open spec fn recording_sound(self) -> bool {
        self.graph_active == self.has_graph
    }

    /// This is `before` without what it recorded.
    pub open spec fn dropped(self, before: CudaModel) -> bool {
        &&& self.same_weights(before)
        &&& self.cuda_graph == before.cuda_graph
        &&& !self.has_graph
        &&& !self.graph_tried
        &&& !self.graph_active
    }

    /// Turns recording on, or off and drops what was recorded.
    pub fn set_cuda_graph(&mut self, enabled: bool)
        ensures
            final(self).same_weights(*old(self)),
            final(self).cuda_graph == enabled,
            final(self).has_graph == (enabled && old(self).has_graph),
            final(self).graph_tried == (enabled && old(self).graph_tried),
            final(self).graph_active == (enabled && old(self).graph_active),
            old(self).recording_sound() ==> final(self).recording_sound(),
    {
        self.cuda_graph = enabled;
        if !enabled {
            self.has_graph = false;
            self.graph_tried = false;
            self.graph_active = false;
        }
    }

    /// Whether the recording is replayed.
    pub fn graph_active(&self) -> (r: bool)
        ensures
            r == self.graph_active,
    {
        self.graph_active
    }

    /// Drops what was recorded and goes back to eager passes: the next single
    /// token is run eagerly, and records anew where recording is on.
    pub fn invalidate_decode_graph(&mut self)
        ensures
            final(self).dropped(*old(self)),
            final(self).recording_sound(),
    {
        self.has_graph = false;
        self.graph_tried = false;
        self.graph_active = false;
    }
}

impl CudaModel {
    /// A cache of `max_seq` positions.
    pub fn alloc_kv(&self, max_seq: usize) -> (r: KvLayout)
        requires
            cache_fits(self.cfg, max_seq),
        ensures
            r.is_of(self.cfg, max_seq),
    {
        kv_layout(&self.cfg, max_seq)
    }

    /// Zeroes the recurrent state of layer `li`, where it has one.
    pub fn zero_recurrent(&self, li: usize) -> (r: Vec<Launch>)
        requires
            hybrid(self.cfg) ==> recurrent_fits(self.cfg),
        ensures
            plan_of(r@) == zero_recurrent_plan(self.cfg, li as int),
    {
        zero_state(&self.cfg, li)
    }
}

/// Whether a linear layer occurs.
pub open spec fn hybrid(cfg: ModelConfig) -> bool {
    cfg.layer_kinds@.contains(LayerKind::LinearAttention)
}

/// Whether layer `li` is a linear one.
pub open spec fn linear_at(cfg: ModelConfig, li: int) -> bool {
    0 <= li < cfg.layer_kinds@.len() && cfg.layer_kinds@[li] == LayerKind::LinearAttention
}

/// The sizes are no larger than the kernels can count.
pub open spec fn sides_fit(cfg: ModelConfig) -> bool {
    &&& cfg.n_embd <= MAX_SIDE
    &&& cfg.n_ff <= MAX_SIDE
    &&& cfg.n_head <= MAX_SIDE
    &&& cfg.n_head_kv <= MAX_SIDE
    &&& cfg.n_layer <= MAX_SIDE
    &&& cfg.attention_head_dim <= MAX_SIDE
    &&& cfg.n_head * cfg.attention_head_dim <= MAX_SIDE
    &&& cfg.n_head_kv * cfg.attention_head_dim <= MAX_SIDE
}

/// The sizes of the linear layers are no larger than the kernels can count.
pub open spec fn recurrent_fits(cfg: ModelConfig) -> bool {
    &&& cfg.ssm_n_v_heads <= MAX_SIDE
    &&& cfg.key_dim() <= MAX_SIDE
    &&& cfg.value_dim() <= MAX_SIDE
    &&& cfg.conv_channels() <= MAX_SIDE
    &&& cfg.state_elems() <= MAX_SIDE
    &&& cfg.conv_kept() * cfg.conv_channels() <= MAX_SIDE
}

/// Whether a product stays within the largest side.
fn small_product(a: usize, b: usize) -> (r: bool)
    ensures
        r == (a * b <= MAX_SIDE),
{
    match a.checked_mul(b) {
        Some(p) => p <= MAX_SIDE,
        None => false,
    }
}

/// Whether the sizes are no larger than the kernels can count.
pub fn has_fitting_sides(cfg: &ModelConfig) -> (r: bool)
    ensures
        r == sides_fit(*cfg),
{
    cfg.n_embd <= MAX_SIDE && cfg.n_ff <= MAX_SIDE && cfg.n_head <= MAX_SIDE && cfg.n_head_kv
        <= MAX_SIDE && cfg.n_layer <= MAX_SIDE && cfg.attention_head_dim <= MAX_SIDE
        && small_product(cfg.n_head, cfg.attention_head_dim) && small_product(
        cfg.n_head_kv,
        cfg.attention_head_dim,
    )
}

/// Whether the sizes of the linear layers are no larger than the kernels can
/// count.
pub fn has_fitting_state(cfg: &ModelConfig) -> (r: bool)
    ensures
        r == recurrent_fits(*cfg),
{
    if !(cfg.ssm_n_v_heads <= MAX_SIDE && small_product(cfg.ssm_state_size, cfg.ssm_n_k_heads)
        && small_product(cfg.ssm_state_size, cfg.ssm_n_v_heads)) {
        return false;
    }
    let key: usize = cfg.ssm_key_dim();
    let value: usize = cfg.ssm_value_dim();
    if key > MAX_SIDE / 2 || key * 2 + value > MAX_SIDE {
        return false;
    }
    let kept: usize = if cfg.ssm_conv_kernel == 0 {
        0
    } else {
        cfg.ssm_conv_kernel - 1
    };
    proof {
        assert(cfg.ssm_n_v_heads * cfg.ssm_state_size == cfg.ssm_state_size * cfg.ssm_n_v_heads)
            by (nonlinear_arith);
    }
    small_product(value, cfg.ssm_state_size) && small_product(kept, key * 2 + value)
}

/// What the layers have in common.
pub fn rope_of(cfg: &ModelConfig) -> (r: RopeConfig)
    ensures
        r.no_rope_layer_interval == cfg.no_rope_layer_interval,
        r.rope_dim == cfg.rope_dim,
{
    RopeConfig { no_rope_layer_interval: cfg.no_rope_layer_interval, rope_dim: cfg.rope_dim }
}

/// The sizes of a chunk: the position is read on the card only for a single
/// token.
pub open spec fn dims_of(
    cfg: ModelConfig,
    n_tok: usize,
    pos0: usize,
    use_device_pos: bool,
) -> ChunkDims {
    ChunkDims {
        n_tok,
        n_embd: cfg.n_embd,
        n_ff: cfg.n_ff,
        n_head: cfg.n_head,
        n_kv_heads: cfg.n_head_kv,
        head_dim: cfg.attention_head_dim,
        pos0,
        use_device_pos: use_device_pos && n_tok == 1,
    }
}

/// The sizes of a chunk.
pub fn chunk_dims(cfg: &ModelConfig, n_tok: usize, pos0: usize, use_device_pos: bool) -> (r:
    ChunkDims)
    requires
        sides_fit(*cfg),
        1 <= n_tok,
        pos0 + n_tok <= MAX_SIDE,
    ensures
        r == dims_of(*cfg, n_tok, pos0, use_device_pos),
        r.fits(),
{
    ChunkDims {
        n_tok,
        n_embd: cfg.n_embd,
        n_ff: cfg.n_ff,
        n_head: cfg.n_head,
        n_kv_heads: cfg.n_head_kv,
        head_dim: cfg.head_dim(),
        pos0,
        use_device_pos: use_device_pos && n_tok == 1,
    }
}

/// Numbers that the cache keeps for a layer: keys (and as many values), the
/// recurrent state, and the columns of the convolution.
#[derive(Clone, Copy, PartialEq, Eq, Debug, Structural)]
pub struct LayerSlots {
    pub kv: u64,
    pub ssm: u64,
    pub conv: u64,
}

/// At least one.
pub open spec fn at_least_one(n: nat) -> nat {
    if n == 0 {
        1
    } else {
        n
    }
}

/// Keys of a softmax layer.
pub open spec fn kv_slot(cfg: ModelConfig, max_seq: usize) -> nat {
    max_seq as nat * (cfg.n_head_kv * cfg.attention_head_dim) as nat
}

/// What the cache keeps for layer `li`: a softmax layer its keys and values, a
/// linear one its state, and a single number stands for what is not kept.
pub open spec fn slots_of(cfg: ModelConfig, max_seq: usize, li: int) -> LayerSlots {
    if linear_at(cfg, li) {
        LayerSlots {
            kv: 1,
            ssm: at_least_one(cfg.state_elems()) as u64,
            conv: at_least_one(cfg.conv_kept() * cfg.conv_channels()) as u64,
        }
    } else {
        LayerSlots { kv: kv_slot(cfg, max_seq) as u64, ssm: 1, conv: 1 }
    }
}

/// Bytes of the keys and values of the first `n` layers.
pub open spec fn kv_bytes(cfg: ModelConfig, max_seq: usize, n: nat) -> nat
    decreases n,
{
    if n == 0 {
        0
    } else {
        kv_bytes(cfg, max_seq, (n - 1) as nat) + (if linear_at(cfg, n - 1) {
            0
        } else {
            kv_slot(cfg, max_seq) * 4
        })
    }
}

/// Bytes of the recurrent state of the first `n` layers.
pub open spec fn state_bytes(cfg: ModelConfig, n: nat) -> nat
    decreases n,
{
    if n == 0 {
        0
    } else {
        state_bytes(cfg, (n - 1) as nat) + (if linear_at(cfg, n - 1) {
            (at_least_one(cfg.state_elems()) + at_least_one(
                cfg.conv_kept() * cfg.conv_channels(),
            )) * 4
        } else {
            0
        })
    }
}

/// More layers never take less.
proof fn lemma_bytes_grow(cfg: ModelConfig, max_seq: usize, i: nat, n: nat)
    requires
        i <= n,
    ensures
        kv_bytes(cfg, max_seq, i) <= kv_bytes(cfg, max_seq, n),
        state_bytes(cfg, i) <= state_bytes(cfg, n),
    decreases n,
{
    if i < n {
        lemma_bytes_grow(cfg, max_seq, i, (n - 1) as nat);
    }
}

/// An empty cache, the numbers that it keeps for each layer, and its bytes.
pub struct KvLayout {
    pub kv: CudaKv,
    pub slots: Vec<LayerSlots>,
    pub kv_bytes: u64,
    pub state_bytes: u64,
}

impl KvLayout {
    /// The layout of an empty cache of `max_seq` positions.
    pub open spec fn is_of(self, cfg: ModelConfig, max_seq: usize) -> bool {
        &&& self.kv.wf()
        &&& self.kv.len == 0
        &&& self.kv.max_seq == max_seq
        &&& self.kv.is_full@ == Seq::new(cfg.n_layer as nat, |li: int| !linear_at(cfg, li))
        &&& self.slots@ == Seq::new(cfg.n_layer as nat, |li: int| slots_of(cfg, max_seq, li))
        &&& self.kv_bytes == kv_bytes(cfg, max_seq, cfg.n_layer as nat)
        &&& self.state_bytes == state_bytes(cfg, cfg.n_layer as nat)
    }
}

/// The sizes of the cache can be counted.
pub open spec fn cache_fits(cfg: ModelConfig, max_seq: usize) -> bool {
    &&& sides_fit(cfg)
    &&& hybrid(cfg) ==> recurrent_fits(cfg)
    &&& kv_slot(cfg, max_seq) <= u64::MAX
    &&& kv_bytes(cfg, max_seq, cfg.n_layer as nat) <= u64::MAX
    &&& state_bytes(cfg, cfg.n_layer as nat) <= u64::MAX
}

/// Whether the sizes of the cache can be counted.
pub fn has_fitting_cache(cfg: &ModelConfig, max_seq: usize) -> (r: bool)
    ensures
        r == cache_fits(*cfg, max_seq),
{
    if !has_fitting_sides(cfg) || (cfg.is_hybrid() && !has_fitting_state(cfg)) {
        return false;
    }
    let stride: usize = cfg.n_head_kv * cfg.head_dim();
    let slot: u64 = match (max_seq as u64).checked_mul(stride as u64) {
        Some(n) => n,
        None => {
            return false;
        },
    };
    let one: u64 = match slot.checked_mul(4) {
        Some(n) => n,
        None => 0,
    };
    let mut full_bytes: u64 = 0;
    let mut ssm_bytes: u64 = 0;
    let mut li: usize = 0;
    while li < cfg.n_layer
        invariant
            li <= cfg.n_layer,
            slot == kv_slot(*cfg, max_seq),
            one == (if slot * 4 <= u64::MAX {
                slot * 4
            } else {
                0
            }),
            sides_fit(*cfg),
            hybrid(*cfg) ==> recurrent_fits(*cfg),
            full_bytes == kv_bytes(*cfg, max_seq, li as nat),
            ssm_bytes == state_bytes(*cfg, li as nat),
        decreases cfg.n_layer - li,
    {
        proof {
            lemma_bytes_grow(*cfg, max_seq, li as nat + 1, cfg.n_layer as nat);
        }
        if cfg.is_linear_layer(li) {
            let state: u64 = state_numbers(cfg);
            ssm_bytes = match ssm_bytes.checked_add(state * 4) {
                Some(n) => n,
                None => {
                    return false;
                },
            };
        } else {
            if slot > u64::MAX / 4 {
                return false;
            }
            full_bytes = match full_bytes.checked_add(one) {
                Some(n) => n,
                None => {
                    return false;
                },
            };
        }
        li = li + 1;
    }
    true
}

/// Numbers of the recurrent state of a linear layer.
fn state_numbers(cfg: &ModelConfig) -> (r: u64)
    requires
        recurrent_fits(*cfg),
    ensures
        r == at_least_one(cfg.state_elems()) + at_least_one(cfg.conv_kept() * cfg.conv_channels()),
        r <= 0x4000_0000,
{
    proof {
        assert(cfg.ssm_n_v_heads * cfg.ssm_state_size == cfg.ssm_state_size * cfg.ssm_n_v_heads)
            by (nonlinear_arith);
    }
    wider(cfg.ssm_state_elems() as u64, 1) + wider(cfg.ssm_conv_state_elems() as u64, 1)
}

/// A cache of `max_seq` positions.
pub fn kv_layout(cfg: &ModelConfig, max_seq: usize) -> (r: KvLayout)
    requires
        cache_fits(*cfg, max_seq),
    ensures
        r.is_of(*cfg, max_seq),
{
    let stride: usize = cfg.n_head_kv * cfg.head_dim();
    let slot: u64 = max_seq as u64 * stride as u64;
    let mut is_full: Vec<bool> = Vec::new();
    let mut slots: Vec<LayerSlots> = Vec::new();
    let mut full_bytes: u64 = 0;
    let mut ssm_bytes: u64 = 0;
    let mut li: usize = 0;
    while li < cfg.n_layer
        invariant
            li <= cfg.n_layer,
            slot == kv_slot(*cfg, max_seq),
            hybrid(*cfg) ==> recurrent_fits(*cfg),
            kv_bytes(*cfg, max_seq, cfg.n_layer as nat) <= u64::MAX,
            state_bytes(*cfg, cfg.n_layer as nat) <= u64::MAX,
            is_full@ == Seq::new(li as nat, |k: int| !linear_at(*cfg, k)),
            slots@ == Seq::new(li as nat, |k: int| slots_of(*cfg, max_seq, k)),
            full_bytes == kv_bytes(*cfg, max_seq, li as nat),
            ssm_bytes == state_bytes(*cfg, li as nat),
        decreases cfg.n_layer - li,
    {
        proof {
            lemma_bytes_grow(*cfg, max_seq, li as nat + 1, cfg.n_layer as nat);
        }
        if cfg.is_linear_layer(li) {
            proof {
                assert(hybrid(*cfg)) by {
                    assert(cfg.layer_kinds@[li as int] == LayerKind::LinearAttention);
                }
                assert(cfg.ssm_n_v_heads * cfg.ssm_state_size == cfg.ssm_state_size
                    * cfg.ssm_n_v_heads) by (nonlinear_arith);
            }
            is_full.push(false);
            let state: usize = cfg.ssm_state_elems();
            let kept: usize = cfg.ssm_conv_state_elems();
            let se: u64 = if state == 0 {
                1
            } else {
                state as u64
            };
            let ce: u64 = if kept == 0 {
                1
            } else {
                kept as u64
            };
            slots.push(LayerSlots { kv: 1, ssm: se, conv: ce });
            ssm_bytes = ssm_bytes + (se + ce) * 4;
        } else {
            is_full.push(true);
            slots.push(LayerSlots { kv: slot, ssm: 1, conv: 1 });
            full_bytes = full_bytes + slot * 2 * 2;
        }
        li = li + 1;
    }
    KvLayout {
        kv: CudaKv { is_full, len: 0, max_seq },
        slots,
        kv_bytes: full_bytes,
        state_bytes: ssm_bytes,
    }
}

/// A cache keeps keys and values for exactly the layers that are not linear.
pub proof fn law_cache_matches_layers(cfg: ModelConfig, max_seq: usize, li: int)
    requires
        0 <= li < cfg.n_layer,
        kv_slot(cfg, max_seq) <= u64::MAX,
        max_seq > 0,
        cfg.n_head_kv * cfg.attention_head_dim > 1,
    ensures
        !linear_at(cfg, li) <==> slots_of(cfg, max_seq, li).kv > 1,
        !linear_at(cfg, li) ==> slots_of(cfg, max_seq, li).kv == max_seq * (cfg.n_head_kv
            * cfg.attention_head_dim),
{
    let w = cfg.n_head_kv * cfg.attention_head_dim;
    assert(max_seq * w > 1) by (nonlinear_arith)
        requires
            max_seq > 0,
            w > 1,
    ;
}

/// Zeroes `n` numbers of a cache.
pub open spec fn zero_plan(buf: Buf, n: usize) -> Plan {
    if to_i32(n) > 0 {
        one(
            Kernel::ZeroF32,
            seq![Arg::Buf(buf), Arg::Int(to_i32(n))],
            elems(to_u32(n)),
        )
    } else {
        Seq::<LaunchView>::empty()
    }
}

/// Zeroes `n` numbers of a cache.
fn zero(buf: Buf, n: usize) -> (r: Vec<Launch>)
    ensures
        plan_of(r@) == zero_plan(buf, n),
{
    if to_i32(n) > 0 {
        single(
            Kernel::ZeroF32,
            vec![Arg::Buf(buf), Arg::Int(to_i32(n))],
            elems(to_u32(n)),
        )
    } else {
        nothing()
    }
}

/// Zeroes the recurrent state of layer `li`, where it has one.
pub open spec fn zero_recurrent_plan(cfg: ModelConfig, li: int) -> Plan {
    if linear_at(cfg, li) {
        zero_plan(Buf::CacheSsm, cfg.state_elems() as usize) + zero_plan(
            Buf::CacheConv,
            (cfg.conv_kept() * cfg.conv_channels()) as usize,
        )
    } else {
        Seq::<LaunchView>::empty()
    }
}

/// Zeroes the recurrent state of layer `li`, where it has one.
pub fn zero_state(cfg: &ModelConfig, li: usize) -> (r: Vec<Launch>)
    requires
        hybrid(*cfg) ==> recurrent_fits(*cfg),
    ensures
        plan_of(r@) == zero_recurrent_plan(*cfg, li as int),
{
    if !cfg.is_linear_layer(li) {
        return nothing();
    }
    proof {
        assert(hybrid(*cfg)) by {
            assert(cfg.layer_kinds@[li as int] == LayerKind::LinearAttention);
        }
        assert(cfg.ssm_n_v_heads * cfg.ssm_state_size == cfg.ssm_state_size * cfg.ssm_n_v_heads)
            by (nonlinear_arith);
    }
    let mut out: Vec<Launch> = zero(Buf::CacheSsm, cfg.ssm_state_elems());
    extend(&mut out, zero(Buf::CacheConv, cfg.ssm_conv_state_elems()));
    out
}

/// The widths that the buffers are made for.
#[derive(Clone, Copy, PartialEq, Eq, Debug, Structural)]
pub struct Widths {
    pub n_embd: u64,
    pub n_ff: u64,
    pub n_kv: u64,
    pub n_q: u64,
    pub n_q_proj: u64,
    pub ssm_qkv: u64,
    pub ssm_key: u64,
    pub ssm_val: u64,
    pub ssm_nv: u64,
    /// Scores of the output head.
    pub active_vocab: u64,
    /// Partial results of the split attention.
    pub flash: u64,
    /// Whether there are buffers for linear layers.
    pub recurrent: bool,
}

/// The larger of two numbers.
#[verifier::allow_in_spec]
pub fn wider(a: u64, b: u64) -> u64
    returns
        (if a < b {
            b
        } else {
            a
        }),
{
    if a < b {
        b
    } else {
        a
    }
}

impl Widths {
    /// No width is larger than 32 bits can hold.
    pub open spec fn fits(self) -> bool {
        &&& self.n_embd <= u32::MAX
        &&& self.n_ff <= u32::MAX
        &&& self.n_kv <= u32::MAX
        &&& self.n_q <= u32::MAX
        &&& self.n_q_proj <= u32::MAX
        &&& self.ssm_qkv <= u32::MAX
        &&& self.ssm_key <= u32::MAX
        &&& self.ssm_val <= u32::MAX
        &&& self.ssm_nv <= u32::MAX
        &&& self.active_vocab <= u32::MAX
    }

    /// Columns that the buffer of partial products holds: the widest product.
    #[verifier::allow_in_spec]
    pub fn partial_stride(self) -> u64
        returns
            wider(
                wider(
                    wider(
                        wider(wider(wider(self.active_vocab, self.n_ff), self.n_embd), self.n_kv),
                        self.n_q_proj,
                    ),
                    self.ssm_qkv,
                ),
                self.ssm_val,
            ),
    {
        wider(
            wider(
                wider(
                    wider(wider(wider(self.active_vocab, self.n_ff), self.n_embd), self.n_kv),
                    self.n_q_proj,
                ),
                self.ssm_qkv,
            ),
            self.ssm_val,
        )
    }

    /// The widest vector that is quantized.
    #[verifier::allow_in_spec]
    pub fn quantized(self) -> u64
        returns
            wider(wider(wider(self.n_ff, self.n_embd), self.ssm_qkv), self.ssm_val),
    {
        wider(wider(wider(self.n_ff, self.n_embd), self.ssm_qkv), self.ssm_val)
    }

    /// Numbers of a buffer of the linear layers: `width` for each token of a
    /// chunk, or a single one where there are no such layers.
    pub open spec fn gdn_len(self, width: u64) -> nat {
        if self.recurrent {
            256 * width as nat
        } else {
            1
        }
    }

    /// Numbers that a buffer holds; the caches are laid out by themselves.
    pub open spec fn len_of(self, buf: Buf) -> nat {
        match buf {
            Buf::X => 256 * self.n_embd as nat,
            Buf::Xb => 256 * wider(wider(self.n_embd, self.n_q), self.ssm_val) as nat,
            Buf::Xb2 => 256 * wider(self.n_embd, self.ssm_val) as nat,
            Buf::Q => 256 * wider(self.n_q_proj, self.ssm_qkv) as nat,
            Buf::KBuf => 256 * wider(self.n_kv, self.ssm_key) as nat,
            Buf::VBuf => 256 * wider(self.n_kv, self.ssm_val) as nat,
            Buf::Hb => 256 * self.n_ff as nat,
            Buf::Hb2 => 256 * self.n_ff as nat,
            Buf::X1 => self.n_embd as nat,
            Buf::Xb1 => self.n_embd as nat,
            Buf::Logits => self.active_vocab as nat,
            Buf::SpecialLogit => 1,
            Buf::LogitsBatch => 9 * self.active_vocab as nat,
            Buf::ArgmaxBuf => 1,
            Buf::ArgmaxBatch => 9,
            Buf::TokBuf => 256,
            Buf::Q8X => self.quantized() as nat,
            Buf::Q8D => (self.quantized() as nat + 31) / 32,
            Buf::Q8Ff => wider(self.n_ff, 32) as nat,
            Buf::Q8FfD => (wider(self.n_ff, 32) as nat + 31) / 32,
            Buf::GemvPartial => 8 * self.partial_stride() as nat,
            Buf::DPos0 => 1,
            Buf::DToken => 1,
            Buf::FlashPartial => self.flash as nat,
            Buf::GateBuf => 256 * wider(self.n_q, self.ssm_val) as nat,
            Buf::GdnQ => self.gdn_len(self.ssm_key),
            Buf::GdnK => self.gdn_len(self.ssm_key),
            Buf::GdnV => self.gdn_len(self.ssm_val),
            Buf::GdnZ => self.gdn_len(self.ssm_val),
            Buf::GdnAlpha => self.gdn_len(self.ssm_nv),
            Buf::GdnBeta => self.gdn_len(self.ssm_nv),
            Buf::GdnConv => self.gdn_len(self.ssm_qkv),
            Buf::GdnOut => self.gdn_len(self.ssm_val),
            Buf::MoeIdx => 8,
            Buf::MoeW => 8,
            Buf::CacheK => 0,
            Buf::CacheV => 0,
            Buf::CacheSsm => 0,
            Buf::CacheConv => 0,
        }
    }

    /// Numbers that a buffer holds.
    pub fn buffer_len(self, buf: Buf) -> (r: u64)
        requires
            self.fits(),
        ensures
            r == self.len_of(buf),
    {
        let gdn_key: u64 = if self.recurrent {
            256 * self.ssm_key
        } else {
            1
        };
        let gdn_val: u64 = if self.recurrent {
            256 * self.ssm_val
        } else {
            1
        };
        let gdn_nv: u64 = if self.recurrent {
            256 * self.ssm_nv
        } else {
            1
        };
        let gdn_qkv: u64 = if self.recurrent {
            256 * self.ssm_qkv
        } else {
            1
        };
        match buf {
            Buf::X => 256 * self.n_embd,
            Buf::Xb => 256 * wider(wider(self.n_embd, self.n_q), self.ssm_val),
            Buf::Xb2 => 256 * wider(self.n_embd, self.ssm_val),
            Buf::Q => 256 * wider(self.n_q_proj, self.ssm_qkv),
            Buf::KBuf => 256 * wider(self.n_kv, self.ssm_key),
            Buf::VBuf => 256 * wider(self.n_kv, self.ssm_val),
            Buf::Hb => 256 * self.n_ff,
            Buf::Hb2 => 256 * self.n_ff,
            Buf::X1 => self.n_embd,
            Buf::Xb1 => self.n_embd,
            Buf::Logits => self.active_vocab,
            Buf::SpecialLogit => 1,
            Buf::LogitsBatch => 9 * self.active_vocab,
            Buf::ArgmaxBuf => 1,
            Buf::ArgmaxBatch => 9,
            Buf::TokBuf => 256,
            Buf::Q8X => self.quantized(),
            Buf::Q8D => (self.quantized() + 31) / 32,
            Buf::Q8Ff => wider(self.n_ff, 32),
            Buf::Q8FfD => (wider(self.n_ff, 32) + 31) / 32,
            Buf::GemvPartial => 8 * self.partial_stride(),
            Buf::DPos0 => 1,
            Buf::DToken => 1,
            Buf::FlashPartial => self.flash,
            Buf::GateBuf => 256 * wider(self.n_q, self.ssm_val),
            Buf::GdnQ => gdn_key,
            Buf::GdnK => gdn_key,
            Buf::GdnV => gdn_val,
            Buf::GdnZ => gdn_val,
            Buf::GdnAlpha => gdn_nv,
            Buf::GdnBeta => gdn_nv,
            Buf::GdnConv => gdn_qkv,
            Buf::GdnOut => gdn_val,
            Buf::MoeIdx => 8,
            Buf::MoeW => 8,
            Buf::CacheK => 0,
            Buf::CacheV => 0,
            Buf::CacheSsm => 0,
            Buf::CacheConv => 0,
        }
    }

    /// The widths of a model: those of the linear layers are at least one, and
    /// zero where there are no buffers for them.
    pub open spec fn is_of(self, cfg: ModelConfig, active_vocab: usize, recurrent: bool) -> bool {
        let none: nat = if recurrent {
            1
        } else {
            0
        };
        &&& self.n_embd == cfg.n_embd
        &&& self.n_ff == cfg.n_ff
        &&& self.n_kv == cfg.n_head_kv * cfg.attention_head_dim
        &&& self.n_q == cfg.n_head * cfg.attention_head_dim
        &&& self.n_q_proj == cfg.q_proj()
        &&& self.ssm_qkv == (if recurrent && hybrid(cfg) {
            at_least_one(cfg.conv_channels())
        } else {
            none
        })
        &&& self.ssm_key == (if recurrent && hybrid(cfg) {
            at_least_one(cfg.key_dim())
        } else {
            none
        })
        &&& self.ssm_val == (if recurrent && hybrid(cfg) {
            at_least_one(cfg.value_dim())
        } else {
            none
        })
        &&& self.ssm_nv == at_least_one(cfg.ssm_n_v_heads as nat)
        &&& self.active_vocab == active_vocab
        &&& self.flash == cfg.n_head * 8 * (2 + cfg.attention_head_dim)
        &&& self.recurrent == recurrent
    }

    /// The widths of a model whose head gives `active_vocab` scores.
    pub fn of(cfg: &ModelConfig, active_vocab: usize, recurrent: bool) -> (r: Widths)
        requires
            sides_fit(*cfg),
            recurrent_fits(*cfg),
            active_vocab <= MAX_SIDE + 1,
        ensures
            r.fits(),
            r.is_of(*cfg, active_vocab, recurrent),
    {
        proof {
            let a = cfg.n_head as int;
            let b = cfg.attention_head_dim as int;
            assert(a * b * 1 == a * b && a * b * 2 == a * b + a * b) by (nonlinear_arith);
            assert(a * 8 * (2 + b) == a * 16 + a * b * 8) by (nonlinear_arith);
        }
        let head_dim: usize = cfg.head_dim();
        let kinds: bool = recurrent && cfg.is_hybrid();
        let none: u64 = if recurrent {
            1
        } else {
            0
        };
        Widths {
            n_embd: cfg.n_embd as u64,
            n_ff: cfg.n_ff as u64,
            n_kv: (cfg.n_head_kv * head_dim) as u64,
            n_q: (cfg.n_head * head_dim) as u64,
            n_q_proj: cfg.q_proj_dim() as u64,
            ssm_qkv: if kinds {
                wider(cfg.ssm_conv_channels() as u64, 1)
            } else {
                none
            },
            ssm_key: if kinds {
                wider(cfg.ssm_key_dim() as u64, 1)
            } else {
                none
            },
            ssm_val: if kinds {
                wider(cfg.ssm_value_dim() as u64, 1)
            } else {
                none
            },
            ssm_nv: wider(cfg.ssm_n_v_heads as u64, 1),
            active_vocab: active_vocab as u64,
            flash: cfg.n_head as u64 * FLASH_MAX_SPLIT as u64 * (2 + head_dim as u64),
            recurrent,
        }
    }
}

/// The buffers hold what the layers of a chunk write: the stream, the
/// projections, the output of the attention, and the feed-forward part.
pub proof fn law_buffers_hold_chunk(cfg: ModelConfig, w: Widths, active_vocab: usize, d: ChunkDims)
    requires
        w.is_of(cfg, active_vocab, w.recurrent),
        w.fits(),
        d == dims_of(cfg, d.n_tok, d.pos0, d.use_device_pos),
        d.fits(),
        d.n_tok <= MAX_BATCH,
    ensures
        d.n_tok * d.n_embd <= w.len_of(Buf::X),
        d.n_tok * d.n_embd <= w.len_of(Buf::Xb),
        d.n_tok * d.q_width() <= w.len_of(Buf::Xb),
        d.n_tok * d.n_embd <= w.len_of(Buf::Xb2),
        d.n_tok * cfg.q_proj() <= w.len_of(Buf::Q),
        d.n_tok * d.stride() <= w.len_of(Buf::KBuf),
        d.n_tok * d.stride() <= w.len_of(Buf::VBuf),
        d.n_tok * d.n_ff <= w.len_of(Buf::Hb),
        d.n_tok * d.n_ff <= w.len_of(Buf::Hb2),
        d.n_tok * d.q_width() <= w.len_of(Buf::GateBuf),
        d.n_embd <= w.len_of(Buf::Q8X),
        d.n_ff <= w.len_of(Buf::Q8X),
        active_vocab <= w.len_of(Buf::Logits),
        MAX_VERIFY_TOKENS * active_vocab <= w.len_of(Buf::LogitsBatch),
{
    lemma_rows(d.n_tok as int, d.n_embd as int, w.n_embd as int);
    lemma_rows(
        d.n_tok as int,
        d.n_embd as int,
        wider(wider(w.n_embd, w.n_q), w.ssm_val) as int,
    );
    lemma_rows(
        d.n_tok as int,
        d.q_width() as int,
        wider(wider(w.n_embd, w.n_q), w.ssm_val) as int,
    );
    lemma_rows(d.n_tok as int, d.n_embd as int, wider(w.n_embd, w.ssm_val) as int);
    lemma_rows(d.n_tok as int, cfg.q_proj() as int, wider(w.n_q_proj, w.ssm_qkv) as int);
    lemma_rows(d.n_tok as int, d.stride() as int, wider(w.n_kv, w.ssm_key) as int);
    lemma_rows(d.n_tok as int, d.stride() as int, wider(w.n_kv, w.ssm_val) as int);
    lemma_rows(d.n_tok as int, d.n_ff as int, w.n_ff as int);
    lemma_rows(d.n_tok as int, d.q_width() as int, wider(w.n_q, w.ssm_val) as int);
}

/// At most 256 rows no wider than `wide`.
proof fn lemma_rows(rows: int, width: int, wide: int)
    requires
        0 <= rows <= 256,
        0 <= width <= wide,
    ensures
        rows * width <= 256 * wide,
{
    assert(rows * width <= 256 * wide) by (nonlinear_arith)
        requires
            0 <= rows <= 256,
            0 <= width <= wide,
    ;
}

/// Eight partial products of any matrix of the model fit.
pub proof fn law_partials_fit(w: Widths, n_cols: u64)
    requires
        w.fits(),
        n_cols <= w.active_vocab || n_cols <= w.n_ff || n_cols <= w.n_embd || n_cols <= w.n_q_proj
            || n_cols <= w.ssm_qkv,
    ensures
        n_cols <= w.partial_stride(),
        8 * n_cols <= w.len_of(Buf::GemvPartial),
{
}

/// The sizes of a chunk are those of the model, and the position is read on the card
/// only where that is asked for and the chunk is one token.
pub proof fn law_chunk_sizes(cfg: ModelConfig, n_tok: usize, pos0: usize, on_card: bool)
    ensures
        ({
            let d = dims_of(cfg, n_tok, pos0, on_card);
            &&& d.n_tok == n_tok && d.pos0 == pos0
            &&& d.n_embd == cfg.n_embd && d.n_ff == cfg.n_ff
            &&& d.n_head == cfg.n_head && d.n_kv_heads == cfg.n_head_kv
            &&& d.head_dim == cfg.attention_head_dim
            &&& d.use_device_pos <==> on_card && n_tok == 1
        }),
{
}

/// A cache of keys and values takes four bytes for each position, head and number of the
/// layers that have one, and nothing for the others; the states take four bytes for each
/// of their numbers.
pub proof fn law_cache_bytes(cfg: ModelConfig, max_seq: usize, n: nat)
    requires
        n <= cfg.layer_kinds@.len(),
    ensures
        (forall|i: int| 0 <= i < n ==> cfg.layer_kinds@[i] == LayerKind::FullAttention) ==> kv_bytes(
            cfg,
            max_seq,
            n,
        ) == n * (4 * (max_seq * (cfg.n_head_kv * cfg.attention_head_dim))) && state_bytes(cfg, n)
            == 0,
        (forall|i: int| 0 <= i < n ==> cfg.layer_kinds@[i] == LayerKind::LinearAttention)
            ==> kv_bytes(cfg, max_seq, n) == 0 && (cfg.state_elems() > 0 && cfg.conv_kept()
            * cfg.conv_channels() > 0 ==> state_bytes(cfg, n) == n * (4 * (cfg.state_elems()
            + cfg.conv_kept() * cfg.conv_channels()))),
    decreases n,
{
    if n > 0 {
        law_cache_bytes(cfg, max_seq, (n - 1) as nat);
        let a = 4 * (max_seq * (cfg.n_head_kv * cfg.attention_head_dim));
        let b = 4 * (cfg.state_elems() + cfg.conv_kept() * cfg.conv_channels());
        assert((n - 1) * a + a == n * a) by (nonlinear_arith);
        assert((n - 1) * b + b == n * b) by (nonlinear_arith);
        assert(cfg.layer_kinds@[n - 1] == cfg.layer_kinds@[n - 1]);
    }
}

/// Before a conversation every number of the states of a linear layer is set to zero,
/// and layers with attention have none.
pub proof fn law_states_are_cleared(cfg: ModelConfig, li: int)
    requires
        0 < cfg.state_elems() <= MAX_SIDE,
        0 < cfg.conv_kept() * cfg.conv_channels() <= MAX_SIDE,
    ensures
        linear_at(cfg, li) ==> {
            let p = zero_recurrent_plan(cfg, li);
            &&& p.len() == 2
            &&& p[0].kernel == Kernel::ZeroF32 && p[1].kernel == Kernel::ZeroF32
            &&& p[0].args == seq![Arg::Buf(Buf::CacheSsm), Arg::Int(cfg.state_elems() as i32)]
            &&& p[1].args == seq![
                Arg::Buf(Buf::CacheConv),
                Arg::Int((cfg.conv_kept() * cfg.conv_channels()) as i32),
            ]
        },
        !linear_at(cfg, li) ==> zero_recurrent_plan(cfg, li).len() == 0,
{
}

} // verus!
