//! Running tokens through a model: chunks, single tokens, and the recording
//! of a single token as a graph.
use crate::config::ModelConfig;
use crate::cuda::kv::CudaKv;
use crate::cuda::launch::{plan_of, Launch, Plan};
use crate::cuda::layer::{
    has_layer, layer_ok, logits_from_last, logits_from_last_plan, rows_scores, rows_scores_plan,
    run_layer, run_layer_plan, ChunkDims, Head, HeadPlan, HeadView, LayerContext, LayerPlan,
    LayerView, RopeConfig,
};
use crate::cuda::matmul::{
    embed_batch, embed_batch_plan, embed_one_device, embed_one_device_plan, gemm_ok, PlanError,
    MAX_SIDE,
};
use crate::cuda::model::{
    chunk_dims, dims_of, has_fitting_sides, hybrid, linear_at, rope_of, sides_fit, CudaModel,
    MAX_BATCH, MAX_VERIFY_TOKENS,
};
use crate::text::{decimal, push_decimal};
use vstd::prelude::*;

verus! {

/// A part of the tokens: from `start`, `len` of them, the first of which has
/// position `pos0`; after the last part the next token is picked.
#[derive(Clone, Copy, PartialEq, Eq, Debug, Structural)]
pub struct Chunk {
    pub start: usize,
    pub len: usize,
    pub pos0: usize,
    pub last: bool,
}

/// Part `i` of `n` tokens in parts of `size`.
pub open spec fn chunk_at(n: int, size: int, len0: int, i: int) -> Chunk {
    let start = i * size;
    let len = if n - start < size {
        n - start
    } else {
        size
    };
    Chunk {
        start: start as usize,
        len: len as usize,
        pos0: (len0 + start) as usize,
        last: start + len == n,
    }
}

/// How many parts there are.
pub open spec fn chunk_count(n: int, size: int) -> int {
    (n + size - 1) / size
}

/// The parts of `n` tokens, `size` tokens each and the rest in the last one,
/// behind `len0` positions that are filled.
pub open spec fn chunks_of(n: int, size: int, len0: int) -> Seq<Chunk> {
    Seq::new(chunk_count(n, size) as nat, |i: int| chunk_at(n, size, len0, i))
}

/// Where the parts before part `i` end.
proof fn lemma_part_bounds(n: int, size: int, i: int)
    requires
        n > 0,
        size > 0,
        0 <= i,
    ensures
        i < chunk_count(n, size) <==> i * size < n,
        (i + 1) * size == i * size + size,
        i * size >= 0,
{
    let c = chunk_count(n, size);
    vstd::arithmetic::div_mod::lemma_fundamental_div_mod(n + size - 1, size);
    assert(size * c == c * size) by (nonlinear_arith);
    assert((i + 1) * size == i * size + size) by (nonlinear_arith);
    assert(i * size >= 0) by (nonlinear_arith)
        requires
            i >= 0,
            size > 0,
    ;
    if i < c {
        assert((i + 1) * size <= c * size) by (nonlinear_arith)
            requires
                i + 1 <= c,
                size > 0,
        ;
    } else {
        assert(c * size <= i * size) by (nonlinear_arith)
            requires
                c <= i,
                size > 0,
        ;
    }
}

/// The parts cover all tokens, in order and without gaps: each starts where
/// the one before ends, the first at the first token, and only the last one
/// ends at the end. None is empty and none is larger than `size`.
pub proof fn law_chunks_cover(n: int, size: int, len0: int, i: int)
    requires
        0 < n <= usize::MAX,
        0 < size,
        0 <= len0,
        len0 + n <= usize::MAX,
        0 <= i < chunks_of(n, size, len0).len(),
    ensures
        chunks_of(n, size, len0)[0].start == 0,
        1 <= chunks_of(n, size, len0)[i].len <= size,
        chunks_of(n, size, len0)[i].pos0 == len0 + chunks_of(n, size, len0)[i].start,
        i + 1 < chunks_of(n, size, len0).len() ==> chunks_of(n, size, len0)[i + 1].start
            == chunks_of(n, size, len0)[i].start + chunks_of(n, size, len0)[i].len,
        chunks_of(n, size, len0)[i].last <==> i + 1 == chunks_of(n, size, len0).len(),
        chunks_of(n, size, len0)[i].last <==> chunks_of(n, size, len0)[i].start + chunks_of(
            n,
            size,
            len0,
        )[i].len == n,
{
    lemma_part_bounds(n, size, 0);
    lemma_part_bounds(n, size, i);
    lemma_part_bounds(n, size, i + 1);
}

/// The parts of `n` tokens.
fn chunks(n: usize, size: usize, len0: usize) -> (r: Vec<Chunk>)
    requires
        n > 0,
        size > 0,
        len0 + n <= usize::MAX,
    ensures
        r@ == chunks_of(n as int, size as int, len0 as int),
{
    let mut out: Vec<Chunk> = Vec::new();
    let mut offset: usize = 0;
    let ghost mut i: int = 0;
    proof {
        lemma_part_bounds(n as int, size as int, 0);
    }
    while offset < n
        invariant
            n > 0,
            size > 0,
            len0 + n <= usize::MAX,
            0 <= i <= chunk_count(n as int, size as int),
            offset <= n,
            offset < n ==> offset == i * size,
            offset < n <==> i < chunk_count(n as int, size as int),
            out@ == chunks_of(n as int, size as int, len0 as int).take(i),
        decreases n - offset,
    {
        proof {
            lemma_part_bounds(n as int, size as int, i);
            lemma_part_bounds(n as int, size as int, i + 1);
        }
        let left: usize = n - offset;
        let len: usize = if left < size {
            left
        } else {
            size
        };
        out.push(Chunk { start: offset, len, pos0: len0 + offset, last: offset + len == n });
        offset = offset + len;
        proof {
            let all = chunks_of(n as int, size as int, len0 as int);
            assert(out@ =~= all.take(i + 1));
            i = i + 1;
        }
    }
    proof {
        let all = chunks_of(n as int, size as int, len0 as int);
        assert(all.take(i) =~= all);
    }
    out
}

/// Why tokens cannot be run.
#[derive(Clone, Copy, PartialEq, Eq, Debug, Structural)]
pub enum ForwardError {
    EmptyTokens,
    ContextFull,
    /// A recording is to be replayed and there is none.
    NoGraph,
}

impl ForwardError {
    /// The sentence that tells the error.
    pub open spec fn sentence(self) -> Seq<char> {
        match self {
            ForwardError::EmptyTokens => "empty tokens"@,
            ForwardError::ContextFull => "context full"@,
            ForwardError::NoGraph => "graph_active but no graph"@,
        }
    }

    /// The sentence that tells the error.
    pub fn message(self) -> (r: &'static str)
        ensures
            r@ == self.sentence(),
    {
        match self {
            ForwardError::EmptyTokens => "empty tokens",
            ForwardError::ContextFull => "context full",
            ForwardError::NoGraph => "graph_active but no graph",
        }
    }
}

/// How tokens are run.
#[derive(Debug)]
pub enum Forward {
    /// The position and the token go to the card, and the recording runs.
    Replay { pos: usize, token: u32 },
    /// The single token runs launch by launch; then it may be recorded.
    Eager { pos: usize, token: u32, capture: bool },
    /// Part by part.
    Chunks(Vec<Chunk>),
}

/// How tokens are run, as a mathematical value.
pub enum ForwardView {
    Replay { pos: usize, token: u32 },
    Eager { pos: usize, token: u32, capture: bool },
    Chunks(Seq<Chunk>),
}

impl View for Forward {
    type V = ForwardView;

    open spec fn view(&self) -> ForwardView {
        match *self {
            Forward::Replay { pos, token } => ForwardView::Replay { pos, token },
            Forward::Eager { pos, token, capture } => ForwardView::Eager { pos, token, capture },
            Forward::Chunks(c) => ForwardView::Chunks(c@),
        }
    }
}

/// What cannot be run, or how it is, as a mathematical value.
pub open spec fn forward_result(r: Result<Forward, ForwardError>) -> Result<
    ForwardView,
    ForwardError,
> {
    match r {
        Ok(f) => Ok(f@),
        Err(e) => Err(e),
    }
}

/// Tokens of a part: sparse layers take them one by one.
pub open spec fn chunk_size(cfg: ModelConfig) -> int {
    if cfg.n_experts > 0 {
        1
    } else {
        256
    }
}

/// Why tokens cannot be run behind the positions that are filled.
pub open spec fn refused(n: int, cache: CudaKv) -> Option<ForwardError> {
    if n == 0 {
        Some(ForwardError::EmptyTokens)
    } else if cache.len + n > cache.max_seq {
        Some(ForwardError::ContextFull)
    } else {
        None
    }
}

/// How tokens are run to find the next one.
pub open spec fn forward_plan(
    model: CudaModel,
    tokens: Seq<u32>,
    cache: CudaKv,
) -> Result<ForwardView, ForwardError> {
    match refused(tokens.len() as int, cache) {
        Some(e) => Err(e),
        None => if tokens.len() == 1 {
            if model.graph_active {
                if model.has_graph {
                    Ok(ForwardView::Replay { pos: cache.len, token: tokens[0] })
                } else {
                    Err(ForwardError::NoGraph)
                }
            } else {
                Ok(
                    ForwardView::Eager {
                        pos: cache.len,
                        token: tokens[0],
                        capture: model.cuda_graph && !model.graph_tried,
                    },
                )
            }
        } else {
            Ok(
                ForwardView::Chunks(
                    chunks_of(tokens.len() as int, chunk_size(model.cfg), cache.len as int),
                ),
            )
        },
    }
}

/// Token numbers as the card has them.
pub open spec fn signed_ids(tokens: Seq<u32>) -> Seq<i32> {
    tokens.map_values(|t: u32| t as i32)
}

/// Token numbers as the card has them.
pub fn card_ids(tokens: &[u32]) -> (r: Vec<i32>)
    ensures
        r@ == signed_ids(tokens@),
{
    let mut out: Vec<i32> = Vec::new();
    let mut i: usize = 0;
    while i < tokens.len()
        invariant
            i <= tokens@.len(),
            out@ == signed_ids(tokens@.take(i as int)),
        decreases tokens@.len() - i,
    {
        let t: u32 = tokens[i];
        out.push(
            #[verifier::truncate]
            (t as i32),
        );
        i = i + 1;
        proof {
            assert(out@ =~= signed_ids(tokens@.take(i as int)));
        }
    }
    proof {
        assert(tokens@.take(tokens@.len() as int) =~= tokens@);
    }
    out
}

/// The numbers that the card gave back, as tokens.
pub fn token_ids(ids: &[i32]) -> (r: Vec<u32>)
    ensures
        r@ == ids@.map_values(|t: i32| t as u32),
{
    let mut out: Vec<u32> = Vec::new();
    let mut i: usize = 0;
    while i < ids.len()
        invariant
            i <= ids@.len(),
            out@ == ids@.take(i as int).map_values(|t: i32| t as u32),
        decreases ids@.len() - i,
    {
        let t: i32 = ids[i];
        out.push(
            #[verifier::truncate]
            (t as u32),
        );
        i = i + 1;
        proof {
            assert(out@ =~= ids@.take(i as int).map_values(|t: i32| t as u32));
        }
    }
    proof {
        assert(ids@.take(ids@.len() as int) =~= ids@);
    }
    out
}

/// What a chunk launches: the embedding, the layers, and the output head where
/// the next token is picked.
pub struct ChunkPlan {
    pub embed: Vec<Launch>,
    pub layers: Vec<LayerPlan>,
    pub head: Option<HeadPlan>,
}

/// What a chunk launches, as a mathematical value.
#[verifier::ext_equal]
pub struct ChunkView {
    pub embed: Plan,
    pub layers: Seq<LayerView>,
    pub head: Option<HeadView>,
}

/// What layers launch, as mathematical values.
pub open spec fn layer_views(layers: Seq<LayerPlan>) -> Seq<LayerView> {
    layers.map_values(|l: LayerPlan| l@)
}

impl View for ChunkPlan {
    type V = ChunkView;

    open spec fn view(&self) -> ChunkView {
        ChunkView {
            embed: plan_of(self.embed@),
            layers: layer_views(self.layers@),
            head: match self.head {
                Some(h) => Some(h@),
                None => None,
            },
        }
    }
}

/// What the layers from the first to before layer `n` launch, or the first
/// error.
pub open spec fn layers_plan(model: CudaModel, d: ChunkDims, n: nat) -> Result<
    Seq<LayerView>,
    PlanError,
>
    decreases n,
{
    if n == 0 {
        Ok(Seq::empty())
    } else {
        match layers_plan(model, d, (n - 1) as nat) {
            Err(e) => Err(e),
            Ok(before) => match run_layer_plan(
                context_of(model),
                d,
                model.layers@[n - 1],
                (n - 1) as usize,
                skip_of(model),
            ) {
                Err(e) => Err(e),
                Ok(l) => Ok(before.push(l)),
            },
        }
    }
}

/// What does not change from layer to layer.
pub open spec fn context_of(model: CudaModel) -> LayerContext {
    LayerContext {
        card: model.card,
        rope: RopeConfig {
            no_rope_layer_interval: model.cfg.no_rope_layer_interval,
            rope_dim: model.cfg.rope_dim,
        },
        flags: model.flags,
        decode: model.decode,
        n_layer: model.layers@.len() as usize,
    }
}

/// Which layers leave their feed-forward part out.
pub open spec fn skip_of(model: CudaModel) -> Option<Seq<char>> {
    match model.skip_ffn {
        Some(s) => Some(s@),
        None => None,
    }
}

/// What a chunk launches.
pub open spec fn forward_chunk_plan(
    model: CudaModel,
    tokens: Seq<u32>,
    pos0: usize,
    compute_logits: bool,
    use_device_pos: bool,
) -> Result<ChunkView, PlanError> {
    let d = dims_of(model.cfg, tokens.len() as usize, pos0, use_device_pos);
    match layers_plan(model, d, model.layers@.len()) {
        Err(e) => Err(e),
        Ok(layers) => Ok(
            ChunkView {
                embed: if d.use_device_pos {
                    embed_one_device_plan(model.head.token_embd)
                } else {
                    embed_batch_plan(model.head.token_embd, signed_ids(tokens))
                },
                layers,
                head: if compute_logits {
                    Some(logits_from_last_plan(model.card, d, model.head))
                } else {
                    None
                },
            },
        ),
    }
}

/// The first error among what a chunk launches, or all of it.
pub open spec fn chunk_result(r: Result<ChunkPlan, PlanError>) -> Result<ChunkView, PlanError> {
    match r {
        Ok(p) => Ok(p@),
        Err(e) => Err(e),
    }
}

/// Why the next tokens after several ones cannot be picked.
#[derive(Clone, Copy, PartialEq, Eq, Debug, Structural)]
pub enum RowsError {
    /// None, or more than the buffers hold.
    Batch(usize),
    Plan(PlanError),
}

impl RowsError {
    /// The sentence that tells the error.
    pub open spec fn sentence(self) -> Seq<char> {
        match self {
            RowsError::Batch(n) => "verification batch "@ + decimal(n as nat) + " exceeds 9"@,
            RowsError::Plan(e) => e.sentence(),
        }
    }

    /// The sentence that tells the error.
    pub fn message(self) -> (r: String)
        ensures
            r@ == self.sentence(),
    {
        let mut out: String = String::new();
        match self {
            RowsError::Batch(n) => {
                out.append("verification batch ");
                push_decimal(&mut out, n as u64);
                out.append(" exceeds 9");
            },
            RowsError::Plan(e) => {
                out.append(e.message());
            },
        }
        proof {
            assert(out@ == self.sentence());
        }
        out
    }
}

impl CudaModel {
    /// The model has as many layers as its description says, and the
    /// descriptions fit.
    pub open spec fn wf(self) -> bool {
        &&& sides_fit(self.cfg)
        &&& self.card.wf()
        &&& self.decode.wf()
        &&& self.layers@.len() <= self.cfg.n_layer
    }

    /// The matrices of the parts that are not left out have kernels for chunks of
    /// `n_tok` tokens.
    pub open spec fn ready(self, n_tok: usize) -> bool {
        &&& self.wf()
        &&& self.head.token_embd.plain()
        &&& self.head.ok(self.card)
        &&& forall|i: int|
            0 <= i < self.layers@.len() ==> layer_ok(
                context_of(self),
                n_tok,
                #[trigger] self.layers@[i],
                i as usize,
                skip_of(self),
            )
    }

    /// What does not change from layer to layer.
    fn layer_context(&self) -> (r: LayerContext)
        ensures
            r == context_of(*self),
    {
        LayerContext {
            card: self.card,
            rope: rope_of(&self.cfg),
            flags: self.flags,
            decode: self.decode,
            n_layer: self.layers.len(),
        }
    }

    /// Whether the model is well-formed and the matrices of the parts that are not
    /// left out have kernels for chunks of `n_tok` tokens.
    pub fn is_ready(&self, n_tok: usize) -> (r: bool)
        ensures
            r == self.ready(n_tok),
    {
        if !(has_fitting_sides(&self.cfg) && self.card.tuning.is_sound() && self.decode.is_known()
            && self.layers.len() <= self.cfg.n_layer) {
            return false;
        }
        if !(self.head.token_embd.is_plain() && self.head.has_kernels(self.card)) {
            return false;
        }
        let c: LayerContext = self.layer_context();
        let skip: Option<&str> = match &self.skip_ffn {
            Some(s) => Some(s.as_str()),
            None => None,
        };
        let mut i: usize = 0;
        while i < self.layers.len()
            invariant
                i <= self.layers@.len() <= self.cfg.n_layer,
                self.card.wf(),
                c == context_of(*self),
                (match skip {
                    Some(s) => Some(s@),
                    None => None,
                }) == skip_of(*self),
                forall|k: int|
                    0 <= k < i ==> layer_ok(
                        context_of(*self),
                        n_tok,
                        #[trigger] self.layers@[k],
                        k as usize,
                        skip_of(*self),
                    ),
            decreases self.layers@.len() - i,
        {
            if !has_layer(&c, n_tok, self.layers[i], i, skip) {
                assert(!layer_ok(c, n_tok, self.layers@[i as int], i, skip_of(*self)));
                return false;
            }
            i = i + 1;
        }
        true
    }

    /// How tokens are run to find the next one.
    pub fn forward_greedy(&self, tokens: &[u32], cache: &CudaKv) -> (r: Result<
        Forward,
        ForwardError,
    >)
        requires
            cache.wf(),
        ensures
            forward_result(r) == forward_plan(*self, tokens@, *cache),
    {
        if tokens.len() == 0 {
            return Err(ForwardError::EmptyTokens);
        }
        if !cache.has_room(tokens.len()) {
            return Err(ForwardError::ContextFull);
        }
        if tokens.len() == 1 {
            proof {
                assert(tokens@ =~= seq![tokens@[0]]);
            }
            return self.forward_decode_one(tokens[0], cache);
        }
        let size: usize = if self.cfg.is_moe() {
            1
        } else {
            MAX_BATCH
        };
        Ok(Forward::Chunks(chunks(tokens.len(), size, cache.len)))
    }

    /// How a single token is run.
    fn forward_decode_one(&self, token: u32, cache: &CudaKv) -> (r: Result<Forward, ForwardError>)
        requires
            cache.len + 1 <= cache.max_seq,
        ensures
            forward_result(r) == forward_plan(*self, seq![token], *cache),
    {
        if self.graph_active {
            if self.has_graph {
                Ok(Forward::Replay { pos: cache.len, token })
            } else {
                Err(ForwardError::NoGraph)
            }
        } else {
            Ok(
                Forward::Eager {
                    pos: cache.len,
                    token,
                    capture: self.cuda_graph && !self.graph_tried,
                },
            )
        }
    }

    /// The parts in which tokens are run to find the next token after each of
    /// them.
    pub fn forward_greedy_all(&self, tokens: &[u32], cache: &CudaKv) -> (r: Result<
        Vec<Chunk>,
        ForwardError,
    >)
        requires
            cache.wf(),
        ensures
            match refused(tokens@.len() as int, *cache) {
                Some(e) => r == Err::<Vec<Chunk>, ForwardError>(e),
                None => r is Ok && r->Ok_0@ == chunks_of(
                    tokens@.len() as int,
                    MAX_VERIFY_TOKENS as int,
                    cache.len as int,
                ),
            },
    {
        if tokens.len() == 0 {
            return Err(ForwardError::EmptyTokens);
        }
        if !cache.has_room(tokens.len()) {
            return Err(ForwardError::ContextFull);
        }
        Ok(chunks(tokens.len(), MAX_VERIFY_TOKENS, cache.len))
    }

    /// What is launched to pick the next token after each of `n_tok` tokens.
    pub fn logits_for_rows(&self, n_tok: usize) -> (r: Result<Vec<Launch>, RowsError>)
        requires
            self.card.wf(),
            self.head.matrix().fits(),
            gemm_ok(self.card, self.head.matrix(), n_tok),
        ensures
            match r {
                Ok(p) => 1 <= n_tok <= MAX_VERIFY_TOKENS && rows_scores_plan(
                    self.card,
                    self.head,
                    self.cfg.n_embd,
                    n_tok,
                ) == Ok::<Plan, PlanError>(plan_of(p@)),
                Err(RowsError::Batch(n)) => n == n_tok && (n_tok == 0 || n_tok > MAX_VERIFY_TOKENS),
                Err(RowsError::Plan(e)) => 1 <= n_tok <= MAX_VERIFY_TOKENS && rows_scores_plan(
                    self.card,
                    self.head,
                    self.cfg.n_embd,
                    n_tok,
                ) == Err::<Plan, PlanError>(e),
            },
    {
        if n_tok == 0 || n_tok > MAX_VERIFY_TOKENS {
            return Err(RowsError::Batch(n_tok));
        }
        match rows_scores(self.card, self.head, self.cfg.n_embd, n_tok) {
            Ok(p) => Ok(p),
            Err(e) => Err(RowsError::Plan(e)),
        }
    }

    /// What the layers launch.
    fn plan_layers(&self, d: ChunkDims) -> (r: Result<Vec<LayerPlan>, PlanError>)
        requires
            d.fits(),
            self.ready(d.n_tok),
        ensures
            match r {
                Ok(l) => layers_plan(*self, d, self.layers@.len()) == Ok::<
                    Seq<LayerView>,
                    PlanError,
                >(layer_views(l@)),
                Err(e) => layers_plan(*self, d, self.layers@.len()) == Err::<
                    Seq<LayerView>,
                    PlanError,
                >(e),
            },
    {
        let c: LayerContext = self.layer_context();
        let skip: Option<&str> = match &self.skip_ffn {
            Some(s) => Some(s.as_str()),
            None => None,
        };
        let mut layers: Vec<LayerPlan> = Vec::new();
        let mut li: usize = 0;
        proof {
            assert(layer_views(layers@) =~= Seq::<LayerView>::empty());
        }
        while li < self.layers.len()
            invariant
                li <= self.layers@.len(),
                self.ready(d.n_tok),
                d.fits(),
                c == context_of(*self),
                (match skip {
                    Some(s) => Some(s@),
                    None => None,
                }) == skip_of(*self),
                layers_plan(*self, d, li as nat) == Ok::<Seq<LayerView>, PlanError>(
                    layer_views(layers@),
                ),
            decreases self.layers@.len() - li,
        {
            assert(layer_ok(c, d.n_tok, self.layers@[li as int], li, skip_of(*self)));
            let ghost before: Seq<LayerPlan> = layers@;
            match run_layer(&c, d, self.layers[li], li, skip) {
                Ok(p) => {
                    layers.push(p);
                    proof {
                        assert(layer_views(layers@) =~= layer_views(before).push(p@));
                    }
                },
                Err(e) => {
                    proof {
                        lemma_error_stays(*self, d, li as nat + 1, self.layers@.len(), e);
                    }
                    return Err(e);
                },
            }
            li = li + 1;
        }
        Ok(layers)
    }

    /// What a chunk launches.
    pub fn forward_chunk(
        &self,
        tokens: &[u32],
        pos0: usize,
        compute_logits: bool,
        use_device_pos: bool,
    ) -> (r: Result<ChunkPlan, PlanError>)
        requires
            1 <= tokens@.len(),
            pos0 + tokens@.len() <= MAX_SIDE,
            self.ready(tokens@.len() as usize),
        ensures
            chunk_result(r) == forward_chunk_plan(
                *self,
                tokens@,
                pos0,
                compute_logits,
                use_device_pos,
            ),
    {
        let n_tok: usize = tokens.len();
        let d: ChunkDims = chunk_dims(&self.cfg, n_tok, pos0, use_device_pos);
        let embed: Vec<Launch> = if d.use_device_pos {
            embed_one_device(self.head.token_embd)
        } else {
            let ids: Vec<i32> = card_ids(tokens);
            embed_batch(self.head.token_embd, &ids)
        };
        let layers: Vec<LayerPlan> = match self.plan_layers(d) {
            Ok(l) => l,
            Err(e) => {
                return Err(e);
            },
        };
        let head: Option<HeadPlan> = if compute_logits {
            Some(logits_from_last(self.card, d, self.head))
        } else {
            None
        };
        Ok(ChunkPlan { embed, layers, head })
    }

    /// The scores of the last token: those of the active vocabulary with their
    /// token numbers, and that of the token outside it.
    pub fn current_logits(&self, scores: &[u32], special: Option<u32>) -> (r: Vec<(u32, u32)>)
        ensures
            r@ == scored(self.head, scores@, special),
    {
        let active: usize = self.head.active();
        let mut out: Vec<(u32, u32)> = Vec::new();
        let mut i: usize = 0;
        while i < scores.len() && i < active
            invariant
                i <= scores@.len(),
                i <= active,
                out@ == Seq::new(i as nat, |k: int| (k as u32, scores@[k])),
            decreases scores@.len() - i,
        {
            out.push(
                (
                    #[verifier::truncate]
                    (i as u32),
                    scores[i],
                ),
            );
            i = i + 1;
            proof {
                assert(out@ =~= Seq::new(i as nat, |k: int| (k as u32, scores@[k])));
            }
        }
        match self.head.special_id {
            Some(id) => match special {
                Some(s) => {
                    out.push((id, s));
                },
                None => {},
            },
            None => {},
        }
        proof {
            assert(out@ =~= scored(self.head, scores@, special));
        }
        out
    }
}

/// The first error stays, however many layers follow.
proof fn lemma_error_stays(model: CudaModel, d: ChunkDims, i: nat, n: nat, e: PlanError)
    requires
        i <= n,
        layers_plan(model, d, i) == Err::<Seq<LayerView>, PlanError>(e),
    ensures
        layers_plan(model, d, n) == Err::<Seq<LayerView>, PlanError>(e),
    decreases n,
{
    if i < n {
        lemma_error_stays(model, d, i, (n - 1) as nat, e);
    }
}

/// The scores with their token numbers.
pub open spec fn scored(head: Head, scores: Seq<u32>, special: Option<u32>) -> Seq<(u32, u32)> {
    let active = if scores.len() < head.active() {
        scores.len()
    } else {
        head.active() as nat
    };
    let low = Seq::new(active, |k: int| (k as u32, scores[k]));
    if head.special_id is Some && special is Some {
        low.push((head.special_id->0, special->0))
    } else {
        low
    }
}

/// A step of recording a single token.
#[derive(Clone, Copy, PartialEq, Eq, Debug, Structural)]
pub enum CaptureStep {
    /// Record one small kernel, at the last position.
    Probe { pos: usize },
    /// Save the recurrent state.
    Snapshot { pos: usize },
    /// Begin to record.
    Begin { pos: usize },
    /// Run one token with the position on the card, and keep the recording.
    Record { pos: usize },
    /// Bring the recurrent state back.
    Restore,
    Done,
}

impl CudaModel {
    /// The first step of recording, after a single token has run.
    pub fn start_capture(&mut self, cache: &CudaKv) -> (r: CaptureStep)
        ensures
            final(self).same_weights(*old(self)),
            final(self).graph_tried,
            final(self).cuda_graph == old(self).cuda_graph,
            final(self).graph_active == old(self).graph_active,
            final(self).has_graph == old(self).has_graph,
            old(self).recording_sound() ==> final(self).recording_sound(),
            r == (if old(self).cuda_graph && cache.max_seq >= 2 {
                CaptureStep::Probe { pos: (cache.max_seq - 1) as usize }
            } else {
                CaptureStep::Done
            }),
    {
        self.graph_tried = true;
        if !self.cuda_graph {
            return CaptureStep::Done;
        }
        if cache.max_seq < 2 {
            return CaptureStep::Done;
        }
        CaptureStep::Probe { pos: cache.max_seq - 1 }
    }

    /// The step after `step`, which succeeded or not.
    pub open spec fn step_after(self, step: CaptureStep, ok: bool) -> CaptureStep {
        match step {
            CaptureStep::Probe { pos } => if !ok {
                CaptureStep::Done
            } else if hybrid(self.cfg) {
                CaptureStep::Snapshot { pos }
            } else {
                CaptureStep::Begin { pos }
            },
            CaptureStep::Snapshot { pos } => if ok {
                CaptureStep::Begin { pos }
            } else {
                CaptureStep::Done
            },
            CaptureStep::Begin { pos } => if ok {
                CaptureStep::Record { pos }
            } else {
                CaptureStep::Done
            },
            CaptureStep::Record { .. } => if hybrid(self.cfg) {
                CaptureStep::Restore
            } else {
                CaptureStep::Done
            },
            CaptureStep::Restore => CaptureStep::Done,
            CaptureStep::Done => CaptureStep::Done,
        }
    }

    /// Takes note of how a step went, and says which one follows. A recording
    /// that was made is replayed from then on; one that failed is dropped.
    pub fn next_capture(&mut self, step: CaptureStep, ok: bool) -> (r: CaptureStep)
        ensures
            r == old(self).step_after(step, ok),
            final(self).same_weights(*old(self)),
            final(self).cuda_graph == old(self).cuda_graph,
            final(self).graph_tried == old(self).graph_tried,
            final(self).has_graph == (if step is Record {
                ok
            } else {
                old(self).has_graph
            }),
            final(self).graph_active == (if step is Record {
                ok
            } else {
                old(self).graph_active
            }),
            old(self).recording_sound() ==> final(self).recording_sound(),
    {
        let recurrent: bool = self.cfg.is_hybrid();
        match step {
            CaptureStep::Probe { pos } => if !ok {
                CaptureStep::Done
            } else if recurrent {
                CaptureStep::Snapshot { pos }
            } else {
                CaptureStep::Begin { pos }
            },
            CaptureStep::Snapshot { pos } => if ok {
                CaptureStep::Begin { pos }
            } else {
                CaptureStep::Done
            },
            CaptureStep::Begin { pos } => if ok {
                CaptureStep::Record { pos }
            } else {
                CaptureStep::Done
            },
            CaptureStep::Record { .. } => {
                self.has_graph = ok;
                self.graph_active = ok;
                if recurrent {
                    CaptureStep::Restore
                } else {
                    CaptureStep::Done
                }
            },
            CaptureStep::Restore => CaptureStep::Done,
            CaptureStep::Done => CaptureStep::Done,
        }
    }

    /// Whether recording saves the state of layer `li`.
    pub fn saves_state(&self, li: usize) -> (r: bool)
        ensures
            r == (hybrid(self.cfg) && linear_at(self.cfg, li as int)),
    {
        self.cfg.is_hybrid() && self.cfg.is_linear_layer(li)
    }
}

/// The state of a hybrid model is saved before a token is recorded, and brought
/// back right after, whether the recording was made or not.
pub proof fn law_state_comes_back(model: CudaModel, pos: usize, ok: bool)
    requires
        hybrid(model.cfg),
    ensures
        model.step_after(CaptureStep::Record { pos }, ok) == CaptureStep::Restore,
        model.step_after(CaptureStep::Probe { pos }, true) == (CaptureStep::Snapshot { pos }),
        model.step_after(CaptureStep::Snapshot { pos }, true) == (CaptureStep::Begin { pos }),
{
}

/// Recording ends, after at most five steps.
pub proof fn law_capture_ends(model: CudaModel, pos: usize, outcomes: Seq<bool>)
    requires
        outcomes.len() == 5,
    ensures
        model.step_after(
            model.step_after(
                model.step_after(
                    model.step_after(
                        model.step_after(CaptureStep::Probe { pos }, outcomes[0]),
                        outcomes[1],
                    ),
                    outcomes[2],
                ),
                outcomes[3],
            ),
            outcomes[4],
        ) == CaptureStep::Done,
{
}

/// With recording turned off no recording is replayed: every single token runs
/// launch by launch, and none is recorded.
pub proof fn law_off_means_eager(model: CudaModel, token: u32, cache: CudaKv)
    requires
        cache.len + 1 <= cache.max_seq,
        !model.cuda_graph,
        !model.graph_active,
    ensures
        forward_plan(model, seq![token], cache) == Ok::<ForwardView, ForwardError>(
            ForwardView::Eager { pos: cache.len, token, capture: false },
        ),
{
}

/// After its recording is dropped a model runs the next single token launch by
/// launch, and records it where recording is on.
pub proof fn law_dropped_means_eager(
    before: CudaModel,
    after: CudaModel,
    token: u32,
    cache: CudaKv,
)
    requires
        after.dropped(before),
        cache.len + 1 <= cache.max_seq,
    ensures
        forward_plan(after, seq![token], cache) == Ok::<ForwardView, ForwardError>(
            ForwardView::Eager { pos: cache.len, token, capture: before.cuda_graph },
        ),
{
}

/// A model whose recording is sound never misses it.
pub proof fn law_recording_is_there(model: CudaModel, tokens: Seq<u32>, cache: CudaKv)
    requires
        model.recording_sound(),
    ensures
        forward_plan(model, tokens, cache) != Err::<ForwardView, ForwardError>(
            ForwardError::NoGraph,
        ),
{
}

/// What a plan runs fits behind the positions that are filled: no token gets a
/// position outside the cache, and each gets its own.
pub proof fn law_positions_in_cache(model: CudaModel, tokens: Seq<u32>, cache: CudaKv, i: int)
    requires
        cache.wf(),
        tokens.len() >= 2,
        forward_plan(model, tokens, cache) is Ok,
        0 <= i < chunks_of(tokens.len() as int, chunk_size(model.cfg), cache.len as int).len(),
    ensures
        forward_plan(model, tokens, cache) == Ok::<ForwardView, ForwardError>(
            ForwardView::Chunks(
                chunks_of(tokens.len() as int, chunk_size(model.cfg), cache.len as int),
            ),
        ),
        ({
            let c = chunks_of(tokens.len() as int, chunk_size(model.cfg), cache.len as int)[i];
            cache.len <= c.pos0 && c.pos0 + c.len <= cache.max_seq
        }),
{
    let n = tokens.len() as int;
    let size = chunk_size(model.cfg);
    lemma_part_bounds(n, size, i);
    lemma_part_bounds(n, size, i + 1);
}

/// A run is refused exactly where there is nothing to run or the cache has no room for
/// it, or where a recording is to be replayed that is not there.
pub proof fn law_runs_refused(model: CudaModel, tokens: Seq<u32>, cache: CudaKv)
    ensures
        tokens.len() == 0 ==> forward_plan(model, tokens, cache) == Err::<ForwardView, ForwardError>(
            ForwardError::EmptyTokens,
        ),
        tokens.len() > 0 && cache.len + tokens.len() > cache.max_seq ==> forward_plan(
            model,
            tokens,
            cache,
        ) == Err::<ForwardView, ForwardError>(ForwardError::ContextFull),
        tokens.len() > 0 && cache.len + tokens.len() <= cache.max_seq && !(tokens.len() == 1
            && model.graph_active && !model.has_graph) ==> forward_plan(model, tokens, cache) is Ok,
{
}

/// One token is replayed where a recording is active, and else run at the end of the
/// cache, recording it where that is on and was not tried.
pub proof fn law_one_token(model: CudaModel, token: u32, cache: CudaKv)
    requires
        cache.len + 1 <= cache.max_seq,
        model.recording_sound(),
    ensures
        model.graph_active ==> forward_plan(model, seq![token], cache) == Ok::<
            ForwardView,
            ForwardError,
        >(ForwardView::Replay { pos: cache.len, token }),
        !model.graph_active ==> forward_plan(model, seq![token], cache) == Ok::<
            ForwardView,
            ForwardError,
        >(
            ForwardView::Eager {
                pos: cache.len,
                token,
                capture: model.cuda_graph && !model.graph_tried,
            },
        ),
{
}

/// Models of experts run token by token, others in chunks of up to 256 tokens, each full
/// but the last.
pub proof fn law_chunk_lengths(model: CudaModel, n: int, len0: int, i: int)
    requires
        0 < n <= usize::MAX,
        0 <= len0,
        len0 + n <= usize::MAX,
        0 <= i < chunks_of(n, chunk_size(model.cfg), len0).len(),
    ensures
        model.cfg.n_experts > 0 ==> chunks_of(n, chunk_size(model.cfg), len0)[i].len == 1,
        model.cfg.n_experts == 0 ==> {
            let c = chunks_of(n, chunk_size(model.cfg), len0)[i];
            &&& c.start == 256 * i
            &&& c.len == (if n - 256 * i < 256 {
                n - 256 * i
            } else {
                256
            })
        },
{
    law_chunks_cover(n, chunk_size(model.cfg), len0, i);
}

/// A chunk runs every layer of the model, each once and in its order, with the sizes of
/// the model; the scores are made exactly where they are asked for.
pub proof fn law_every_layer_runs(
    model: CudaModel,
    tokens: Seq<u32>,
    pos0: usize,
    compute_logits: bool,
    use_device_pos: bool,
    i: int,
)
    requires
        forward_chunk_plan(model, tokens, pos0, compute_logits, use_device_pos) is Ok,
        0 <= i < model.layers@.len() <= usize::MAX,
    ensures
        ({
            let plan = forward_chunk_plan(
                model,
                tokens,
                pos0,
                compute_logits,
                use_device_pos,
            )->Ok_0;
            let d = dims_of(model.cfg, tokens.len() as usize, pos0, use_device_pos);
            let layer = run_layer_plan(
                context_of(model),
                d,
                model.layers@[i],
                i as usize,
                skip_of(model),
            );
            &&& plan.layers.len() == model.layers@.len()
            &&& layer is Ok && plan.layers[i] == layer->Ok_0
            &&& plan.head is Some <==> compute_logits
            &&& context_of(model).card == model.card && context_of(model).decode == model.decode
            &&& context_of(model).flags == model.flags
            &&& context_of(model).rope.rope_dim == model.cfg.rope_dim
            &&& context_of(model).rope.no_rope_layer_interval == model.cfg.no_rope_layer_interval
        }),
{
    let d = dims_of(model.cfg, tokens.len() as usize, pos0, use_device_pos);
    lemma_layers_plan(model, d, model.layers@.len(), i);
}

proof fn lemma_layers_plan(model: CudaModel, d: ChunkDims, n: nat, i: int)
    requires
        layers_plan(model, d, n) is Ok,
        0 <= i < n <= usize::MAX,
    ensures
        layers_plan(model, d, n)->Ok_0.len() == n,
        ({
            let layer = run_layer_plan(
                context_of(model),
                d,
                model.layers@[i],
                i as usize,
                skip_of(model),
            );
            layer is Ok && layers_plan(model, d, n)->Ok_0[i] == layer->Ok_0
        }),
    decreases n,
{
    if n > 1 {
        lemma_layers_plan(
            model,
            d,
            (n - 1) as nat,
            if i < n - 1 {
                i
            } else {
                0
            },
        );
    } else {
        assert(layers_plan(model, d, 0)->Ok_0.len() == 0);
    }
}

/// Each score belongs to the token of its place; the score of the special token stands
/// last and belongs to that token.
pub proof fn law_scores_have_tokens(head: Head, scores: Seq<u32>, special: Option<u32>, k: int)
    requires
        scores.len() == head.active() <= u32::MAX,
    ensures
        0 <= k < scores.len() ==> scored(head, scores, special)[k] == (k as u32, scores[k]),
        head.special_id is Some && special is Some ==> scored(head, scores, special).len()
            == scores.len() + 1 && scored(head, scores, special).last() == (
            head.special_id->0,
            special->0,
        ),
        head.special_id is None || special is None ==> scored(head, scores, special).len()
            == scores.len(),
{
}

} // verus!
