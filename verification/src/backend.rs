//! Which family a model belongs to, and the limits of that family.
use crate::config::ModelConfig;
use crate::text::same_text;
use vstd::prelude::*;

verus! {

/// Families of models.
#[derive(Debug, Clone, Copy, PartialEq, Eq, Structural)]
pub enum BackendKind {
    Tara141,
    TaraMoe,
    Qwen35,
    Qwen2,
    LlamaDense,
    OtherDense,
}

/// A context above this many tokens is cut for a large Qwen3.5 model.
pub const QWEN35_CAP: usize = 1024;

/// A model of more bytes than this, two GiB, is large.
pub const LARGE_MODEL_BYTES: u64 = 2_147_483_648;

impl BackendKind {
    /// The family of an architecture, where `moe` tells sparse models.
    pub open spec fn of(arch: Seq<char>, moe: bool) -> BackendKind {
        if arch == "tara_moe_141"@ {
            BackendKind::Tara141
        } else if moe {
            BackendKind::TaraMoe
        } else if arch == "qwen35"@ || arch == "qwen3_5"@ {
            BackendKind::Qwen35
        } else if arch == "qwen2"@ || arch == "qwen2_5"@ {
            BackendKind::Qwen2
        } else if arch == "llama"@ || arch == "llama2"@ || arch == "llama3"@ {
            BackendKind::LlamaDense
        } else {
            BackendKind::OtherDense
        }
    }

    /// The name of the family.
    pub open spec fn spec_name(self) -> Seq<char> {
        match self {
            BackendKind::Tara141 => "tara-1.4.1-moe"@,
            BackendKind::TaraMoe => "tara-moe"@,
            BackendKind::Qwen35 => "qwen3.5-hybrid"@,
            BackendKind::Qwen2 => "qwen2-dense"@,
            BackendKind::LlamaDense => "llama-dense"@,
            BackendKind::OtherDense => "generic-dense"@,
        }
    }

    /// The family of a model.
    pub fn from_config(cfg: &ModelConfig) -> (r: BackendKind)
        ensures
            r == BackendKind::of(cfg.architecture@, cfg.n_experts > 0),
    {
        let arch: &str = cfg.architecture.as_str();
        if same_text(arch, "tara_moe_141") {
            BackendKind::Tara141
        } else if cfg.is_moe() {
            BackendKind::TaraMoe
        } else if same_text(arch, "qwen35") || same_text(arch, "qwen3_5") {
            BackendKind::Qwen35
        } else if same_text(arch, "qwen2") || same_text(arch, "qwen2_5") {
            BackendKind::Qwen2
        } else if same_text(arch, "llama") || same_text(arch, "llama2") || same_text(
            arch,
            "llama3",
        ) {
            BackendKind::LlamaDense
        } else {
            BackendKind::OtherDense
        }
    }

    /// The name of the family.
    pub fn name(self) -> (r: &'static str)
        ensures
            r@ == self.spec_name(),
    {
        match self {
            BackendKind::Tara141 => "tara-1.4.1-moe",
            BackendKind::TaraMoe => "tara-moe",
            BackendKind::Qwen35 => "qwen3.5-hybrid",
            BackendKind::Qwen2 => "qwen2-dense",
            BackendKind::LlamaDense => "llama-dense",
            BackendKind::OtherDense => "generic-dense",
        }
    }

    /// The context length that a session gets: no more than was asked for and
    /// than the model knows, and for a large Qwen3.5 model no more than
    /// [`QWEN35_CAP`] unless `long_ctx` allows it.
    pub open spec fn spec_max_seq(
        self,
        requested: usize,
        model_ctx: usize,
        weight_bytes: u64,
        long_ctx: bool,
    ) -> usize {
        let shorter = if requested <= model_ctx {
            requested
        } else {
            model_ctx
        };
        if self == BackendKind::Qwen35 && weight_bytes > LARGE_MODEL_BYTES && shorter > QWEN35_CAP
            && !long_ctx {
            QWEN35_CAP
        } else {
            shorter
        }
    }

    /// The context length that a session gets.
    pub fn max_seq(
        self,
        requested: usize,
        model_ctx: usize,
        weight_bytes: u64,
        long_ctx: bool,
    ) -> (r: usize)
        ensures
            r == self.spec_max_seq(requested, model_ctx, weight_bytes, long_ctx),
    {
        let shorter: usize = if requested <= model_ctx {
            requested
        } else {
            model_ctx
        };
        if self == BackendKind::Qwen35 && weight_bytes > LARGE_MODEL_BYTES && shorter > QWEN35_CAP
            && !long_ctx {
            QWEN35_CAP
        } else {
            shorter
        }
    }
}

/// A window is never longer than what is asked for or than the model has, and shorter
/// than both only for a large hybrid model whose long window was not asked for.
pub proof fn law_window(
    kind: BackendKind,
    requested: usize,
    model_ctx: usize,
    weight_bytes: u64,
    long_ctx: bool,
)
    ensures
        ({
            let n = kind.spec_max_seq(requested, model_ctx, weight_bytes, long_ctx);
            &&& n <= requested
            &&& n <= model_ctx
            &&& n < requested && n < model_ctx ==> kind == BackendKind::Qwen35 && !long_ctx
                && weight_bytes > LARGE_MODEL_BYTES && n == QWEN35_CAP
            &&& kind == BackendKind::Qwen35 && weight_bytes > LARGE_MODEL_BYTES && !long_ctx ==> n
                <= QWEN35_CAP
        }),
{
}

/// The kind of a model follows from the name of its architecture; a pack of experts is
/// one whatever it is called, but for the one that has a kind of its own.
pub proof fn law_kinds(arch: Seq<char>)
    ensures
        BackendKind::of(arch, true) == BackendKind::Tara141 || BackendKind::of(arch, true)
            == BackendKind::TaraMoe,
        BackendKind::of("tara_moe_141"@, true) == BackendKind::Tara141,
        BackendKind::of("tara_moe_141"@, false) == BackendKind::Tara141,
        BackendKind::of("qwen35"@, false) == BackendKind::Qwen35,
        BackendKind::of("qwen3_5"@, false) == BackendKind::Qwen35,
        BackendKind::of("qwen2"@, false) == BackendKind::Qwen2,
        BackendKind::of("qwen2_5"@, false) == BackendKind::Qwen2,
        BackendKind::of("llama"@, false) == BackendKind::LlamaDense,
        BackendKind::of("llama2"@, false) == BackendKind::LlamaDense,
        BackendKind::of("llama3"@, false) == BackendKind::LlamaDense,
        BackendKind::of(arch, false) != BackendKind::TaraMoe,
        BackendKind::of(arch, true) == BackendKind::Tara141 <==> arch == "tara_moe_141"@,
{
    reveal_strlit("tara_moe_141");
    reveal_strlit("qwen35");
    reveal_strlit("qwen3_5");
    reveal_strlit("qwen2");
    reveal_strlit("qwen2_5");
    reveal_strlit("llama");
    reveal_strlit("llama2");
    reveal_strlit("llama3");
    assert("tara_moe_141"@.len() == 12);
    assert("qwen35"@.len() == 6 && "qwen35"@[0] == 'q');
    assert("qwen3_5"@.len() == 7 && "qwen3_5"@[4] == '3');
    assert("qwen2"@.len() == 5 && "qwen2"@[0] == 'q');
    assert("qwen2_5"@.len() == 7 && "qwen2_5"@[4] == '2');
    assert("llama"@.len() == 5 && "llama"@[0] == 'l');
    assert("llama2"@.len() == 6 && "llama2"@[0] == 'l');
    assert("llama3"@.len() == 6 && "llama3"@[0] == 'l');
}

} // verus!
