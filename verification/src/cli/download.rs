//! The models that can be downloaded, and which of them a request means.
use crate::text::{
    char_rows, chars_of, contains_chars, decimal, has_text, law_lower_idempotent,
    law_trim_keeps_lower, lower, push_decimal, quote, quoted, same_chars, same_text, split_chars,
    split_on, string_of, to_lower, trim, trimmed,
};
use vstd::prelude::*;

verus! {

/// How much memory a model asks for.
#[derive(Debug, Clone, Copy, PartialEq, Eq, Structural)]
pub enum ModelSizeClass {
    /// Fits easily on cards of 4 to 8 GB.
    Small,
    /// For a card of 16 GB, with room for a cache.
    Medium,
    /// Needs 16 GB and more.
    Large,
}

impl ModelSizeClass {
    /// The name of the class.
    pub open spec fn spec_name(self) -> Seq<char> {
        match self {
            ModelSizeClass::Small => "small"@,
            ModelSizeClass::Medium => "medium"@,
            ModelSizeClass::Large => "large"@,
        }
    }

    /// The name of the class.
    pub fn name(self) -> (r: &'static str)
        ensures
            r@ == self.spec_name(),
    {
        match self {
            ModelSizeClass::Small => "small",
            ModelSizeClass::Medium => "medium",
            ModelSizeClass::Large => "large",
        }
    }
}

/// A model that can be downloaded.
#[derive(Debug, Clone, Copy)]
pub struct ModelSpec {
    /// The name of the file in the directory of models.
    pub file: &'static str,
    pub repo: &'static str,
    /// The name of the file in the repository.
    pub remote_file: &'static str,
    /// The short name.
    pub tag: &'static str,
    pub size: ModelSizeClass,
    /// About how many tenths of a GiB the file has.
    pub approx_tenths: u64,
    pub note: &'static str,
}

/// The same as a mathematical value.
pub struct ModelView {
    pub file: Seq<char>,
    pub repo: Seq<char>,
    pub remote_file: Seq<char>,
    pub tag: Seq<char>,
    pub size: ModelSizeClass,
    pub approx_tenths: nat,
    pub note: Seq<char>,
}

impl View for ModelSpec {
    type V = ModelView;

    open spec fn view(&self) -> ModelView {
        ModelView {
            file: self.file@,
            repo: self.repo@,
            remote_file: self.remote_file@,
            tag: self.tag@,
            size: self.size,
            approx_tenths: self.approx_tenths as nat,
            note: self.note@,
        }
    }
}

/// Models as mathematical values.
pub open spec fn model_views(v: Seq<ModelSpec>) -> Seq<ModelView> {
    v.map_values(|m: ModelSpec| m@)
}

/// The models that can be downloaded.
pub open spec fn catalog() -> Seq<ModelView> {
    seq![
        ModelView {
            file: "Qwen3.5-0.8B-Q4_K_M.gguf"@,
            repo: "unsloth/Qwen3.5-0.8B-GGUF"@,
            remote_file: "Qwen3.5-0.8B-Q4_K_M.gguf"@,
            tag: "0.8b"@,
            size: ModelSizeClass::Small,
            approx_tenths: 5,
            note: "fastest Qwen3.5 hybrid; 4GB OK"@,
        },
        ModelView {
            file: "Qwen3.5-2B-Q4_K_M.gguf"@,
            repo: "unsloth/Qwen3.5-2B-GGUF"@,
            remote_file: "Qwen3.5-2B-Q4_K_M.gguf"@,
            tag: "2b"@,
            size: ModelSizeClass::Small,
            approx_tenths: 13,
            note: "small step up; 4GB with ctx care"@,
        },
        ModelView {
            file: "Qwen3.5-4B-Q4_K_M.gguf"@,
            repo: "unsloth/Qwen3.5-4B-GGUF"@,
            remote_file: "Qwen3.5-4B-Q4_K_M.gguf"@,
            tag: "4b"@,
            size: ModelSizeClass::Small,
            approx_tenths: 26,
            note: "default scoreboard-class size; ~6GB+ recommended"@,
        },
        ModelView {
            file: "Qwen3.5-9B-Q4_K_M.gguf"@,
            repo: "unsloth/Qwen3.5-9B-GGUF"@,
            remote_file: "Qwen3.5-9B-Q4_K_M.gguf"@,
            tag: "9b"@,
            size: ModelSizeClass::Medium,
            approx_tenths: 55,
            note: "strong on 16GB; hybrid long-context friendly"@,
        },
        ModelView {
            file: "Qwen2.5-3B-Instruct-Q4_K_M.gguf"@,
            repo: "bartowski/Qwen2.5-3B-Instruct-GGUF"@,
            remote_file: "Qwen2.5-3B-Instruct-Q4_K_M.gguf"@,
            tag: "3b-qwen25"@,
            size: ModelSizeClass::Small,
            approx_tenths: 19,
            note: "legacy Qwen2.5 scoreboard model"@,
        },
    ]
}

/// The models that can be downloaded.
pub fn supported_models() -> (r: Vec<ModelSpec>)
    ensures
        model_views(r@) == catalog(),
        r@.len() == catalog().len(),
        forall|i: int| 0 <= i < r@.len() ==> (#[trigger] r@[i])@ == catalog()[i],
{
    let out: Vec<ModelSpec> = vec![
        ModelSpec {
            file: "Qwen3.5-0.8B-Q4_K_M.gguf",
            repo: "unsloth/Qwen3.5-0.8B-GGUF",
            remote_file: "Qwen3.5-0.8B-Q4_K_M.gguf",
            tag: "0.8b",
            size: ModelSizeClass::Small,
            approx_tenths: 5,
            note: "fastest Qwen3.5 hybrid; 4GB OK",
        },
        ModelSpec {
            file: "Qwen3.5-2B-Q4_K_M.gguf",
            repo: "unsloth/Qwen3.5-2B-GGUF",
            remote_file: "Qwen3.5-2B-Q4_K_M.gguf",
            tag: "2b",
            size: ModelSizeClass::Small,
            approx_tenths: 13,
            note: "small step up; 4GB with ctx care",
        },
        ModelSpec {
            file: "Qwen3.5-4B-Q4_K_M.gguf",
            repo: "unsloth/Qwen3.5-4B-GGUF",
            remote_file: "Qwen3.5-4B-Q4_K_M.gguf",
            tag: "4b",
            size: ModelSizeClass::Small,
            approx_tenths: 26,
            note: "default scoreboard-class size; ~6GB+ recommended",
        },
        ModelSpec {
            file: "Qwen3.5-9B-Q4_K_M.gguf",
            repo: "unsloth/Qwen3.5-9B-GGUF",
            remote_file: "Qwen3.5-9B-Q4_K_M.gguf",
            tag: "9b",
            size: ModelSizeClass::Medium,
            approx_tenths: 55,
            note: "strong on 16GB; hybrid long-context friendly",
        },
        ModelSpec {
            file: "Qwen2.5-3B-Instruct-Q4_K_M.gguf",
            repo: "bartowski/Qwen2.5-3B-Instruct-GGUF",
            remote_file: "Qwen2.5-3B-Instruct-Q4_K_M.gguf",
            tag: "3b-qwen25",
            size: ModelSizeClass::Small,
            approx_tenths: 19,
            note: "legacy Qwen2.5 scoreboard model",
        },
    ];
    proof {
        assert(model_views(out@) =~= catalog());
        assert forall|i: int| 0 <= i < out@.len() implies (#[trigger] out@[i])@ == catalog()[i] by {
            assert(model_views(out@)[i] == out@[i]@);
        }
    }
    out
}

/// Where a file of a repository is fetched.
pub open spec fn hf_address(repo: Seq<char>, remote_file: Seq<char>) -> Seq<char> {
    "https://huggingface.co/"@ + repo + "/resolve/main/"@ + remote_file
}

/// Where a file of a repository is fetched.
pub fn hf_url(repo: &str, remote_file: &str) -> (r: String)
    ensures
        r@ == hf_address(repo@, remote_file@),
{
    let mut out: String = String::new();
    out.append("https://huggingface.co/");
    out.append(repo);
    out.append("/resolve/main/");
    out.append(remote_file);
    proof {
        assert(out@ == hf_address(repo@, remote_file@));
    }
    out
}

/// The tags of the first `n` models, with bars between them.
pub open spec fn joined_tags(n: nat) -> Seq<char>
    decreases n,
{
    if n == 0 {
        Seq::empty()
    } else if n == 1 {
        catalog()[0].tag
    } else {
        joined_tags((n - 1) as nat) + " | "@ + catalog()[n - 1].tag
    }
}

/// What can be asked for.
pub open spec fn tags_hint() -> Seq<char> {
    "use list | all | small | medium | profile | everything | "@ + joined_tags(catalog().len())
}

/// What can be asked for.
pub fn known_tags_hint() -> (r: String)
    ensures
        r@ == tags_hint(),
{
    let models: Vec<ModelSpec> = supported_models();
    let mut out: String = String::new();
    out.append("use list | all | small | medium | profile | everything | ");
    let ghost head: Seq<char> = out@;
    let mut i: usize = 0;
    proof {
        assert(out@ == head + joined_tags(0));
    }
    while i < models.len()
        invariant
            i <= models@.len() == catalog().len(),
            forall|k: int| 0 <= k < models@.len() ==> (#[trigger] models@[k])@ == catalog()[k],
            out@ == head + joined_tags(i as nat),
        decreases models@.len() - i,
    {
        assert(models@[i as int]@ == catalog()[i as int]);
        if i > 0 {
            out.append(" | ");
        }
        out.append(models[i].tag);
        proof {
            assert(out@ =~= head + joined_tags(i as nat + 1));
        }
        i = i + 1;
    }
    out
}

/// `s` with spaces after it, up to `width` characters.
pub open spec fn padded(s: Seq<char>, width: nat) -> Seq<char>
    decreases width - s.len(),
{
    if s.len() >= width {
        s
    } else {
        padded(s.push(' '), width)
    }
}

/// Adds `s` to `out`, with spaces after it, up to `width` characters.
pub fn push_padded(out: &mut String, s: &str, width: usize)
    ensures
        final(out)@ == old(out)@ + padded(s@, width as nat),
{
    let mut v: Vec<char> = chars_of(s);
    while v.len() < width
        invariant
            padded(v@, width as nat) == padded(s@, width as nat),
        decreases width - v@.len(),
    {
        v.push(' ');
    }
    let text: String = string_of(&v);
    out.append(text.as_str());
}

/// The line of a model in the list of models.
pub open spec fn catalog_row(m: ModelView) -> Seq<char> {
    "  "@ + padded(m.tag, 10) + "  "@ + padded(m.size.spec_name(), 6) + "  "@ + padded(m.file, 40)
        + "  ~"@ + decimal(m.approx_tenths / 10) + "."@ + decimal(m.approx_tenths % 10)
        + " GiB — "@ + m.note + "\n"@
}

/// The lines of the first `n` models.
pub open spec fn catalog_rows(n: nat) -> Seq<char>
    decreases n,
{
    if n == 0 {
        Seq::empty()
    } else {
        catalog_rows((n - 1) as nat) + catalog_row(catalog()[n - 1])
    }
}

/// The list of models and of groups.
pub open spec fn catalog_page() -> Seq<char> {
    "Supported GGUF downloads (Qwen3.5 Q4_K_M via unsloth; + legacy 3b-qwen25):\n\n"@
        + "  tag         class   file                                      note\n"@
        + "  ------------------------------------------------------------------------------------------\n"@
        + catalog_rows(catalog().len())
        + "\nGroups:\n  all       → 0.8b + 4b only (fast install)\n  small     → 0.8b + 2b + 4b\n  medium    → 9b\n  profile   → 0.8b + 4b + 9b\n  everything / all-sizes → every listed model\n\nExamples:\n  tarafer --download 4b\n  tarafer --download 0.8b\n  tarafer --download list\n"@
}

/// Adds the line of a model to the list of models.
fn push_row(out: &mut String, m: &ModelSpec)
    ensures
        final(out)@ == old(out)@ + catalog_row(m@),
{
    out.append("  ");
    push_padded(out, m.tag, 10);
    out.append("  ");
    push_padded(out, m.size.name(), 6);
    out.append("  ");
    push_padded(out, m.file, 40);
    out.append("  ~");
    push_decimal(out, m.approx_tenths / 10);
    out.append(".");
    push_decimal(out, m.approx_tenths % 10);
    out.append(" GiB — ");
    out.append(m.note);
    out.append("\n");
    proof {
        assert(out@ == old(out)@ + catalog_row(m@));
    }
}

/// The list of models and of groups.
pub fn model_catalog() -> (r: String)
    ensures
        r@ == catalog_page(),
{
    let models: Vec<ModelSpec> = supported_models();
    let mut out: String = String::new();
    out.append("Supported GGUF downloads (Qwen3.5 Q4_K_M via unsloth; + legacy 3b-qwen25):\n\n");
    out.append("  tag         class   file                                      note\n");
    out.append(
        "  ------------------------------------------------------------------------------------------\n",
    );
    let ghost head: Seq<char> = out@;
    let mut i: usize = 0;
    proof {
        assert(out@ == head + catalog_rows(0));
    }
    while i < models.len()
        invariant
            i <= models@.len() == catalog().len(),
            forall|k: int| 0 <= k < models@.len() ==> (#[trigger] models@[k])@ == catalog()[k],
            out@ == head + catalog_rows(i as nat),
        decreases models@.len() - i,
    {
        let ghost before: Seq<char> = out@;
        push_row(&mut out, &models[i]);
        proof {
            assert(models@[i as int]@ == catalog()[i as int]);
            assert(out@ == before + catalog_row(models@[i as int]@));
            assert(out@ =~= head + catalog_rows(i as nat + 1));
        }
        i = i + 1;
    }
    out.append(
        "\nGroups:\n  all       → 0.8b + 4b only (fast install)\n  small     → 0.8b + 2b + 4b\n  medium    → 9b\n  profile   → 0.8b + 4b + 9b\n  everything / all-sizes → every listed model\n\nExamples:\n  tarafer --download 4b\n  tarafer --download 0.8b\n  tarafer --download list\n",
    );
    proof {
        assert(out@ =~= catalog_page());
    }
    out
}

/// A group of models.
#[derive(Debug, Clone, Copy, PartialEq, Eq, Structural)]
pub enum ModelGroup {
    /// A small one and the usual one, for a fast start.
    Fast,
    Small,
    Medium,
    Larger,
    Profile,
    Everything,
}

impl ModelGroup {
    /// Whether the group has a model.
    pub open spec fn has(self, m: ModelView) -> bool {
        match self {
            ModelGroup::Fast => m.tag == "0.8b"@ || m.tag == "4b"@,
            ModelGroup::Small => m.size == ModelSizeClass::Small && !has_text(m.tag, "qwen25"@),
            ModelGroup::Medium => m.size == ModelSizeClass::Medium,
            ModelGroup::Larger => m.size == ModelSizeClass::Medium || m.size
                == ModelSizeClass::Large,
            ModelGroup::Profile => m.tag == "0.8b"@ || m.tag == "4b"@ || m.tag == "9b"@,
            ModelGroup::Everything => true,
        }
    }

    /// Whether the group has a model.
    pub fn holds(self, m: &ModelSpec) -> (r: bool)
        ensures
            r == self.has(m@),
    {
        match self {
            ModelGroup::Fast => same_text(m.tag, "0.8b") || same_text(m.tag, "4b"),
            ModelGroup::Small => m.size == ModelSizeClass::Small && !contains_chars(
                &chars_of(m.tag),
                &chars_of("qwen25"),
            ),
            ModelGroup::Medium => m.size == ModelSizeClass::Medium,
            ModelGroup::Larger => m.size == ModelSizeClass::Medium || m.size
                == ModelSizeClass::Large,
            ModelGroup::Profile => same_text(m.tag, "0.8b") || same_text(m.tag, "4b") || same_text(
                m.tag,
                "9b",
            ),
            ModelGroup::Everything => true,
        }
    }

    /// Those of the first `n` models that the group has.
    pub open spec fn members(self, n: nat) -> Seq<ModelView>
        decreases n,
    {
        if n == 0 {
            Seq::empty()
        } else if self.has(catalog()[n - 1]) {
            self.members((n - 1) as nat).push(catalog()[n - 1])
        } else {
            self.members((n - 1) as nat)
        }
    }

    /// The models of the group.
    pub fn models(self) -> (r: Vec<ModelSpec>)
        ensures
            model_views(r@) == self.members(catalog().len()),
    {
        let models: Vec<ModelSpec> = supported_models();
        let mut out: Vec<ModelSpec> = Vec::new();
        let mut i: usize = 0;
        proof {
            assert(model_views(out@) =~= self.members(0));
        }
        while i < models.len()
            invariant
                i <= models@.len() == catalog().len(),
                forall|k: int| 0 <= k < models@.len() ==> (#[trigger] models@[k])@ == catalog()[k],
                model_views(out@) == self.members(i as nat),
            decreases models@.len() - i,
        {
            assert(models@[i as int]@ == catalog()[i as int]);
            if self.holds(&models[i]) {
                let ghost before: Seq<ModelSpec> = out@;
                out.push(models[i]);
                proof {
                    assert(model_views(out@) =~= model_views(before).push(models@[i as int]@));
                }
            }
            i = i + 1;
        }
        out
    }
}

/// The group that a word means.
pub open spec fn group_of(key: Seq<char>) -> Option<ModelGroup> {
    if key.len() == 0 || key == "all"@ {
        Some(ModelGroup::Fast)
    } else if key == "small"@ {
        Some(ModelGroup::Small)
    } else if key == "medium"@ || key == "mid"@ {
        Some(ModelGroup::Medium)
    } else if key == "large"@ || key == "big"@ || key == "larger"@ {
        Some(ModelGroup::Larger)
    } else if key == "profile"@ || key == "ladder"@ {
        Some(ModelGroup::Profile)
    } else if key == "everything"@ || key == "all-sizes"@ || key == "all_sizes"@ || key == "full"@ {
        Some(ModelGroup::Everything)
    } else {
        None
    }
}

fn find_group(key: &str) -> (r: Option<ModelGroup>)
    ensures
        r == group_of(key@),
{
    if chars_of(key).len() == 0 || same_text(key, "all") {
        Some(ModelGroup::Fast)
    } else if same_text(key, "small") {
        Some(ModelGroup::Small)
    } else if same_text(key, "medium") || same_text(key, "mid") {
        Some(ModelGroup::Medium)
    } else if same_text(key, "large") || same_text(key, "big") || same_text(key, "larger") {
        Some(ModelGroup::Larger)
    } else if same_text(key, "profile") || same_text(key, "ladder") {
        Some(ModelGroup::Profile)
    } else if same_text(key, "everything") || same_text(key, "all-sizes") || same_text(
        key,
        "all_sizes",
    ) || same_text(key, "full") {
        Some(ModelGroup::Everything)
    } else {
        None
    }
}

/// `s` without its dots.
pub open spec fn no_dots(s: Seq<char>) -> Seq<char>
    decreases s.len(),
{
    if s.len() == 0 {
        s
    } else if s.last() == '.' {
        no_dots(s.drop_last())
    } else {
        no_dots(s.drop_last()).push(s.last())
    }
}

fn drop_dots(v: &[char]) -> (r: Vec<char>)
    ensures
        r@ == no_dots(v@),
{
    let mut out: Vec<char> = Vec::new();
    let mut i: usize = 0;
    while i < v.len()
        invariant
            i <= v@.len(),
            out@ == no_dots(v@.take(i as int)),
        decreases v@.len() - i,
    {
        proof {
            assert(v@.take(i as int + 1).drop_last() =~= v@.take(i as int));
        }
        if v[i] != '.' {
            out.push(v[i]);
        }
        i = i + 1;
    }
    proof {
        assert(v@.take(v@.len() as int) =~= v@);
    }
    out
}

/// The tag that an older name stands for.
pub open spec fn aliased(part: Seq<char>) -> Seq<char> {
    if part == "0.5b"@ {
        "0.8b"@
    } else if part == "3b"@ {
        "4b"@
    } else {
        part
    }
}

/// Whether a word means a model: its tag, with or without dots, or a part of the
/// name of its file.
pub open spec fn means(part: Seq<char>, m: ModelView) -> bool {
    ||| m.tag == part
    ||| has_text(lower(m.file), part)
    ||| no_dots(m.tag) == no_dots(part)
}

fn is_meant(part: &[char], m: &ModelSpec) -> (r: bool)
    ensures
        r == means(part@, m@),
{
    let tag: Vec<char> = chars_of(m.tag);
    same_chars(&tag, part) || contains_chars(&to_lower(&chars_of(m.file)), part) || same_chars(
        &drop_dots(&tag),
        &drop_dots(part),
    )
}

/// The first model, from place `from` on, that a word means.
pub open spec fn first_meant(part: Seq<char>, from: int) -> Option<ModelView>
    decreases catalog().len() - from,
{
    if from < 0 || from >= catalog().len() {
        None
    } else if means(part, catalog()[from]) {
        Some(catalog()[from])
    } else {
        first_meant(part, from + 1)
    }
}

fn find_model(part: &[char]) -> (r: Option<ModelSpec>)
    ensures
        match r {
            Some(m) => first_meant(part@, 0) == Some(m@),
            None => first_meant(part@, 0) is None,
        },
{
    let models: Vec<ModelSpec> = supported_models();
    let mut i: usize = 0;
    while i < models.len()
        invariant
            i <= models@.len() == catalog().len(),
            forall|k: int| 0 <= k < models@.len() ==> (#[trigger] models@[k])@ == catalog()[k],
            first_meant(part@, 0) == first_meant(part@, i as int),
        decreases models@.len() - i,
    {
        assert(models@[i as int]@ == catalog()[i as int]);
        if is_meant(part, &models[i]) {
            return Some(models[i]);
        }
        i = i + 1;
    }
    None
}

/// Whether a character stands between words.
pub open spec fn parts_words(c: char) -> bool {
    c == ',' || c == ' ' || c == '+'
}

/// The pieces between commas, spaces and plus signs, empty ones too.
pub open spec fn words(key: Seq<char>) -> Seq<Seq<char>> {
    split_on(
        key.map_values(
            |c: char|
                if parts_words(c) {
                    ' '
                } else {
                    c
                },
        ),
        ' ',
    )
}

fn split_words(key: &[char]) -> (r: Vec<Vec<char>>)
    ensures
        char_rows(r@) == words(key@),
        r@.len() == words(key@).len(),
        forall|k: int| 0 <= k < r@.len() ==> (#[trigger] r@[k])@ == words(key@)[k],
{
    let mut plain: Vec<char> = Vec::new();
    let mut i: usize = 0;
    while i < key.len()
        invariant
            i <= key@.len(),
            plain@.len() == i,
            forall|k: int|
                0 <= k < i ==> #[trigger] plain@[k] == (if parts_words(key@[k]) {
                    ' '
                } else {
                    key@[k]
                }),
        decreases key@.len() - i,
    {
        let c: char = key[i];
        if c == ',' || c == ' ' || c == '+' {
            plain.push(' ');
        } else {
            plain.push(c);
        }
        i = i + 1;
    }
    proof {
        assert(plain@ =~= key@.map_values(
            |c: char|
                if parts_words(c) {
                    ' '
                } else {
                    c
                },
        ));
    }
    split_chars(&plain, ' ')
}

/// Whether one of `v` has this file.
pub open spec fn has_file(v: Seq<ModelView>, file: Seq<char>) -> bool {
    exists|i: int| 0 <= i < v.len() && (#[trigger] v[i]).file == file
}

fn holds_file(v: &[ModelSpec], file: &str) -> (r: bool)
    ensures
        r == has_file(model_views(v@), file@),
{
    let mut i: usize = 0;
    while i < v.len()
        invariant
            i <= v@.len(),
            forall|k: int| 0 <= k < i ==> (#[trigger] model_views(v@)[k]).file != file@,
        decreases v@.len() - i,
    {
        assert(model_views(v@)[i as int] == v@[i as int]@);
        if same_text(v[i].file, file) {
            return true;
        }
        i = i + 1;
    }
    false
}

/// The models that the first `n` words mean, each once, or the first word that
/// means none. Empty words mean nothing.
pub open spec fn chosen(rows: Seq<Seq<char>>, n: nat) -> Result<Seq<ModelView>, Seq<char>>
    decreases n,
{
    if n == 0 {
        Ok(Seq::empty())
    } else {
        match chosen(rows, (n - 1) as nat) {
            Err(p) => Err(p),
            Ok(out) => if rows[n - 1].len() == 0 {
                Ok(out)
            } else {
                match first_meant(aliased(rows[n - 1]), 0) {
                    None => Err(aliased(rows[n - 1])),
                    Some(m) => if has_file(out, m.file) {
                        Ok(out)
                    } else {
                        Ok(out.push(m))
                    },
                }
            },
        }
    }
}

/// Why nothing can be downloaded.
#[derive(Debug)]
pub enum DownloadError {
    /// A word that means no model.
    Unknown(String),
    /// No word at all.
    Nothing,
}

/// The same as a mathematical value.
pub enum DownloadErrorView {
    Unknown(Seq<char>),
    Nothing,
}

impl View for DownloadError {
    type V = DownloadErrorView;

    open spec fn view(&self) -> DownloadErrorView {
        match *self {
            DownloadError::Unknown(p) => DownloadErrorView::Unknown(p@),
            DownloadError::Nothing => DownloadErrorView::Nothing,
        }
    }
}

impl DownloadErrorView {
    /// The sentence that tells the error.
    pub open spec fn sentence(self) -> Seq<char> {
        match self {
            DownloadErrorView::Unknown(p) => "unknown download target "@ + quoted(p) + "; "@
                + tags_hint(),
            DownloadErrorView::Nothing => "no models selected; "@ + tags_hint(),
        }
    }
}

impl DownloadError {
    /// The sentence that tells the error.
    pub fn message(&self) -> (r: String)
        ensures
            r@ == self@.sentence(),
    {
        let mut out: String = String::new();
        match self {
            DownloadError::Unknown(p) => {
                out.append("unknown download target ");
                out.append(quote(p.as_str()).as_str());
                out.append("; ");
            },
            DownloadError::Nothing => {
                out.append("no models selected; ");
            },
        }
        out.append(known_tags_hint().as_str());
        proof {
            assert(out@ == self@.sentence());
        }
        out
    }
}

/// Whether a word asks for the list of models.
pub open spec fn asks_list(key: Seq<char>) -> bool {
    key == "list"@ || key == "help"@ || key == "?"@
}

/// What a request means: a group, the list of models (then nothing is
/// selected), or models one by one.
pub open spec fn selection(which: Seq<char>) -> Result<Seq<ModelView>, DownloadErrorView> {
    let key = lower(trimmed(which));
    match group_of(key) {
        Some(g) => Ok(g.members(catalog().len())),
        None => if asks_list(key) {
            Ok(Seq::empty())
        } else {
            match chosen(words(key), words(key).len()) {
                Err(p) => Err(DownloadErrorView::Unknown(p)),
                Ok(v) => if v.len() == 0 {
                    Err(DownloadErrorView::Nothing)
                } else {
                    Ok(v)
                },
            }
        },
    }
}

/// The models that a request means. Nothing is selected where the list of models
/// was asked for, and only there.
pub fn select_models(which: &str) -> (r: Result<Vec<ModelSpec>, DownloadError>)
    ensures
        match r {
            Ok(v) => selection(which@) == Ok::<Seq<ModelView>, DownloadErrorView>(
                model_views(v@),
            ),
            Err(e) => selection(which@) == Err::<Seq<ModelView>, DownloadErrorView>(e@),
        },
{
    let key: Vec<char> = to_lower(&trim(&chars_of(which)));
    let text: String = string_of(&key);
    match find_group(text.as_str()) {
        Some(g) => {
            return Ok(g.models());
        },
        None => {},
    }
    if same_text(text.as_str(), "list") || same_text(text.as_str(), "help") || same_text(
        text.as_str(),
        "?",
    ) {
        let none: Vec<ModelSpec> = Vec::new();
        proof {
            assert(model_views(none@) =~= Seq::<ModelView>::empty());
        }
        return Ok(none);
    }
    let rows: Vec<Vec<char>> = split_words(&key);
    match choose_models(&rows) {
        Err(p) => Err(DownloadError::Unknown(p)),
        Ok(v) => {
            assert(model_views(v@).len() == v@.len());
            if v.len() == 0 {
                Err(DownloadError::Nothing)
            } else {
                Ok(v)
            }
        },
    }
}

/// A word that an earlier word made wrong stays wrong.
proof fn lemma_chosen_stops(rows: Seq<Seq<char>>, i: nat, n: nat)
    requires
        i <= n,
        chosen(rows, i) is Err,
    ensures
        chosen(rows, n) == chosen(rows, i),
    decreases n,
{
    if i < n {
        lemma_chosen_stops(rows, i, (n - 1) as nat);
    }
}

fn alias_of(part: &Vec<char>) -> (r: Vec<char>)
    ensures
        r@ == aliased(part@),
{
    if same_chars(part, &chars_of("0.5b")) {
        chars_of("0.8b")
    } else if same_chars(part, &chars_of("3b")) {
        chars_of("4b")
    } else {
        part.clone()
    }
}

fn choose_models(rows: &Vec<Vec<char>>) -> (r: Result<Vec<ModelSpec>, String>)
    ensures
        match r {
            Ok(v) => chosen(char_rows(rows@), rows@.len()) == Ok::<Seq<ModelView>, Seq<char>>(
                model_views(v@),
            ),
            Err(p) => chosen(char_rows(rows@), rows@.len()) == Err::<Seq<ModelView>, Seq<char>>(p@),
        },
{
    let mut out: Vec<ModelSpec> = Vec::new();
    let mut i: usize = 0;
    let ghost views: Seq<Seq<char>> = char_rows(rows@);
    proof {
        assert(model_views(out@) =~= Seq::<ModelView>::empty());
    }
    while i < rows.len()
        invariant
            i <= rows@.len(),
            views == char_rows(rows@),
            chosen(views, i as nat) == Ok::<Seq<ModelView>, Seq<char>>(model_views(out@)),
        decreases rows@.len() - i,
    {
        assert(views[i as int] == rows@[i as int]@);
        if rows[i].len() > 0 {
            let part: Vec<char> = alias_of(&rows[i]);
            match find_model(&part) {
                Some(m) => {
                    if !holds_file(&out, m.file) {
                        let ghost before: Seq<ModelSpec> = out@;
                        out.push(m);
                        proof {
                            assert(model_views(out@) =~= model_views(before).push(m@));
                        }
                    }
                },
                None => {
                    proof {
                        lemma_chosen_stops(views, i as nat + 1, rows@.len());
                    }
                    return Err(string_of(&part));
                },
            }
        }
        i = i + 1;
    }
    Ok(out)
}

/// What is done with a model that was selected.
#[derive(Debug)]
pub enum DownloadStep {
    /// The file is there and stays.
    Keep,
    /// The file is fetched from this address.
    Fetch(String),
}

/// What is done with a model: a file that is there stays unless it is to be
/// fetched again.
pub fn download_step(m: &ModelSpec, present: bool, force: bool) -> (r: DownloadStep)
    ensures
        match r {
            DownloadStep::Keep => present && !force,
            DownloadStep::Fetch(url) => {
                &&& !present || force
                &&& url@ == hf_address(m.repo@, m.remote_file@)
            },
        },
{
    if present && !force {
        DownloadStep::Keep
    } else {
        DownloadStep::Fetch(hf_url(m.repo, m.remote_file))
    }
}

/// The header that names who asks: the first of two tokens that is set, unless
/// it is empty.
pub fn authorization(first: Option<&str>, second: Option<&str>) -> (r: Option<String>)
    ensures
        match (if first is Some {
            first
        } else {
            second
        }) {
            Some(token) => if token@.len() > 0 {
                r is Some && r->0@ == "Bearer "@ + token@
            } else {
                r is None
            },
            None => r is None,
        },
{
    let token: &str = match first {
        Some(t) => t,
        None => match second {
            Some(t) => t,
            None => {
                return None;
            },
        },
    };
    if chars_of(token).len() == 0 {
        return None;
    }
    let mut out: String = String::new();
    out.append("Bearer ");
    out.append(token);
    proof {
        assert(out@ == "Bearer "@ + token@);
    }
    Some(out)
}

/// Whether a status tells that a request succeeded.
pub fn is_success(status: u16) -> (r: bool)
    ensures
        r == (200 <= status < 300),
{
    200 <= status && status < 300
}

/// A model that the group has is among its members.
proof fn lemma_member(g: ModelGroup, i: int, n: nat)
    requires
        0 <= i < n <= catalog().len(),
        g.has(catalog()[i]),
    ensures
        g.members(n).len() > 0,
    decreases n,
{
    if i < n - 1 {
        lemma_member(g, i, (n - 1) as nat);
    }
}

/// Every group has a model.
pub proof fn law_groups_not_empty(g: ModelGroup)
    ensures
        g.members(catalog().len()).len() > 0,
{
    if g == ModelGroup::Medium || g == ModelGroup::Larger {
        lemma_member(g, 3, catalog().len());
    } else {
        reveal_strlit("0.8b");
        reveal_strlit("qwen25");
        lemma_member(g, 0, catalog().len());
    }
}

/// Nothing is selected exactly where the list of models is asked for: every
/// other request that is granted names a model.
pub proof fn law_only_the_list_selects_nothing(which: Seq<char>)
    ensures
        match selection(which) {
            Ok(v) => v.len() == 0 <==> asks_list(lower(trimmed(which))),
            Err(_) => true,
        },
{
    let key = lower(trimmed(which));
    reveal_strlit("list");
    reveal_strlit("help");
    reveal_strlit("?");
    reveal_strlit("full");
    assert("list"@[0] == 'l' && "help"@[0] == 'h' && "full"@[0] == 'f');
    reveal_strlit("all");
    reveal_strlit("small");
    reveal_strlit("medium");
    reveal_strlit("mid");
    reveal_strlit("large");
    reveal_strlit("big");
    reveal_strlit("larger");
    reveal_strlit("profile");
    reveal_strlit("ladder");
    reveal_strlit("everything");
    reveal_strlit("all-sizes");
    reveal_strlit("all_sizes");
    match group_of(key) {
        Some(g) => {
            law_groups_not_empty(g);
        },
        None => {},
    }
}

/// All of `v` are in the catalogue, and no file stands twice.
pub open spec fn sound_selection(v: Seq<ModelView>) -> bool {
    &&& forall|i: int| 0 <= i < v.len() ==> catalog().contains(#[trigger] v[i])
    &&& forall|i: int, j: int|
        0 <= i < j < v.len() ==> (#[trigger] v[i]).file != (#[trigger] v[j]).file
}

/// The files of the catalogue differ.
proof fn lemma_files_differ()
    ensures
        forall|i: int, j: int|
            0 <= i < j < catalog().len() ==> (#[trigger] catalog()[i]).file != (
            #[trigger] catalog()[j]).file,
{
    reveal_strlit("Qwen3.5-0.8B-Q4_K_M.gguf");
    reveal_strlit("Qwen3.5-2B-Q4_K_M.gguf");
    reveal_strlit("Qwen3.5-4B-Q4_K_M.gguf");
    reveal_strlit("Qwen3.5-9B-Q4_K_M.gguf");
    reveal_strlit("Qwen2.5-3B-Instruct-Q4_K_M.gguf");
    let c = catalog();
    assert(c[0].file.len() == 24);
    assert(c[1].file.len() == 22 && c[1].file[8] == '2');
    assert(c[2].file.len() == 22 && c[2].file[8] == '4');
    assert(c[3].file.len() == 22 && c[3].file[8] == '9');
    assert(c[4].file.len() == 31);
    assert forall|i: int, j: int| 0 <= i < j < c.len() implies (#[trigger] c[i]).file != (
    #[trigger] c[j]).file by {
        assert(i == 0 || i == 1 || i == 2 || i == 3);
        assert(j == 1 || j == 2 || j == 3 || j == 4);
    }
}

proof fn lemma_members_sound(g: ModelGroup, n: nat)
    requires
        n <= catalog().len(),
    ensures
        sound_selection(g.members(n)),
        forall|i: int|
            0 <= i < g.members(n).len() ==> exists|k: int|
                0 <= k < n && #[trigger] catalog()[k] == #[trigger] g.members(n)[i],
    decreases n,
{
    if n > 0 {
        let m = (n - 1) as nat;
        lemma_members_sound(g, m);
        lemma_files_differ();
        let before = g.members(m);
        let now = g.members(n);
        assert forall|i: int| 0 <= i < now.len() implies exists|k: int|
            0 <= k < n && #[trigger] catalog()[k] == #[trigger] now[i] by {
            if i < before.len() {
                assert(now[i] == before[i]);
                let k = choose|k: int| 0 <= k < m && #[trigger] catalog()[k] == before[i];
                assert(catalog()[k] == now[i]);
            } else {
                assert(catalog()[m as int] == now[i]);
            }
        }
        if g.has(catalog()[m as int]) {
            assert forall|i: int, j: int| 0 <= i < j < now.len() implies (#[trigger] now[i]).file
                != (#[trigger] now[j]).file by {
                assert(now[i] == before[i]);
                if j < before.len() {
                    assert(now[j] == before[j]);
                } else {
                    let k = choose|k: int| 0 <= k < m && #[trigger] catalog()[k] == before[i];
                    assert(catalog()[m as int] == now[j]);
                }
            }
        }
    }
}

proof fn lemma_meant_in_catalog(part: Seq<char>, from: int)
    requires
        0 <= from,
    ensures
        match first_meant(part, from) {
            Some(m) => catalog().contains(m),
            None => true,
        },
    decreases catalog().len() - from,
{
    if from < catalog().len() && !means(part, catalog()[from]) {
        lemma_meant_in_catalog(part, from + 1);
    } else if from < catalog().len() {
        assert(catalog().contains(catalog()[from]));
    }
}

proof fn lemma_chosen_sound(rows: Seq<Seq<char>>, n: nat)
    ensures
        match chosen(rows, n) {
            Ok(v) => sound_selection(v),
            Err(_) => true,
        },
    decreases n,
{
    if n > 0 {
        lemma_chosen_sound(rows, (n - 1) as nat);
        lemma_meant_in_catalog(aliased(rows[n - 1]), 0);
    }
}

/// Only models of the catalogue are selected, and none of them twice.
pub proof fn law_selection_is_sound(which: Seq<char>)
    ensures
        match selection(which) {
            Ok(v) => sound_selection(v),
            Err(_) => true,
        },
{
    let key = lower(trimmed(which));
    match group_of(key) {
        Some(g) => {
            lemma_members_sound(g, catalog().len());
        },
        None => {
            lemma_chosen_sound(words(key), words(key).len());
        },
    }
}

/// A request means the same in any case of its letters.
pub proof fn law_case_does_not_matter(which: Seq<char>)
    ensures
        selection(lower(which)) == selection(which),
{
    law_trim_keeps_lower(which);
    law_lower_idempotent(trimmed(which));
}

/// A group has exactly the models of the catalog that belong to it.
pub proof fn law_group_members(g: ModelGroup, n: nat, i: int)
    requires
        0 <= i < n <= catalog().len(),
    ensures
        g.has(catalog()[i]) ==> g.members(n).contains(catalog()[i]),
        forall|k: int| 0 <= k < g.members(n).len() ==> g.has(#[trigger] g.members(n)[k]),
    decreases n,
{
    let before = g.members((n - 1) as nat);
    let all = g.members(n);
    lemma_all_belong(g, n);
    if i < n - 1 {
        law_group_members(g, (n - 1) as nat, i);
        if g.has(catalog()[i]) {
            let k = choose|k: int| 0 <= k < before.len() && before[k] == catalog()[i];
            assert(all[k] == catalog()[i]);
        }
    } else if g.has(catalog()[i]) {
        assert(all[all.len() - 1] == catalog()[i]);
    }
}

proof fn lemma_all_belong(g: ModelGroup, n: nat)
    requires
        n <= catalog().len(),
    ensures
        forall|k: int| 0 <= k < g.members(n).len() ==> g.has(#[trigger] g.members(n)[k]),
    decreases n,
{
    if n > 0 {
        lemma_all_belong(g, (n - 1) as nat);
        let before = g.members((n - 1) as nat);
        let all = g.members(n);
        assert forall|k: int| 0 <= k < all.len() implies g.has(#[trigger] all[k]) by {
            if k < before.len() {
                assert(all[k] == before[k]);
            }
        }
    }
}

/// A word means the first model of the catalog that fits it: by its tag, by a part of
/// the name of its file, or by its tag without dots.
pub proof fn law_first_fit(part: Seq<char>, from: int)
    requires
        0 <= from <= catalog().len(),
    ensures
        first_meant(part, from) matches Some(m) ==> exists|i: int|
            {
                &&& from <= i < catalog().len()
                &&& #[trigger] catalog()[i] == m
                &&& means(part, m)
                &&& forall|j: int| from <= j < i ==> !means(part, #[trigger] catalog()[j])
            },
        first_meant(part, from) is None ==> forall|j: int|
            from <= j < catalog().len() ==> !means(part, #[trigger] catalog()[j]),
    decreases catalog().len() - from,
{
    if from < catalog().len() && !means(part, catalog()[from]) {
        law_first_fit(part, from + 1);
    }
}

/// Every word that is not empty selects the model it means, and where it means none the
/// words are refused.
pub proof fn law_every_word_counts(rows: Seq<Seq<char>>, n: nat, k: int)
    requires
        0 <= k < n <= rows.len(),
        rows[k].len() > 0,
    ensures
        chosen(rows, n) matches Ok(v) ==> first_meant(aliased(rows[k]), 0) is Some && has_file(
            v,
            first_meant(aliased(rows[k]), 0)->0.file,
        ),
    decreases n,
{
    if let Ok(v) = chosen(rows, n) {
        let before = chosen(rows, (n - 1) as nat)->Ok_0;
        if k < n - 1 {
            law_every_word_counts(rows, (n - 1) as nat, k);
            let file = first_meant(aliased(rows[k]), 0)->0.file;
            let i = choose|i: int| 0 <= i < before.len() && (#[trigger] before[i]).file == file;
            assert(v[i] == before[i]);
        } else {
            let m = first_meant(aliased(rows[k]), 0)->0;
            if !has_file(before, m.file) {
                assert(v[v.len() - 1] == m);
            }
        }
    }
}

/// A text is filled up with spaces to the width, and a longer one stays.
pub proof fn law_padded(s: Seq<char>, width: nat)
    ensures
        padded(s, width).len() == (if s.len() >= width {
            s.len()
        } else {
            width
        }),
        padded(s, width).take(s.len() as int) == s,
        forall|i: int| s.len() <= i < padded(s, width).len() ==> #[trigger] padded(s, width)[i] == ' ',
    decreases width - s.len(),
{
    if s.len() < width {
        let t = s.push(' ');
        law_padded(t, width);
        let r = padded(s, width);
        assert(r.take(t.len() as int)[s.len() as int] == ' ');
        assert(r.take(s.len() as int) =~= t.take(s.len() as int));
        assert(t.take(s.len() as int) =~= s);
        assert forall|i: int| s.len() <= i < r.len() implies #[trigger] r[i] == ' ' by {
            if i == s.len() {
                assert(r[i] == r.take(t.len() as int)[i]);
            }
        }
    } else {
        assert(s.take(s.len() as int) =~= s);
    }
}

} // verus!
