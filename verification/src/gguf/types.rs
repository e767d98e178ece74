//! Tensor element types and tensor descriptors.
use vstd::prelude::*;

verus! {

/// GGML tensor types that a file can name.
#[allow(non_camel_case_types)]
#[derive(Debug, Clone, Copy, PartialEq, Eq, Hash, Structural)]
pub enum GgmlType {
    F32,
    F16,
    Q4_0,
    Q4_1,
    Q5_0,
    Q5_1,
    Q8_0,
    Q8_1,
    Q2_K,
    Q3_K,
    Q4_K,
    Q5_K,
    Q6_K,
    Q8_K,
    Iq2Xxs,
    Iq2Xs,
    Iq3Xxs,
    Iq1S,
    Iq4Nl,
    Iq3S,
    Iq2S,
    Iq4Xs,
    I8,
    I16,
    I32,
    I64,
    F64,
    Iq1M,
    Bf16,
}

/// Ceiling of `a / b`.
pub open spec fn div_ceil(a: nat, b: nat) -> nat
    recommends
        b > 0,
{
    if a % b == 0 {
        a / b
    } else {
        a / b + 1
    }
}

/// Product of the dimensions; a tensor without dimensions has one element.
pub open spec fn product(dims: Seq<u64>) -> nat
    decreases dims.len(),
{
    if dims.len() == 0 {
        1
    } else {
        product(dims.drop_last()) * (dims.last() as nat)
    }
}

impl GgmlType {
    /// The number that stands for the type in a file.
    pub open spec fn id(self) -> u32 {
        match self {
            GgmlType::F32 => 0,
            GgmlType::F16 => 1,
            GgmlType::Q4_0 => 2,
            GgmlType::Q4_1 => 3,
            GgmlType::Q5_0 => 6,
            GgmlType::Q5_1 => 7,
            GgmlType::Q8_0 => 8,
            GgmlType::Q8_1 => 9,
            GgmlType::Q2_K => 10,
            GgmlType::Q3_K => 11,
            GgmlType::Q4_K => 12,
            GgmlType::Q5_K => 13,
            GgmlType::Q6_K => 14,
            GgmlType::Q8_K => 15,
            GgmlType::Iq2Xxs => 16,
            GgmlType::Iq2Xs => 17,
            GgmlType::Iq3Xxs => 18,
            GgmlType::Iq1S => 19,
            GgmlType::Iq4Nl => 20,
            GgmlType::Iq3S => 21,
            GgmlType::Iq2S => 22,
            GgmlType::Iq4Xs => 23,
            GgmlType::I8 => 24,
            GgmlType::I16 => 25,
            GgmlType::I32 => 26,
            GgmlType::I64 => 27,
            GgmlType::F64 => 28,
            GgmlType::Iq1M => 29,
            GgmlType::Bf16 => 30,
        }
    }

    /// The name that GGML gives to the type.
    pub open spec fn spec_name(self) -> Seq<char> {
        match self {
            GgmlType::F32 => "F32"@,
            GgmlType::F16 => "F16"@,
            GgmlType::Q4_0 => "Q4_0"@,
            GgmlType::Q4_1 => "Q4_1"@,
            GgmlType::Q5_0 => "Q5_0"@,
            GgmlType::Q5_1 => "Q5_1"@,
            GgmlType::Q8_0 => "Q8_0"@,
            GgmlType::Q8_1 => "Q8_1"@,
            GgmlType::Q2_K => "Q2_K"@,
            GgmlType::Q3_K => "Q3_K"@,
            GgmlType::Q4_K => "Q4_K"@,
            GgmlType::Q5_K => "Q5_K"@,
            GgmlType::Q6_K => "Q6_K"@,
            GgmlType::Q8_K => "Q8_K"@,
            GgmlType::Iq2Xxs => "IQ2_XXS"@,
            GgmlType::Iq2Xs => "IQ2_XS"@,
            GgmlType::Iq3Xxs => "IQ3_XXS"@,
            GgmlType::Iq1S => "IQ1_S"@,
            GgmlType::Iq4Nl => "IQ4_NL"@,
            GgmlType::Iq3S => "IQ3_S"@,
            GgmlType::Iq2S => "IQ2_S"@,
            GgmlType::Iq4Xs => "IQ4_XS"@,
            GgmlType::I8 => "I8"@,
            GgmlType::I16 => "I16"@,
            GgmlType::I32 => "I32"@,
            GgmlType::I64 => "I64"@,
            GgmlType::F64 => "F64"@,
            GgmlType::Iq1M => "IQ1_M"@,
            GgmlType::Bf16 => "BF16"@,
        }
    }

    /// Elements in one block.
    pub open spec fn spec_block_size(self) -> nat {
        match self {
            GgmlType::F32
            | GgmlType::F16
            | GgmlType::I8
            | GgmlType::I16
            | GgmlType::I32
            | GgmlType::I64
            | GgmlType::F64
            | GgmlType::Bf16 => 1,
            GgmlType::Q4_0
            | GgmlType::Q4_1
            | GgmlType::Q5_0
            | GgmlType::Q5_1
            | GgmlType::Q8_0
            | GgmlType::Q8_1 => 32,
            _ => 256,
        }
    }

    /// Bytes in one block.
    pub open spec fn spec_type_size(self) -> nat {
        match self {
            GgmlType::F32 => 4,
            GgmlType::F16 => 2,
            GgmlType::Q4_0 => 18,
            GgmlType::Q4_1 => 20,
            GgmlType::Q5_0 => 22,
            GgmlType::Q5_1 => 24,
            GgmlType::Q8_0 => 34,
            GgmlType::Q8_1 => 36,
            GgmlType::Q2_K => 84,
            GgmlType::Q3_K => 110,
            GgmlType::Q4_K => 144,
            GgmlType::Q5_K => 176,
            GgmlType::Q6_K => 210,
            GgmlType::Q8_K => 292,
            GgmlType::Iq2Xxs => 64,
            GgmlType::Iq2Xs => 64,
            GgmlType::Iq3Xxs => 80,
            GgmlType::Iq1S => 50,
            GgmlType::Iq4Nl => 52,
            GgmlType::Iq3S => 88,
            GgmlType::Iq2S => 68,
            GgmlType::Iq4Xs => 66,
            GgmlType::I8 => 1,
            GgmlType::I16 => 2,
            GgmlType::I32 => 4,
            GgmlType::I64 => 8,
            GgmlType::F64 => 8,
            GgmlType::Iq1M => 56,
            GgmlType::Bf16 => 2,
        }
    }

    /// Bytes that hold `n` elements: whole blocks.
    pub open spec fn spec_nbytes(self, n: nat) -> nat {
        div_ceil(n, self.spec_block_size()) * self.spec_type_size()
    }

    /// The type that `v` stands for.
    pub fn from_u32(v: u32) -> (r: Option<GgmlType>)
        ensures
            match r {
                Some(t) => t.id() == v,
                None => forall|t: GgmlType| t.id() != v,
            },
    {
        match v {
            0 => Some(GgmlType::F32),
            1 => Some(GgmlType::F16),
            2 => Some(GgmlType::Q4_0),
            3 => Some(GgmlType::Q4_1),
            6 => Some(GgmlType::Q5_0),
            7 => Some(GgmlType::Q5_1),
            8 => Some(GgmlType::Q8_0),
            9 => Some(GgmlType::Q8_1),
            10 => Some(GgmlType::Q2_K),
            11 => Some(GgmlType::Q3_K),
            12 => Some(GgmlType::Q4_K),
            13 => Some(GgmlType::Q5_K),
            14 => Some(GgmlType::Q6_K),
            15 => Some(GgmlType::Q8_K),
            16 => Some(GgmlType::Iq2Xxs),
            17 => Some(GgmlType::Iq2Xs),
            18 => Some(GgmlType::Iq3Xxs),
            19 => Some(GgmlType::Iq1S),
            20 => Some(GgmlType::Iq4Nl),
            21 => Some(GgmlType::Iq3S),
            22 => Some(GgmlType::Iq2S),
            23 => Some(GgmlType::Iq4Xs),
            24 => Some(GgmlType::I8),
            25 => Some(GgmlType::I16),
            26 => Some(GgmlType::I32),
            27 => Some(GgmlType::I64),
            28 => Some(GgmlType::F64),
            29 => Some(GgmlType::Iq1M),
            30 => Some(GgmlType::Bf16),
            _ => None,
        }
    }

    /// The name of the type.
    pub fn name(self) -> (r: &'static str)
        ensures
            r@ == self.spec_name(),
    {
        match self {
            GgmlType::F32 => "F32",
            GgmlType::F16 => "F16",
            GgmlType::Q4_0 => "Q4_0",
            GgmlType::Q4_1 => "Q4_1",
            GgmlType::Q5_0 => "Q5_0",
            GgmlType::Q5_1 => "Q5_1",
            GgmlType::Q8_0 => "Q8_0",
            GgmlType::Q8_1 => "Q8_1",
            GgmlType::Q2_K => "Q2_K",
            GgmlType::Q3_K => "Q3_K",
            GgmlType::Q4_K => "Q4_K",
            GgmlType::Q5_K => "Q5_K",
            GgmlType::Q6_K => "Q6_K",
            GgmlType::Q8_K => "Q8_K",
            GgmlType::Iq2Xxs => "IQ2_XXS",
            GgmlType::Iq2Xs => "IQ2_XS",
            GgmlType::Iq3Xxs => "IQ3_XXS",
            GgmlType::Iq1S => "IQ1_S",
            GgmlType::Iq4Nl => "IQ4_NL",
            GgmlType::Iq3S => "IQ3_S",
            GgmlType::Iq2S => "IQ2_S",
            GgmlType::Iq4Xs => "IQ4_XS",
            GgmlType::I8 => "I8",
            GgmlType::I16 => "I16",
            GgmlType::I32 => "I32",
            GgmlType::I64 => "I64",
            GgmlType::F64 => "F64",
            GgmlType::Iq1M => "IQ1_M",
            GgmlType::Bf16 => "BF16",
        }
    }

    /// Elements in one block.
    pub fn block_size(self) -> (r: usize)
        ensures
            r == self.spec_block_size(),
            r == 1 || r == 32 || r == 256,
    {
        match self {
            GgmlType::F32
            | GgmlType::F16
            | GgmlType::I8
            | GgmlType::I16
            | GgmlType::I32
            | GgmlType::I64
            | GgmlType::F64
            | GgmlType::Bf16 => 1,
            GgmlType::Q4_0
            | GgmlType::Q4_1
            | GgmlType::Q5_0
            | GgmlType::Q5_1
            | GgmlType::Q8_0
            | GgmlType::Q8_1 => 32,
            _ => 256,
        }
    }

    /// Bytes in one block.
    pub fn type_size(self) -> (r: usize)
        ensures
            r == self.spec_type_size(),
            0 < r <= 292,
    {
        match self {
            GgmlType::F32 => 4,
            GgmlType::F16 => 2,
            GgmlType::Q4_0 => 18,
            GgmlType::Q4_1 => 20,
            GgmlType::Q5_0 => 22,
            GgmlType::Q5_1 => 24,
            GgmlType::Q8_0 => 34,
            GgmlType::Q8_1 => 36,
            GgmlType::Q2_K => 84,
            GgmlType::Q3_K => 110,
            GgmlType::Q4_K => 144,
            GgmlType::Q5_K => 176,
            GgmlType::Q6_K => 210,
            GgmlType::Q8_K => 292,
            GgmlType::Iq2Xxs => 64,
            GgmlType::Iq2Xs => 64,
            GgmlType::Iq3Xxs => 80,
            GgmlType::Iq1S => 50,
            GgmlType::Iq4Nl => 52,
            GgmlType::Iq3S => 88,
            GgmlType::Iq2S => 68,
            GgmlType::Iq4Xs => 66,
            GgmlType::I8 => 1,
            GgmlType::I16 => 2,
            GgmlType::I32 => 4,
            GgmlType::I64 => 8,
            GgmlType::F64 => 8,
            GgmlType::Iq1M => 56,
            GgmlType::Bf16 => 2,
        }
    }

    /// Bytes that hold `n_elements` elements, or nothing where no `u64` can
    /// hold that number.
    pub fn checked_nbytes(self, n_elements: u64) -> (r: Option<u64>)
        ensures
            match r {
                Some(n) => n == self.spec_nbytes(n_elements as nat),
                None => self.spec_nbytes(n_elements as nat) > u64::MAX,
            },
    {
        let bs: u64 = self.block_size() as u64;
        let ts: u64 = self.type_size() as u64;
        let whole: u64 = n_elements / bs;
        proof {
            if bs == 1 {
                assert(n_elements % 1 == 0);
            } else if bs == 32 {
                assert(n_elements / 32 < u64::MAX);
            } else {
                assert(n_elements / 256 < u64::MAX);
            }
        }
        let blocks: u64 = if n_elements % bs == 0 {
            whole
        } else {
            whole + 1
        };
        blocks.checked_mul(ts)
    }

    /// Bytes that hold `n_elements` elements.
    pub fn nbytes(self, n_elements: u64) -> (r: u64)
        requires
            self.spec_nbytes(n_elements as nat) <= u64::MAX,
        ensures
            r == self.spec_nbytes(n_elements as nat),
    {
        match self.checked_nbytes(n_elements) {
            Some(n) => n,
            None => 0,
        }
    }
}

/// No two types share a number, so a number stands for at most one type.
pub proof fn law_type_ids_differ(a: GgmlType, b: GgmlType)
    requires
        a.id() == b.id(),
    ensures
        a == b,
{
}

/// More elements never take fewer bytes.
pub proof fn law_nbytes_monotone(t: GgmlType, a: nat, b: nat)
    requires
        a <= b,
    ensures
        t.spec_nbytes(a) <= t.spec_nbytes(b),
{
    let bs = t.spec_block_size();
    let ts = t.spec_type_size();
    vstd::arithmetic::div_mod::lemma_div_is_ordered(a as int, b as int, bs as int);
    assert(div_ceil(a, bs) <= div_ceil(b, bs)) by {
        vstd::arithmetic::div_mod::lemma_fundamental_div_mod(a as int, bs as int);
        vstd::arithmetic::div_mod::lemma_fundamental_div_mod(b as int, bs as int);
    }
    assert(div_ceil(a, bs) * ts <= div_ceil(b, bs) * ts) by (nonlinear_arith)
        requires
            div_ceil(a, bs) <= div_ceil(b, bs),
    ;
}

/// One tensor of a file: its name, its dimensions, the type of its elements
/// and where its bytes begin, counted from the start of the data section.
#[derive(Debug, Clone)]
pub struct GgufTensorInfo {
    pub name: String,
    pub dims: Vec<u64>,
    pub ggml_type: GgmlType,
    pub offset: u64,
}

/// A tensor descriptor as a mathematical value.
pub struct TensorView {
    pub name: Seq<char>,
    pub dims: Seq<u64>,
    pub ggml_type: GgmlType,
    pub offset: u64,
}

impl TensorView {
    /// Elements of the tensor.
    pub open spec fn n_elements(self) -> nat {
        product(self.dims)
    }

    /// Bytes of the tensor.
    pub open spec fn nbytes(self) -> nat {
        self.ggml_type.spec_nbytes(self.n_elements())
    }
}

impl View for GgufTensorInfo {
    type V = TensorView;

    open spec fn view(&self) -> TensorView {
        TensorView {
            name: self.name@,
            dims: self.dims@,
            ggml_type: self.ggml_type,
            offset: self.offset,
        }
    }
}

/// The elements of a tensor whose leading dimensions are `head`, once one
/// more dimension follows.
proof fn lemma_product_step(dims: Seq<u64>, i: int)
    requires
        0 <= i < dims.len(),
    ensures
        product(dims.take(i + 1)) == product(dims.take(i)) * (dims[i] as nat),
{
    assert(dims.take(i + 1).drop_last() == dims.take(i));
}

/// A zero among the dimensions leaves no elements.
proof fn lemma_product_zero(dims: Seq<u64>, i: int)
    requires
        0 <= i < dims.len(),
        dims[i] == 0,
    ensures
        product(dims) == 0,
    decreases dims.len(),
{
    if i == dims.len() - 1 {
        assert(product(dims.drop_last()) * 0 == 0) by (nonlinear_arith);
    } else {
        lemma_product_zero(dims.drop_last(), i);
        assert(0 * (dims.last() as nat) == 0) by (nonlinear_arith);
    }
}

/// Without a zero among them, more dimensions never mean fewer elements.
proof fn lemma_product_grows(dims: Seq<u64>, i: int)
    requires
        0 <= i <= dims.len(),
        forall|k: int| 0 <= k < dims.len() ==> dims[k] != 0,
    ensures
        product(dims.take(i)) <= product(dims),
    decreases dims.len() - i,
{
    if i == dims.len() {
        assert(dims.take(i) == dims);
    } else {
        lemma_product_grows(dims, i + 1);
        lemma_product_step(dims, i);
        let p = product(dims.take(i));
        let d = dims[i] as nat;
        assert(p <= p * d) by (nonlinear_arith)
            requires
                d >= 1,
        ;
    }
}

impl GgufTensorInfo {
    /// Elements of the tensor, or nothing where no `u64` can hold the number.
    pub fn checked_n_elements(&self) -> (r: Option<u64>)
        ensures
            match r {
                Some(n) => n == self@.n_elements(),
                None => self@.n_elements() > u64::MAX,
            },
    {
        let mut i: usize = 0;
        while i < self.dims.len()
            invariant
                i <= self.dims@.len(),
                forall|k: int| 0 <= k < i ==> self.dims@[k] != 0,
            decreases self.dims@.len() - i,
        {
            if self.dims[i] == 0 {
                proof {
                    lemma_product_zero(self.dims@, i as int);
                }
                return Some(0);
            }
            i = i + 1;
        }
        let mut n: u64 = 1;
        i = 0;
        while i < self.dims.len()
            invariant
                i <= self.dims@.len(),
                n == product(self.dims@.take(i as int)),
                forall|k: int| 0 <= k < self.dims@.len() ==> self.dims@[k] != 0,
            decreases self.dims@.len() - i,
        {
            proof {
                lemma_product_step(self.dims@, i as int);
            }
            match n.checked_mul(self.dims[i]) {
                Some(m) => {
                    n = m;
                },
                None => {
                    proof {
                        lemma_product_grows(self.dims@, i as int + 1);
                    }
                    return None;
                },
            }
            i = i + 1;
        }
        proof {
            assert(self.dims@.take(self.dims@.len() as int) == self.dims@);
        }
        Some(n)
    }

    /// Bytes of the tensor, or nothing where no `u64` can hold the number.
    pub fn checked_nbytes(&self) -> (r: Option<u64>)
        ensures
            match r {
                Some(n) => n == self@.nbytes() && self@.n_elements() <= u64::MAX,
                None => self@.nbytes() > u64::MAX || self@.n_elements() > u64::MAX,
            },
    {
        match self.checked_n_elements() {
            Some(n) => self.ggml_type.checked_nbytes(n),
            None => None,
        }
    }

    /// Elements of the tensor.
    pub fn n_elements(&self) -> (r: u64)
        requires
            self@.n_elements() <= u64::MAX,
        ensures
            r == self@.n_elements(),
    {
        match self.checked_n_elements() {
            Some(n) => n,
            None => 0,
        }
    }

    /// Bytes of the tensor.
    pub fn nbytes(&self) -> (r: u64)
        requires
            self@.n_elements() <= u64::MAX,
            self@.nbytes() <= u64::MAX,
        ensures
            r == self@.nbytes(),
    {
        match self.checked_nbytes() {
            Some(n) => n,
            None => 0,
        }
    }
}

/// A quotient rounded up is the least number of parts that hold everything.
pub proof fn law_least_parts(a: nat, b: nat)
    requires
        b > 0,
    ensures
        div_ceil(a, b) * b >= a,
        a > 0 ==> (div_ceil(a, b) - 1) * b < a,
        a == 0 ==> div_ceil(a, b) == 0,
{
    vstd::arithmetic::div_mod::lemma_fundamental_div_mod(a as int, b as int);
    let q = a as int / b as int;
    assert(q * b == b * q) by (nonlinear_arith);
    assert((q + 1) * b == b * q + b) by (nonlinear_arith);
    assert((q - 1) * b == b * q - b) by (nonlinear_arith);
}

/// The elements of a tensor are the product of its sides.
pub proof fn law_sides_multiply(a: u64, b: u64, c: u64, d: u64)
    ensures
        product(Seq::<u64>::empty()) == 1,
        product(seq![a]) == a,
        product(seq![a, b]) == a * b,
        product(seq![a, b, c]) == a * b * c,
        product(seq![a, b, c, d]) == a * b * c * d,
{
    reveal_with_fuel(product, 2);
    assert(seq![a].drop_last() =~= Seq::<u64>::empty());
    assert(seq![a, b].drop_last() =~= seq![a]);
    assert(seq![a, b, c].drop_last() =~= seq![a, b]);
    assert(seq![a, b, c, d].drop_last() =~= seq![a, b, c]);
    assert(1 * (a as nat) == a);
    assert(product(seq![a]) == a);
    assert(product(seq![a, b]) == a * b);
    assert(product(seq![a, b, c]) == product(seq![a, b]) * c);
    assert(product(seq![a, b, c, d]) == product(seq![a, b, c]) * d);
}

/// The bytes of a block are those of its numbers, packed, and those of its scales: two
/// for each half precision number, and what the finer scales of a large block take.
pub proof fn law_block_bytes(t: GgmlType)
    ensures
        ({
            let n = t.spec_block_size();
            let size = t.spec_type_size();
            &&& t == GgmlType::Q4_0 ==> n == 32 && size == 2 + n * 4 / 8
            &&& t == GgmlType::Q4_1 ==> n == 32 && size == 2 + 2 + n * 4 / 8
            &&& t == GgmlType::Q5_0 ==> n == 32 && size == 2 + n * 5 / 8
            &&& t == GgmlType::Q5_1 ==> n == 32 && size == 2 + 2 + n * 5 / 8
            &&& t == GgmlType::Q8_0 ==> n == 32 && size == 2 + n
            &&& t == GgmlType::Q8_1 ==> n == 32 && size == 2 + 2 + n
            &&& t == GgmlType::Q2_K ==> n == 256 && size == 2 + 2 + n / 16 + n * 2 / 8
            &&& t == GgmlType::Q3_K ==> n == 256 && size == 2 + 12 + n * 3 / 8
            &&& t == GgmlType::Q4_K ==> n == 256 && size == 2 + 2 + 12 + n * 4 / 8
            &&& t == GgmlType::Q5_K ==> n == 256 && size == 2 + 2 + 12 + n * 5 / 8
            &&& t == GgmlType::Q6_K ==> n == 256 && size == 2 + n / 16 + n * 6 / 8
            &&& t == GgmlType::Q8_K ==> n == 256 && size == 4 + n + 2 * (n / 16)
            &&& (t == GgmlType::F32 || t == GgmlType::I32) ==> n == 1 && size == 4
            &&& (t == GgmlType::F16 || t == GgmlType::Bf16 || t == GgmlType::I16) ==> n == 1 && size
                == 2
            &&& (t == GgmlType::F64 || t == GgmlType::I64) ==> n == 1 && size == 8
            &&& t == GgmlType::I8 ==> n == 1 && size == 1
        }),
{
}

/// Whole blocks take their bytes each, one more element takes one more block.
pub proof fn law_nbytes_of_blocks(t: GgmlType, k: nat)
    ensures
        t.spec_nbytes(k * t.spec_block_size()) == k * t.spec_type_size(),
        t.spec_nbytes(k * t.spec_block_size() + 1) == (k + 1) * t.spec_type_size(),
{
    let b = t.spec_block_size();
    assert(b > 0);
    vstd::arithmetic::div_mod::lemma_div_multiples_vanish(k as int, b as int);
    vstd::arithmetic::div_mod::lemma_mod_multiples_basic(k as int, b as int);
    assert(k * b == b * k) by (nonlinear_arith);
    if b == 1 {
        assert(k * b + 1 == k + 1);
        assert((k + 1) as int % 1 == 0 && (k + 1) as int / 1 == k + 1);
    } else {
        vstd::arithmetic::div_mod::lemma_fundamental_div_mod_converse(
            (k * b + 1) as int,
            b as int,
            k as int,
            1,
        );
    }
}

} // verus!
