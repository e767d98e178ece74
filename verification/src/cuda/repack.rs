//! Bytes of quantized matrices: unpacked, converted, and laid out anew.
use crate::quant::{
    exp16, exp32, f16_to_f32, f32_to_f16, f32_to_f16_bits_fast, frac16, make32, narrowed,
    narrowed_fast, sign16, sign32, size32, widened_fast, widens,
};
use crate::text::{decimal, push_decimal};
use vstd::arithmetic::power2::pow2;
use vstd::prelude::*;

verus! {

/// Parts, one after the other.
pub open spec fn joined(n: nat, part: spec_fn(int) -> Seq<u8>) -> Seq<u8>
    decreases n,
{
    if n == 0 {
        Seq::empty()
    } else {
        joined((n - 1) as nat, part) + part(n - 1)
    }
}

/// Parts of the same length lie where their place says.
pub proof fn law_joined_place(n: nat, part: spec_fn(int) -> Seq<u8>, size: nat, k: int)
    requires
        0 <= k < n,
        forall|i: int| 0 <= i < n ==> (#[trigger] part(i)).len() == size,
    ensures
        joined(n, part).len() == n * size,
        joined(n, part).subrange(k * size, k * size + size) == part(k),
        0 <= k * size,
        k * size + size <= n * size,
    decreases n,
{
    lemma_joined_len(n, part, size);
    lemma_joined_len((n - 1) as nat, part, size);
    let before = joined((n - 1) as nat, part);
    assert(k * size + size <= n * size && 0 <= k * size) by (nonlinear_arith)
        requires
            0 <= k,
            k + 1 <= n,
            size >= 0,
    ;
    if k == n - 1 {
        assert(joined(n, part).subrange(k * size, k * size + size) =~= part(k));
    } else {
        law_joined_place((n - 1) as nat, part, size, k);
        assert(joined(n, part).subrange(k * size, k * size + size) =~= before.subrange(
            k * size,
            k * size + size,
        ));
    }
}

/// The length of parts of the same length.
proof fn lemma_joined_len(n: nat, part: spec_fn(int) -> Seq<u8>, size: nat)
    requires
        forall|i: int| 0 <= i < n ==> (#[trigger] part(i)).len() == size,
    ensures
        joined(n, part).len() == n * size,
    decreases n,
{
    if n > 0 {
        lemma_joined_len((n - 1) as nat, part, size);
        assert((n - 1) * size + size == n * size) by (nonlinear_arith);
    } else {
        assert(0 * size == 0) by (nonlinear_arith);
    }
}

/// Why bytes cannot be converted.
#[derive(Clone, Copy, PartialEq, Eq, Debug, Structural)]
pub enum RepackError {
    Q5KLength { len: usize },
    Q51Length { len: usize },
    BlockMajorSize,
    HalfSize { got: usize, want: usize },
    AlignSize { got: usize, want: usize },
}

impl RepackError {
    /// The sentence that tells the error.
    pub open spec fn sentence(self) -> Seq<char> {
        match self {
            RepackError::Q5KLength { len } => "invalid Q5_K tensor byte length "@ + decimal(
                len as nat,
            ),
            RepackError::Q51Length { len } => "invalid Q5_1 tensor byte length "@ + decimal(
                len as nat,
            ),
            RepackError::BlockMajorSize => "q4 bm size mismatch"@,
            RepackError::HalfSize { got, want } => "q4→f16 size mismatch: got "@ + decimal(
                got as nat,
            ) + " want "@ + decimal(want as nat),
            RepackError::AlignSize { got, want } => "q4 repack size mismatch: got "@ + decimal(
                got as nat,
            ) + " want "@ + decimal(want as nat),
        }
    }

    /// The sentence that tells the error.
    pub fn message(self) -> (r: String)
        ensures
            r@ == self.sentence(),
    {
        let mut out: String = String::new();
        match self {
            RepackError::Q5KLength { len } => {
                out.append("invalid Q5_K tensor byte length ");
                push_decimal(&mut out, len as u64);
            },
            RepackError::Q51Length { len } => {
                out.append("invalid Q5_1 tensor byte length ");
                push_decimal(&mut out, len as u64);
            },
            RepackError::BlockMajorSize => {
                out.append("q4 bm size mismatch");
            },
            RepackError::HalfSize { got, want } => {
                out.append("q4→f16 size mismatch: got ");
                push_decimal(&mut out, got as u64);
                out.append(" want ");
                push_decimal(&mut out, want as u64);
            },
            RepackError::AlignSize { got, want } => {
                out.append("q4 repack size mismatch: got ");
                push_decimal(&mut out, got as u64);
                out.append(" want ");
                push_decimal(&mut out, want as u64);
            },
        }
        proof {
            assert(out@ == self.sentence());
        }
        out
    }
}

/// A half precision number in two bytes, the low one first.
pub open spec fn half_at(s: Seq<u8>, i: int) -> u16 {
    (s[i] + 256 * s[i + 1]) as u16
}

/// A half precision number in two bytes, the low one first.
fn read_half(s: &[u8], i: usize) -> (r: u16)
    requires
        i + 1 < s@.len(),
    ensures
        r == half_at(s@, i as int),
{
    s[i] as u16 + 256 * s[i + 1] as u16
}

/// Two to the power `j` below 256.
pub open spec fn bit_value(j: int) -> int {
    if j == 0 {
        1
    } else if j == 1 {
        2
    } else if j == 2 {
        4
    } else if j == 3 {
        8
    } else if j == 4 {
        16
    } else if j == 5 {
        32
    } else if j == 6 {
        64
    } else {
        128
    }
}

/// Bit `j` of a byte.
pub open spec fn bit_of(b: u8, j: int) -> bool {
    (b as int / bit_value(j)) % 2 == 1
}

/// Bit `j` of a byte.
fn has_bit(b: u8, j: usize) -> (r: bool)
    requires
        j < 8,
    ensures
        r == bit_of(b, j as int),
{
    let v: u8 = match j {
        0 => 1,
        1 => 2,
        2 => 4,
        3 => 8,
        4 => 16,
        5 => 32,
        6 => 64,
        _ => 128,
    };
    (b / v) % 2 == 1
}

/// Four bits of a byte and a fifth one above them.
pub open spec fn five_bits(b: u8, upper: bool, fifth: bool) -> int {
    (if upper {
        b as int / 16
    } else {
        b as int % 16
    }) + (if fifth {
        16int
    } else {
        0
    })
}

/// Four bits of a byte and a fifth one above them.
fn join_five(b: u8, upper: bool, fifth: bool) -> (r: u8)
    ensures
        r == five_bits(b, upper, fifth),
        r < 32,
{
    let low: u8 = if upper {
        b / 16
    } else {
        b % 16
    };
    if fifth {
        low + 16
    } else {
        low
    }
}

/// Bytes of a Q5_K block of 256 numbers.
pub const Q5_K_BLOCK_BYTES: usize = 176;

/// Bytes of a Q8_0 block of 32 numbers.
pub const Q8_0_BLOCK_BYTES: usize = 34;

/// Bytes of a Q5_1 block of 32 numbers.
pub const Q5_1_BLOCK_BYTES: usize = 24;

/// The six bits of the scale and of the offset of group `j`: the first four
/// groups have theirs in the low bits of a byte, the others in the low and high
/// four bits of one byte with the two highest bits of others.
pub open spec fn scale_min_of(s: Seq<u8>, j: int) -> (int, int) {
    if j < 4 {
        (s[j] as int % 64, s[j + 4] as int % 64)
    } else {
        (
            s[j + 4] as int % 16 + s[j - 4] as int / 64 * 16,
            s[j + 4] as int / 16 + s[j] as int / 64 * 16,
        )
    }
}

/// The scale and the offset of group `j`.
pub fn q5_k_scale_min(scales: &[u8], j: usize) -> (r: (u8, u8))
    requires
        scales@.len() >= 12,
        j < 8,
    ensures
        r.0 == scale_min_of(scales@, j as int).0,
        r.1 == scale_min_of(scales@, j as int).1,
        r.0 < 64,
        r.1 < 64,
{
    if j < 4 {
        (scales[j] % 64, scales[j + 4] % 64)
    } else {
        (
            scales[j + 4] % 16 + scales[j - 4] / 64 * 16,
            scales[j + 4] / 16 + scales[j] / 64 * 16,
        )
    }
}

/// One number of a Q5_K block: its five bits, and the scale and offset of its
/// group. The number is `d * scale * q - dmin * offset`.
#[derive(Clone, Copy, PartialEq, Eq, Debug, Structural)]
pub struct Q5KValue {
    pub scale: u8,
    pub offset: u8,
    pub q: u8,
}

/// A Q5_K block: the two common factors as single precision bits, and its
/// numbers.
#[derive(Debug)]
pub struct Q5KBlock {
    pub d: u32,
    pub dmin: u32,
    pub values: Vec<Q5KValue>,
}

/// Number `i` of a Q5_K block: groups of 32, two groups to 32 bytes, the first
/// one in the low four bits; the fifth bits of group `j` are the bits `j` of 32
/// other bytes.
pub open spec fn q5_k_value(b: Seq<u8>, i: int) -> Q5KValue {
    let j = i / 32;
    let l = i % 32;
    let (scale, offset) = scale_min_of(b.subrange(4, 16), j);
    Q5KValue {
        scale: scale as u8,
        offset: offset as u8,
        q: five_bits(b[48 + j / 2 * 32 + l], j % 2 == 1, bit_of(b[16 + l], j)) as u8,
    }
}

impl Q5KBlock {
    /// What the bytes of a block mean.
    pub open spec fn is_of(self, b: Seq<u8>) -> bool {
        &&& widens(half_at(b, 0), self.d)
        &&& widens(half_at(b, 2), self.dmin)
        &&& self.values@ == Seq::new(256, |i: int| q5_k_value(b, i))
    }
}

/// Unpacks a Q5_K block.
pub fn q5_k_block(b: &[u8]) -> (r: Q5KBlock)
    requires
        b@.len() == Q5_K_BLOCK_BYTES,
    ensures
        r.is_of(b@),
{
    let d: u32 = f16_to_f32(read_half(b, 0));
    let dmin: u32 = f16_to_f32(read_half(b, 2));
    let scales: &[u8] = vstd::slice::slice_subrange(b, 4, 16);
    let mut values: Vec<Q5KValue> = Vec::new();
    let mut i: usize = 0;
    while i < 256
        invariant
            i <= 256,
            b@.len() == Q5_K_BLOCK_BYTES,
            scales@ == b@.subrange(4, 16),
            values@ == Seq::new(i as nat, |k: int| q5_k_value(b@, k)),
        decreases 256 - i,
    {
        let j: usize = i / 32;
        let l: usize = i % 32;
        let sm: (u8, u8) = q5_k_scale_min(scales, j);
        let q: u8 = join_five(b[48 + j / 2 * 32 + l], j % 2 == 1, has_bit(b[16 + l], j));
        values.push(Q5KValue { scale: sm.0, offset: sm.1, q });
        i = i + 1;
        proof {
            assert(values@ =~= Seq::new(i as nat, |k: int| q5_k_value(b@, k)));
        }
    }
    Q5KBlock { d, dmin, values }
}

/// The eight bits of a byte that is put together from them.
proof fn lemma_bits_of(b: u8, x: Seq<int>)
    requires
        x.len() == 8,
        forall|j: int| 0 <= j < 8 ==> 0 <= #[trigger] x[j] <= 1,
        b == x[0] + 2 * x[1] + 4 * x[2] + 8 * x[3] + 16 * x[4] + 32 * x[5] + 64 * x[6] + 128
            * x[7],
    ensures
        forall|j: int| 0 <= j < 8 ==> #[trigger] bit_of(b, j) == (x[j] == 1),
{
    let v = b as int;
    assert forall|j: int| 0 <= j < 8 implies #[trigger] bit_of(b, j) == (x[j] == 1) by {
        assert(x[0] >= 0 && x[1] >= 0 && x[2] >= 0 && x[3] >= 0);
        assert(x[4] >= 0 && x[5] >= 0 && x[6] >= 0 && x[7] >= 0);
        if j == 0 {
            assert(v / 1 == v);
        } else if j == 1 {
            assert(v / 2 == x[1] + 2 * (x[2] + 2 * x[3] + 4 * x[4] + 8 * x[5] + 16 * x[6] + 32
                * x[7]));
        } else if j == 2 {
            assert(v / 4 == x[2] + 2 * (x[3] + 2 * x[4] + 4 * x[5] + 8 * x[6] + 16 * x[7]));
        } else if j == 3 {
            assert(v / 8 == x[3] + 2 * (x[4] + 2 * x[5] + 4 * x[6] + 8 * x[7]));
        } else if j == 4 {
            assert(v / 16 == x[4] + 2 * (x[5] + 2 * x[6] + 4 * x[7]));
        } else if j == 5 {
            assert(v / 32 == x[5] + 2 * (x[6] + 2 * x[7]));
        } else if j == 6 {
            assert(v / 64 == x[6] + 2 * x[7]);
        } else {
            assert(v / 128 == x[7]);
        }
    }
}

/// The numbers that are packed in a Q5_K block.
pub struct Q5KPacked {
    /// The two common factors, in half precision.
    pub d: u16,
    pub dmin: u16,
    /// Scales and offsets of the eight groups, six bits each.
    pub scales: Seq<int>,
    pub offsets: Seq<int>,
    /// The 256 numbers, five bits each.
    pub q: Seq<int>,
}

impl Q5KPacked {
    /// As many numbers as there are, of so many bits.
    pub open spec fn fits(self) -> bool {
        &&& self.scales.len() == 8 && self.offsets.len() == 8 && self.q.len() == 256
        &&& forall|j: int| 0 <= j < 8 ==> 0 <= #[trigger] self.scales[j] < 64
        &&& forall|j: int| 0 <= j < 8 ==> 0 <= #[trigger] self.offsets[j] < 64
        &&& forall|i: int| 0 <= i < 256 ==> 0 <= #[trigger] self.q[i] < 32
    }

    /// The scales and offsets of groups `j` and `j + 4` share three bytes.
    pub open spec fn packs_scales(self, b: Seq<u8>, j: int) -> bool {
        &&& b[4 + j] == self.scales[j] + self.scales[j + 4] / 16 * 64
        &&& b[8 + j] == self.offsets[j] + self.offsets[j + 4] / 16 * 64
        &&& b[12 + j] == self.scales[j + 4] % 16 + self.offsets[j + 4] % 16 * 16
    }

    /// The fifth bits of the numbers `l` of the eight groups share a byte.
    pub open spec fn packs_fifth(self, b: Seq<u8>, l: int) -> bool {
        b[16 + l] == self.q[l] / 16 + 2 * (self.q[32 + l] / 16) + 4 * (self.q[64 + l] / 16) + 8 * (
        self.q[96 + l] / 16) + 16 * (self.q[128 + l] / 16) + 32 * (self.q[160 + l] / 16) + 64 * (
        self.q[192 + l] / 16) + 128 * (self.q[224 + l] / 16)
    }

    /// The low four bits of the numbers `l` of two groups share a byte.
    pub open spec fn packs_low(self, b: Seq<u8>, l: int) -> bool {
        &&& packs_two(self.q[l], self.q[32 + l], b[48 + l])
        &&& packs_two(self.q[64 + l], self.q[96 + l], b[80 + l])
        &&& packs_two(self.q[128 + l], self.q[160 + l], b[112 + l])
        &&& packs_two(self.q[192 + l], self.q[224 + l], b[144 + l])
    }

    /// Whether these bytes are the numbers, packed.
    pub open spec fn packs_to(self, b: Seq<u8>) -> bool {
        &&& b.len() == 176
        &&& b[0] == self.d % 256 && b[1] == self.d / 256
        &&& b[2] == self.dmin % 256 && b[3] == self.dmin / 256
        &&& forall|j: int| 0 <= j < 4 ==> #[trigger] self.packs_scales(b, j)
        &&& forall|l: int| 0 <= l < 32 ==> #[trigger] self.packs_fifth(b, l)
        &&& forall|l: int| 0 <= l < 32 ==> #[trigger] self.packs_low(b, l)
    }
}

/// Two numbers of four bits in a byte come out again.
proof fn lemma_two_of(b: u8, low: int, high: int)
    requires
        packs_two(low, high, b),
    ensures
        b as int % 16 == low % 16,
        b as int / 16 == high % 16,
{
}

/// A number of five bits is put together from its low four and its fifth.
proof fn lemma_five_of(b: u8, upper: bool, fifth: bool, q: int)
    requires
        0 <= q < 32,
        (if upper {
            b as int / 16
        } else {
            b as int % 16
        }) == q % 16,
        fifth == (q / 16 == 1),
    ensures
        five_bits(b, upper, fifth) == q,
{
}

/// The bit of a group in the byte that holds the fifth bits.
proof fn lemma_q5_k_fifth(p: Q5KPacked, b: Seq<u8>, j: int, l: int)
    requires
        p.fits(),
        0 <= j < 8,
        0 <= l < 32,
        p.packs_fifth(b, l),
    ensures
        bit_of(b[16 + l], j) == (p.q[32 * j + l] / 16 == 1),
{
    let x = seq![
        p.q[l] / 16, p.q[32 + l] / 16, p.q[64 + l] / 16, p.q[96 + l] / 16, p.q[128 + l] / 16,
        p.q[160 + l] / 16, p.q[192 + l] / 16, p.q[224 + l] / 16,
    ];
    assert forall|t: int| 0 <= t < 8 implies 0 <= #[trigger] x[t] <= 1 && x[t] == p.q[32 * t + l]
        / 16 by {
        assert(0 <= p.q[32 * t + l] < 32);
    }
    lemma_bits_of(b[16 + l], x);
    assert(x[j] == p.q[32 * j + l] / 16);
}

/// The byte of the low four bits of a group.
proof fn lemma_q5_k_low(p: Q5KPacked, b: Seq<u8>, j: int, l: int)
    requires
        0 <= j < 8,
        0 <= l < 32,
        p.packs_low(b, l),
    ensures
        (if j % 2 == 1 {
            b[48 + j / 2 * 32 + l] as int / 16
        } else {
            b[48 + j / 2 * 32 + l] as int % 16
        }) == p.q[32 * j + l] % 16,
{
    lemma_two_of(b[48 + l], p.q[l], p.q[32 + l]);
    lemma_two_of(b[80 + l], p.q[64 + l], p.q[96 + l]);
    lemma_two_of(b[112 + l], p.q[128 + l], p.q[160 + l]);
    lemma_two_of(b[144 + l], p.q[192 + l], p.q[224 + l]);
}

/// The five bits of a number come out again.
proof fn lemma_q5_k_bits(p: Q5KPacked, b: Seq<u8>, j: int, l: int)
    requires
        p.fits(),
        0 <= j < 8,
        0 <= l < 32,
        p.packs_fifth(b, l),
        p.packs_low(b, l),
    ensures
        five_bits(b[48 + j / 2 * 32 + l], j % 2 == 1, bit_of(b[16 + l], j)) == p.q[32 * j + l],
{
    lemma_q5_k_fifth(p, b, j, l);
    lemma_q5_k_low(p, b, j, l);
    assert(0 <= p.q[32 * j + l] < 32);
    lemma_five_of(
        b[48 + j / 2 * 32 + l],
        j % 2 == 1,
        bit_of(b[16 + l], j),
        p.q[32 * j + l],
    );
}

/// The scale and the offset of a group come out again.
proof fn lemma_q5_k_scales(p: Q5KPacked, b: Seq<u8>, j: int, k: int)
    requires
        p.fits(),
        b.len() == 176,
        0 <= k < 4,
        j == k || j == k + 4,
        p.packs_scales(b, k),
    ensures
        scale_min_of(b.subrange(4, 16), j) == (p.scales[j], p.offsets[j]),
{
    let s = b.subrange(4, 16);
    assert(s[k] == b[4 + k] && s[k + 4] == b[8 + k] && s[k + 8] == b[12 + k]);
    let (a, c) = (p.scales[k], p.scales[k + 4]);
    let (m, n) = (p.offsets[k], p.offsets[k + 4]);
    assert(0 <= a < 64 && 0 <= c < 64 && 0 <= m < 64 && 0 <= n < 64);
    let (x, y, z) = (s[k] as int, s[k + 4] as int, s[k + 8] as int);
    assert(x == a + c / 16 * 64 && y == m + n / 16 * 64 && z == c % 16 + n % 16 * 16);
    if j == k {
        assert(x % 64 == a && y % 64 == m);
    } else {
        assert(x / 64 == c / 16 && y / 64 == n / 16);
        assert(z % 16 == c % 16 && z / 16 == n % 16);
    }
}

/// Unpacking undoes packing: whatever numbers are packed in a Q5_K block, its
/// factors, scales, offsets and all of its 256 numbers come out again.
pub proof fn law_q5_k_unpacks(p: Q5KPacked, b: Seq<u8>, block: Q5KBlock, i: int)
    requires
        p.fits(),
        p.packs_to(b),
        block.is_of(b),
        0 <= i < 256,
    ensures
        widens(p.d, block.d),
        widens(p.dmin, block.dmin),
        block.values@.len() == 256,
        block.values@[i].q == p.q[i],
        block.values@[i].scale == p.scales[i / 32],
        block.values@[i].offset == p.offsets[i / 32],
{
    assert(half_at(b, 0) == p.d && half_at(b, 2) == p.dmin);
    let (j, l) = (i / 32, i % 32);
    let k = if j < 4 {
        j
    } else {
        j - 4
    };
    assert(p.packs_fifth(b, l) && p.packs_low(b, l) && p.packs_scales(b, k));
    lemma_q5_k_bits(p, b, j, l);
    lemma_q5_k_scales(p, b, j, k);
    assert(32 * j + l == i);
    assert(0 <= p.q[i] < 32 && 0 <= p.scales[j] < 64 && 0 <= p.offsets[j] < 64);
    assert(block.values@[i] == q5_k_value(b, i));
}

/// Block `k` of blocks of `size` bytes.
pub open spec fn block_at(raw: Seq<u8>, size: int, k: int) -> Seq<u8> {
    raw.subrange(k * size, k * size + size)
}

/// Unpacks Q5_K blocks, one after the other.
pub fn q5_k_blocks(raw: &[u8]) -> (r: Result<Vec<Q5KBlock>, RepackError>)
    ensures
        match r {
            Ok(v) => {
                &&& raw@.len() % 176 == 0
                &&& v@.len() == raw@.len() / 176
                &&& forall|k: int|
                    0 <= k < v@.len() ==> (#[trigger] v@[k]).is_of(block_at(raw@, 176, k))
            },
            Err(e) => raw@.len() % 176 != 0 && e == (RepackError::Q5KLength {
                len: raw@.len() as usize,
            }),
        },
{
    let n: usize = raw.len();
    if n % Q5_K_BLOCK_BYTES != 0 {
        return Err(RepackError::Q5KLength { len: n });
    }
    let mut out: Vec<Q5KBlock> = Vec::new();
    let mut k: usize = 0;
    while k < n / Q5_K_BLOCK_BYTES
        invariant
            n == raw@.len(),
            n % 176 == 0,
            k <= n / 176,
            out@.len() == k,
            forall|i: int| 0 <= i < k ==> (#[trigger] out@[i]).is_of(block_at(raw@, 176, i)),
        decreases n / 176 - k,
    {
        let at: usize = k * Q5_K_BLOCK_BYTES;
        out.push(q5_k_block(vstd::slice::slice_subrange(raw, at, at + Q5_K_BLOCK_BYTES)));
        k = k + 1;
    }
    Ok(out)
}

/// A Q5_1 block: the factor and the offset as single precision bits, and the
/// five bits of its numbers. A number is `d * q + min`.
#[derive(Debug)]
pub struct Q51Block {
    pub d: u32,
    pub min: u32,
    pub q: Vec<u8>,
}

/// Number `i` of a Q5_1 block: the first 16 in the low four bits of 16 bytes,
/// the others in the high ones; the fifth bits are 32 bits in a row.
pub open spec fn q5_1_value(b: Seq<u8>, i: int) -> u8 {
    five_bits(b[8 + i % 16], i >= 16, bit_of(b[4 + i / 8], i % 8)) as u8
}

impl Q51Block {
    /// What the bytes of a block mean.
    pub open spec fn is_of(self, b: Seq<u8>) -> bool {
        &&& widens(half_at(b, 0), self.d)
        &&& widens(half_at(b, 2), self.min)
        &&& self.q@ == Seq::new(32, |i: int| q5_1_value(b, i))
    }
}

/// Unpacks a Q5_1 block.
pub fn q5_1_block(b: &[u8]) -> (r: Q51Block)
    requires
        b@.len() == Q5_1_BLOCK_BYTES,
    ensures
        r.is_of(b@),
{
    let d: u32 = f16_to_f32(read_half(b, 0));
    let min: u32 = f16_to_f32(read_half(b, 2));
    let mut q: Vec<u8> = Vec::new();
    let mut i: usize = 0;
    while i < 32
        invariant
            i <= 32,
            b@.len() == Q5_1_BLOCK_BYTES,
            q@ == Seq::new(i as nat, |k: int| q5_1_value(b@, k)),
        decreases 32 - i,
    {
        q.push(join_five(b[8 + i % 16], i >= 16, has_bit(b[4 + i / 8], i % 8)));
        i = i + 1;
        proof {
            assert(q@ =~= Seq::new(i as nat, |k: int| q5_1_value(b@, k)));
        }
    }
    Q51Block { d, min, q }
}

/// The fifth bits of eight numbers in a row share a byte.
#[verifier::opaque]
pub open spec fn packs_eight(q: Seq<int>, b: u8, at: int) -> bool {
    b == q[at] / 16 + 2 * (q[at + 1] / 16) + 4 * (q[at + 2] / 16) + 8 * (q[at + 3] / 16) + 16 * (q[at
        + 4] / 16) + 32 * (q[at + 5] / 16) + 64 * (q[at + 6] / 16) + 128 * (q[at + 7] / 16)
}

/// The low four bits of two numbers share a byte.
pub open spec fn packs_two(low: int, high: int, b: u8) -> bool {
    b == low % 16 + 16 * (high % 16)
}

/// Unpacking undoes packing: whatever numbers are packed in a Q5_1 block, its
/// factor, its offset and all of its 32 numbers come out again.
pub proof fn law_q5_1_unpacks(d: u16, min: u16, q: Seq<int>, b: Seq<u8>, block: Q51Block, i: int)
    requires
        q.len() == 32,
        forall|k: int| 0 <= k < 32 ==> 0 <= #[trigger] q[k] < 32,
        b.len() == 24,
        b[0] == d % 256 && b[1] == d / 256,
        b[2] == min % 256 && b[3] == min / 256,
        packs_eight(q, b[4], 0),
        packs_eight(q, b[5], 8),
        packs_eight(q, b[6], 16),
        packs_eight(q, b[7], 24),
        forall|k: int| 0 <= k < 16 ==> #[trigger] packs_two(q[k], q[k + 16], b[k + 8]),
        block.is_of(b),
        0 <= i < 32,
    ensures
        widens(d, block.d),
        widens(min, block.min),
        block.q@.len() == 32,
        block.q@[i] == q[i],
{
    assert(half_at(b, 0) == d && half_at(b, 2) == min);
    let (m, t) = (i / 8, i % 8);
    let k = if i < 16 {
        i
    } else {
        i - 16
    };
    if m == 0 {
    } else if m == 1 {
    } else if m == 2 {
    } else {
        assert(m == 3);
    }
    assert(packs_eight(q, b[4 + m], 8 * m));
    assert(packs_two(q[k], q[k + 16], b[k + 8]));
    lemma_q5_1_bits(q, b, i, m, t, k);
    assert(block.q@[i] == q5_1_value(b, i));
}

/// The five bits of a number come out again.
proof fn lemma_q5_1_bits(q: Seq<int>, b: Seq<u8>, i: int, m: int, t: int, k: int)
    requires
        q.len() == 32,
        forall|k: int| 0 <= k < 32 ==> 0 <= #[trigger] q[k] < 32,
        0 <= m < 4,
        0 <= t < 8,
        0 <= k < 16,
        i == 8 * m + t,
        i == (if i >= 16 {
            k + 16
        } else {
            k
        }),
        packs_eight(q, b[4 + m], 8 * m),
        packs_two(q[k], q[k + 16], b[8 + k]),
    ensures
        five_bits(b[8 + i % 16], i >= 16, bit_of(b[4 + i / 8], i % 8)) == q[i],
        0 <= q[i] < 32,
{
    lemma_eight_of(q, b[4 + m], 8 * m, t);
    lemma_two_of(b[8 + k], q[k], q[k + 16]);
    assert(0 <= q[i] < 32);
    lemma_five_of(b[8 + k], i >= 16, bit_of(b[4 + m], t), q[i]);
}

/// The fifth bits of eight numbers in a row come out again.
proof fn lemma_eight_of(q: Seq<int>, b: u8, at: int, t: int)
    requires
        forall|k: int| 0 <= k < q.len() ==> 0 <= #[trigger] q[k] < 32,
        0 <= at,
        at + 8 <= q.len(),
        0 <= t < 8,
        packs_eight(q, b, at),
    ensures
        bit_of(b, t) == (q[at + t] / 16 == 1),
{
    reveal(packs_eight);
    let x = seq![
        q[at] / 16, q[at + 1] / 16, q[at + 2] / 16, q[at + 3] / 16, q[at + 4] / 16, q[at + 5] / 16,
        q[at + 6] / 16, q[at + 7] / 16,
    ];
    assert forall|u: int| 0 <= u < 8 implies 0 <= #[trigger] x[u] <= 1 && x[u] == q[at + u] / 16 by {
        assert(0 <= q[at + u] < 32);
    }
    lemma_bits_of(b, x);
    assert(x[t] == q[at + t] / 16);
}

/// Unpacks Q5_1 blocks, one after the other.
pub fn q5_1_blocks(raw: &[u8]) -> (r: Result<Vec<Q51Block>, RepackError>)
    ensures
        match r {
            Ok(v) => {
                &&& raw@.len() % 24 == 0
                &&& v@.len() == raw@.len() / 24
                &&& forall|k: int|
                    0 <= k < v@.len() ==> (#[trigger] v@[k]).is_of(block_at(raw@, 24, k))
            },
            Err(e) => raw@.len() % 24 != 0 && e == (RepackError::Q51Length {
                len: raw@.len() as usize,
            }),
        },
{
    let n: usize = raw.len();
    if n % Q5_1_BLOCK_BYTES != 0 {
        return Err(RepackError::Q51Length { len: n });
    }
    let mut out: Vec<Q51Block> = Vec::new();
    let mut k: usize = 0;
    while k < n / Q5_1_BLOCK_BYTES
        invariant
            n == raw@.len(),
            n % 24 == 0,
            k <= n / 24,
            out@.len() == k,
            forall|i: int| 0 <= i < k ==> (#[trigger] out@[i]).is_of(block_at(raw@, 24, i)),
        decreases n / 24 - k,
    {
        let at: usize = k * Q5_1_BLOCK_BYTES;
        out.push(q5_1_block(vstd::slice::slice_subrange(raw, at, at + Q5_1_BLOCK_BYTES)));
        k = k + 1;
    }
    Ok(out)
}

/// A group of 32 numbers to be stored as Q8_0: the scale as single precision
/// bits, and the rounded quotients.
#[derive(Debug)]
pub struct Q8Group {
    pub scale: u32,
    pub q: Vec<i8>,
}

/// Two bytes, the low one first.
pub open spec fn half_bytes(h: int) -> Seq<u8> {
    seq![(h % 256) as u8, (h / 256) as u8]
}

/// A Q8_0 block: the scale in half precision, then the quotients.
pub open spec fn q8_0_block(scale: u32, q: Seq<i8>) -> Seq<u8> {
    half_bytes(narrowed(scale)) + q.map_values(|v: i8| v as u8)
}

/// Q8_0 blocks, one after the other.
pub open spec fn q8_0_blocks(groups: Seq<Q8Group>) -> Seq<u8> {
    joined(groups.len(), |k: int| q8_0_block(groups[k].scale, groups[k].q@))
}

/// Adds a Q8_0 block.
fn push_q8_0(out: &mut Vec<u8>, group: &Q8Group)
    ensures
        final(out)@ == old(out)@ + q8_0_block(group.scale, group.q@),
{
    let h: u16 = f32_to_f16(group.scale);
    let ghost start: Seq<u8> = out@;
    out.push((h % 256) as u8);
    out.push((h / 256) as u8);
    let mut i: usize = 0;
    let ghost all: Seq<u8> = group.q@.map_values(|v: i8| v as u8);
    while i < group.q.len()
        invariant
            i <= group.q@.len(),
            all == group.q@.map_values(|v: i8| v as u8),
            out@ =~= start + half_bytes(narrowed(group.scale)) + all.take(i as int),
        decreases group.q@.len() - i,
    {
        let v: i8 = group.q[i];
        out.push(
            #[verifier::truncate]
            (v as u8),
        );
        i = i + 1;
    }
    proof {
        assert(all.take(all.len() as int) =~= all);
        assert(out@ =~= start + q8_0_block(group.scale, group.q@));
    }
}

/// The bytes of Q8_0 blocks.
pub fn q8_0_bytes(groups: &[Q8Group]) -> (r: Vec<u8>)
    ensures
        r@ == q8_0_blocks(groups@),
{
    let mut out: Vec<u8> = Vec::new();
    let ghost part: spec_fn(int) -> Seq<u8> = |k: int| q8_0_block(groups@[k].scale, groups@[k].q@);
    let mut i: usize = 0;
    while i < groups.len()
        invariant
            i <= groups@.len(),
            part == (|k: int| q8_0_block(groups@[k].scale, groups@[k].q@)),
            out@ == joined(i as nat, part),
        decreases groups@.len() - i,
    {
        push_q8_0(&mut out, &groups[i]);
        i = i + 1;
    }
    out
}

/// Converting takes 8 Q8_0 blocks for a Q5_K block and one for a Q5_1 block.
pub proof fn law_q8_0_length(groups: Seq<Q8Group>)
    requires
        forall|k: int| 0 <= k < groups.len() ==> (#[trigger] groups[k]).q@.len() == 32,
    ensures
        q8_0_blocks(groups).len() == groups.len() * 34,
{
    let part = |k: int| q8_0_block(groups[k].scale, groups[k].q@);
    assert forall|i: int| 0 <= i < groups.len() implies (#[trigger] part(i)).len() == 34 by {
        assert(groups[i].q@.len() == 32);
    }
    lemma_joined_len(groups.len(), part, 34);
}

/// A Q8_0 block holds its scale in half precision, the low byte first, and each of
/// its quotients as one signed byte, in their order.
#[verifier::rlimit(60)]
pub proof fn law_q8_0_place(groups: Seq<Q8Group>, k: int, i: int)
    requires
        forall|g: int| 0 <= g < groups.len() ==> (#[trigger] groups[g]).q@.len() == 32,
        0 <= k < groups.len(),
        0 <= i < 32,
    ensures
        q8_0_blocks(groups).len() == groups.len() * 34,
        q8_0_blocks(groups)[34 * k] + 256 * q8_0_blocks(groups)[34 * k + 1] == narrowed(
            groups[k].scale,
        ),
        q8_0_blocks(groups)[34 * k + 2 + i] == (if groups[k].q@[i] >= 0 {
            groups[k].q@[i] as int
        } else {
            groups[k].q@[i] + 256
        }),
{
    let part = |g: int| q8_0_block(groups[g].scale, groups[g].q@);
    assert forall|g: int| 0 <= g < groups.len() implies (#[trigger] part(g)).len() == 34 by {
        assert(groups[g].q@.len() == 32);
    }
    law_joined_place(groups.len(), part, 34, k);
    let all = q8_0_blocks(groups);
    let block = all.subrange(k * 34, k * 34 + 34);
    assert(block == part(k));
    assert(block[0] == all[34 * k] && block[1] == all[34 * k + 1]);
    assert(block[2 + i] == all[34 * k + 2 + i]);
    lemma_narrowed_range(groups[k].scale);
    let v: i8 = groups[k].q@[i];
    assert(groups[k].q@.len() == 32);
    assert(block[2 + i] == v as u8);
    assert(v as u8 == (if v >= 0 {
        v as int
    } else {
        v + 256
    })) by (bit_vector);
}

/// A half precision number has sixteen bits.
proof fn lemma_narrowed_range(b: u32)
    ensures
        0 <= narrowed(b) < 0x1_0000,
{
    let e = exp32(b) - 112;
    let k: nat = if e >= 1 {
        13
    } else {
        (14 - e) as nat
    };
    vstd::arithmetic::power2::lemma_pow2_pos(k);
    vstd::arithmetic::div_mod::lemma_div_pos_is_pos(
        crate::quant::significand32(b),
        vstd::arithmetic::power2::pow2(k) as int,
    );
}

/// Bytes of a compact Q6_K block: those of a block and two more.
pub const Q6_COMPACT_BLOCK_BYTES: usize = 212;

/// A Q6_K block with two bytes behind it.
pub open spec fn q6_block(raw: Seq<u8>, at: int) -> Seq<u8> {
    raw.subrange(at, at + 210) + seq![0u8, 0u8]
}

/// The blocks of a column, each with two bytes behind it.
pub open spec fn q6_column(raw: Seq<u8>, n_blocks: nat, at: int) -> Seq<u8> {
    joined(n_blocks, |bi: int| q6_block(raw, at + bi * 210))
}

/// The columns of a Q6_K matrix, each block with two bytes behind it.
pub open spec fn q6_aligned(raw: Seq<u8>, n_rows: nat, n_cols: nat, col_bytes: int) -> Seq<u8> {
    joined(n_cols, |col: int| q6_column(raw, n_rows / 256, col * col_bytes))
}

/// Adds bytes.
fn push_bytes(out: &mut Vec<u8>, src: &[u8], at: usize, n: usize)
    requires
        at + n <= src@.len(),
    ensures
        final(out)@ == old(out)@ + src@.subrange(at as int, at + n),
{
    let mut i: usize = 0;
    let ghost start: Seq<u8> = out@;
    assert(src.len() == src@.len());
    while i < n
        invariant
            i <= n,
            at + n <= src@.len(),
            src@.len() <= usize::MAX,
            out@ == start + src@.subrange(at as int, at + i),
        decreases n - i,
    {
        out.push(src[at + i]);
        i = i + 1;
        proof {
            assert(out@ =~= start + src@.subrange(at as int, at + i));
        }
    }
}

/// Adds zeroes.
fn push_zeroes(out: &mut Vec<u8>, n: usize)
    ensures
        final(out)@ == old(out)@ + Seq::new(n as nat, |i: int| 0u8),
{
    let mut i: usize = 0;
    let ghost start: Seq<u8> = out@;
    while i < n
        invariant
            i <= n,
            out@ =~= start + Seq::new(i as nat, |k: int| 0u8),
        decreases n - i,
    {
        out.push(0);
        i = i + 1;
    }
}

/// A column begins in the bytes where the last one does.
proof fn lemma_column_in(col: int, n_cols: int, col_bytes: int, used: int, len: int)
    requires
        0 <= col < n_cols,
        0 <= col_bytes,
        (n_cols - 1) * col_bytes + used <= len,
    ensures
        0 <= col * col_bytes,
        col * col_bytes + used <= len,
{
    assert(0 <= col * col_bytes <= (n_cols - 1) * col_bytes) by (nonlinear_arith)
        requires
            0 <= col <= n_cols - 1,
            0 <= col_bytes,
    ;
}

/// Lays a Q6_K matrix out anew: each block with two bytes behind it.
pub fn align_q6_decode(raw: &[u8], n_rows: usize, n_cols: usize, col_bytes: usize) -> (r: Vec<u8>)
    requires
        n_cols > 0 ==> (n_cols - 1) * col_bytes + n_rows / 256 * 210 <= raw@.len(),
    ensures
        r@ == q6_aligned(raw@, n_rows as nat, n_cols as nat, col_bytes as int),
{
    let n_blocks: usize = n_rows / 256;
    assert(raw.len() == raw@.len());
    let mut out: Vec<u8> = Vec::new();
    let ghost column: spec_fn(int) -> Seq<u8> = |col: int|
        q6_column(raw@, n_rows as nat / 256, col * col_bytes);
    let mut col: usize = 0;
    while col < n_cols
        invariant
            col <= n_cols,
            n_blocks == n_rows / 256,
            n_cols > 0 ==> (n_cols - 1) * col_bytes + n_blocks * 210 <= raw@.len(),
            raw@.len() <= usize::MAX,
            column == (|c: int| q6_column(raw@, n_rows as nat / 256, c * col_bytes)),
            out@ == joined(col as nat, column),
        decreases n_cols - col,
    {
        proof {
            lemma_column_in(
                col as int,
                n_cols as int,
                col_bytes as int,
                n_blocks * 210,
                raw@.len() as int,
            );
        }
        let at: usize = col * col_bytes;
        let ghost before: Seq<u8> = out@;
        let ghost block: spec_fn(int) -> Seq<u8> = |bi: int| q6_block(raw@, at + bi * 210);
        let mut bi: usize = 0;
        while bi < n_blocks
            invariant
                bi <= n_blocks,
                at + n_blocks * 210 <= raw@.len(),
                raw@.len() <= usize::MAX,
                block == (|b: int| q6_block(raw@, at + b * 210)),
                out@ == before + joined(bi as nat, block),
            decreases n_blocks - bi,
        {
            let ghost so_far: Seq<u8> = out@;
            push_bytes(&mut out, raw, at + bi * 210, 210);
            push_zeroes(&mut out, 2);
            proof {
                assert(Seq::new(2, |i: int| 0u8) =~= seq![0u8, 0u8]);
                assert(out@ =~= so_far + block(bi as int));
                assert(out@ =~= before + joined(bi as nat + 1, block));
            }
            bi = bi + 1;
        }
        proof {
            assert(column(col as int) == joined(n_blocks as nat, block));
        }
        col = col + 1;
    }
    out
}

/// Block `bi` of column `col` is found at its place, unchanged.
pub proof fn law_q6_block_kept(
    raw: Seq<u8>,
    n_rows: nat,
    n_cols: nat,
    col_bytes: int,
    col: int,
    bi: int,
)
    requires
        0 <= col < n_cols,
        0 <= bi < n_rows / 256,
        0 <= col_bytes,
        (n_cols - 1) * col_bytes + n_rows / 256 * 210 <= raw.len(),
    ensures
        ({
            let at = col * (n_rows / 256 * 212) + bi * 212;
            q6_aligned(raw, n_rows, n_cols, col_bytes).subrange(at, at + 210) == raw.subrange(
                col * col_bytes + bi * 210,
                col * col_bytes + bi * 210 + 210,
            )
        }),
{
    let nb = n_rows / 256;
    let column = |c: int| q6_column(raw, nb, c * col_bytes);
    assert forall|c: int| 0 <= c < n_cols implies (#[trigger] column(c)).len() == nb * 212 by {
        lemma_column_in(c, n_cols as int, col_bytes, (nb * 210) as int, raw.len() as int);
        lemma_q6_column_len(raw, nb, c * col_bytes);
    }
    lemma_column_in(col, n_cols as int, col_bytes, (nb * 210) as int, raw.len() as int);
    law_joined_place(n_cols, column, nb * 212, col);
    let block = |b: int| q6_block(raw, col * col_bytes + b * 210);
    assert forall|b: int| 0 <= b < nb implies (#[trigger] block(b)).len() == 212 by {}
    law_joined_place(nb, block, 212, bi);
    let base = col * (nb * 212);
    let all = q6_aligned(raw, n_rows, n_cols, col_bytes);
    assert(all.subrange(base, base + nb * 212) == column(col));
    assert(column(col).subrange(bi * 212, bi * 212 + 212) == block(bi));
    assert(all.subrange(base + bi * 212, base + bi * 212 + 210) =~= block(bi).subrange(0, 210)) by {
        assert forall|i: int| 0 <= i < 210 implies all[base + bi * 212 + i] == #[trigger] block(
            bi,
        )[i] by {
            assert(all.subrange(base, base + nb * 212)[bi * 212 + i] == all[base + bi * 212 + i]);
            assert(column(col).subrange(bi * 212, bi * 212 + 212)[i] == column(col)[bi * 212 + i]);
        }
    }
    assert(block(bi).subrange(0, 210) =~= raw.subrange(
        col * col_bytes + bi * 210,
        col * col_bytes + bi * 210 + 210,
    ));
}

proof fn lemma_q6_column_len(raw: Seq<u8>, nb: nat, at: int)
    requires
        0 <= at,
        at + nb * 210 <= raw.len(),
    ensures
        q6_column(raw, nb, at).len() == nb * 212,
{
    let block = |b: int| q6_block(raw, at + b * 210);
    assert forall|b: int| 0 <= b < nb implies (#[trigger] block(b)).len() == 212 by {}
    lemma_joined_len(nb, block, 212);
}

/// Bytes of a Q4_0 block of 32 numbers.
pub const Q4_0_BLOCK: usize = 18;

/// Bytes of a padded Q4_0 block.
pub const Q4_0_ALIGN_BLOCK: usize = 32;

/// Bytes of a Q8_0 column.
pub fn q8_col_bytes(n_rows: usize) -> (r: usize)
    requires
        n_rows / 32 * 34 <= usize::MAX,
    ensures
        r == n_rows / 32 * 34,
{
    (n_rows / 32) * Q8_0_BLOCK_BYTES
}

/// Bytes of a Q4_0 column.
pub fn q4_col_bytes(n_rows: usize) -> (r: usize)
    ensures
        r == n_rows / 32 * 18,
{
    (n_rows / 32) * Q4_0_BLOCK
}

/// Bytes of a column of padded Q4_0 blocks.
pub fn q4_align_col_bytes(n_rows: usize) -> (r: usize)
    ensures
        r == n_rows / 32 * 32,
{
    (n_rows / 32) * Q4_0_ALIGN_BLOCK
}

/// A block of 18 bytes.
pub open spec fn q4_block(src: Seq<u8>, n_blocks: int, j: int, bi: int) -> Seq<u8> {
    src.subrange(j * (n_blocks * 18) + bi * 18, j * (n_blocks * 18) + bi * 18 + 18)
}

/// The blocks of a Q4_0 matrix with the same block of all columns side by
/// side.
pub open spec fn block_major(src: Seq<u8>, n_blocks: nat, n_cols: nat) -> Seq<u8> {
    joined(
        n_blocks,
        |bi: int| joined(n_cols, |j: int| q4_block(src, n_blocks as int, j, bi)),
    )
}

/// A block lies in the bytes.
proof fn lemma_block_in(n_blocks: int, n_cols: int, j: int, bi: int)
    requires
        0 <= j < n_cols,
        0 <= bi < n_blocks,
    ensures
        0 <= j * (n_blocks * 18),
        j * (n_blocks * 18) + bi * 18 + 18 <= n_blocks * 18 * n_cols,
{
    assert(0 <= j * (n_blocks * 18) && j * (n_blocks * 18) + n_blocks * 18 <= n_blocks * 18
        * n_cols) by (nonlinear_arith)
        requires
            0 <= j,
            j + 1 <= n_cols,
            0 <= n_blocks,
    ;
}

/// Whether bytes are those of a Q4_0 matrix: `None` where not even their number
/// can be counted.
fn q4_size(n_blocks: usize, n_cols: usize) -> (r: Option<usize>)
    requires
        n_blocks * 18 <= usize::MAX,
    ensures
        match r {
            Some(n) => n == n_blocks * 18 * n_cols,
            None => n_blocks * 18 * n_cols > usize::MAX,
        },
{
    (n_blocks * Q4_0_BLOCK).checked_mul(n_cols)
}

/// Lays a Q4_0 matrix out anew: the same block of all columns side by side.
pub fn repack_q4_0_block_major(src: &[u8], n_rows: usize, n_cols: usize) -> (r: Result<
    Vec<u8>,
    RepackError,
>)
    ensures
        match r {
            Ok(v) => src@.len() == n_rows / 32 * 18 * n_cols && v@ == block_major(
                src@,
                n_rows as nat / 32,
                n_cols as nat,
            ),
            Err(e) => src@.len() != n_rows / 32 * 18 * n_cols && e == RepackError::BlockMajorSize,
        },
{
    let n_blocks: usize = n_rows / 32;
    assert(src.len() == src@.len());
    match q4_size(n_blocks, n_cols) {
        Some(n) => {
            if src.len() != n {
                return Err(RepackError::BlockMajorSize);
            }
        },
        None => {
            return Err(RepackError::BlockMajorSize);
        },
    }
    let mut out: Vec<u8> = Vec::new();
    let ghost row: spec_fn(int) -> Seq<u8> = |bi: int|
        joined(n_cols as nat, |j: int| q4_block(src@, n_blocks as int, j, bi));
    let mut bi: usize = 0;
    while bi < n_blocks
        invariant
            bi <= n_blocks,
            src@.len() == n_blocks * 18 * n_cols,
            n_blocks * 18 <= usize::MAX,
            src@.len() <= usize::MAX,
            row == (|b: int| joined(n_cols as nat, |j: int| q4_block(src@, n_blocks as int, j, b))),
            out@ == joined(bi as nat, row),
        decreases n_blocks - bi,
    {
        let ghost before: Seq<u8> = out@;
        let ghost cell: spec_fn(int) -> Seq<u8> = |j: int|
            q4_block(src@, n_blocks as int, j, bi as int);
        let mut j: usize = 0;
        while j < n_cols
            invariant
                j <= n_cols,
                bi < n_blocks,
                src@.len() == n_blocks * 18 * n_cols,
                n_blocks * 18 <= usize::MAX,
                src@.len() <= usize::MAX,
                cell == (|c: int| q4_block(src@, n_blocks as int, c, bi as int)),
                out@ == before + joined(j as nat, cell),
            decreases n_cols - j,
        {
            proof {
                lemma_block_in(n_blocks as int, n_cols as int, j as int, bi as int);
            }
            let ghost so_far: Seq<u8> = out@;
            push_bytes(
                &mut out,
                src,
                j * (n_blocks * Q4_0_BLOCK) + bi * Q4_0_BLOCK,
                Q4_0_BLOCK,
            );
            proof {
                assert(out@ =~= so_far + cell(j as int));
                assert(out@ =~= before + joined(j as nat + 1, cell));
            }
            j = j + 1;
        }
        proof {
            assert(row(bi as int) == joined(n_cols as nat, cell));
        }
        bi = bi + 1;
    }
    Ok(out)
}

/// Block `bi` of column `j` is found as block `j` of row `bi`, unchanged: no
/// block is lost.
pub proof fn law_block_major_place(src: Seq<u8>, n_blocks: nat, n_cols: nat, j: int, bi: int)
    requires
        0 <= j < n_cols,
        0 <= bi < n_blocks,
        src.len() == n_blocks * 18 * n_cols,
    ensures
        block_major(src, n_blocks, n_cols).len() == n_blocks * (n_cols * 18),
        ({
            let at = bi * (n_cols * 18) + j * 18;
            let from = j * (n_blocks * 18) + bi * 18;
            block_major(src, n_blocks, n_cols).subrange(at, at + 18) == src.subrange(
                from,
                from + 18,
            )
        }),
{
    let row = |b: int| joined(n_cols, |c: int| q4_block(src, n_blocks as int, c, b));
    assert forall|b: int| 0 <= b < n_blocks implies (#[trigger] row(b)).len() == n_cols * 18 by {
        let cell = |c: int| q4_block(src, n_blocks as int, c, b);
        assert forall|c: int| 0 <= c < n_cols implies (#[trigger] cell(c)).len() == 18 by {
            lemma_block_in(n_blocks as int, n_cols as int, c, b);
        }
        lemma_joined_len(n_cols, cell, 18);
    }
    law_joined_place(n_blocks, row, n_cols * 18, bi);
    let cell = |c: int| q4_block(src, n_blocks as int, c, bi);
    assert forall|c: int| 0 <= c < n_cols implies (#[trigger] cell(c)).len() == 18 by {
        lemma_block_in(n_blocks as int, n_cols as int, c, bi);
    }
    law_joined_place(n_cols, cell, 18, j);
    let all = block_major(src, n_blocks, n_cols);
    let base = bi * (n_cols * 18);
    assert(all.subrange(base, base + n_cols * 18) == row(bi));
    assert(row(bi) == joined(n_cols, cell));
    assert(all.subrange(base + j * 18, base + j * 18 + 18) =~= cell(j)) by {
        assert forall|i: int| 0 <= i < 18 implies all[base + j * 18 + i] == #[trigger] cell(j)[i] by {
            assert(all.subrange(base, base + n_cols * 18)[j * 18 + i] == all[base + j * 18 + i]);
            assert(row(bi).subrange(j * 18, j * 18 + 18)[i] == row(bi)[j * 18 + i]);
        }
    }
}

/// A Q4_0 block padded to 32 bytes: the scale, two bytes, the numbers, twelve
/// bytes.
pub open spec fn padded_block(b: Seq<u8>) -> Seq<u8> {
    b.subrange(0, 2) + seq![0u8, 0u8] + b.subrange(2, 18) + Seq::new(12, |i: int| 0u8)
}

/// A Q4_0 matrix with padded blocks.
pub open spec fn padded_blocks(src: Seq<u8>, n_blocks: nat, n_cols: nat) -> Seq<u8> {
    joined(
        n_cols,
        |j: int| joined(n_blocks, |bi: int| padded_block(q4_block(src, n_blocks as int, j, bi))),
    )
}

/// A byte of parts of parts lies where both places say.
proof fn lemma_nested_place(
    n: nat,
    m: nat,
    size: nat,
    row: spec_fn(int) -> Seq<u8>,
    cell: spec_fn(int) -> Seq<u8>,
    a: int,
    b: int,
    x: int,
)
    requires
        0 <= a < n,
        0 <= b < m,
        0 <= x < size,
        forall|c: int| 0 <= c < n ==> (#[trigger] row(c)).len() == m * size,
        row(a) == joined(m, cell),
        forall|c: int| 0 <= c < m ==> (#[trigger] cell(c)).len() == size,
    ensures
        joined(n, row).len() == n * (m * size),
        0 <= a * (m * size) + b * size,
        a * (m * size) + b * size + size <= n * (m * size),
        joined(n, row)[a * (m * size) + b * size + x] == cell(b)[x],
{
    law_joined_place(n, row, m * size, a);
    law_joined_place(m, cell, size, b);
    let base = a * (m * size);
    assert(joined(n, row).subrange(base, base + m * size)[b * size + x] == joined(n, row)[base + b
        * size + x]);
    assert(joined(m, cell).subrange(b * size, b * size + size)[x] == joined(m, cell)[b * size + x]);
}

/// Padding keeps every byte: the scale of block `bi` of column `j` begins its 32
/// bytes, its 16 bytes of numbers follow from the fifth on, and all others are zero.
#[verifier::rlimit(60)]
pub proof fn law_padding_keeps(src: Seq<u8>, n_blocks: nat, n_cols: nat, j: int, bi: int, x: int)
    requires
        0 <= j < n_cols,
        0 <= bi < n_blocks,
        0 <= x < 32,
        src.len() == n_blocks * 18 * n_cols,
    ensures
        padded_blocks(src, n_blocks, n_cols).len() == n_cols * (n_blocks * 32),
        ({
            let from = j * (n_blocks * 18) + bi * 18;
            padded_blocks(src, n_blocks, n_cols)[j * (n_blocks * 32) + bi * 32 + x] == (if x < 2 {
                src[from + x]
            } else if 4 <= x < 20 {
                src[from + x - 2]
            } else {
                0
            })
        }),
{
    let row = |c: int|
        joined(n_blocks, |b: int| padded_block(q4_block(src, n_blocks as int, c, b)));
    assert forall|c: int| 0 <= c < n_cols implies (#[trigger] row(c)).len() == n_blocks * 32 by {
        let cell = |b: int| padded_block(q4_block(src, n_blocks as int, c, b));
        assert forall|b: int| 0 <= b < n_blocks implies (#[trigger] cell(b)).len() == 32 by {
            lemma_block_in(n_blocks as int, n_cols as int, c, b);
        }
        lemma_joined_len(n_blocks, cell, 32);
    }
    let cell = |b: int| padded_block(q4_block(src, n_blocks as int, j, b));
    assert forall|b: int| 0 <= b < n_blocks implies (#[trigger] cell(b)).len() == 32 by {
        lemma_block_in(n_blocks as int, n_cols as int, j, b);
    }
    lemma_nested_place(n_cols, n_blocks, 32, row, cell, j, bi, x);
    lemma_block_in(n_blocks as int, n_cols as int, j, bi);
}

/// Pads the blocks of a Q4_0 matrix to 32 bytes.
pub fn repack_q4_0_align32(src: &[u8], n_rows: usize, n_cols: usize) -> (r: Result<
    Vec<u8>,
    RepackError,
>)
    requires
        n_rows / 32 * 18 * n_cols <= usize::MAX,
    ensures
        match r {
            Ok(v) => src@.len() == n_rows / 32 * 18 * n_cols && v@ == padded_blocks(
                src@,
                n_rows as nat / 32,
                n_cols as nat,
            ),
            Err(e) => src@.len() != n_rows / 32 * 18 * n_cols && e == (RepackError::AlignSize {
                got: src@.len() as usize,
                want: (n_rows / 32 * 18 * n_cols) as usize,
            }),
        },
{
    let n_blocks: usize = n_rows / 32;
    assert(src.len() == src@.len());
    let want: usize = n_blocks * Q4_0_BLOCK * n_cols;
    if src.len() != want {
        return Err(RepackError::AlignSize { got: src.len(), want });
    }
    let mut out: Vec<u8> = Vec::new();
    let ghost column: spec_fn(int) -> Seq<u8> = |j: int|
        joined(n_blocks as nat, |bi: int| padded_block(q4_block(src@, n_blocks as int, j, bi)));
    let mut j: usize = 0;
    while j < n_cols
        invariant
            j <= n_cols,
            src@.len() == n_blocks * 18 * n_cols,
            n_blocks * 18 <= usize::MAX,
            src@.len() <= usize::MAX,
            column == (|c: int|
                joined(
                    n_blocks as nat,
                    |b: int| padded_block(q4_block(src@, n_blocks as int, c, b)),
                )),
            out@ == joined(j as nat, column),
        decreases n_cols - j,
    {
        let ghost before: Seq<u8> = out@;
        let ghost cell: spec_fn(int) -> Seq<u8> = |bi: int|
            padded_block(q4_block(src@, n_blocks as int, j as int, bi));
        let mut bi: usize = 0;
        while bi < n_blocks
            invariant
                bi <= n_blocks,
                j < n_cols,
                src@.len() == n_blocks * 18 * n_cols,
                n_blocks * 18 <= usize::MAX,
                src@.len() <= usize::MAX,
                cell == (|b: int| padded_block(q4_block(src@, n_blocks as int, j as int, b))),
                out@ == before + joined(bi as nat, cell),
            decreases n_blocks - bi,
        {
            proof {
                lemma_block_in(n_blocks as int, n_cols as int, j as int, bi as int);
            }
            let ghost so_far: Seq<u8> = out@;
            let s: usize = j * (n_blocks * Q4_0_BLOCK) + bi * Q4_0_BLOCK;
            push_bytes(&mut out, src, s, 2);
            push_zeroes(&mut out, 2);
            push_bytes(&mut out, src, s + 2, 16);
            push_zeroes(&mut out, 12);
            proof {
                assert(out@ =~= so_far + cell(bi as int));
                assert(out@ =~= before + joined(bi as nat + 1, cell));
            }
            bi = bi + 1;
        }
        proof {
            assert(column(j as int) == joined(n_blocks as nat, cell));
        }
        j = j + 1;
    }
    Ok(out)
}

/// The single precision bits of a half precision number times a small whole
/// number: exact where it is finite, as no more than 14 bits are needed. The
/// half precision number is read with small numbers as zero.
pub open spec fn scaled(q: int, h: u16) -> int {
    let e = exp16(h);
    let f = frac16(h);
    let sign = if q < 0 {
        1 - sign16(h)
    } else {
        sign16(h)
    };
    let m = (0x400 + f) * (if q < 0 {
        -q
    } else {
        q
    });
    if e == 31 {
        if f != 0 {
            make32(sign16(h), 255, 0x40_0000)
        } else if q == 0 {
            make32(1, 255, 0x40_0000)
        } else {
            make32(sign, 255, 0)
        }
    } else if e == 0 || q == 0 {
        make32(sign, 0, 0)
    } else if m < 0x800 {
        make32(sign, e + 112, (m - 0x400) * 0x2000)
    } else if m < 0x1000 {
        make32(sign, e + 113, (m - 0x800) * 0x1000)
    } else if m < 0x2000 {
        make32(sign, e + 114, (m - 0x1000) * 0x800)
    } else {
        make32(sign, e + 115, (m - 0x2000) * 0x400)
    }
}

/// The single precision bits of a half precision number times a number from
/// minus eight to seven.
fn scale_half(q: i32, h: u16) -> (r: u32)
    requires
        -8 <= q <= 7,
    ensures
        r == scaled(q as int, h),
{
    let e: u32 = (h as u32 / 0x400) % 0x20;
    let f: u32 = h as u32 % 0x400;
    let own: u32 = h as u32 / 0x8000;
    let sign: u32 = if q < 0 {
        1 - own
    } else {
        own
    };
    let size: u32 = if q < 0 {
        (-q) as u32
    } else {
        q as u32
    };
    proof {
        assert((0x400 + f) * size <= 0x7ff * 8) by (nonlinear_arith)
            requires
                f < 0x400,
                size <= 8,
        ;
        if size >= 1 {
            assert((0x400 + f) * size >= 0x400) by (nonlinear_arith)
                requires
                    size >= 1,
            ;
        }
    }
    let m: u32 = (0x400 + f) * size;
    if e == 31 {
        if f != 0 {
            own * 0x8000_0000 + 0x7fc0_0000
        } else if q == 0 {
            0xffc0_0000
        } else {
            sign * 0x8000_0000 + 0x7f80_0000
        }
    } else if e == 0 || q == 0 {
        sign * 0x8000_0000
    } else if m < 0x800 {
        sign * 0x8000_0000 + (e + 112) * 0x80_0000 + (m - 0x400) * 0x2000
    } else if m < 0x1000 {
        sign * 0x8000_0000 + (e + 113) * 0x80_0000 + (m - 0x800) * 0x1000
    } else if m < 0x2000 {
        sign * 0x8000_0000 + (e + 114) * 0x80_0000 + (m - 0x1000) * 0x800
    } else {
        sign * 0x8000_0000 + (e + 115) * 0x80_0000 + (m - 0x2000) * 0x400
    }
}

/// The product is exact: its size is the size of the factor, so many times.
pub proof fn law_scaled_exact(q: int, h: u16)
    requires
        -8 <= q <= 7,
        exp16(h) < 31,
    ensures
        size32(scaled(q, h) as u32) == (if q < 0 {
            -q
        } else {
            q
        }) * size32(widened_fast(h) as u32),
        sign32(scaled(q, h) as u32) == (if q < 0 {
            1 - sign16(h)
        } else {
            sign16(h)
        }),
        exp32(scaled(q, h) as u32) < 255,
{
    let e = exp16(h);
    let f = frac16(h);
    let n = if q < 0 {
        -q
    } else {
        q
    };
    let m = (0x400 + f) * n;
    assert(m <= 0x7ff * 8 && m >= 0x400 * n) by (nonlinear_arith)
        requires
            m == (0x400 + f) * n,
            0 <= f < 0x400,
            0 <= n <= 8,
    ;
    let w = widened_fast(h) as u32;
    let sign = if q < 0 {
        1 - sign16(h)
    } else {
        sign16(h)
    };
    if e > 0 && q != 0 {
        let p = pow2((e + 112) as nat) as int;
        vstd::arithmetic::power2::lemma_pow2_unfold((e + 113) as nat);
        vstd::arithmetic::power2::lemma_pow2_unfold((e + 114) as nat);
        vstd::arithmetic::power2::lemma_pow2_unfold((e + 115) as nat);
        lemma_made(sign16(h), e + 112, f * 0x2000);
        assert((0x80_0000 + f * 0x2000) * p == (0x400 + f) * 0x2000 * p);
        assert(n * ((0x400 + f) * 0x2000 * p) == m * 0x2000 * p) by (nonlinear_arith)
            requires
                m == (0x400 + f) * n,
        ;
        if m < 0x800 {
            lemma_made(sign, e + 112, (m - 0x400) * 0x2000);
        } else if m < 0x1000 {
            lemma_made(sign, e + 113, (m - 0x800) * 0x1000);
            assert(m * 0x1000 * (2 * p) == m * 0x2000 * p) by (nonlinear_arith);
        } else if m < 0x2000 {
            lemma_made(sign, e + 114, (m - 0x1000) * 0x800);
            assert(m * 0x800 * (4 * p) == m * 0x2000 * p) by (nonlinear_arith);
        } else {
            lemma_made(sign, e + 115, (m - 0x2000) * 0x400);
            assert(m * 0x400 * (8 * p) == m * 0x2000 * p) by (nonlinear_arith);
        }
    } else {
        lemma_zero(sign);
        lemma_zero(sign16(h));
        assert(0 * size32(w) == 0 && n * 0 == 0) by (nonlinear_arith);
    }
}

/// The parts of a number are those that it was made of.
proof fn lemma_made(sign: int, exp: int, frac: int)
    requires
        0 <= sign <= 1,
        0 < exp < 255,
        0 <= frac < 0x80_0000,
    ensures
        sign32(make32(sign, exp, frac) as u32) == sign,
        exp32(make32(sign, exp, frac) as u32) == exp,
        size32(make32(sign, exp, frac) as u32) == (0x80_0000 + frac) * pow2(exp as nat),
{
}

/// A zero has no size.
proof fn lemma_zero(sign: int)
    requires
        0 <= sign <= 1,
    ensures
        sign32(make32(sign, 0, 0) as u32) == sign,
        exp32(make32(sign, 0, 0) as u32) == 0,
        size32(make32(sign, 0, 0) as u32) == 0,
{
}

/// Number `t` of a Q4_0 block: the first 16 in the low four bits of 16 bytes,
/// the others in the high ones, each less eight.
pub open spec fn q4_number(b: Seq<u8>, t: int) -> int {
    (if t < 16 {
        b[2 + t] as int % 16
    } else {
        b[2 + t - 16] as int / 16
    }) - 8
}

/// Number `t` of a Q4_0 block in half precision.
pub open spec fn q4_half(b: Seq<u8>, t: int) -> Seq<u8> {
    half_bytes(narrowed_fast(scaled(q4_number(b, t), half_at(b, 0)) as u32))
}

/// A Q4_0 block in half precision.
pub open spec fn q4_halves(b: Seq<u8>) -> Seq<u8> {
    joined(32, |t: int| q4_half(b, t))
}

/// A column of a Q4_0 matrix in half precision: its blocks, and zeroes for the
/// rows that fill no block.
pub open spec fn half_column(src: Seq<u8>, n_rows: nat, j: int) -> Seq<u8> {
    joined(n_rows / 32, |bi: int| q4_halves(q4_block(src, (n_rows / 32) as int, j, bi)))
        + Seq::new(n_rows % 32 * 2, |i: int| 0u8)
}

/// A Q4_0 matrix in half precision.
pub open spec fn half_columns(src: Seq<u8>, n_rows: nat, n_cols: nat) -> Seq<u8> {
    joined(n_cols, |j: int| half_column(src, n_rows, j))
}

/// Adds a Q4_0 block in half precision.
fn push_halves(out: &mut Vec<u8>, b: &[u8])
    requires
        b@.len() == 18,
    ensures
        final(out)@ == old(out)@ + q4_halves(b@),
{
    let d: u16 = read_half(b, 0);
    let ghost start: Seq<u8> = out@;
    let ghost part: spec_fn(int) -> Seq<u8> = |t: int| q4_half(b@, t);
    let mut t: usize = 0;
    while t < 32
        invariant
            t <= 32,
            b@.len() == 18,
            d == half_at(b@, 0),
            part == (|k: int| q4_half(b@, k)),
            out@ == start + joined(t as nat, part),
        decreases 32 - t,
    {
        let nibble: u8 = if t < 16 {
            b[2 + t] % 16
        } else {
            b[2 + t - 16] / 16
        };
        let bits: u16 = f32_to_f16_bits_fast(scale_half(nibble as i32 - 8, d));
        let ghost so_far: Seq<u8> = out@;
        out.push((bits % 256) as u8);
        out.push((bits / 256) as u8);
        proof {
            assert(out@ =~= so_far + part(t as int));
            assert(out@ =~= start + joined(t as nat + 1, part));
        }
        t = t + 1;
    }
}

/// Expands a Q4_0 matrix to half precision.
pub fn dequant_q4_0_to_f16(src: &[u8], n_rows: usize, n_cols: usize) -> (r: Result<
    Vec<u8>,
    RepackError,
>)
    requires
        n_rows / 32 * 18 * n_cols <= usize::MAX,
    ensures
        match r {
            Ok(v) => src@.len() == n_rows / 32 * 18 * n_cols && v@ == half_columns(
                src@,
                n_rows as nat,
                n_cols as nat,
            ),
            Err(e) => src@.len() != n_rows / 32 * 18 * n_cols && e == (RepackError::HalfSize {
                got: src@.len() as usize,
                want: (n_rows / 32 * 18 * n_cols) as usize,
            }),
        },
{
    let n_blocks: usize = n_rows / 32;
    assert(src.len() == src@.len());
    let want: usize = n_blocks * Q4_0_BLOCK * n_cols;
    if src.len() != want {
        return Err(RepackError::HalfSize { got: src.len(), want });
    }
    let mut out: Vec<u8> = Vec::new();
    let ghost column: spec_fn(int) -> Seq<u8> = |j: int| half_column(src@, n_rows as nat, j);
    let mut j: usize = 0;
    while j < n_cols
        invariant
            j <= n_cols,
            n_blocks == n_rows / 32,
            src@.len() == n_blocks * 18 * n_cols,
            src@.len() <= usize::MAX,
            column == (|c: int| half_column(src@, n_rows as nat, c)),
            out@ == joined(j as nat, column),
        decreases n_cols - j,
    {
        let ghost before: Seq<u8> = out@;
        let ghost cell: spec_fn(int) -> Seq<u8> = |bi: int|
            q4_halves(q4_block(src@, n_blocks as int, j as int, bi));
        let mut bi: usize = 0;
        while bi < n_blocks
            invariant
                bi <= n_blocks,
                j < n_cols,
                n_blocks == n_rows / 32,
                src@.len() == n_blocks * 18 * n_cols,
                src@.len() <= usize::MAX,
                cell == (|b: int| q4_halves(q4_block(src@, n_blocks as int, j as int, b))),
                out@ == before + joined(bi as nat, cell),
            decreases n_blocks - bi,
        {
            proof {
                lemma_block_in(n_blocks as int, n_cols as int, j as int, bi as int);
            }
            let ghost so_far: Seq<u8> = out@;
            let s: usize = j * (n_blocks * Q4_0_BLOCK) + bi * Q4_0_BLOCK;
            push_halves(&mut out, vstd::slice::slice_subrange(src, s, s + Q4_0_BLOCK));
            proof {
                assert(out@ =~= so_far + cell(bi as int));
                assert(out@ =~= before + joined(bi as nat + 1, cell));
            }
            bi = bi + 1;
        }
        push_zeroes(&mut out, n_rows % 32 * 2);
        proof {
            assert(out@ =~= before + column(j as int));
        }
        j = j + 1;
    }
    Ok(out)
}

/// The numbers of a Q4_0 block, each with eight added, lie two in a byte: the first
/// sixteen in the low halves and the others in the high halves of the same bytes.
pub proof fn law_q4_0_unpacks(q: Seq<int>, b: Seq<u8>, t: int)
    requires
        q.len() == 32,
        b.len() == 18,
        0 <= t < 16,
        -8 <= q[t] < 8,
        -8 <= q[t + 16] < 8,
        b[2 + t] == (q[t] + 8) + 16 * (q[t + 16] + 8),
    ensures
        q4_number(b, t) == q[t],
        q4_number(b, t + 16) == q[t + 16],
{
}

/// Expanding keeps every number in its place: row `r` of column `j` is two bytes that
/// hold, in half precision, the number of that row times the scale of its block.
#[verifier::rlimit(60)]
pub proof fn law_halves_place(src: Seq<u8>, n_rows: nat, n_cols: nat, j: int, bi: int, t: int)
    requires
        0 <= j < n_cols,
        0 <= bi < n_rows / 32,
        0 <= t < 32,
        src.len() == n_rows / 32 * 18 * n_cols,
    ensures
        ({
            let from = j * (n_rows as int / 32 * 18) + bi * 18;
            let at = j * (n_rows * 2) + (bi * 32 + t) * 2;
            let number = if t < 16 {
                src[from + 2 + t] as int % 16 - 8
            } else {
                src[from + 2 + t - 16] as int / 16 - 8
            };
            let scale = (src[from] + 256 * src[from + 1]) as u16;
            let out = half_columns(src, n_rows, n_cols);
            &&& 0 <= at && at + 2 <= out.len()
            &&& out.len() == n_cols * (n_rows * 2)
            &&& out[at] + 256 * out[at + 1] == narrowed_fast(scaled(number, scale) as u32)
        }),
{
    let nb = n_rows / 32;
    let col = |c: int| half_column(src, n_rows, c);
    let width = n_rows * 2;
    assert forall|c: int| 0 <= c < n_cols implies (#[trigger] col(c)).len() == width by {
        lemma_half_column_len(src, n_rows, c);
    }
    law_joined_place(n_cols, col, width, j);
    let out = half_columns(src, n_rows, n_cols);
    assert(out == joined(n_cols, col));
    let base = j * width;
    assert(out.subrange(base, base + width) == col(j));
    let block = |k: int| q4_halves(q4_block(src, nb as int, j, k));
    assert forall|k: int| 0 <= k < nb implies (#[trigger] block(k)).len() == 64 by {
        lemma_halves_len(q4_block(src, nb as int, j, k));
    }
    law_joined_place(nb, block, 64, bi);
    let body = joined(nb, block);
    assert(body.subrange(bi * 64, bi * 64 + 64) == block(bi));
    let b = q4_block(src, nb as int, j, bi);
    let part = |k: int| q4_half(b, k);
    assert forall|k: int| 0 <= k < 32 implies (#[trigger] part(k)).len() == 2 by {}
    law_joined_place(32, part, 2, t);
    assert(q4_halves(b).subrange(t * 2, t * 2 + 2) == part(t));
    let at = bi * 64 + t * 2;
    assert(body.len() == nb * 64);
    assert(bi * 64 + 64 <= nb * 64);
    assert(col(j) == body + Seq::new(n_rows % 32 * 2, |i: int| 0u8));
    assert(col(j)[at] == body[at] && col(j)[at + 1] == body[at + 1]);
    assert(body[at] == body.subrange(bi * 64, bi * 64 + 64)[t * 2]);
    assert(body[at + 1] == body.subrange(bi * 64, bi * 64 + 64)[t * 2 + 1]);
    assert(q4_halves(b)[t * 2] == part(t)[0] && q4_halves(b)[t * 2 + 1] == part(t)[1]) by {
        assert(q4_halves(b).subrange(t * 2, t * 2 + 2)[0] == q4_halves(b)[t * 2]);
        assert(q4_halves(b).subrange(t * 2, t * 2 + 2)[1] == q4_halves(b)[t * 2 + 1]);
    }
    assert(out[base + at] == out.subrange(base, base + width)[at]);
    assert(out[base + at + 1] == out.subrange(base, base + width)[at + 1]);
    lemma_block_in(nb as int, n_cols as int, j, bi);
    let from = j * (nb as int * 18) + bi * 18;
    assert(b[0] == src[from] && b[1] == src[from + 1]);
    if t < 16 {
        assert(b[2 + t] == src[from + 2 + t]);
    } else {
        assert(b[2 + t - 16] == src[from + 2 + t - 16]);
    }
    lemma_narrowed_fast_range(scaled(q4_number(b, t), half_at(b, 0)) as u32);
}

proof fn lemma_halves_len(b: Seq<u8>)
    ensures
        q4_halves(b).len() == 64,
{
    let part = |k: int| q4_half(b, k);
    assert forall|k: int| 0 <= k < 32 implies (#[trigger] part(k)).len() == 2 by {}
    lemma_joined_len(32, part, 2);
}

proof fn lemma_half_column_len(src: Seq<u8>, n_rows: nat, j: int)
    ensures
        half_column(src, n_rows, j).len() == n_rows * 2,
{
    let nb = n_rows / 32;
    let block = |k: int| q4_halves(q4_block(src, nb as int, j, k));
    assert forall|k: int| 0 <= k < nb implies (#[trigger] block(k)).len() == 64 by {
        lemma_halves_len(q4_block(src, nb as int, j, k));
    }
    lemma_joined_len(nb, block, 64);
}

proof fn lemma_narrowed_fast_range(b: u32)
    ensures
        0 <= narrowed_fast(b) < 0x1_0000,
{
}

/// Blocks lie one behind the other, and two bytes of zero follow each compact one.
#[verifier::rlimit(60)]
pub proof fn law_blocks_in_row(
    raw: Seq<u8>,
    n_rows: nat,
    n_cols: nat,
    col_bytes: int,
    col: int,
    bi: int,
    size: int,
)
    requires
        0 <= col < n_cols,
        0 <= bi < n_rows / 256,
        0 <= col_bytes,
        (n_cols - 1) * col_bytes + n_rows / 256 * 210 <= raw.len(),
        0 <= size,
        (bi + 1) * size <= raw.len(),
    ensures
        block_at(raw, size, bi) == raw.subrange(bi * size, bi * size + size),
        ({
            let at = col * (n_rows / 256 * 212) + bi * 212;
            let out = q6_aligned(raw, n_rows, n_cols, col_bytes);
            out.len() == n_cols * (n_rows / 256 * 212) && out[at + 210] == 0 && out[at + 211] == 0
        }),
{
    let nb = n_rows / 256;
    let column = |c: int| q6_column(raw, nb, c * col_bytes);
    assert forall|c: int| 0 <= c < n_cols implies (#[trigger] column(c)).len() == nb * 212 by {
        lemma_column_in(c, n_cols as int, col_bytes, (nb * 210) as int, raw.len() as int);
        lemma_q6_column_len(raw, nb, c * col_bytes);
    }
    let block = |b: int| q6_block(raw, col * col_bytes + b * 210);
    lemma_column_in(col, n_cols as int, col_bytes, (nb * 210) as int, raw.len() as int);
    assert forall|b: int| 0 <= b < nb implies (#[trigger] block(b)).len() == 212 by {}
    lemma_nested_place(n_cols, nb, 212, column, block, col, bi, 210);
    lemma_nested_place(n_cols, nb, 212, column, block, col, bi, 211);
}

} // verus!
