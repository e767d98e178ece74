//! The header of a model file, and the bytes of its tensors.
use crate::gguf::bytes::{read_string, string_at, u32_at, u64_at, Cursor, Parsed};
use crate::gguf::error::{GgufError, GgufErrorView};
use crate::gguf::types::{GgmlType, GgufTensorInfo, TensorView};
use crate::gguf::value::{
    read_value, value_at, value_type_of, FloatBits, Value, ValueType, ValueView,
};
use crate::text::{decimal, push_decimal};
use vstd::hash_map::StringHashMap;
use vstd::prelude::*;

verus! {

/// `GGUF` as a little-endian number.
pub const GGUF_MAGIC: u32 = 0x4655_4747;

/// More tensors or metadata entries than this are refused.
pub const MAX_COUNT: u64 = 1_000_000;

/// The smallest multiple of `alignment` that is at least `value`.
pub open spec fn aligned(value: nat, alignment: nat) -> nat {
    if alignment == 0 {
        value
    } else {
        crate::gguf::types::div_ceil(value, alignment) * alignment
    }
}

/// The smaller of two numbers.
pub open spec fn least(a: nat, b: nat) -> nat {
    if a <= b {
        a
    } else {
        b
    }
}

/// Rounds `value` up to a multiple of `alignment`, where zero asks for no
/// rounding. Where no `u64` holds the multiple, the largest `u64` stands for it.
pub fn align_up(value: u64, alignment: u64) -> (r: u64)
    ensures
        r == least(aligned(value as nat, alignment as nat), u64::MAX as nat),
{
    if alignment == 0 {
        return value;
    }
    let over: u64 = value % alignment;
    proof {
        vstd::arithmetic::div_mod::lemma_fundamental_div_mod(value as int, alignment as int);
        let q = (value / alignment) as int;
        let a = alignment as int;
        assert((q + 1) * a == a * q + a) by (nonlinear_arith);
        assert(q * a == a * q) by (nonlinear_arith);
    }
    if over == 0 {
        value
    } else {
        match value.checked_add(alignment - over) {
            Some(n) => n,
            None => u64::MAX,
        }
    }
}

/// Rounding up gives a multiple of the alignment, at least the value and less
/// than one alignment above it.
pub proof fn law_aligned(value: nat, alignment: nat)
    requires
        alignment > 0,
    ensures
        aligned(value, alignment) % alignment == 0,
        value <= aligned(value, alignment) < value + alignment,
        aligned(aligned(value, alignment), alignment) == aligned(value, alignment),
{
    let a = alignment as int;
    let q = (value / alignment) as int;
    vstd::arithmetic::div_mod::lemma_fundamental_div_mod(value as int, a);
    assert((q + 1) * a == a * q + a) by (nonlinear_arith);
    assert(q * a == a * q) by (nonlinear_arith);
    let c = crate::gguf::types::div_ceil(value, alignment) as int;
    vstd::arithmetic::div_mod::lemma_mod_multiples_basic(c, a);
    vstd::arithmetic::div_mod::lemma_div_by_multiple(c, a);
}

/// The entries of a file in their order, each a key and a value.
pub type Pairs = Seq<(Seq<char>, ValueView)>;

/// Reading one metadata entry.
pub open spec fn pair_at(s: Seq<u8>, pos: int) -> Parsed<(Seq<char>, ValueView)> {
    match string_at(s, pos) {
        Err(e) => Err(e),
        Ok((key, p)) => match u32_at(s, p, "metadata value type"@) {
            Err(e) => Err(e),
            Ok((id, q)) => match value_type_of(id) {
                Err(e) => Err(e),
                Ok(ty) => match value_at(s, q, ty) {
                    Err(e) => Err(e),
                    Ok((value, end)) => Ok(((key, value), end)),
                },
            },
        },
    }
}

/// Reading `n` metadata entries.
pub open spec fn pairs_at(s: Seq<u8>, pos: int, n: nat) -> Parsed<Pairs>
    decreases n,
{
    if n == 0 {
        Ok((Seq::empty(), pos))
    } else {
        match pairs_at(s, pos, (n - 1) as nat) {
            Err(e) => Err(e),
            Ok((done, p)) => match pair_at(s, p) {
                Err(e) => Err(e),
                Ok((pair, q)) => Ok((done.push(pair), q)),
            },
        }
    }
}

/// What the entries say of each key: of two entries with one key the later
/// one counts.
pub open spec fn later_wins<V>(pairs: Seq<(Seq<char>, V)>) -> Map<Seq<char>, V>
    decreases pairs.len(),
{
    if pairs.len() == 0 {
        Map::empty()
    } else {
        later_wins(pairs.drop_last()).insert(pairs.last().0, pairs.last().1)
    }
}

/// Reading `n` dimensions.
pub open spec fn dims_at(s: Seq<u8>, pos: int, n: nat) -> Parsed<Seq<u64>>
    decreases n,
{
    if n == 0 {
        Ok((Seq::empty(), pos))
    } else {
        match dims_at(s, pos, (n - 1) as nat) {
            Err(e) => Err(e),
            Ok((done, p)) => match u64_at(s, p, "tensor dim"@) {
                Err(e) => Err(e),
                Ok((d, q)) => Ok((done.push(d), q)),
            },
        }
    }
}

/// The type that `v` stands for.
pub open spec fn ggml_type_of(v: u32) -> Result<GgmlType, GgufErrorView> {
    if exists|t: GgmlType| t.id() == v {
        Ok(choose|t: GgmlType| t.id() == v)
    } else {
        Err(GgufErrorView::UnknownTensorType(v))
    }
}

proof fn lemma_ggml_type_of(t: GgmlType)
    ensures
        ggml_type_of(t.id()) == Result::<GgmlType, GgufErrorView>::Ok(t),
{
    let u = choose|u: GgmlType| u.id() == t.id();
    assert(u.id() == t.id());
    crate::gguf::types::law_type_ids_differ(t, u);
}

/// Reading one tensor descriptor.
pub open spec fn tensor_at(s: Seq<u8>, pos: int) -> Parsed<TensorView> {
    match string_at(s, pos) {
        Err(e) => Err(e),
        Ok((name, p1)) => match u32_at(s, p1, "tensor n_dims"@) {
            Err(e) => Err(e),
            Ok((n_dims, p2)) => if n_dims > 4 {
                Err(
                    GgufErrorView::Malformed(
                        "tensor "@ + name + ": n_dims="@ + decimal(n_dims as nat) + " > 4"@,
                    ),
                )
            } else {
                match dims_at(s, p2, n_dims as nat) {
                    Err(e) => Err(e),
                    Ok((dims, p3)) => match u32_at(s, p3, "tensor type"@) {
                        Err(e) => Err(e),
                        Ok((id, p4)) => match ggml_type_of(id) {
                            Err(e) => Err(e),
                            Ok(ggml_type) => match u64_at(s, p4, "tensor offset"@) {
                                Err(e) => Err(e),
                                Ok((offset, end)) => Ok(
                                    (TensorView { name, dims, ggml_type, offset }, end),
                                ),
                            },
                        },
                    },
                }
            },
        },
    }
}

/// Reading `n` tensor descriptors.
pub open spec fn tensors_at(s: Seq<u8>, pos: int, n: nat) -> Parsed<Seq<TensorView>>
    decreases n,
{
    if n == 0 {
        Ok((Seq::empty(), pos))
    } else {
        match tensors_at(s, pos, (n - 1) as nat) {
            Err(e) => Err(e),
            Ok((done, p)) => match tensor_at(s, p) {
                Err(e) => Err(e),
                Ok((t, q)) => Ok((done.push(t), q)),
            },
        }
    }
}

/// The name of each tensor with its place in the list.
pub open spec fn names(tensors: Seq<TensorView>) -> Seq<(Seq<char>, usize)> {
    Seq::new(tensors.len(), |i: int| (tensors[i].name, i as usize))
}

/// The header of a file as a mathematical value.
pub struct HeaderView {
    pub version: u32,
    pub pairs: Pairs,
    pub tensors: Seq<TensorView>,
    /// Where the header ends.
    pub end: int,
}

impl HeaderView {
    /// What the metadata says of each key.
    pub open spec fn metadata(self) -> Map<Seq<char>, ValueView> {
        later_wins(self.pairs)
    }

    /// The place of each tensor name in the list.
    pub open spec fn index(self) -> Map<Seq<char>, usize> {
        later_wins(names(self.tensors))
    }

    /// The alignment of the data section: what the metadata says, else 32.
    pub open spec fn alignment(self) -> nat {
        let key = "general.alignment"@;
        if self.metadata().contains_key(key) && self.metadata()[key].as_u64() is Some {
            self.metadata()[key].as_u64()->0 as nat
        } else {
            32
        }
    }

    /// Where the data section begins.
    pub open spec fn data_offset(self) -> nat {
        least(aligned(self.end as nat, self.alignment()), u64::MAX as nat)
    }

    /// Where the bytes of tensor `i` begin and end, as far as a `u64` can tell.
    pub open spec fn span(self, i: int) -> (nat, nat) {
        let start = least(self.data_offset() + self.tensors[i].offset as nat, u64::MAX as nat);
        (start, least(start + byte_size(self.tensors[i]), u64::MAX as nat))
    }

    /// Whether the bytes of tensor `i` lie in a file of `len` bytes.
    pub open spec fn tensor_fits(self, i: int, len: nat) -> bool {
        byte_size(self.tensors[i]) <= u64::MAX && self.span(i).1 <= len
    }

    /// The first of the first `n` tensors whose bytes do not lie in a file of
    /// `len` bytes, as the error that it means.
    pub open spec fn check(self, n: nat, len: nat) -> Result<(), GgufErrorView>
        decreases n,
    {
        if n == 0 {
            Ok(())
        } else {
            match self.check((n - 1) as nat, len) {
                Err(e) => Err(e),
                Ok(_) => if self.tensor_fits(n - 1, len) {
                    Ok(())
                } else {
                    Err(
                        GgufErrorView::Malformed(
                            "tensor "@ + self.tensors[n - 1].name + " data ["@ + decimal(
                                self.span(n - 1).0,
                            ) + ", "@ + decimal(self.span(n - 1).1) + ") exceeds file size "@
                                + decimal(len),
                        ),
                    )
                },
            }
        }
    }
}

/// Bytes of a tensor; more than any `u64` where already its elements are.
pub open spec fn byte_size(t: TensorView) -> nat {
    if t.n_elements() > u64::MAX {
        u64::MAX as nat + 1
    } else {
        t.nbytes()
    }
}

/// Reading the header.
pub open spec fn header_of(s: Seq<u8>) -> Result<HeaderView, GgufErrorView> {
    match u32_at(s, 0, "magic"@) {
        Err(e) => Err(e),
        Ok((magic, _)) => if magic != GGUF_MAGIC {
            Err(GgufErrorView::BadMagic(magic))
        } else {
            match u32_at(s, 4, "version"@) {
                Err(e) => Err(e),
                Ok((version, _)) => if version != 2 && version != 3 {
                    Err(GgufErrorView::UnsupportedVersion(version))
                } else {
                    match u64_at(s, 8, "tensor count"@) {
                        Err(e) => Err(e),
                        Ok((n_tensors, _)) => match u64_at(s, 16, "metadata kv count"@) {
                            Err(e) => Err(e),
                            Ok((n_kv, p)) => body_of(s, p, version, n_tensors, n_kv),
                        },
                    }
                },
            }
        },
    }
}

/// Reading what follows the counts.
pub open spec fn body_of(
    s: Seq<u8>,
    pos: int,
    version: u32,
    n_tensors: u64,
    n_kv: u64,
) -> Result<HeaderView, GgufErrorView> {
    if n_tensors > MAX_COUNT || n_kv > MAX_COUNT {
        Err(
            GgufErrorView::Malformed(
                "unreasonable counts: tensors="@ + decimal(n_tensors as nat) + " kv="@ + decimal(
                    n_kv as nat,
                ),
            ),
        )
    } else {
        match pairs_at(s, pos, n_kv as nat) {
            Err(e) => Err(e),
            Ok((pairs, p)) => match tensors_at(s, p, n_tensors as nat) {
                Err(e) => Err(e),
                Ok((tensors, end)) => Ok(HeaderView { version, pairs, tensors, end }),
            },
        }
    }
}

/// Opening a file: its header is read, and the bytes of every tensor must lie
/// in the file.
pub open spec fn opened(s: Seq<u8>) -> Result<HeaderView, GgufErrorView> {
    match header_of(s) {
        Err(e) => Err(e),
        Ok(h) => match h.check(h.tensors.len(), s.len()) {
            Err(e) => Err(e),
            Ok(_) => Ok(h),
        },
    }
}

proof fn lemma_pairs_fail(s: Seq<u8>, pos: int, k: nat, n: nat)
    requires
        k <= n,
        pairs_at(s, pos, k) is Err,
    ensures
        pairs_at(s, pos, n) == pairs_at(s, pos, k),
    decreases n,
{
    if k < n {
        lemma_pairs_fail(s, pos, k, (n - 1) as nat);
    }
}

proof fn lemma_tensors_fail(s: Seq<u8>, pos: int, k: nat, n: nat)
    requires
        k <= n,
        tensors_at(s, pos, k) is Err,
    ensures
        tensors_at(s, pos, n) == tensors_at(s, pos, k),
    decreases n,
{
    if k < n {
        lemma_tensors_fail(s, pos, k, (n - 1) as nat);
    }
}

proof fn lemma_dims_fail(s: Seq<u8>, pos: int, k: nat, n: nat)
    requires
        k <= n,
        dims_at(s, pos, k) is Err,
    ensures
        dims_at(s, pos, n) == dims_at(s, pos, k),
    decreases n,
{
    if k < n {
        lemma_dims_fail(s, pos, k, (n - 1) as nat);
    }
}

proof fn lemma_check_fail(h: HeaderView, k: nat, n: nat, len: nat)
    requires
        k <= n,
        h.check(k, len) is Err,
    ensures
        h.check(n, len) == h.check(k, len),
    decreases n,
{
    if k < n {
        lemma_check_fail(h, k, (n - 1) as nat, len);
    }
}

/// What `check` accepts fits, every one.
proof fn lemma_check_ok(h: HeaderView, n: nat, len: nat)
    requires
        h.check(n, len) is Ok,
    ensures
        forall|i: int| 0 <= i < n ==> h.tensor_fits(i, len),
    decreases n,
{
    if n > 0 {
        lemma_check_ok(h, (n - 1) as nat, len);
    }
}

/// Of an opened file, the bytes of every tensor lie in the file.
pub proof fn law_tensors_lie_in_file(s: Seq<u8>, i: int)
    requires
        opened(s) is Ok,
        0 <= i < opened(s)->Ok_0.tensors.len(),
        s.len() < u64::MAX,
    ensures
        ({
            let h = opened(s)->Ok_0;
            h.data_offset() + h.tensors[i].offset + h.tensors[i].nbytes() <= s.len()
        }),
{
    let h = opened(s)->Ok_0;
    lemma_check_ok(h, h.tensors.len(), s.len());
    assert(h.tensor_fits(i, s.len()));
}

/// A model file: what its header says, and its bytes.
pub struct GgufFile<'a> {
    pub path: String,
    pub version: u32,
    pub metadata: StringHashMap<Value>,
    pub tensors: Vec<GgufTensorInfo>,
    pub tensor_index: StringHashMap<usize>,
    /// Where the data section begins in the file.
    pub data_offset: u64,
    pub bytes: &'a [u8],
}

/// Tensor descriptors as mathematical values.
pub open spec fn tensor_views(tensors: Seq<GgufTensorInfo>) -> Seq<TensorView> {
    tensors.map_values(|t: GgufTensorInfo| t@)
}

/// The values of a map as mathematical values.
pub open spec fn value_views(m: Map<Seq<char>, Value>) -> Map<Seq<char>, ValueView> {
    m.map_values(|v: Value| v@)
}

/// The sum of the sizes of the tensors.
pub open spec fn total_bytes(tensors: Seq<TensorView>) -> nat
    decreases tensors.len(),
{
    if tensors.len() == 0 {
        0
    } else {
        total_bytes(tensors.drop_last()) + tensors.last().nbytes()
    }
}

proof fn lemma_total_step(tensors: Seq<TensorView>, i: int)
    requires
        0 <= i < tensors.len(),
    ensures
        total_bytes(tensors.take(i + 1)) == total_bytes(tensors.take(i)) + tensors[i].nbytes(),
{
    assert(tensors.take(i + 1).drop_last() == tensors.take(i));
}

proof fn lemma_total_grows(tensors: Seq<TensorView>, i: int)
    requires
        0 <= i <= tensors.len(),
    ensures
        total_bytes(tensors.take(i)) <= total_bytes(tensors),
    decreases tensors.len() - i,
{
    if i == tensors.len() {
        assert(tensors.take(i) == tensors);
    } else {
        lemma_total_grows(tensors, i + 1);
        lemma_total_step(tensors, i);
    }
}

proof fn lemma_names_push(tensors: Seq<TensorView>, t: TensorView)
    requires
        tensors.len() <= usize::MAX,
    ensures
        names(tensors.push(t)).drop_last() == names(tensors),
        names(tensors.push(t)).last() == (t.name, tensors.len() as usize),
{
    assert(names(tensors.push(t)).drop_last() =~= names(tensors));
}

/// The places of an index lie in the list, and hold the name that leads there.
proof fn lemma_index(tensors: Seq<TensorView>, n: nat)
    requires
        n <= tensors.len(),
        tensors.len() <= usize::MAX,
    ensures
        forall|key: Seq<char>| #[trigger]
            later_wins(names(tensors).take(n as int)).contains_key(key) ==> {
                let i = later_wins(names(tensors).take(n as int))[key];
                i < n && tensors[i as int].name == key
            },
    decreases n,
{
    if n > 0 {
        lemma_index(tensors, (n - 1) as nat);
        let all = names(tensors).take(n as int);
        assert(all.drop_last() == names(tensors).take(n - 1));
        assert(all.last() == (tensors[n - 1].name, (n - 1) as usize));
    }
}

/// Of an opened file, the index leads a name to a tensor of that name, and
/// to the last one where several share it.
pub proof fn law_index_leads_to_name(tensors: Seq<TensorView>, i: int)
    requires
        0 <= i < tensors.len() <= usize::MAX,
    ensures
        later_wins(names(tensors)).contains_key(tensors[i].name),
        ({
            let k = later_wins(names(tensors))[tensors[i].name];
            i <= k < tensors.len() && tensors[k as int].name == tensors[i].name
        }),
    decreases tensors.len(),
{
    let all = names(tensors);
    assert(all.drop_last() == names(tensors.drop_last()));
    if tensors.last().name == tensors[i].name {
        assert(all.last() == (tensors[i].name, (tensors.len() - 1) as usize));
    } else {
        law_index_leads_to_name(tensors.drop_last(), i);
    }
}

impl<'a> GgufFile<'a> {
    /// The file holds what the header `h` says.
    pub open spec fn holds(self, h: HeaderView) -> bool {
        &&& self.version == h.version
        &&& value_views(self.metadata@) == h.metadata()
        &&& tensor_views(self.tensors@) == h.tensors
        &&& self.tensor_index@ == h.index()
        &&& self.data_offset == h.data_offset()
    }

    /// The bytes of every tensor lie in the file, and the index leads to
    /// tensors.
    pub open spec fn wf(self) -> bool {
        &&& forall|i: int|
            0 <= i < self.tensors@.len() ==> self.has_bytes(#[trigger] self.tensors@[i]@)
        &&& forall|key: Seq<char>| #[trigger]
            self.tensor_index@.contains_key(key) ==> self.tensor_index@[key] < self.tensors@.len()
                && self.tensors@[self.tensor_index@[key] as int]@.name == key
    }

    /// The bytes of `t` lie in the file.
    pub open spec fn has_bytes(self, t: TensorView) -> bool {
        &&& t.n_elements() <= u64::MAX
        &&& self.data_offset + t.offset + t.nbytes() <= self.bytes@.len()
    }

    /// What the metadata says of `key`.
    pub open spec fn meta(self, key: Seq<char>) -> Option<ValueView> {
        if self.metadata@.contains_key(key) {
            Some(self.metadata@[key]@)
        } else {
            None
        }
    }

    /// Reads the file whose bytes are `bytes`.
    pub fn open(path: String, bytes: &'a [u8]) -> (r: Result<GgufFile<'a>, GgufError>)
        ensures
            match r {
                Ok(f) => {
                    &&& opened(bytes@) is Ok
                    &&& f.holds(opened(bytes@)->Ok_0)
                    &&& f.path == path
                    &&& f.bytes == bytes
                    &&& bytes@.len() < u64::MAX ==> f.wf()
                },
                Err(e) => opened(bytes@) == Result::<HeaderView, GgufErrorView>::Err(e@),
            },
    {
        let mut cursor: Cursor<'a> = Cursor::new(bytes);
        let magic: u32 = match cursor.read_u32("magic") {
            Ok(v) => v,
            Err(e) => {
                return Err(e);
            },
        };
        if magic != GGUF_MAGIC {
            return Err(GgufError::BadMagic(magic));
        }
        let version: u32 = match cursor.read_u32("version") {
            Ok(v) => v,
            Err(e) => {
                return Err(e);
            },
        };
        if version != 2 && version != 3 {
            return Err(GgufError::UnsupportedVersion(version));
        }
        let n_tensors: u64 = match cursor.read_u64("tensor count") {
            Ok(v) => v,
            Err(e) => {
                return Err(e);
            },
        };
        let n_kv: u64 = match cursor.read_u64("metadata kv count") {
            Ok(v) => v,
            Err(e) => {
                return Err(e);
            },
        };
        if n_tensors > MAX_COUNT || n_kv > MAX_COUNT {
            let mut why: String = String::new();
            why.append("unreasonable counts: tensors=");
            push_decimal(&mut why, n_tensors);
            why.append(" kv=");
            push_decimal(&mut why, n_kv);
            proof {
                assert(why@ == "unreasonable counts: tensors="@ + decimal(n_tensors as nat)
                    + " kv="@ + decimal(n_kv as nat));
            }
            return Err(GgufError::Malformed(why));
        }
        let ghost after_counts: int = cursor.pos as int;
        let metadata: StringHashMap<Value> = match read_metadata(&mut cursor, n_kv) {
            Ok(m) => m,
            Err(e) => {
                return Err(e);
            },
        };
        let (tensors, tensor_index): (Vec<GgufTensorInfo>, StringHashMap<usize>) =
            match read_tensors(&mut cursor, n_tensors) {
            Ok(t) => t,
            Err(e) => {
                return Err(e);
            },
        };
        let ghost h: HeaderView = header_of(bytes@)->Ok_0;
        let alignment: u64 = match metadata.get("general.alignment") {
            Some(v) => match v.as_u64() {
                Some(n) => n,
                None => 32,
            },
            None => 32,
        };
        proof {
            let key = "general.alignment"@;
            assert(value_views(metadata@).contains_key(key) == metadata@.contains_key(key));
        }
        let data_offset: u64 = align_up(cursor.pos as u64, alignment);
        let file = GgufFile {
            path,
            version,
            metadata,
            tensors,
            tensor_index,
            data_offset,
            bytes,
        };
        match file.check_bounds(Ghost(h)) {
            Ok(_) => {
                proof {
                    lemma_check_ok(h, h.tensors.len(), bytes@.len());
                    assert(file.tensors.len() == file.tensors@.len());
                    lemma_index(h.tensors, h.tensors.len());
                    assert(names(h.tensors).take(h.tensors.len() as int) == names(h.tensors));
                    if bytes@.len() < u64::MAX {
                        assert forall|i: int| 0 <= i < file.tensors@.len() implies file.has_bytes(
                            #[trigger] file.tensors@[i]@,
                        ) by {
                            assert(file.tensors@[i]@ == h.tensors[i]);
                            assert(h.tensor_fits(i, bytes@.len()));
                        }
                        assert forall|key: Seq<char>| #[trigger]
                            file.tensor_index@.contains_key(key) implies file.tensor_index@[key]
                            < file.tensors@.len()
                            && file.tensors@[file.tensor_index@[key] as int]@.name == key by {
                            let i = file.tensor_index@[key] as int;
                            assert(file.tensors@[i]@ == h.tensors[i]);
                        }
                    }
                }
                Ok(file)
            },
            Err(e) => Err(e),
        }
    }

    /// Refuses the file where the bytes of a tensor do not lie in it.
    fn check_bounds(&self, h: Ghost<HeaderView>) -> (r: Result<(), GgufError>)
        requires
            tensor_views(self.tensors@) == h@.tensors,
            self.data_offset == h@.data_offset(),
        ensures
            match r {
                Ok(_) => h@.check(h@.tensors.len(), self.bytes@.len()) is Ok,
                Err(e) => h@.check(h@.tensors.len(), self.bytes@.len()) == Result::<
                    (),
                    GgufErrorView,
                >::Err(e@),
            },
    {
        let file_len: u64 = self.bytes.len() as u64;
        let mut i: usize = 0;
        while i < self.tensors.len()
            invariant
                i <= self.tensors@.len(),
                file_len == self.bytes@.len(),
                tensor_views(self.tensors@) == h@.tensors,
                self.data_offset == h@.data_offset(),
                h@.check(i as nat, self.bytes@.len()) is Ok,
            decreases self.tensors@.len() - i,
        {
            let t: &GgufTensorInfo = &self.tensors[i];
            assert(t@ == h@.tensors[i as int]);
            let start: u64 = self.data_offset.saturating_add(t.offset);
            let size: Option<u64> = t.checked_nbytes();
            let end: u64 = match size {
                Some(n) => start.saturating_add(n),
                None => u64::MAX,
            };
            if size.is_none() || end > file_len {
                let mut why: String = String::new();
                why.append("tensor ");
                why.append(t.name.as_str());
                why.append(" data [");
                push_decimal(&mut why, start);
                why.append(", ");
                push_decimal(&mut why, end);
                why.append(") exceeds file size ");
                push_decimal(&mut why, file_len);
                proof {
                    assert(why@ == "tensor "@ + t@.name + " data ["@ + decimal(start as nat)
                        + ", "@ + decimal(end as nat) + ") exceeds file size "@ + decimal(
                        file_len as nat,
                    ));
                    assert(h@.check((i + 1) as nat, self.bytes@.len()) is Err);
                    lemma_check_fail(
                        h@,
                        (i + 1) as nat,
                        h@.tensors.len(),
                        self.bytes@.len(),
                    );
                }
                return Err(GgufError::Malformed(why));
            }
            i = i + 1;
        }
        Ok(())
    }

    /// The architecture that the metadata names.
    pub fn architecture(&self) -> (r: Option<&str>)
        ensures
            is_text(r, self.meta("general.architecture"@)),
    {
        self.meta_str("general.architecture")
    }

    /// The name that the metadata gives to the model.
    pub fn name(&self) -> (r: Option<&str>)
        ensures
            is_text(r, self.meta("general.name"@)),
    {
        self.meta_str("general.name")
    }

    /// The metadata of `key` as a `u64`.
    pub fn meta_u64(&self, key: &str) -> (r: Option<u64>)
        ensures
            r == (match self.meta(key@) {
                Some(v) => v.as_u64(),
                None => None,
            }),
    {
        match self.metadata.get(key) {
            Some(v) => v.as_u64(),
            None => None,
        }
    }

    /// The metadata of `key` as a `u32`.
    pub fn meta_u32(&self, key: &str) -> (r: Option<u32>)
        ensures
            r == (match self.meta(key@) {
                Some(v) => v.as_u32(),
                None => None,
            }),
    {
        match self.metadata.get(key) {
            Some(v) => v.as_u32(),
            None => None,
        }
    }

    /// The metadata of `key` as the bits of a floating-point number.
    pub fn meta_f32(&self, key: &str) -> (r: Option<FloatBits>)
        ensures
            r == (match self.meta(key@) {
                Some(v) => v.as_f32(),
                None => None,
            }),
    {
        match self.metadata.get(key) {
            Some(v) => v.as_f32(),
            None => None,
        }
    }

    /// The metadata of `key` as a text.
    pub fn meta_str(&self, key: &str) -> (r: Option<&str>)
        ensures
            is_text(r, self.meta(key@)),
    {
        match self.metadata.get(key) {
            Some(v) => v.as_str(),
            None => None,
        }
    }

    /// The tensor of that name.
    pub fn tensor(&self, name: &str) -> (r: Option<&GgufTensorInfo>)
        requires
            self.wf(),
        ensures
            match r {
                Some(t) => {
                    &&& self.tensor_index@.contains_key(name@)
                    &&& *t == self.tensors@[self.tensor_index@[name@] as int]
                    &&& t@.name == name@
                    &&& self.has_bytes(t@)
                },
                None => !self.tensor_index@.contains_key(name@),
            },
    {
        match self.tensor_index.get(name) {
            Some(i) => {
                let t: &GgufTensorInfo = &self.tensors[*i];
                Some(t)
            },
            None => None,
        }
    }

    /// The bytes of a tensor.
    pub fn tensor_data(&self, info: &GgufTensorInfo) -> (r: &[u8])
        requires
            self.has_bytes(info@),
        ensures
            r@ == self.bytes@.subrange(
                self.data_offset + info.offset,
                self.data_offset + info.offset + info@.nbytes(),
            ),
    {
        assert(self.bytes.len() == self.bytes@.len());
        let n: u64 = info.nbytes();
        let start: u64 = self.data_offset + info.offset;
        let end: u64 = start + n;
        vstd::slice::slice_subrange(self.bytes, start as usize, end as usize)
    }

    /// The size of the file in bytes.
    pub fn file_size(&self) -> (r: u64)
        ensures
            r == self.bytes@.len(),
    {
        self.bytes.len() as u64
    }

    /// The sum of the sizes of all tensors.
    pub fn total_tensor_bytes(&self) -> (r: u64)
        requires
            self.wf(),
            total_bytes(tensor_views(self.tensors@)) <= u64::MAX,
        ensures
            r == total_bytes(tensor_views(self.tensors@)),
    {
        let mut sum: u64 = 0;
        let mut i: usize = 0;
        let ghost all: Seq<TensorView> = tensor_views(self.tensors@);
        while i < self.tensors.len()
            invariant
                self.wf(),
                i <= self.tensors@.len(),
                all == tensor_views(self.tensors@),
                total_bytes(all) <= u64::MAX,
                sum == total_bytes(all.take(i as int)),
            decreases self.tensors@.len() - i,
        {
            proof {
                assert(self.has_bytes(self.tensors@[i as int]@));
                assert(all[i as int] == self.tensors@[i as int]@);
                assert(self.bytes.len() == self.bytes@.len());
                lemma_total_step(all, i as int);
                lemma_total_grows(all, i as int + 1);
            }
            sum = sum + self.tensors[i].nbytes();
            i = i + 1;
        }
        proof {
            assert(all.take(all.len() as int) == all);
        }
        sum
    }
}

/// Whether `r` is the text of the value `v`.
pub open spec fn is_text(r: Option<&str>, v: Option<ValueView>) -> bool {
    match r {
        Some(s) => v is Some && v->0.as_str() == Some(s@),
        None => v is None || v->0.as_str() is None,
    }
}

/// Reads `n` metadata entries into a map.
fn read_metadata(r: &mut Cursor<'_>, n: u64) -> (out: Result<StringHashMap<Value>, GgufError>)
    requires
        old(r).wf(),
    ensures
        final(r).wf(),
        final(r).bytes == old(r).bytes,
        match out {
            Ok(m) => pairs_at(old(r).bytes@, old(r).pos as int, n as nat) matches Ok((pairs, p))
                && p == final(r).pos && value_views(m@) == later_wins(pairs),
            Err(e) => pairs_at(old(r).bytes@, old(r).pos as int, n as nat) == Parsed::<Pairs>::Err(
                e@,
            ),
        },
{
    let ghost s: Seq<u8> = r.bytes@;
    let ghost first: int = r.pos as int;
    let mut m: StringHashMap<Value> = StringHashMap::new();
    let mut i: u64 = 0;
    proof {
        assert(value_views(m@) =~= Map::<Seq<char>, ValueView>::empty());
    }
    while i < n
        invariant
            i <= n,
            r.wf(),
            r.bytes == old(r).bytes,
            s == r.bytes@,
            first == old(r).pos,
            pairs_at(s, first, i as nat) matches Ok((pairs, p)) && p == r.pos && value_views(m@)
                == later_wins(pairs),
        decreases n - i,
    {
        let ghost done: Pairs = pairs_at(s, first, i as nat)->Ok_0.0;
        let (key, value): (String, Value) = match read_pair(r) {
            Ok(p) => p,
            Err(e) => {
                proof {
                    assert(pairs_at(s, first, i as nat + 1) is Err);
                    lemma_pairs_fail(s, first, i as nat + 1, n as nat);
                }
                return Err(e);
            },
        };
        proof {
            let pairs = done.push((key@, value@));
            assert(pairs_at(s, first, (i + 1) as nat) == Parsed::<Pairs>::Ok(
                (pairs, r.pos as int),
            ));
            assert(pairs.drop_last() == done);
            assert(value_views(m@.insert(key@, value)) =~= value_views(m@).insert(key@, value@));
        }
        m.insert(key, value);
        i = i + 1;
    }
    Ok(m)
}

/// Reads one metadata entry.
fn read_pair(r: &mut Cursor<'_>) -> (out: Result<(String, Value), GgufError>)
    requires
        old(r).wf(),
    ensures
        final(r).wf(),
        final(r).bytes == old(r).bytes,
        match out {
            Ok((key, value)) => pair_at(old(r).bytes@, old(r).pos as int) == Parsed::<
                (Seq<char>, ValueView),
            >::Ok(((key@, value@), final(r).pos as int)),
            Err(e) => pair_at(old(r).bytes@, old(r).pos as int) == Parsed::<
                (Seq<char>, ValueView),
            >::Err(e@),
        },
{
    let key: String = match read_string(r) {
        Ok(v) => v,
        Err(e) => {
            return Err(e);
        },
    };
    let id: u32 = match r.read_u32("metadata value type") {
        Ok(v) => v,
        Err(e) => {
            return Err(e);
        },
    };
    let ty: ValueType = match ValueType::from_u32(id) {
        Ok(v) => v,
        Err(e) => {
            return Err(e);
        },
    };
    proof {
        crate::gguf::value::lemma_value_type_of(ty);
    }
    match read_value(r, ty) {
        Ok(value) => Ok((key, value)),
        Err(e) => Err(e),
    }
}

/// Reads `n` dimensions.
fn read_dims(r: &mut Cursor<'_>, n: u32) -> (out: Result<Vec<u64>, GgufError>)
    requires
        old(r).wf(),
    ensures
        final(r).wf(),
        final(r).bytes == old(r).bytes,
        match out {
            Ok(dims) => dims_at(old(r).bytes@, old(r).pos as int, n as nat) == Parsed::<
                Seq<u64>,
            >::Ok((dims@, final(r).pos as int)),
            Err(e) => dims_at(old(r).bytes@, old(r).pos as int, n as nat) == Parsed::<
                Seq<u64>,
            >::Err(e@),
        },
{
    let ghost s: Seq<u8> = r.bytes@;
    let ghost first: int = r.pos as int;
    let mut dims: Vec<u64> = Vec::new();
    let mut i: u32 = 0;
    while i < n
        invariant
            i <= n,
            r.wf(),
            r.bytes == old(r).bytes,
            s == r.bytes@,
            first == old(r).pos,
            dims_at(s, first, i as nat) == Parsed::<Seq<u64>>::Ok((dims@, r.pos as int)),
        decreases n - i,
    {
        match r.read_u64("tensor dim") {
            Ok(d) => {
                dims.push(d);
            },
            Err(e) => {
                proof {
                    assert(dims_at(s, first, i as nat + 1) is Err);
                    lemma_dims_fail(s, first, i as nat + 1, n as nat);
                }
                return Err(e);
            },
        }
        i = i + 1;
    }
    Ok(dims)
}

/// Reads one tensor descriptor.
fn read_tensor(r: &mut Cursor<'_>) -> (out: Result<GgufTensorInfo, GgufError>)
    requires
        old(r).wf(),
    ensures
        final(r).wf(),
        final(r).bytes == old(r).bytes,
        match out {
            Ok(t) => tensor_at(old(r).bytes@, old(r).pos as int) == Parsed::<TensorView>::Ok(
                (t@, final(r).pos as int),
            ),
            Err(e) => tensor_at(old(r).bytes@, old(r).pos as int) == Parsed::<TensorView>::Err(e@),
        },
{
    let name: String = match read_string(r) {
        Ok(v) => v,
        Err(e) => {
            return Err(e);
        },
    };
    let n_dims: u32 = match r.read_u32("tensor n_dims") {
        Ok(v) => v,
        Err(e) => {
            return Err(e);
        },
    };
    if n_dims > 4 {
        let mut why: String = String::new();
        why.append("tensor ");
        why.append(name.as_str());
        why.append(": n_dims=");
        push_decimal(&mut why, n_dims as u64);
        why.append(" > 4");
        proof {
            assert(why@ == "tensor "@ + name@ + ": n_dims="@ + decimal(n_dims as nat) + " > 4"@);
        }
        return Err(GgufError::Malformed(why));
    }
    let dims: Vec<u64> = match read_dims(r, n_dims) {
        Ok(v) => v,
        Err(e) => {
            return Err(e);
        },
    };
    let id: u32 = match r.read_u32("tensor type") {
        Ok(v) => v,
        Err(e) => {
            return Err(e);
        },
    };
    let ggml_type: GgmlType = match GgmlType::from_u32(id) {
        Some(t) => t,
        None => {
            return Err(GgufError::UnknownTensorType(id));
        },
    };
    proof {
        lemma_ggml_type_of(ggml_type);
    }
    let offset: u64 = match r.read_u64("tensor offset") {
        Ok(v) => v,
        Err(e) => {
            return Err(e);
        },
    };
    Ok(GgufTensorInfo { name, dims, ggml_type, offset })
}

/// Reads `n` tensor descriptors, and keeps the place of each name.
fn read_tensors(r: &mut Cursor<'_>, n: u64) -> (out: Result<
    (Vec<GgufTensorInfo>, StringHashMap<usize>),
    GgufError,
>)
    requires
        old(r).wf(),
        n <= MAX_COUNT,
    ensures
        final(r).wf(),
        final(r).bytes == old(r).bytes,
        match out {
            Ok((tensors, index)) => {
                &&& tensors_at(old(r).bytes@, old(r).pos as int, n as nat) == Parsed::<
                    Seq<TensorView>,
                >::Ok((tensor_views(tensors@), final(r).pos as int))
                &&& index@ == later_wins(names(tensor_views(tensors@)))
            },
            Err(e) => tensors_at(old(r).bytes@, old(r).pos as int, n as nat) == Parsed::<
                Seq<TensorView>,
            >::Err(e@),
        },
{
    let ghost s: Seq<u8> = r.bytes@;
    let ghost first: int = r.pos as int;
    let mut tensors: Vec<GgufTensorInfo> = Vec::new();
    let mut index: StringHashMap<usize> = StringHashMap::new();
    let mut i: u64 = 0;
    proof {
        assert(tensor_views(tensors@) =~= Seq::<TensorView>::empty());
    }
    while i < n
        invariant
            i <= n <= MAX_COUNT,
            r.wf(),
            r.bytes == old(r).bytes,
            s == r.bytes@,
            first == old(r).pos,
            tensors@.len() == i,
            tensors_at(s, first, i as nat) == Parsed::<Seq<TensorView>>::Ok(
                (tensor_views(tensors@), r.pos as int),
            ),
            index@ == later_wins(names(tensor_views(tensors@))),
        decreases n - i,
    {
        let t: GgufTensorInfo = match read_tensor(r) {
            Ok(t) => t,
            Err(e) => {
                proof {
                    assert(tensors_at(s, first, i as nat + 1) is Err);
                    lemma_tensors_fail(s, first, i as nat + 1, n as nat);
                }
                return Err(e);
            },
        };
        proof {
            assert(tensor_views(tensors@.push(t)) =~= tensor_views(tensors@).push(t@));
            lemma_names_push(tensor_views(tensors@), t@);
        }
        index.insert(t.name.clone(), i as usize);
        tensors.push(t);
        i = i + 1;
    }
    Ok((tensors, index))
}

/// A file begins with four letters, the version, the number of tensors and the number
/// of pairs, and has as many of both as it says.
pub proof fn law_header_layout(s: Seq<u8>)
    requires
        header_of(s) is Ok,
    ensures
        ({
            let h = header_of(s)->Ok_0;
            let tensors = u64_at(s, 8, "tensor count"@)->Ok_0.0;
            let pairs = u64_at(s, 16, "metadata kv count"@)->Ok_0.0;
            &&& s.len() >= 24
            &&& s[0] == 0x47 && s[1] == 0x47 && s[2] == 0x55 && s[3] == 0x46
            &&& h.version == s[4] + 256 * s[5] + 65536 * s[6] + 16777216 * s[7]
            &&& h.version == 2 || h.version == 3
            &&& h.tensors.len() == tensors
            &&& h.pairs.len() == pairs
        }),
{
    crate::gguf::bytes::law_numbers_in_bytes(s, 0, "magic"@);
    crate::gguf::bytes::law_numbers_in_bytes(s, 4, "version"@);
    let n_tensors = u64_at(s, 8, "tensor count"@)->Ok_0.0;
    let n_kv = u64_at(s, 16, "metadata kv count"@)->Ok_0.0;
    lemma_counts(s, 24, n_kv as nat);
    lemma_tensor_count(s, pairs_at(s, 24, n_kv as nat)->Ok_0.1, n_tensors as nat);
    assert(GGUF_MAGIC == 0x4655_4747);
}

proof fn lemma_counts(s: Seq<u8>, pos: int, n: nat)
    ensures
        pairs_at(s, pos, n) matches Ok((done, p)) ==> done.len() == n,
    decreases n,
{
    if n > 0 {
        lemma_counts(s, pos, (n - 1) as nat);
    }
}

proof fn lemma_tensor_count(s: Seq<u8>, pos: int, n: nat)
    ensures
        tensors_at(s, pos, n) matches Ok((done, p)) ==> done.len() == n,
    decreases n,
{
    if n > 0 {
        lemma_tensor_count(s, pos, (n - 1) as nat);
    }
}

/// A tensor is described by its name, the number of its sides, its sides, its type and
/// where its data begins, in this order and without gaps.
pub proof fn law_tensor_layout(s: Seq<u8>, pos: int, i: int)
    requires
        0 <= pos,
    ensures
        tensor_at(s, pos) matches Ok((t, end)) ==> {
            let name = string_at(s, pos)->Ok_0;
            let n = t.dims.len();
            &&& string_at(s, pos) is Ok
            &&& t.name == name.0
            &&& n <= 4
            &&& n == u32_at(s, name.1, "tensor n_dims"@)->Ok_0.0
            &&& 0 <= i < n ==> t.dims[i] == u64_at(s, name.1 + 4 + 8 * i, "tensor dim"@)->Ok_0.0
            &&& t.ggml_type.id() == u32_at(s, name.1 + 4 + 8 * n, "tensor type"@)->Ok_0.0
            &&& t.offset == u64_at(s, name.1 + 8 + 8 * n, "tensor offset"@)->Ok_0.0
            &&& end == name.1 + 16 + 8 * n
        },
{
    if let Ok((name, p)) = string_at(s, pos) {
        if let Ok((n, q)) = u32_at(s, p, "tensor n_dims"@) {
            lemma_dims(s, q, n as nat, i);
            if let Ok((id, r)) = u32_at(s, q + 8 * n, "tensor type"@) {
                if exists|t: GgmlType| t.id() == id {
                    let t = choose|t: GgmlType| t.id() == id;
                    assert(t.id() == id);
                }
            }
        }
    }
}

proof fn lemma_dims(s: Seq<u8>, pos: int, n: nat, i: int)
    ensures
        dims_at(s, pos, n) matches Ok((dims, end)) ==> {
            &&& dims.len() == n
            &&& end == pos + 8 * n
            &&& 0 <= i < n ==> dims[i] == u64_at(s, pos + 8 * i, "tensor dim"@)->Ok_0.0
        },
    decreases n,
{
    if n > 0 {
        lemma_dims(s, pos, (n - 1) as nat, i);
    }
}

/// A name that stands more than once leads to what stands last, and only names that
/// stand there lead anywhere.
pub proof fn law_last_one_wins<V>(pairs: Seq<(Seq<char>, V)>, key: Seq<char>)
    ensures
        later_wins(pairs).contains_key(key) <==> exists|i: int|
            0 <= i < pairs.len() && (#[trigger] pairs[i]).0 == key,
        forall|i: int|
            0 <= i < pairs.len() && (#[trigger] pairs[i]).0 == key && (forall|j: int|
                i < j < pairs.len() ==> (#[trigger] pairs[j]).0 != key) ==> later_wins(pairs)[key]
                == pairs[i].1,
    decreases pairs.len(),
{
    if pairs.len() > 0 {
        let before = pairs.drop_last();
        law_last_one_wins(before, key);
        assert(forall|i: int| 0 <= i < before.len() ==> before[i] == pairs[i]);
        assert(pairs[pairs.len() - 1] == pairs.last());
        assert forall|i: int|
            0 <= i < pairs.len() && (#[trigger] pairs[i]).0 == key && (forall|j: int|
                i < j < pairs.len() ==> (#[trigger] pairs[j]).0 != key) implies later_wins(
            pairs,
        )[key] == pairs[i].1 by {
            if i < before.len() {
                assert(before[i] == pairs[i]);
                assert(pairs[pairs.len() - 1].0 != key);
                assert forall|j: int| i < j < before.len() implies (#[trigger] before[j]).0
                    != key by {
                    assert(before[j] == pairs[j]);
                }
            }
        }
    }
}

/// The data begins at the first place behind the descriptions that the alignment allows,
/// which is 32 where the file does not say it.
pub proof fn law_data_begins(h: HeaderView)
    requires
        h.alignment() > 0,
        0 <= h.end,
        h.end + h.alignment() <= u64::MAX,
    ensures
        h.data_offset() % h.alignment() == 0,
        h.end <= h.data_offset() < h.end + h.alignment(),
        !h.metadata().contains_key("general.alignment"@) ==> h.alignment() == 32,
        h.metadata().contains_key("general.alignment"@) ==> (
        h.metadata()["general.alignment"@].as_u64() matches Some(n) ==> h.alignment() == n),
{
    law_aligned(h.end as nat, h.alignment());
}

} // verus!
