//! Metadata values: their types, reading them, and what they give.
use crate::gguf::bytes::{
    at_end, i16_at, i32_at, i64_at, i8_at, read_string, string_at, u16_at, u32_at, u64_at, u8_at,
    Cursor, Parsed,
};
use crate::gguf::error::{GgufError, GgufErrorView};
use crate::text::{decimal, decimal_string, push_decimal, signed_decimal, signed_string};
use vstd::prelude::*;
use vstd::string::StringSliceAdditionalSpecFns;
use vstd::utf8::{decode_utf8, encode_utf8, is_char_boundary};

verus! {

/// The types of metadata values.
#[derive(Debug, Clone, Copy, PartialEq, Eq, Structural)]
pub enum ValueType {
    U8,
    I8,
    U16,
    I16,
    U32,
    I32,
    F32,
    Bool,
    String,
    Array,
    U64,
    I64,
    F64,
}

impl ValueType {
    /// The number that stands for the type in a file.
    pub open spec fn id(self) -> u32 {
        match self {
            ValueType::U8 => 0,
            ValueType::I8 => 1,
            ValueType::U16 => 2,
            ValueType::I16 => 3,
            ValueType::U32 => 4,
            ValueType::I32 => 5,
            ValueType::F32 => 6,
            ValueType::Bool => 7,
            ValueType::String => 8,
            ValueType::Array => 9,
            ValueType::U64 => 10,
            ValueType::I64 => 11,
            ValueType::F64 => 12,
        }
    }

    /// The type that `v` stands for.
    pub fn from_u32(v: u32) -> (r: Result<ValueType, GgufError>)
        ensures
            match r {
                Ok(t) => t.id() == v,
                Err(e) => e@ == GgufErrorView::UnknownValueType(v) && forall|t: ValueType|
                    t.id() != v,
            },
    {
        match v {
            0 => Ok(ValueType::U8),
            1 => Ok(ValueType::I8),
            2 => Ok(ValueType::U16),
            3 => Ok(ValueType::I16),
            4 => Ok(ValueType::U32),
            5 => Ok(ValueType::I32),
            6 => Ok(ValueType::F32),
            7 => Ok(ValueType::Bool),
            8 => Ok(ValueType::String),
            9 => Ok(ValueType::Array),
            10 => Ok(ValueType::U64),
            11 => Ok(ValueType::I64),
            12 => Ok(ValueType::F64),
            _ => Err(GgufError::UnknownValueType(v)),
        }
    }
}

/// No two value types share a number.
pub proof fn law_value_type_ids_differ(a: ValueType, b: ValueType)
    requires
        a.id() == b.id(),
    ensures
        a == b,
{
}

/// The type that `v` stands for.
pub open spec fn value_type_of(v: u32) -> Result<ValueType, GgufErrorView> {
    if exists|t: ValueType| t.id() == v {
        Ok(choose|t: ValueType| t.id() == v)
    } else {
        Err(GgufErrorView::UnknownValueType(v))
    }
}

pub(crate) proof fn lemma_value_type_of(t: ValueType)
    ensures
        value_type_of(t.id()) == Result::<ValueType, GgufErrorView>::Ok(t),
{
    let u = choose|u: ValueType| u.id() == t.id();
    assert(u.id() == t.id());
    law_value_type_ids_differ(t, u);
}

/// The bits of a floating-point number, in single or in double precision.
#[derive(Debug, Clone, Copy, PartialEq, Eq, Structural)]
pub enum FloatBits {
    Single(u32),
    Double(u64),
}

/// A metadata value. Floating-point numbers are held by their bits.
#[derive(Debug)]
pub enum Value {
    U8(u8),
    I8(i8),
    U16(u16),
    I16(i16),
    U32(u32),
    I32(i32),
    F32(u32),
    Bool(bool),
    String(String),
    Array { item_type: ValueType, items: Vec<Value> },
    U64(u64),
    I64(i64),
    F64(u64),
}

/// A metadata value as a mathematical value.
pub enum ValueView {
    U8(u8),
    I8(i8),
    U16(u16),
    I16(i16),
    U32(u32),
    I32(i32),
    F32(u32),
    Bool(bool),
    String(Seq<char>),
    Array { item_type: ValueType, items: Seq<ValueView> },
    U64(u64),
    I64(i64),
    F64(u64),
}

impl ValueView {
    /// The value as a `u32`, where it is a small enough non-negative integer
    /// of one of the types that are taken.
    pub open spec fn as_u32(self) -> Option<u32> {
        match self {
            ValueView::U32(v) => Some(v),
            ValueView::U64(v) => if v <= u32::MAX {
                Some(v as u32)
            } else {
                None
            },
            ValueView::I32(v) => if v >= 0 {
                Some(v as u32)
            } else {
                None
            },
            ValueView::U8(v) => Some(v as u32),
            ValueView::U16(v) => Some(v as u32),
            _ => None,
        }
    }

    /// The value as a `u64`, where it is a non-negative integer of one of the
    /// types that are taken.
    pub open spec fn as_u64(self) -> Option<u64> {
        match self {
            ValueView::U64(v) => Some(v),
            ValueView::U32(v) => Some(v as u64),
            ValueView::I64(v) => if v >= 0 {
                Some(v as u64)
            } else {
                None
            },
            ValueView::I32(v) => if v >= 0 {
                Some(v as u64)
            } else {
                None
            },
            ValueView::U8(v) => Some(v as u64),
            ValueView::U16(v) => Some(v as u64),
            _ => None,
        }
    }

    /// The bits of the value, where it is a floating-point number.
    pub open spec fn as_f32(self) -> Option<FloatBits> {
        match self {
            ValueView::F32(b) => Some(FloatBits::Single(b)),
            ValueView::F64(b) => Some(FloatBits::Double(b)),
            _ => None,
        }
    }

    /// The text of the value, where it is a string.
    pub open spec fn as_str(self) -> Option<Seq<char>> {
        match self {
            ValueView::String(s) => Some(s),
            _ => None,
        }
    }

    /// The truth of the value, where it is a boolean.
    pub open spec fn as_bool(self) -> Option<bool> {
        match self {
            ValueView::Bool(b) => Some(b),
            _ => None,
        }
    }

    /// A short text of the value; `float` is the text of a floating-point
    /// number. A string of more than 80 bytes is cut there.
    pub open spec fn short_text(self, float: Seq<char>) -> Seq<char> {
        match self {
            ValueView::U8(v) => decimal(v as nat),
            ValueView::I8(v) => signed_decimal(v as int),
            ValueView::U16(v) => decimal(v as nat),
            ValueView::I16(v) => signed_decimal(v as int),
            ValueView::U32(v) => decimal(v as nat),
            ValueView::I32(v) => signed_decimal(v as int),
            ValueView::F32(_) => float,
            ValueView::Bool(b) => if b {
                "true"@
            } else {
                "false"@
            },
            ValueView::String(s) => if encode_utf8(s).len() > 80 {
                "\""@ + decode_utf8(encode_utf8(s).take(80)) + "…\" ("@ + decimal(
                    encode_utf8(s).len(),
                ) + " bytes)"@
            } else {
                "\""@ + s + "\""@
            },
            ValueView::Array { item_type, items } => "array["@ + value_type_name(item_type) + "; "@
                + decimal(items.len()) + " items]"@,
            ValueView::U64(v) => decimal(v as nat),
            ValueView::I64(v) => signed_decimal(v as int),
            ValueView::F64(_) => float,
        }
    }
}

/// `v` as a mathematical value.
pub open spec fn value_view(v: Value) -> ValueView
    decreases v,
{
    match v {
        Value::U8(x) => ValueView::U8(x),
        Value::I8(x) => ValueView::I8(x),
        Value::U16(x) => ValueView::U16(x),
        Value::I16(x) => ValueView::I16(x),
        Value::U32(x) => ValueView::U32(x),
        Value::I32(x) => ValueView::I32(x),
        Value::F32(x) => ValueView::F32(x),
        Value::Bool(x) => ValueView::Bool(x),
        Value::String(x) => ValueView::String(x@),
        Value::Array { item_type, items } => ValueView::Array {
            item_type,
            items: Seq::new(
                items@.len(),
                |i: int|
                    if 0 <= i < items@.len() {
                        value_view(items@[i])
                    } else {
                        ValueView::U8(0)
                    },
            ),
        },
        Value::U64(x) => ValueView::U64(x),
        Value::I64(x) => ValueView::I64(x),
        Value::F64(x) => ValueView::F64(x),
    }
}

impl View for Value {
    type V = ValueView;

    open spec fn view(&self) -> ValueView {
        value_view(*self)
    }
}

/// `items` as mathematical values.
pub open spec fn views(items: Seq<Value>) -> Seq<ValueView> {
    items.map_values(|v: Value| v@)
}

proof fn lemma_array_view(v: Value)
    requires
        v is Array,
    ensures
        v@ == (ValueView::Array { item_type: v->item_type, items: views(v->items@) }),
{
    let items = v->items@;
    assert(v@->Array_items =~= views(items));
}

/// The longest array that a file may hold.
pub const MAX_ARRAY: u64 = 10_000_000;

/// Reading a value of type `ty`.
pub open spec fn value_at(s: Seq<u8>, pos: int, ty: ValueType) -> Parsed<ValueView>
    decreases s.len() - pos, 0nat, 0nat,
{
    match ty {
        ValueType::U8 => match u8_at(s, pos, "u8 value"@) {
            Err(e) => Err(e),
            Ok((v, p)) => Ok((ValueView::U8(v), p)),
        },
        ValueType::I8 => match i8_at(s, pos, "i8 value"@) {
            Err(e) => Err(e),
            Ok((v, p)) => Ok((ValueView::I8(v), p)),
        },
        ValueType::U16 => match u16_at(s, pos, "u16 value"@) {
            Err(e) => Err(e),
            Ok((v, p)) => Ok((ValueView::U16(v), p)),
        },
        ValueType::I16 => match i16_at(s, pos, "i16 value"@) {
            Err(e) => Err(e),
            Ok((v, p)) => Ok((ValueView::I16(v), p)),
        },
        ValueType::U32 => match u32_at(s, pos, "u32 value"@) {
            Err(e) => Err(e),
            Ok((v, p)) => Ok((ValueView::U32(v), p)),
        },
        ValueType::I32 => match i32_at(s, pos, "i32 value"@) {
            Err(e) => Err(e),
            Ok((v, p)) => Ok((ValueView::I32(v), p)),
        },
        ValueType::F32 => match u32_at(s, pos, "f32 value"@) {
            Err(e) => Err(e),
            Ok((v, p)) => Ok((ValueView::F32(v), p)),
        },
        ValueType::U64 => match u64_at(s, pos, "u64 value"@) {
            Err(e) => Err(e),
            Ok((v, p)) => Ok((ValueView::U64(v), p)),
        },
        ValueType::I64 => match i64_at(s, pos, "i64 value"@) {
            Err(e) => Err(e),
            Ok((v, p)) => Ok((ValueView::I64(v), p)),
        },
        ValueType::F64 => match u64_at(s, pos, "f64 value"@) {
            Err(e) => Err(e),
            Ok((v, p)) => Ok((ValueView::F64(v), p)),
        },
        ValueType::Bool => match u8_at(s, pos, "bool value"@) {
            Err(e) => Err(e),
            Ok((v, p)) => Ok((ValueView::Bool(v != 0), p)),
        },
        ValueType::String => match string_at(s, pos) {
            Err(e) => Err(e),
            Ok((v, p)) => Ok((ValueView::String(v), p)),
        },
        ValueType::Array => match u32_at(s, pos, "array item type"@) {
            Err(e) => Err(e),
            Ok((id, p)) => match value_type_of(id) {
                Err(e) => Err(e),
                Ok(item_type) => match u64_at(s, p, "array length"@) {
                    Err(e) => Err(e),
                    Ok((n, q)) => if n > MAX_ARRAY {
                        Err(
                            GgufErrorView::Malformed(
                                "array length "@ + decimal(n as nat) + " is unreasonably large"@,
                            ),
                        )
                    } else {
                        match items_at(s, q, item_type, n as nat) {
                            Err(e) => Err(e),
                            Ok((items, end)) => Ok((ValueView::Array { item_type, items }, end)),
                        }
                    },
                },
            },
        },
    }
}

/// Reading `n` values of type `ty`, one after the other. (That the place never
/// moves backwards is [`law_items_advance`].)
pub open spec fn items_at(s: Seq<u8>, pos: int, ty: ValueType, n: nat) -> Parsed<Seq<ValueView>>
    decreases s.len() - pos, 1nat, n,
{
    if n == 0 {
        Ok((Seq::empty(), pos))
    } else {
        match items_at(s, pos, ty, (n - 1) as nat) {
            Err(e) => Err(e),
            Ok((items, p)) => if pos <= p <= s.len() {
                match value_at(s, p, ty) {
                    Err(e) => Err(e),
                    Ok((v, q)) => Ok((items.push(v), q)),
                }
            } else {
                at_end("array items"@)
            },
        }
    }
}

/// Every value takes at least one byte, and ends in the bytes.
pub proof fn law_value_advances(s: Seq<u8>, pos: int, ty: ValueType)
    requires
        0 <= pos <= s.len(),
    ensures
        value_at(s, pos, ty) matches Ok((v, p)) ==> pos < p <= s.len(),
    decreases s.len() - pos, 0nat, 0nat,
{
    if ty == ValueType::Array && s.len() - pos >= 12 {
        let id = u32_at(s, pos, "array item type"@)->Ok_0.0;
        if let Ok(item_type) = value_type_of(id) {
            let n = u64_at(s, pos + 4, "array length"@)->Ok_0.0;
            law_items_advance(s, pos + 12, item_type, n as nat);
        }
    }
}

/// A run of values ends where it begins or later, and in the bytes.
pub proof fn law_items_advance(s: Seq<u8>, pos: int, ty: ValueType, n: nat)
    requires
        0 <= pos <= s.len(),
    ensures
        items_at(s, pos, ty, n) matches Ok((items, p)) ==> pos <= p <= s.len() && items.len() == n,
    decreases s.len() - pos, 1nat, n,
{
    if n > 0 {
        law_items_advance(s, pos, ty, (n - 1) as nat);
        if let Ok((items, p)) = items_at(s, pos, ty, (n - 1) as nat) {
            law_value_advances(s, p, ty);
        }
    }
}

/// A run of values that fails early fails the same way however long it is.
proof fn lemma_items_fail(s: Seq<u8>, pos: int, ty: ValueType, k: nat, n: nat)
    requires
        k <= n,
        items_at(s, pos, ty, k) is Err,
    ensures
        items_at(s, pos, ty, n) == items_at(s, pos, ty, k),
    decreases n,
{
    if k < n {
        lemma_items_fail(s, pos, ty, k, (n - 1) as nat);
    }
}

/// Whether the value `r` and the place after it are what `want` says.
pub open spec fn meets_value(
    want: Parsed<ValueView>,
    before: Cursor<'_>,
    after: Cursor<'_>,
    r: Result<Value, GgufError>,
) -> bool {
    &&& after.bytes == before.bytes
    &&& after.wf()
    &&& match r {
        Ok(v) => want == Parsed::<ValueView>::Ok((v@, after.pos as int)),
        Err(e) => want == Parsed::<ValueView>::Err(e@),
    }
}

/// Reads a value of type `ty`.
pub fn read_value(r: &mut Cursor<'_>, ty: ValueType) -> (out: Result<Value, GgufError>)
    requires
        old(r).wf(),
    ensures
        meets_value(value_at(old(r).bytes@, old(r).pos as int, ty), *old(r), *final(r), out),
    decreases old(r).bytes@.len() - old(r).pos, 1nat,
{
    match ty {
        ValueType::U8 => match r.read_u8("u8 value") {
            Ok(v) => Ok(Value::U8(v)),
            Err(e) => Err(e),
        },
        ValueType::I8 => match r.read_i8("i8 value") {
            Ok(v) => Ok(Value::I8(v)),
            Err(e) => Err(e),
        },
        ValueType::U16 => match r.read_u16("u16 value") {
            Ok(v) => Ok(Value::U16(v)),
            Err(e) => Err(e),
        },
        ValueType::I16 => match r.read_i16("i16 value") {
            Ok(v) => Ok(Value::I16(v)),
            Err(e) => Err(e),
        },
        ValueType::U32 => match r.read_u32("u32 value") {
            Ok(v) => Ok(Value::U32(v)),
            Err(e) => Err(e),
        },
        ValueType::I32 => match r.read_i32("i32 value") {
            Ok(v) => Ok(Value::I32(v)),
            Err(e) => Err(e),
        },
        ValueType::F32 => match r.read_u32("f32 value") {
            Ok(v) => Ok(Value::F32(v)),
            Err(e) => Err(e),
        },
        ValueType::U64 => match r.read_u64("u64 value") {
            Ok(v) => Ok(Value::U64(v)),
            Err(e) => Err(e),
        },
        ValueType::I64 => match r.read_i64("i64 value") {
            Ok(v) => Ok(Value::I64(v)),
            Err(e) => Err(e),
        },
        ValueType::F64 => match r.read_u64("f64 value") {
            Ok(v) => Ok(Value::F64(v)),
            Err(e) => Err(e),
        },
        ValueType::Bool => match r.read_u8("bool value") {
            Ok(v) => Ok(Value::Bool(v != 0)),
            Err(e) => Err(e),
        },
        ValueType::String => match read_string(r) {
            Ok(v) => Ok(Value::String(v)),
            Err(e) => Err(e),
        },
        ValueType::Array => read_array(r),
    }
}

/// Reads an array: the type of its items, their number, and the items.
fn read_array(r: &mut Cursor<'_>) -> (out: Result<Value, GgufError>)
    requires
        old(r).wf(),
    ensures
        meets_value(
            value_at(old(r).bytes@, old(r).pos as int, ValueType::Array),
            *old(r),
            *final(r),
            out,
        ),
    decreases old(r).bytes@.len() - old(r).pos, 0nat,
{
    let ghost s: Seq<u8> = r.bytes@;
    let id: u32 = match r.read_u32("array item type") {
        Ok(v) => v,
        Err(e) => {
            return Err(e);
        },
    };
    let item_type: ValueType = match ValueType::from_u32(id) {
        Ok(t) => t,
        Err(e) => {
            return Err(e);
        },
    };
    proof {
        lemma_value_type_of(item_type);
    }
    let n: u64 = match r.read_u64("array length") {
        Ok(v) => v,
        Err(e) => {
            return Err(e);
        },
    };
    if n > MAX_ARRAY {
        let mut why: String = String::new();
        why.append("array length ");
        push_decimal(&mut why, n);
        why.append(" is unreasonably large");
        proof {
            assert(why@ == "array length "@ + decimal(n as nat) + " is unreasonably large"@);
        }
        return Err(GgufError::Malformed(why));
    }
    let ghost first: int = r.pos as int;
    let mut items: Vec<Value> = Vec::new();
    let mut i: u64 = 0;
    proof {
        assert(views(items@) =~= Seq::<ValueView>::empty());
    }
    while i < n
        invariant
            i <= n,
            r.wf(),
            r.bytes == old(r).bytes,
            s == r.bytes@,
            old(r).pos < first <= r.pos,
            items_at(s, first, item_type, i as nat) == Parsed::<Seq<ValueView>>::Ok(
                (views(items@), r.pos as int),
            ),
            value_at(s, old(r).pos as int, ValueType::Array) == (match items_at(
                s,
                first,
                item_type,
                n as nat,
            ) {
                Err(e) => Parsed::<ValueView>::Err(e),
                Ok((items, end)) => Ok((ValueView::Array { item_type, items }, end)),
            }),
        decreases n - i,
    {
        let ghost held: Seq<Value> = items@;
        let item: Value = match read_value(r, item_type) {
            Ok(v) => v,
            Err(e) => {
                proof {
                    assert(items_at(s, first, item_type, i as nat + 1) is Err);
                    lemma_items_fail(s, first, item_type, i as nat + 1, n as nat);
                }
                return Err(e);
            },
        };
        proof {
            law_items_advance(s, first, item_type, (i + 1) as nat);
            assert(views(held.push(item)) =~= views(held).push(item@));
        }
        items.push(item);
        i = i + 1;
    }
    let out: Value = Value::Array { item_type, items };
    proof {
        lemma_array_view(out);
    }
    Ok(out)
}

impl Value {
    /// The value as a `u32`, where it is a small enough non-negative integer.
    pub fn as_u32(&self) -> (r: Option<u32>)
        ensures
            r == self@.as_u32(),
    {
        match self {
            Value::U32(v) => Some(*v),
            Value::U64(v) => if *v <= u32::MAX as u64 {
                Some(*v as u32)
            } else {
                None
            },
            Value::I32(v) => if *v >= 0 {
                Some(*v as u32)
            } else {
                None
            },
            Value::U8(v) => Some(*v as u32),
            Value::U16(v) => Some(*v as u32),
            _ => None,
        }
    }

    /// The value as a `u64`, where it is a non-negative integer.
    pub fn as_u64(&self) -> (r: Option<u64>)
        ensures
            r == self@.as_u64(),
    {
        match self {
            Value::U64(v) => Some(*v),
            Value::U32(v) => Some(*v as u64),
            Value::I64(v) => if *v >= 0 {
                Some(*v as u64)
            } else {
                None
            },
            Value::I32(v) => if *v >= 0 {
                Some(*v as u64)
            } else {
                None
            },
            Value::U8(v) => Some(*v as u64),
            Value::U16(v) => Some(*v as u64),
            _ => None,
        }
    }

    /// The bits of the value, where it is a floating-point number.
    pub fn as_f32(&self) -> (r: Option<FloatBits>)
        ensures
            r == self@.as_f32(),
    {
        match self {
            Value::F32(b) => Some(FloatBits::Single(*b)),
            Value::F64(b) => Some(FloatBits::Double(*b)),
            _ => None,
        }
    }

    /// The text of the value, where it is a string.
    pub fn as_str(&self) -> (r: Option<&str>)
        ensures
            match r {
                Some(s) => self@.as_str() == Some(s@),
                None => self@.as_str() is None,
            },
    {
        match self {
            Value::String(s) => Some(s.as_str()),
            _ => None,
        }
    }

    /// The items of the value, where it is an array.
    pub fn as_array(&self) -> (r: Option<&Vec<Value>>)
        ensures
            match r {
                Some(v) => self@ is Array && self@->items == views(v@),
                None => !(self@ is Array),
            },
    {
        match self {
            Value::Array { items, .. } => {
                proof {
                    lemma_array_view(*self);
                }
                Some(items)
            },
            _ => None,
        }
    }

    /// The truth of the value, where it is a boolean.
    pub fn as_bool(&self) -> (r: Option<bool>)
        ensures
            r == self@.as_bool(),
    {
        match self {
            Value::Bool(b) => Some(*b),
            _ => None,
        }
    }

    /// A short text of the value; `float` is the text of a floating-point
    /// number. A string is cut after 80 bytes, which must not split a
    /// character.
    pub fn display_short(&self, float: &str) -> (r: String)
        requires
            self@ matches ValueView::String(s) ==> encode_utf8(s).len() > 80 ==> is_char_boundary(
                encode_utf8(s),
                80,
            ),
        ensures
            r@ == self@.short_text(float@),
    {
        let mut out: String = String::new();
        match self {
            Value::U8(v) => {
                out = decimal_string(*v as u64);
            },
            Value::I8(v) => {
                out = signed_string(*v as i64);
            },
            Value::U16(v) => {
                out = decimal_string(*v as u64);
            },
            Value::I16(v) => {
                out = signed_string(*v as i64);
            },
            Value::U32(v) => {
                out = decimal_string(*v as u64);
            },
            Value::I32(v) => {
                out = signed_string(*v as i64);
            },
            Value::F32(_) => {
                out.append(float);
            },
            Value::Bool(b) => {
                out.append(
                    if *b {
                        "true"
                    } else {
                        "false"
                    },
                );
            },
            Value::String(s) => {
                let n: usize = s.as_str().as_bytes().len();
                out.append("\"");
                if n > 80 {
                    let (head, tail) = s.as_str().split_at(80);
                    proof {
                        assert(head.spec_bytes() == encode_utf8(s@).take(80));
                        vstd::utf8::encode_utf8_decode_utf8(head@);
                    }
                    out.append(head);
                    out.append("…\" (");
                    push_decimal(&mut out, n as u64);
                    out.append(" bytes)");
                } else {
                    out.append(s.as_str());
                    out.append("\"");
                }
            },
            Value::Array { item_type, items } => {
                out.append("array[");
                out.append(format_value_type(*item_type));
                out.append("; ");
                push_decimal(&mut out, items.len() as u64);
                out.append(" items]");
                proof {
                    lemma_array_view(*self);
                }
            },
            Value::U64(v) => {
                out = decimal_string(*v);
            },
            Value::I64(v) => {
                out = signed_string(*v);
            },
            Value::F64(_) => {
                out.append(float);
            },
        }
        proof {
            assert(out@ =~= self@.short_text(float@));
        }
        out
    }
}

/// The name of a value type.
pub open spec fn value_type_name(t: ValueType) -> Seq<char> {
    match t {
        ValueType::U8 => "u8"@,
        ValueType::I8 => "i8"@,
        ValueType::U16 => "u16"@,
        ValueType::I16 => "i16"@,
        ValueType::U32 => "u32"@,
        ValueType::I32 => "i32"@,
        ValueType::F32 => "f32"@,
        ValueType::Bool => "bool"@,
        ValueType::String => "string"@,
        ValueType::Array => "array"@,
        ValueType::U64 => "u64"@,
        ValueType::I64 => "i64"@,
        ValueType::F64 => "f64"@,
    }
}

/// The name of a value type.
pub fn format_value_type(t: ValueType) -> (r: &'static str)
    ensures
        r@ == value_type_name(t),
{
    match t {
        ValueType::U8 => "u8",
        ValueType::I8 => "i8",
        ValueType::U16 => "u16",
        ValueType::I16 => "i16",
        ValueType::U32 => "u32",
        ValueType::I32 => "i32",
        ValueType::F32 => "f32",
        ValueType::Bool => "bool",
        ValueType::String => "string",
        ValueType::Array => "array",
        ValueType::U64 => "u64",
        ValueType::I64 => "i64",
        ValueType::F64 => "f64",
    }
}

/// A value counts as a whole number exactly where it is one that is not negative and
/// fits, whatever the width it is stored in.
pub proof fn law_whole_numbers(v: ValueView, n: u64)
    ensures
        v.as_u64() == Some(n) <==> match v {
            ValueView::U8(x) => x == n,
            ValueView::U16(x) => x == n,
            ValueView::U32(x) => x == n,
            ValueView::U64(x) => x == n,
            ValueView::I32(x) => x == n,
            ValueView::I64(x) => x == n,
            _ => false,
        },
        v.as_u32() is Some ==> v.as_u64() == Some(v.as_u32()->0 as u64),
        v.as_u64() is Some && v.as_u32() is None ==> v is I64 || v.as_u64()->0 > u32::MAX,
{
}

/// A scalar is read from as many bytes as it has.
pub proof fn law_scalar_widths(s: Seq<u8>, pos: int, ty: ValueType)
    requires
        0 <= pos <= s.len(),
    ensures
        value_at(s, pos, ty) matches Ok((v, end)) ==> match ty {
            ValueType::U8 => v is U8 && end == pos + 1,
            ValueType::I8 => v is I8 && end == pos + 1,
            ValueType::Bool => v is Bool && end == pos + 1 && v->Bool_0 == (s[pos] != 0),
            ValueType::U16 => v is U16 && end == pos + 2,
            ValueType::I16 => v is I16 && end == pos + 2,
            ValueType::U32 => v is U32 && end == pos + 4,
            ValueType::I32 => v is I32 && end == pos + 4,
            ValueType::F32 => v is F32 && end == pos + 4 && v->F32_0 == u32_at(
                s,
                pos,
                "f32 value"@,
            )->Ok_0.0,
            ValueType::U64 => v is U64 && end == pos + 8,
            ValueType::I64 => v is I64 && end == pos + 8,
            ValueType::F64 => v is F64 && end == pos + 8 && v->F64_0 == u64_at(
                s,
                pos,
                "f64 value"@,
            )->Ok_0.0,
            ValueType::String => v is String && end >= pos + 8,
            ValueType::Array => v is Array && end >= pos + 12,
        },
{
    if ty is Array {
        if let Ok((id, p)) = u32_at(s, pos, "array item type"@) {
            if let Ok(item_type) = value_type_of(id) {
                if let Ok((n, q)) = u64_at(s, p, "array length"@) {
                    law_items_advance(s, q, item_type, n as nat);
                }
            }
        }
    }
}

/// The kinds of values by their numbers in a file.
pub proof fn law_value_kinds(t: ValueType)
    ensures
        value_type_of(t.id()) == Ok::<ValueType, GgufErrorView>(t),
        ValueType::U8.id() == 0 && ValueType::I8.id() == 1 && ValueType::U16.id() == 2,
        ValueType::I16.id() == 3 && ValueType::U32.id() == 4 && ValueType::I32.id() == 5,
        ValueType::F32.id() == 6 && ValueType::Bool.id() == 7 && ValueType::String.id() == 8,
        ValueType::Array.id() == 9 && ValueType::U64.id() == 10 && ValueType::I64.id() == 11,
        ValueType::F64.id() == 12,
        forall|v: u32| v > 12 ==> #[trigger] value_type_of(v) is Err,
{
    let v = t.id();
    assert(exists|u: ValueType| u.id() == v);
    let u = choose|u: ValueType| u.id() == v;
    law_value_type_ids_differ(t, u);
}

} // verus!
