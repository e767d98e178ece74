//! Reading model files.
use taraference::gguf::bytes::{read_string, Cursor};
use taraference::gguf::error::GgufError;
use taraference::gguf::reader::{align_up, GgufFile};
use taraference::gguf::types::GgmlType;
use taraference::gguf::value::{format_value_type, read_value, FloatBits, Value, ValueType};

fn text(out: &mut Vec<u8>, s: &str) {
    out.extend_from_slice(&(s.len() as u64).to_le_bytes());
    out.extend_from_slice(s.as_bytes());
}

fn header(version: u32, tensors: u64, pairs: u64) -> Vec<u8> {
    let mut out = Vec::new();
    out.extend_from_slice(b"GGUF");
    out.extend_from_slice(&version.to_le_bytes());
    out.extend_from_slice(&tensors.to_le_bytes());
    out.extend_from_slice(&pairs.to_le_bytes());
    out
}

fn pair(out: &mut Vec<u8>, key: &str, id: u32, value: &[u8]) {
    text(out, key);
    out.extend_from_slice(&id.to_le_bytes());
    out.extend_from_slice(value);
}

fn string_pair(out: &mut Vec<u8>, key: &str, value: &str) {
    text(out, key);
    out.extend_from_slice(&8u32.to_le_bytes());
    text(out, value);
}

fn tensor(out: &mut Vec<u8>, name: &str, dims: &[u64], id: u32, offset: u64) {
    text(out, name);
    out.extend_from_slice(&(dims.len() as u32).to_le_bytes());
    for d in dims {
        out.extend_from_slice(&d.to_le_bytes());
    }
    out.extend_from_slice(&id.to_le_bytes());
    out.extend_from_slice(&offset.to_le_bytes());
}

fn small_file() -> Vec<u8> {
    let mut b = header(3, 2, 4);
    string_pair(&mut b, "general.architecture", "qwen2");
    string_pair(&mut b, "general.name", "tiny");
    pair(&mut b, "qwen2.block_count", 4, &7u32.to_le_bytes());
    pair(&mut b, "qwen2.eps", 6, &1.5f32.to_le_bytes());
    tensor(&mut b, "a", &[2, 3], 0, 0);
    tensor(&mut b, "b", &[32], 8, 32);
    while b.len() % 32 != 0 {
        b.push(0);
    }
    for i in 0..66u8 {
        b.push(i);
    }
    b
}

fn message(bytes: &[u8]) -> String {
    match GgufFile::open("m.gguf".to_string(), bytes) {
        Ok(_) => panic!("the file was taken"),
        Err(e) => e.message(),
    }
}

#[test]
fn a_file_is_read() {
    let b = small_file();
    let f = GgufFile::open("m.gguf".to_string(), &b).unwrap();
    assert_eq!(f.architecture(), Some("qwen2"));
    assert_eq!(f.name(), Some("tiny"));
    assert_eq!(f.meta_u32("qwen2.block_count"), Some(7));
    assert_eq!(f.meta_u64("qwen2.block_count"), Some(7));
    assert_eq!(f.meta_u64("qwen2.eps"), None);
    assert_eq!(f.meta_f32("qwen2.eps"), Some(FloatBits::Single(1.5f32.to_bits())));
    assert_eq!(f.meta_str("no.such.key"), None);
    assert_eq!(f.version, 3);
    assert_eq!(f.file_size(), b.len() as u64);
    assert_eq!(f.total_tensor_bytes(), 24 + 34);
    let a = f.tensor("a").unwrap();
    assert_eq!(a.n_elements(), 6);
    assert_eq!(f.tensor_data(a)[..4], [0, 1, 2, 3]);
    let t = f.tensor("b").unwrap();
    assert_eq!(t.ggml_type, GgmlType::Q8_0);
    assert_eq!(t.nbytes(), 34);
    assert_eq!(f.tensor_data(t)[0], 32);
    assert_eq!(f.tensor_data(t).len(), 34);
    assert!(f.tensor("c").is_none());
}

#[test]
fn a_later_entry_counts() {
    let mut b = header(2, 0, 2);
    string_pair(&mut b, "general.name", "one");
    string_pair(&mut b, "general.name", "two");
    let f = GgufFile::open("m".to_string(), &b).unwrap();
    assert_eq!(f.name(), Some("two"));
}

#[test]
fn other_files_are_refused() {
    assert_eq!(
        message(b"ABCDEFGH"),
        "invalid GGUF magic (got 0x44434241, expected 0x46554747 'GGUF')"
    );
    assert_eq!(message(b"GG"), "unexpected end of file while reading magic");
    assert_eq!(message(&header(1, 0, 0)), "unsupported GGUF version 1 (supported: 2, 3)");
    assert_eq!(
        message(&header(3, 2_000_000, 5)),
        "malformed GGUF: unreasonable counts: tensors=2000000 kv=5"
    );
}

#[test]
fn tensors_must_lie_in_the_file() {
    let mut b = header(3, 1, 0);
    tensor(&mut b, "w", &[8], 0, 0);
    let end = (b.len() as u64).div_ceil(32) * 32;
    let text = message(&b);
    assert_eq!(
        text,
        format!(
            "malformed GGUF: tensor w data [{}, {}) exceeds file size {}",
            end,
            end + 32,
            b.len()
        )
    );
    let mut deep = header(3, 1, 0);
    tensor(&mut deep, "w", &[1, 1, 1, 1, 1], 0, 0);
    assert_eq!(message(&deep), "malformed GGUF: tensor w: n_dims=5 > 4");
    let mut odd = header(3, 1, 0);
    tensor(&mut odd, "w", &[1], 999, 0);
    assert_eq!(message(&odd), "unknown GGML tensor type id 999");
}

#[test]
fn a_string_must_be_utf8() {
    let mut b = header(3, 0, 1);
    b.extend_from_slice(&2u64.to_le_bytes());
    b.extend_from_slice(&[0xff, 0xfe]);
    assert!(message(&b).starts_with("invalid UTF-8 in GGUF string ("));
    let mut c = header(3, 0, 1);
    pair(&mut c, "k", 77, &[]);
    assert_eq!(message(&c), "unknown metadata value type id 77");
}

#[test]
fn every_kind_of_number_is_read() {
    let bytes: Vec<u8> = vec![
        0xfe, 0xfd, 0x34, 0x12, 0xfe, 0xff, 0x78, 0x56, 0x34, 0x12, 0xff, 0xff, 0xff, 0xff, 1, 2, 3,
        4, 5, 6, 7, 8, 0xfd, 0xff, 0xff, 0xff, 0xff, 0xff, 0xff, 0xff,
    ];
    let mut c = Cursor::new(&bytes);
    assert_eq!(c.read_u8("x").unwrap(), 0xfe);
    assert_eq!(c.read_i8("x").unwrap(), -3);
    assert_eq!(c.read_u16("x").unwrap(), 0x1234);
    assert_eq!(c.read_i16("x").unwrap(), -2);
    assert_eq!(c.read_u32("x").unwrap(), 0x1234_5678);
    assert_eq!(c.read_i32("x").unwrap(), -1);
    assert_eq!(c.read_u64("x").unwrap(), 0x0807_0605_0403_0201);
    assert_eq!(c.read_i64("x").unwrap(), -3);
    assert!(matches!(c.read_u8("end"), Err(GgufError::UnexpectedEof { context: "end" })));
}

#[test]
fn strings_and_values_are_read() {
    let mut b = Vec::new();
    text(&mut b, "héllo");
    let mut c = Cursor::new(&b);
    assert_eq!(read_string(&mut c).unwrap(), "héllo");
    let mut v = Vec::new();
    v.extend_from_slice(&5u32.to_le_bytes());
    v.extend_from_slice(&2u64.to_le_bytes());
    v.extend_from_slice(&(-4i32).to_le_bytes());
    v.extend_from_slice(&9i32.to_le_bytes());
    let mut c = Cursor::new(&v);
    let a = read_value(&mut c, ValueType::Array).unwrap();
    let items = a.as_array().unwrap();
    assert_eq!(items.len(), 2);
    assert_eq!(items[0].as_u32(), None);
    assert_eq!(items[1].as_u32(), Some(9));
    assert_eq!(a.display_short(""), "array[i32; 2 items]");
}

#[test]
fn values_are_shown() {
    assert_eq!(Value::I8(-5).display_short(""), "-5");
    assert_eq!(Value::F32(0).display_short("0.5"), "0.5");
    assert_eq!(Value::Bool(true).display_short(""), "true");
    assert_eq!(Value::String("hi".to_string()).display_short(""), "\"hi\"");
    let long = "x".repeat(100);
    assert_eq!(
        Value::String(long).display_short(""),
        format!("\"{}…\" (100 bytes)", "x".repeat(80))
    );
    assert_eq!(Value::I64(i64::MIN).display_short(""), "-9223372036854775808");
    assert_eq!(format_value_type(ValueType::F64), "f64");
}

#[test]
fn alignment_rounds_up() {
    assert_eq!(align_up(33, 32), 64);
    assert_eq!(align_up(64, 32), 64);
    assert_eq!(align_up(0, 32), 0);
}

#[test]
fn tensor_types_have_sizes() {
    assert_eq!(GgmlType::from_u32(12).unwrap().name(), "Q4_K");
    assert_eq!(GgmlType::from_u32(12).unwrap().type_size(), 144);
    assert_eq!(GgmlType::from_u32(12).unwrap().block_size(), 256);
    assert_eq!(GgmlType::F16.nbytes(10), 20);
    assert_eq!(GgmlType::Q8_0.checked_nbytes(64), Some(68));
    assert!(GgmlType::from_u32(4).is_none());
}
