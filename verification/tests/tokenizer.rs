//! Texts as token numbers.
use taraference::gguf::reader::GgufFile;
use taraference::tokenizer::bytes::{
    bpe_chars_to_text, bytes_to_unicode, text_to_bpe_chars, unicode_to_byte,
};
use taraference::tokenizer::scored::{next_char, normalize};
use taraference::tokenizer::special::{special, split_special};
use taraference::tokenizer::Tokenizer;

fn text(out: &mut Vec<u8>, s: &str) {
    out.extend_from_slice(&(s.len() as u64).to_le_bytes());
    out.extend_from_slice(s.as_bytes());
}

fn strings(out: &mut Vec<u8>, key: &str, items: &[&str]) {
    text(out, key);
    out.extend_from_slice(&9u32.to_le_bytes());
    out.extend_from_slice(&8u32.to_le_bytes());
    out.extend_from_slice(&(items.len() as u64).to_le_bytes());
    for i in items {
        text(out, i);
    }
}

fn number(out: &mut Vec<u8>, key: &str, n: u32) {
    text(out, key);
    out.extend_from_slice(&4u32.to_le_bytes());
    out.extend_from_slice(&n.to_le_bytes());
}

fn truth(out: &mut Vec<u8>, key: &str, b: bool) {
    text(out, key);
    out.extend_from_slice(&7u32.to_le_bytes());
    out.push(u8::from(b));
}

fn start(pairs: u64) -> Vec<u8> {
    let mut out = Vec::new();
    out.extend_from_slice(b"GGUF");
    out.extend_from_slice(&3u32.to_le_bytes());
    out.extend_from_slice(&0u64.to_le_bytes());
    out.extend_from_slice(&pairs.to_le_bytes());
    out
}

const WORDS: [&str; 9] = ["<|end|>", "h", "i", "hi", "Ġ", "Ġhi", "<|start|>", "o", "Ã"];

fn merging() -> Vec<u8> {
    let mut b = start(5);
    strings(&mut b, "tokenizer.ggml.tokens", &WORDS);
    strings(&mut b, "tokenizer.ggml.merges", &["h i", "Ġ hi"]);
    number(&mut b, "tokenizer.ggml.bos_token_id", 6);
    number(&mut b, "tokenizer.ggml.eos_token_id", 0);
    truth(&mut b, "tokenizer.ggml.add_bos_token", true);
    b
}

fn tokenizer(b: &[u8]) -> Tokenizer {
    let f = GgufFile::open("t".to_string(), b).unwrap();
    Tokenizer::from_gguf(&f).unwrap()
}

#[test]
fn texts_are_merged() {
    let b = merging();
    let t = tokenizer(&b);
    assert_eq!(t.bpe_encode("hi hi"), vec![3, 5]);
    assert_eq!(t.encode("hi", true), vec![6, 3]);
    assert_eq!(t.encode("hi", false), vec![3]);
    assert_eq!(t.bpe_encode("ho"), vec![1, 7]);
    assert_eq!(t.max_piece_bytes, 9);
}

#[test]
fn marked_tokens_stand_for_themselves() {
    let b = merging();
    let t = tokenizer(&b);
    assert_eq!(t.encode("hi<|end|> hi", false), vec![3, 0, 5]);
    assert_eq!(t.decode(&[3, 0, 5]), "hi<|end|> hi");
    assert_eq!(t.decode(&[99]), "");
    assert_eq!(t.decode_one(5), " hi");
}

#[test]
fn unknown_characters_become_the_end() {
    let b = merging();
    let t = tokenizer(&b);
    assert_eq!(t.bpe_encode("z"), vec![0]);
    assert_eq!(t.bpe_encode("é"), vec![8, 0]);
}

#[test]
fn a_text_comes_back() {
    let b = merging();
    let t = tokenizer(&b);
    for s in ["hi hi", " hi", "hihi o", "<|start|>hi<|end|>"] {
        assert_eq!(t.decode(&t.encode(s, false)), s);
    }
}

#[test]
fn a_file_without_merges_is_split_by_scores() {
    let mut b = start(2);
    strings(&mut b, "tokenizer.ggml.tokens", &["<unk>", "▁h", "i", "▁"]);
    number(&mut b, "tokenizer.ggml.unknown_token_id", 0);
    let t = tokenizer(&b);
    assert!(t.sentencepiece);
    let s = normalize("hi");
    assert_eq!(s, "▁hi");
    assert_eq!(t.pieces_at(&s, 0), vec![(3, 3), (4, 1)]);
    assert_eq!(t.pieces_at(&s, 4), vec![(5, 2)]);
    assert_eq!(next_char(&s, 0), 3);
    assert_eq!(next_char(&s, 3), 4);
    let steps = vec![None, None, None, Some((0, 3)), Some((0, 1)), Some((4, 2))];
    assert_eq!(t.read_back(&steps), vec![1, 2]);
    assert_eq!(t.read_back(&vec![None, None]), vec![0]);
    assert_eq!(t.decode(&[1, 2, 0]), " hi");
}

#[test]
fn a_tokenizer_needs_tokens() {
    let b = start(0);
    let f = GgufFile::open("t".to_string(), &b).unwrap();
    let e = Tokenizer::from_gguf(&f).err().unwrap();
    assert_eq!(e.message(), "missing tokenizer.ggml.tokens");
    let mut b = start(2);
    strings(&mut b, "tokenizer.ggml.tokens", &["a"]);
    strings(&mut b, "tokenizer.ggml.merges", &["ab"]);
    let f = GgufFile::open("t".to_string(), &b).unwrap();
    let e = Tokenizer::from_gguf(&f).err().unwrap();
    assert_eq!(e.message(), "bad merge: ab");
}

#[test]
fn tokens_and_merges_are_strings() {
    let mut b = start(1);
    text(&mut b, "tokenizer.ggml.tokens");
    b.extend_from_slice(&9u32.to_le_bytes());
    b.extend_from_slice(&4u32.to_le_bytes());
    b.extend_from_slice(&1u64.to_le_bytes());
    b.extend_from_slice(&5u32.to_le_bytes());
    let f = GgufFile::open("t".to_string(), &b).unwrap();
    assert_eq!(Tokenizer::from_gguf(&f).err().unwrap().message(), "token not string");
    let mut b = start(2);
    strings(&mut b, "tokenizer.ggml.tokens", &["a"]);
    text(&mut b, "tokenizer.ggml.merges");
    b.extend_from_slice(&9u32.to_le_bytes());
    b.extend_from_slice(&4u32.to_le_bytes());
    b.extend_from_slice(&1u64.to_le_bytes());
    b.extend_from_slice(&5u32.to_le_bytes());
    let f = GgufFile::open("t".to_string(), &b).unwrap();
    assert_eq!(Tokenizer::from_gguf(&f).err().unwrap().message(), "merge not string");
}

#[test]
fn every_byte_has_a_character() {
    let map = bytes_to_unicode();
    assert_eq!(map.len(), 256);
    assert_eq!(map[b'a' as usize], 'a');
    assert_eq!(map[b' ' as usize], 'Ġ');
    assert_eq!(map[b'\n' as usize], 'Ċ');
    for (i, c) in map.iter().enumerate() {
        assert_eq!(unicode_to_byte(*c), Some(i as u8));
        assert_ne!(*c, ' ');
    }
    assert_eq!(unicode_to_byte('漢'), None);
}

#[test]
fn bytes_come_back_as_text() {
    let s = "hé\u{1F600} x\n";
    assert_eq!(bpe_chars_to_text(&text_to_bpe_chars(s)), s);
    assert_eq!(text_to_bpe_chars(" "), "Ġ");
    // A byte that begins no character is shown as the replacement character.
    assert_eq!(bpe_chars_to_text("Ã"), "\u{FFFD}");
}

#[test]
fn marked_tokens_are_cut_out() {
    let tokens: Vec<String> = vec!["<|a|>".to_string(), "<|ab|>".to_string(), "x".to_string()];
    assert!(special("<|a|>"));
    assert!(!special("x"));
    let parts = split_special("x<|ab|>y<|a|>", &tokens);
    let shown: Vec<String> = parts.iter().map(|p| p.iter().collect()).collect();
    assert_eq!(shown, vec!["x", "<|ab|>", "y", "<|a|>"]);
    assert_eq!(shown.concat(), "x<|ab|>y<|a|>");
}
