//! Why a model file is refused.
use crate::text::{decimal, hex, push_decimal, push_hex};
use vstd::prelude::*;

verus! {

/// Why a model file is refused.
#[derive(Debug)]
pub enum GgufError {
    Io { path: String, source: String },
    BadMagic(u32),
    UnsupportedVersion(u32),
    UnexpectedEof { context: &'static str },
    InvalidUtf8 { context: &'static str },
    UnknownValueType(u32),
    UnknownTensorType(u32),
    MissingMetadata(String),
    MissingTensor(String),
    Malformed(String),
}

/// An error as a mathematical value.
pub enum GgufErrorView {
    Io { path: Seq<char>, source: Seq<char> },
    BadMagic(u32),
    UnsupportedVersion(u32),
    UnexpectedEof { context: Seq<char> },
    InvalidUtf8 { context: Seq<char> },
    UnknownValueType(u32),
    UnknownTensorType(u32),
    MissingMetadata(Seq<char>),
    MissingTensor(Seq<char>),
    Malformed(Seq<char>),
}

impl View for GgufError {
    type V = GgufErrorView;

    open spec fn view(&self) -> GgufErrorView {
        match self {
            GgufError::Io { path, source } => GgufErrorView::Io { path: path@, source: source@ },
            GgufError::BadMagic(v) => GgufErrorView::BadMagic(*v),
            GgufError::UnsupportedVersion(v) => GgufErrorView::UnsupportedVersion(*v),
            GgufError::UnexpectedEof { context } => GgufErrorView::UnexpectedEof {
                context: context@,
            },
            GgufError::InvalidUtf8 { context } => GgufErrorView::InvalidUtf8 { context: context@ },
            GgufError::UnknownValueType(v) => GgufErrorView::UnknownValueType(*v),
            GgufError::UnknownTensorType(v) => GgufErrorView::UnknownTensorType(*v),
            GgufError::MissingMetadata(s) => GgufErrorView::MissingMetadata(s@),
            GgufError::MissingTensor(s) => GgufErrorView::MissingTensor(s@),
            GgufError::Malformed(s) => GgufErrorView::Malformed(s@),
        }
    }
}

impl GgufErrorView {
    /// The sentence that tells the error.
    pub open spec fn sentence(self) -> Seq<char> {
        match self {
            GgufErrorView::Io { path, source } => "I/O error for "@ + path + ": "@ + source,
            GgufErrorView::BadMagic(v) => "invalid GGUF magic (got 0x"@ + hex(v as nat, 8)
                + ", expected 0x46554747 'GGUF')"@,
            GgufErrorView::UnsupportedVersion(v) => "unsupported GGUF version "@ + decimal(v as nat)
                + " (supported: 2, 3)"@,
            GgufErrorView::UnexpectedEof { context } => "unexpected end of file while reading "@
                + context,
            GgufErrorView::InvalidUtf8 { context } => "invalid UTF-8 in GGUF string ("@ + context
                + ")"@,
            GgufErrorView::UnknownValueType(v) => "unknown metadata value type id "@ + decimal(
                v as nat,
            ),
            GgufErrorView::UnknownTensorType(v) => "unknown GGML tensor type id "@ + decimal(
                v as nat,
            ),
            GgufErrorView::MissingMetadata(s) => "metadata key not found: "@ + s,
            GgufErrorView::MissingTensor(s) => "tensor not found: "@ + s,
            GgufErrorView::Malformed(s) => "malformed GGUF: "@ + s,
        }
    }
}

impl GgufError {
    /// The sentence that tells the error.
    pub fn message(&self) -> (r: String)
        ensures
            r@ == self@.sentence(),
    {
        let mut out: String = String::new();
        match self {
            GgufError::Io { path, source } => {
                out.append("I/O error for ");
                out.append(path.as_str());
                out.append(": ");
                out.append(source.as_str());
            },
            GgufError::BadMagic(v) => {
                out.append("invalid GGUF magic (got 0x");
                push_hex(&mut out, *v, 8);
                out.append(", expected 0x46554747 'GGUF')");
            },
            GgufError::UnsupportedVersion(v) => {
                out.append("unsupported GGUF version ");
                push_decimal(&mut out, *v as u64);
                out.append(" (supported: 2, 3)");
            },
            GgufError::UnexpectedEof { context } => {
                out.append("unexpected end of file while reading ");
                out.append(context);
            },
            GgufError::InvalidUtf8 { context } => {
                out.append("invalid UTF-8 in GGUF string (");
                out.append(context);
                out.append(")");
            },
            GgufError::UnknownValueType(v) => {
                out.append("unknown metadata value type id ");
                push_decimal(&mut out, *v as u64);
            },
            GgufError::UnknownTensorType(v) => {
                out.append("unknown GGML tensor type id ");
                push_decimal(&mut out, *v as u64);
            },
            GgufError::MissingMetadata(s) => {
                out.append("metadata key not found: ");
                out.append(s.as_str());
            },
            GgufError::MissingTensor(s) => {
                out.append("tensor not found: ");
                out.append(s.as_str());
            },
            GgufError::Malformed(s) => {
                out.append("malformed GGUF: ");
                out.append(s.as_str());
            },
        }
        proof {
            assert(out@ == self@.sentence());
        }
        out
    }
}

} // verus!
