//! XM (Ximalaya) encrypted audio: tag interpretation, validation, metadata and the
//! decryption pipeline, with their contracts.
use vstd::prelude::*;

pub mod text;
pub mod codec;
pub mod xm_algorithm;
pub mod xm;
pub mod metadata;
pub mod wasm_runtime;
pub mod detector;
pub mod plugin;
pub mod streaming;

pub use detector::{CorruptionReport, ValidationResult, XmDetector};
pub use metadata::{AudioFormat, AudioMetadata, MetadataExtractor};
pub use plugin::XmFormatPlugin;
pub use streaming::StreamingDecryptor;
pub use xm_algorithm::is_xm_decryption_available;

verus! {

/// Everything that can go wrong while reading, checking or decrypting an XM file.
#[derive(Debug)]
pub enum XmError {
    /// The file is not a usable XM file.
    InvalidFormat(String),
    /// A tag that decryption needs is absent.
    MissingMetadata(String),
    /// A decryption stage refused its input.
    DecryptionError(String),
    /// Reading or writing a file failed; holds the system's description of the failure.
    IoError(String),
    /// The ID3 tag could not be read.
    Id3Error(String),
    /// The embedded XM transform module failed.
    WasmError(String),
    /// The file is damaged.
    FileCorrupted(String),
    /// The format is not supported here.
    UnsupportedFormat(String),
}

/// The mathematical value of an `XmError`: its kind and the characters of its message.
pub enum XmErrorView {
    InvalidFormat(Seq<char>),
    MissingMetadata(Seq<char>),
    DecryptionError(Seq<char>),
    IoError(Seq<char>),
    Id3Error(Seq<char>),
    WasmError(Seq<char>),
    FileCorrupted(Seq<char>),
    UnsupportedFormat(Seq<char>),
}

impl View for XmError {
    type V = XmErrorView;

    open spec fn view(&self) -> XmErrorView {
        match self {
            XmError::InvalidFormat(m) => XmErrorView::InvalidFormat(m@),
            XmError::MissingMetadata(m) => XmErrorView::MissingMetadata(m@),
            XmError::DecryptionError(m) => XmErrorView::DecryptionError(m@),
            XmError::IoError(m) => XmErrorView::IoError(m@),
            XmError::Id3Error(m) => XmErrorView::Id3Error(m@),
            XmError::WasmError(m) => XmErrorView::WasmError(m@),
            XmError::FileCorrupted(m) => XmErrorView::FileCorrupted(m@),
            XmError::UnsupportedFormat(m) => XmErrorView::UnsupportedFormat(m@),
        }
    }
}

/// The machine-readable code of each kind of error.
pub open spec fn error_code_of(e: XmErrorView) -> Seq<char> {
    match e {
        XmErrorView::InvalidFormat(_) => "INVALID_FORMAT"@,
        XmErrorView::MissingMetadata(_) => "MISSING_METADATA"@,
        XmErrorView::DecryptionError(_) => "DECRYPTION_FAILED"@,
        XmErrorView::IoError(_) => "IO_ERROR"@,
        XmErrorView::Id3Error(_) => "ID3_ERROR"@,
        XmErrorView::WasmError(_) => "WASM_ERROR"@,
        XmErrorView::FileCorrupted(_) => "FILE_CORRUPTED"@,
        XmErrorView::UnsupportedFormat(_) => "UNSUPPORTED_FORMAT"@,
    }
}

/// The user-facing message: a fixed lead-in for the kind, then the error's own text.
pub open spec fn user_message_of(e: XmErrorView) -> Seq<char> {
    match e {
        XmErrorView::InvalidFormat(m) => "文件格式无效: "@ + m,
        XmErrorView::MissingMetadata(m) => "缺少必要的元数据: "@ + m,
        XmErrorView::DecryptionError(m) => "解密失败: "@ + m,
        XmErrorView::IoError(m) => "文件读写错误: "@ + m,
        XmErrorView::Id3Error(m) => "ID3 标签解析错误: "@ + m,
        XmErrorView::WasmError(m) => "WASM 运行时错误: "@ + m,
        XmErrorView::FileCorrupted(m) => "文件已损坏: "@ + m,
        XmErrorView::UnsupportedFormat(m) => "不支持的格式: "@ + m,
    }
}

impl XmError {
    /// Error code for API responses.
    pub fn error_code(&self) -> (r: &'static str)
        ensures
            r@ == error_code_of(self@),
    {
        match self {
            XmError::InvalidFormat(_) => "INVALID_FORMAT",
            XmError::MissingMetadata(_) => "MISSING_METADATA",
            XmError::DecryptionError(_) => "DECRYPTION_FAILED",
            XmError::IoError(_) => "IO_ERROR",
            XmError::Id3Error(_) => "ID3_ERROR",
            XmError::WasmError(_) => "WASM_ERROR",
            XmError::FileCorrupted(_) => "FILE_CORRUPTED",
            XmError::UnsupportedFormat(_) => "UNSUPPORTED_FORMAT",
        }
    }

    /// User-friendly error message.
    pub fn user_message(&self) -> (r: String)
        ensures
            r@ == user_message_of(self@),
    {
        let (lead, m) = match self {
            XmError::InvalidFormat(m) => ("文件格式无效: ", m),
            XmError::MissingMetadata(m) => ("缺少必要的元数据: ", m),
            XmError::DecryptionError(m) => ("解密失败: ", m),
            XmError::IoError(m) => ("文件读写错误: ", m),
            XmError::Id3Error(m) => ("ID3 标签解析错误: ", m),
            XmError::WasmError(m) => ("WASM 运行时错误: ", m),
            XmError::FileCorrupted(m) => ("文件已损坏: ", m),
            XmError::UnsupportedFormat(m) => ("不支持的格式: ", m),
        };
        let mut r = String::from_str(lead);
        r.append(m.as_str());
        r
    }

    /// Only I/O failures are worth retrying.
    pub fn is_recoverable(&self) -> (r: bool)
        ensures
            r == (self is IoError),
    {
        match self {
            XmError::IoError(_) => true,
            _ => false,
        }
    }
}

} // verus!
