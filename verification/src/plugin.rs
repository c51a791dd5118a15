//! The XM format plugin: detection, metadata, decryption plans for streaming players,
//! and in-memory decryption.
use vstd::prelude::*;
use crate::codec::{hex_encode, hex_encode_bytes, lemma_hex_roundtrip};
use crate::detector::{has_id3_magic, valid_xm_info, XmDetector};
use crate::metadata::{
    formatted_filename, forbidden_chars, id3_size_of, metadata_of, AudioMetadata, MetadataExtractor,
};
use crate::xm::{
    aes_stage, base64_prefix, bytes_result_view, clone_opt, decrypt, decrypt_chunk,
    decrypt_chunk_outcome, with_rest, empty_info, extract_xm_info, iv_fits, iv_of, opt_view, xm_info_of_bytes,
    XmInfo, XmInfoView,
};
use crate::streaming::StreamingDecryptor;
use crate::wasm_runtime::TransformCall;
use crate::{XmError, XmErrorView};

verus! {

/// Plugin settings.
#[derive(Debug, Clone)]
pub struct PluginConfig {
    /// Decrypt by streaming the file instead of holding it in memory.
    pub enable_streaming: bool,
    /// The size of the copy buffer, in bytes.
    pub buffer_size: usize,
}

impl Default for PluginConfig {
    /// Streaming on, with an 8 KiB buffer.
    fn default() -> (r: Self)
        ensures
            r.enable_streaming,
            r.buffer_size == 8192,
    {
        PluginConfig { enable_streaming: true, buffer_size: 8192 }
    }
}

/// The XM format plugin.
pub struct XmFormatPlugin {
    pub config: PluginConfig,
}

/// The parameters a streaming player hands back to decrypt the encrypted segment.
#[derive(Debug)]
pub struct ChunkParams {
    /// The IV as hex text.
    pub iv: Option<String>,
    /// The track number.
    pub track_number: Option<u64>,
    /// The Base64 prefix (`TSSE`).
    pub encoding_technology: Option<String>,
}

/// The value of `ChunkParams`.
pub struct ChunkParamsView {
    pub iv: Option<Seq<char>>,
    pub track_number: Option<u64>,
    pub encoding_technology: Option<Seq<char>>,
}

impl View for ChunkParams {
    type V = ChunkParamsView;

    open spec fn view(&self) -> ChunkParamsView {
        ChunkParamsView {
            iv: opt_view(self.iv),
            track_number: self.track_number,
            encoding_technology: opt_view(self.encoding_technology),
        }
    }
}

/// A segment of a decryption plan.
#[derive(Debug)]
pub enum DecryptionSegment {
    /// Copied as it is: `length` bytes from `offset`, or up to the end for a length of -1.
    Plain { offset: u64, length: i64 },
    /// Decrypted with `params`: `length` bytes from `offset`.
    Encrypted { offset: u64, length: i64, params: ChunkParams },
}

/// The value of a `DecryptionSegment`.
pub enum DecryptionSegmentView {
    Plain { offset: u64, length: i64 },
    Encrypted { offset: u64, length: i64, params: ChunkParamsView },
}

impl View for DecryptionSegment {
    type V = DecryptionSegmentView;

    open spec fn view(&self) -> DecryptionSegmentView {
        match self {
            DecryptionSegment::Plain { offset, length } => DecryptionSegmentView::Plain {
                offset: *offset,
                length: *length,
            },
            DecryptionSegment::Encrypted { offset, length, params } => {
                DecryptionSegmentView::Encrypted { offset: *offset, length: *length, params: params@ }
            },
        }
    }
}

/// How to decrypt a file as a stream.
#[derive(Debug)]
pub struct DecryptionPlan {
    /// The segments of the file, in order.
    pub segments: Vec<DecryptionSegment>,
    /// The size of the output, when known.
    pub total_size: Option<u64>,
}

/// The value of a `DecryptionPlan`.
pub struct DecryptionPlanView {
    pub segments: Seq<DecryptionSegmentView>,
    pub total_size: Option<u64>,
}

impl View for DecryptionPlan {
    type V = DecryptionPlanView;

    open spec fn view(&self) -> DecryptionPlanView {
        DecryptionPlanView {
            segments: self.segments@.map_values(|s: DecryptionSegment| s@),
            total_size: self.total_size,
        }
    }
}

/// The XM metadata that chunk parameters stand for: the IV text as `TSRC`, the track
/// number (0 when absent) and the Base64 prefix; everything else empty.
pub open spec fn params_info(p: ChunkParamsView) -> XmInfoView {
    XmInfoView {
        isrc: p.iv,
        tracknumber: match p.track_number {
            Some(n) => n,
            None => 0,
        },
        encoding_technology: p.encoding_technology,
        ..empty_info()
    }
}

/// The parameters a plan carries for a file: its IV as lower-case hex, its track number
/// and its Base64 prefix.
pub open spec fn plan_params_of(info: XmInfoView, iv: Seq<u8>) -> ChunkParamsView {
    ChunkParamsView {
        iv: Some(hex_encode(iv)),
        track_number: Some(info.tracknumber),
        encoding_technology: info.encoding_technology,
    }
}

/// The plan for a file: its encrypted chunk after the tag, then the rest of the file as it
/// is, up to the end.
pub open spec fn plan_of(info: XmInfoView, iv: Seq<u8>) -> DecryptionPlanView {
    DecryptionPlanView {
        segments: seq![
            DecryptionSegmentView::Encrypted {
                offset: info.header_size as u64,
                length: info.size as i64,
                params: plan_params_of(info, iv),
            },
            DecryptionSegmentView::Plain {
                offset: (info.header_size + info.size) as u64,
                length: -1i64,
            },
        ],
        total_size: None,
    }
}

/// A plan for the tag in these bytes fits in memory: where the tag reads and gives a
/// usable IV, the end of its encrypted range (`header_size + size`) is a `usize`.
pub open spec fn probe_plan_fits(probe: Seq<u8>) -> bool {
    match xm_info_of_bytes(probe) {
        Some(info) => iv_of(info) is Ok ==> info.header_size + info.size <= usize::MAX,
        None => true,
    }
}

/// The checks before an in-memory decryption: an encrypted size and an IV source.
pub open spec fn in_memory_check(info: XmInfoView) -> Option<XmErrorView> {
    if info.size == 0 {
        Some(XmErrorView::InvalidFormat("TSIZ field is 0 or missing"@))
    } else if info.isrc is None && info.encodedby is None {
        Some(XmErrorView::MissingMetadata("No IV found (TSRC or TENC missing)"@))
    } else {
        None
    }
}

/// How a call through the plugin's C entry point ended.
pub enum InvokeStatus {
    /// The method ran and its result was handed back.
    Success,
    /// The method name, the parameters or the result slot was missing.
    NullArgument,
    /// The method name was not UTF-8.
    MethodNotUtf8,
    /// The parameters were not UTF-8.
    ParamsNotUtf8,
    /// The parameters were not JSON.
    ParamsNotJson,
    /// The method failed, or no such method exists.
    MethodFailed,
}

impl InvokeStatus {
    /// The number the C entry point returns for this status: 0 on success, -1 to -5 for
    /// the failures in the order above.
    pub fn code(&self) -> (r: i32)
        ensures
            r == match *self {
                InvokeStatus::Success => 0i32,
                InvokeStatus::NullArgument => -1i32,
                InvokeStatus::MethodNotUtf8 => -2i32,
                InvokeStatus::ParamsNotUtf8 => -3i32,
                InvokeStatus::ParamsNotJson => -4i32,
                InvokeStatus::MethodFailed => -5i32,
            },
    {
        match self {
            InvokeStatus::Success => 0,
            InvokeStatus::NullArgument => -1,
            InvokeStatus::MethodNotUtf8 => -2,
            InvokeStatus::ParamsNotUtf8 => -3,
            InvokeStatus::ParamsNotJson => -4,
            InvokeStatus::MethodFailed => -5,
        }
    }
}

/// How a file is decrypted: by streaming with a decryptor, or whole in memory.
pub enum DecryptMode {
    Streaming(StreamingDecryptor),
    InMemory,
}

impl XmFormatPlugin {
    /// How `decrypt_file` decrypts: by streaming through a buffer of the configured size
    /// when streaming is on, else in memory.
    pub fn decrypt_mode(&self) -> (r: DecryptMode)
        ensures
            self.config.enable_streaming ==> (r matches DecryptMode::Streaming(d) && d.buffer_size
                == self.config.buffer_size),
            !self.config.enable_streaming ==> r is InMemory,
    {
        if self.config.enable_streaming {
            DecryptMode::Streaming(StreamingDecryptor::new(self.config.buffer_size))
        } else {
            DecryptMode::InMemory
        }
    }

    /// A plugin with the given settings.
    pub fn new(config: PluginConfig) -> (r: Self)
        ensures
            r.config == config,
    {
        XmFormatPlugin { config }
    }

    /// Whether a file is XM, from its size, first bytes and tag (see `XmDetector::detect`).
    pub fn detect(&self, file_size: u64, header: &[u8], info: Option<&XmInfo>) -> (r: bool)
        requires
            file_size >= 10 ==> header.len() >= 3,
        ensures
            r == (file_size >= 10 && has_id3_magic(header@) && (info matches Some(i)
                && valid_xm_info(i@))),
    {
        XmDetector::detect(file_size, header, info)
    }

    /// The metadata of an XM file from its tag and first bytes.
    pub fn extract_metadata(&self, xm_info: &XmInfo, header: &[u8]) -> (r: AudioMetadata)
        ensures
            r@ == metadata_of(xm_info@, header@),
    {
        MetadataExtractor::extract(xm_info, header)
    }

    /// The suggested output file name.
    pub fn get_output_filename(&self, xm_info: &XmInfo, header: &[u8]) -> (r: String)
        ensures
            r@ == formatted_filename(xm_info@, header@),
            forall|i: int| 0 <= i < r@.len() ==> !forbidden_chars().contains(#[trigger] r@[i]),
    {
        MetadataExtractor::format_filename(xm_info, header)
    }

    /// How many bytes to read to have the whole tag, from its first ten bytes.
    pub fn get_metadata_read_size(&self, header_probe: &[u8]) -> (r: Option<usize>)
        ensures
            r == id3_size_of(header_probe@),
    {
        MetadataExtractor::get_id3_size(header_probe)
    }

    /// The streaming plan for a file from the bytes of its tag (`header_probe` holds at
    /// least the whole tag): an unreadable tag is an `Id3Error`; otherwise as
    /// `plan_for_info` on the tag's metadata.
    pub fn get_decryption_plan(&self, header_probe: &[u8]) -> (r: Result<DecryptionPlan, XmError>)
        requires
            probe_plan_fits(header_probe@),
        ensures
            match xm_info_of_bytes(header_probe@) {
                None => r matches Err(x) && x@ is Id3Error,
                Some(info) => match iv_of(info) {
                    Ok(iv) => r matches Ok(p) && p@ == plan_of(info, iv),
                    Err(e) => r matches Err(x) && x@ == e,
                },
            },
    {
        let xm_info = match extract_xm_info(header_probe) {
            Ok(i) => i,
            Err(e) => return Err(e),
        };
        self.plan_for_info(&xm_info)
    }

    /// `get_decryption_plan` where its plan fits in memory, or `None` when the tag's
    /// encrypted range (`header_size + size`) would overflow a `usize` with a usable IV.
    pub fn checked_decryption_plan(&self, header_probe: &[u8]) -> (r: Option<Result<DecryptionPlan, XmError>>)
        ensures
            r is None <==> !probe_plan_fits(header_probe@),
            r matches Some(x) ==> match xm_info_of_bytes(header_probe@) {
                None => x matches Err(e) && e@ is Id3Error,
                Some(info) => match iv_of(info) {
                    Ok(iv) => x matches Ok(p) && p@ == plan_of(info, iv),
                    Err(e) => x matches Err(y) && y@ == e,
                },
            },
    {
        match extract_xm_info(header_probe) {
            Ok(info) => {
                let fits = match info.iv() {
                    Ok(_) => info.header_size.checked_add(info.size).is_some(),
                    Err(_) => true,
                };
                if fits {
                    Some(self.get_decryption_plan(header_probe))
                } else {
                    None
                }
            },
            Err(_) => Some(self.get_decryption_plan(header_probe)),
        }
    }

    /// The streaming plan for a file's metadata: the encrypted chunk with its decryption parameters,
    /// then the plain rest. Fails as `XmInfo::iv` does when the IV is missing or not hex.
    pub fn plan_for_info(&self, xm_info: &XmInfo) -> (r: Result<DecryptionPlan, XmError>)
        requires
            iv_of(xm_info@) is Ok ==> xm_info.header_size + xm_info.size <= usize::MAX,
        ensures
            match iv_of(xm_info@) {
                Ok(iv) => r matches Ok(p) && p@ == plan_of(xm_info@, iv),
                Err(e) => r matches Err(x) && x@ == e,
            },
    {
        let iv = match xm_info.iv() {
            Ok(iv) => iv,
            Err(e) => return Err(e),
        };
        let iv_hex = hex_encode_bytes(&iv);
        let params = ChunkParams {
            iv: Some(iv_hex),
            track_number: Some(xm_info.tracknumber),
            encoding_technology: clone_opt(&xm_info.encoding_technology),
        };
        let mut segments: Vec<DecryptionSegment> = Vec::new();
        #[verifier::truncate]
        let enc_len: i64 = xm_info.size as i64;
        segments.push(
            DecryptionSegment::Encrypted {
                offset: xm_info.header_size as u64,
                length: enc_len,
                params,
            },
        );
        segments.push(
            DecryptionSegment::Plain {
                offset: (xm_info.header_size + xm_info.size) as u64,
                length: -1,
            },
        );
        let plan = DecryptionPlan { segments, total_size: None };
        assert(plan@.segments =~= plan_of(xm_info@, iv@).segments);
        Ok(plan)
    }

    /// Decrypts an encrypted chunk with the parameters of a plan; a missing IV is a
    /// `MissingMetadata` error.
    pub fn decrypt_chunk_data(
        &self,
        encrypted_data: &[u8],
        params: &ChunkParams,
        xm_module: &[u8],
    ) -> (r: (Result<Vec<u8>, XmError>, Ghost<Option<TransformCall>>))
        requires
            iv_fits(params_info(params@)),
        ensures
            match params@.iv {
                None => r.1@ is None && (r.0 matches Err(x) && x@ == XmErrorView::MissingMetadata(
                    "Missing IV"@,
                )),
                Some(_) => decrypt_chunk_outcome(
                    params_info(params@),
                    encrypted_data@,
                    r.1@,
                    bytes_result_view(r.0),
                ),
            },
    {
        let iv_hex = match &params.iv {
            Some(s) => s.clone(),
            None => return (Err(XmError::MissingMetadata(String::from_str("Missing IV"))), Ghost(None)),
        };
        let track_number = match params.track_number {
            Some(n) => n,
            None => 0,
        };
        let mut xm_info = XmInfo::default();
        xm_info.isrc = Some(iv_hex);
        xm_info.tracknumber = track_number;
        xm_info.encoding_technology = clone_opt(&params.encoding_technology);
        assert(xm_info@ == params_info(params@));
        decrypt_chunk(&xm_info, encrypted_data, xm_module)
    }

    /// Decrypts a whole file held in memory, after checking that the tag gives an
    /// encrypted size and an IV; the result comes with the record of the transform's call.
    pub fn decrypt_in_memory(&self, xm_info: &XmInfo, content: &[u8], xm_module: &[u8]) -> (r: (
        Result<Vec<u8>, XmError>,
        Ghost<Option<TransformCall>>,
    ))
        requires
            in_memory_check(xm_info@) is None ==> xm_info.header_size + xm_info.size
                <= content.len() && iv_fits(xm_info@),
        ensures
            match in_memory_check(xm_info@) {
                Some(e) => r.1@ is None && (r.0 matches Err(x) && x@ == e),
                None => {
                    let h = xm_info.header_size as int;
                    let e = h + xm_info.size;
                    exists|c: Result<Seq<u8>, XmErrorView>|
                        #[trigger] decrypt_chunk_outcome(xm_info@, content@.subrange(h, e), r.1@, c)
                        && bytes_result_view(r.0) == with_rest(c, content@.subrange(e, content.len() as int))
                },
            },
    {
        if xm_info.size == 0 {
            return (Err(XmError::InvalidFormat(String::from_str("TSIZ field is 0 or missing"))), Ghost(None));
        }
        if xm_info.isrc.is_none() && xm_info.encodedby.is_none() {
            return (
                Err(XmError::MissingMetadata(String::from_str("No IV found (TSRC or TENC missing)"))),
                Ghost(None),
            );
        }
        decrypt(xm_info, content, xm_module)
    }
}

/// Decrypting a chunk with the parameters of a file's plan is held to the same outcome as
/// decrypting it with the file's own metadata: the plan's IV text decodes to the same IV,
/// the track number and Base64 prefix are the file's, so the AES stage, the input of the
/// XM transform and the last step are the same; with the same record of the transform's
/// call, both succeed with the same bytes.
pub proof fn lemma_plan_params_reproduce_chunk_decryption(
    info: XmInfoView,
    iv: Seq<u8>,
    chunk: Seq<u8>,
    call: Option<TransformCall>,
    r: Result<Seq<u8>, XmErrorView>,
)
    requires
        iv_of(info) == Ok::<Seq<u8>, XmErrorView>(iv),
    ensures
        iv_of(params_info(plan_params_of(info, iv))) == iv_of(info),
        params_info(plan_params_of(info, iv)).tracknumber == info.tracknumber,
        base64_prefix(params_info(plan_params_of(info, iv))) == base64_prefix(info),
        aes_stage(params_info(plan_params_of(info, iv)), chunk) == aes_stage(info, chunk),
        decrypt_chunk_outcome(params_info(plan_params_of(info, iv)), chunk, call, r)
            == decrypt_chunk_outcome(info, chunk, call, r),
        forall|d1: Seq<u8>, d2: Seq<u8>|
            #[trigger] decrypt_chunk_outcome(params_info(plan_params_of(info, iv)), chunk, call, Ok(d1))
                && #[trigger] decrypt_chunk_outcome(info, chunk, call, Ok(d2)) ==> d1 == d2,
{
    lemma_hex_roundtrip(iv);
    let p = params_info(plan_params_of(info, iv));
    assert(iv_of(p) == iv_of(info));
    assert(base64_prefix(p) == base64_prefix(info));
    assert(aes_stage(p, chunk) == aes_stage(info, chunk));
    assert forall|t: Result<Seq<char>, XmErrorView>| crate::xm::after_transform(p, t, r)
        == crate::xm::after_transform(info, t, r) by {}
    assert forall|d1: Seq<u8>, d2: Seq<u8>|
        #[trigger] decrypt_chunk_outcome(p, chunk, call, Ok(d1))
            && #[trigger] decrypt_chunk_outcome(info, chunk, call, Ok(d2)) implies d1 == d2 by {
        assert forall|t: Result<Seq<char>, XmErrorView>| crate::xm::after_transform(p, t, Ok(d1))
            == crate::xm::after_transform(info, t, Ok(d1)) by {}
        assert(decrypt_chunk_outcome(info, chunk, call, Ok(d1)));
        crate::xm::lemma_chunk_success_fixed_by_call(info, chunk, call, d1, d2);
    }
}

/// In a plan, the plain segment starts where the encrypted one ends.
pub proof fn lemma_plan_segments_adjacent(info: XmInfoView, iv: Seq<u8>)
    requires
        info.size <= i64::MAX,
        info.header_size + info.size <= u64::MAX,
    ensures
        plan_of(info, iv).segments[0] matches DecryptionSegmentView::Encrypted { offset, length, .. }
            && plan_of(info, iv).segments[1] matches DecryptionSegmentView::Plain { offset: o2, length: l2 }
            && o2 == offset + length && l2 == -1i64,
{
}

} // verus!
