use aes::cipher::block_padding::Pkcs7;
use aes::cipher::{BlockEncryptMut, KeyIvInit};
use base64::Engine;
use xm_format::plugin::{ChunkParams, DecryptMode, DecryptionSegment, InvokeStatus, PluginConfig, XmFormatPlugin};
use xm_format::wasm_runtime::transform_result;
use xm_format::xm::{chunk_plaintext, decrypt, decrypt_chunk, finish_chunk, Id3Frame, Id3Tag, XmInfo};
use xm_format::xm_algorithm::{is_xm_decryption_available, xm_decrypt_algorithm};
use xm_format::XmError;

const KEY: &[u8; 32] = b"ximalayaximalayaximalayaximalaya";
const IV: [u8; 16] = [0, 1, 2, 3, 4, 5, 6, 7, 8, 9, 10, 11, 12, 13, 14, 15];
const IV_HEX: &str = "000102030405060708090a0b0c0d0e0f";

/// A stand-in transform module that returns its input text unchanged.
fn identity_module() -> Vec<u8> {
    wat::parse_str(
        r#"(module
            (memory (export "i") 1)
            (global $heap (mut i32) (i32.const 1024))
            (func (export "a") (param i32) (result i32) (i32.const 16))
            (func (export "c") (param $n i32) (result i32) (local $p i32)
                (local.set $p (global.get $heap))
                (global.set $heap (i32.add (global.get $heap) (local.get $n)))
                (local.get $p))
            (func (export "g") (param $sp i32) (param $p1 i32) (param $l1 i32) (param $p2 i32) (param $l2 i32)
                (i32.store (local.get $sp) (local.get $p1))
                (i32.store (i32.add (local.get $sp) (i32.const 4)) (local.get $l1))))"#,
    )
    .unwrap()
}

fn encrypt(plain: &[u8]) -> Vec<u8> {
    cbc::Encryptor::<aes::Aes256>::new(KEY.into(), (&IV).into()).encrypt_padded_vec_mut::<Pkcs7>(plain)
}

fn frame(id: &str, text: Option<&str>) -> Id3Frame {
    Id3Frame { id: id.to_string(), text: text.map(|t| t.to_string()) }
}

#[test]
fn decrypt_chunk_full_pipeline() {
    let audio: Vec<u8> = (0u8..=255).cycle().take(300).collect();
    let b64 = base64::engine::general_purpose::STANDARD.encode(&audio);
    let (prefix, body) = b64.split_at(8);
    let chunk = encrypt(body.as_bytes());
    let info = XmInfo {
        tracknumber: 42,
        isrc: Some(IV_HEX.to_string()),
        encoding_technology: Some(prefix.to_string()),
        ..Default::default()
    };
    let out = decrypt_chunk(&info, &chunk, &identity_module()).0.unwrap();
    assert_eq!(out, audio);

    // The whole file: tag, encrypted chunk, then plain audio that is copied as it is.
    let mut content = vec![0xAAu8; 20];
    content.extend_from_slice(&chunk);
    content.extend_from_slice(b"PLAIN-TAIL");
    let info = XmInfo { header_size: 20, size: chunk.len(), ..info };
    let whole = decrypt(&info, &content, &identity_module()).0.unwrap();
    let mut expected = audio.clone();
    expected.extend_from_slice(b"PLAIN-TAIL");
    assert_eq!(whole, expected);

    // In-memory decryption through the plugin gives the same bytes.
    let plugin = XmFormatPlugin::new(PluginConfig::default());
    assert_eq!(plugin.decrypt_in_memory(&info, &content, &identity_module()).0.unwrap(), expected);
}

#[test]
fn decrypt_chunk_errors() {
    let info = XmInfo { isrc: Some(IV_HEX.to_string()), ..Default::default() };
    // Not a whole number of AES blocks: the cipher refuses.
    match decrypt_chunk(&info, &[1, 2, 3, 4, 5], &identity_module()).0 {
        Err(XmError::DecryptionError(m)) => assert_eq!(m, "Failed to decrypt with AES-256-CBC"),
        other => panic!("unexpected {:?}", other),
    }
    // AES succeeds but the text is not UTF-8.
    let chunk = encrypt(&[0xff, 0xfe, 0x00]);
    match decrypt_chunk(&info, &chunk, &identity_module()).0 {
        Err(XmError::DecryptionError(m)) => assert!(m.starts_with("Invalid UTF-8: ")),
        other => panic!("unexpected {:?}", other),
    }
    // AES and UTF-8 succeed; the module is not WebAssembly.
    let chunk = encrypt(b"QUJD");
    match decrypt_chunk(&info, &chunk, b"not wasm").0 {
        Err(XmError::WasmError(m)) => assert!(m.starts_with("Failed to load WASM module: ")),
        other => panic!("unexpected {:?}", other),
    }
    // The transformed text is not Base64.
    let chunk = encrypt(b"!!!!");
    match decrypt_chunk(&info, &chunk, &identity_module()).0 {
        Err(XmError::DecryptionError(m)) => assert!(m.starts_with("Base64 decode failed: ")),
        other => panic!("unexpected {:?}", other),
    }
    // No IV at all.
    match decrypt_chunk(&XmInfo::default(), &chunk, &identity_module()).0 {
        Err(XmError::MissingMetadata(m)) => assert_eq!(m, "No IV found in ISRC or TENC tags"),
        other => panic!("unexpected {:?}", other),
    }
}

#[test]
fn iv_from_tags() {
    let info = XmInfo { isrc: Some("0A0b".to_string()), encodedby: Some("ffff".to_string()), ..Default::default() };
    assert_eq!(info.iv().unwrap(), vec![0x0a, 0x0b]);
    let info = XmInfo { encodedby: Some("ff00".to_string()), ..Default::default() };
    assert_eq!(info.iv().unwrap(), vec![0xff, 0x00]);
    match (XmInfo { isrc: Some("abc".to_string()), ..Default::default() }).iv() {
        Err(XmError::DecryptionError(m)) => assert_eq!(m, "Invalid IV in ISRC"),
        other => panic!("unexpected {:?}", other),
    }
    match (XmInfo { encodedby: Some("zz".to_string()), ..Default::default() }).iv() {
        Err(XmError::DecryptionError(m)) => assert_eq!(m, "Invalid IV in TENC"),
        other => panic!("unexpected {:?}", other),
    }
}

#[test]
fn xm_info_from_tag_frames() {
    let tag = Id3Tag {
        frames: vec![
            frame("TIT2", Some("Chapter 1")),
            frame("TPE1", Some("Reader")),
            frame("TALB", None),
            frame("TRCK", Some("+17")),
            frame("TSIZ", Some("123456")),
            frame("TSRC", Some(IV_HEX)),
            frame("TSSE", Some("AAAA")),
            frame("TIT2", Some("second title is ignored")),
            frame("TDLEN", Some("9000")),
        ],
        comments: vec![
            "no picture here".to_string(),
            "//cdn.example/image/cover.png".to_string(),
            "https://later/image.jpg".to_string(),
        ],
        picture_count: 0,
        header_tag_size: 2048,
    };
    let info = XmInfo::from_tag(&tag);
    assert_eq!(info.title.as_deref(), Some("Chapter 1"));
    assert_eq!(info.artist.as_deref(), Some("Reader"));
    assert_eq!(info.album.as_deref(), Some(""));
    assert_eq!(info.tracknumber, 17);
    assert_eq!(info.size, 123456);
    assert_eq!(info.header_size, 2048);
    assert_eq!(info.isrc.as_deref(), Some(IV_HEX));
    assert_eq!(info.encodedby, None);
    assert_eq!(info.encoding_technology.as_deref(), Some("AAAA"));
    assert!(!info.has_cover);
    assert_eq!(info.cover_url.as_deref(), Some("https://cdn.example/image/cover.png"));
    assert_eq!(info.duration_text.as_deref(), Some("9000"));
    assert_eq!(info.book_name(), Some(""));
    assert_eq!(info.chapter_title(), Some("Chapter 1"));
    assert_eq!(info.narrator(), Some("Reader"));
    assert_eq!(info.chapter_number(), 17);

    // Numbers that do not parse count as 0; TLEN wins over TDLEN.
    let tag = Id3Tag {
        frames: vec![frame("TRCK", Some("3/10")), frame("TSIZ", Some("-5")), frame("TLEN", None), frame("TDLEN", Some("1"))],
        comments: vec![],
        picture_count: 2,
        header_tag_size: 10,
    };
    let info = XmInfo::from_tag(&tag);
    assert_eq!(info.tracknumber, 0);
    assert_eq!(info.size, 0);
    assert!(info.has_cover);
    assert_eq!(info.cover_url, None);
    assert_eq!(info.duration_text, None);
    assert_eq!(info.title, None);
}

#[test]
fn decryption_plan_and_chunk_params() {
    let plugin = XmFormatPlugin::new(PluginConfig::default());
    let info = XmInfo {
        tracknumber: 9,
        size: 64,
        header_size: 100,
        isrc: Some("000102030405060708090A0B0C0D0E0F".to_string()),
        encoding_technology: Some("PRE".to_string()),
        ..Default::default()
    };
    let plan = plugin.plan_for_info(&info).unwrap();
    assert_eq!(plan.total_size, None);
    assert_eq!(plan.segments.len(), 2);
    match &plan.segments[0] {
        DecryptionSegment::Encrypted { offset, length, params } => {
            assert_eq!(*offset, 100);
            assert_eq!(*length, 64);
            assert_eq!(params.iv.as_deref(), Some(IV_HEX));
            assert_eq!(params.track_number, Some(9));
            assert_eq!(params.encoding_technology.as_deref(), Some("PRE"));
        }
        _ => panic!("first segment must be encrypted"),
    }
    match &plan.segments[1] {
        DecryptionSegment::Plain { offset, length } => {
            assert_eq!(*offset, 164);
            assert_eq!(*length, -1);
        }
        _ => panic!("second segment must be plain"),
    }
    match plugin.plan_for_info(&XmInfo::default()) {
        Err(XmError::MissingMetadata(_)) => {}
        _ => panic!("expected MissingMetadata"),
    }

    // Decrypting with the plan's parameters.
    let audio = b"hello xm audio".to_vec();
    let b64 = base64::engine::general_purpose::STANDARD.encode(&audio);
    let chunk = encrypt(b64[3..].as_bytes());
    let params = ChunkParams {
        iv: Some(IV_HEX.to_string()),
        track_number: None,
        encoding_technology: Some(b64[..3].to_string()),
    };
    assert_eq!(plugin.decrypt_chunk_data(&chunk, &params, &identity_module()).0.unwrap(), audio);
    let missing = ChunkParams { iv: None, track_number: Some(1), encoding_technology: None };
    match plugin.decrypt_chunk_data(&chunk, &missing, &identity_module()).0 {
        Err(XmError::MissingMetadata(m)) => assert_eq!(m, "Missing IV"),
        _ => panic!("expected MissingMetadata"),
    }
}

#[test]
fn plugin_basics() {
    let cfg = PluginConfig::default();
    assert!(cfg.enable_streaming);
    assert_eq!(cfg.buffer_size, 8192);
    let plugin = XmFormatPlugin::new(PluginConfig { enable_streaming: false, buffer_size: 16 });
    assert!(!plugin.config.enable_streaming);
    assert_eq!(plugin.get_metadata_read_size(b"ID3\x04\x00\x00\x00\x00\x01\x00"), Some(138));
    assert_eq!(plugin.get_metadata_read_size(b"ID3"), None);
    let info = XmInfo {
        size: 10,
        isrc: Some("00".to_string()),
        title: Some("T".to_string()),
        ..Default::default()
    };
    assert!(plugin.detect(100, b"ID3\x03\x00\x00\x00\x00\x00\x00", Some(&info)));
    assert_eq!(
        plugin.get_output_filename(&info, b"mp3"),
        "Unknown Artist - Unknown Album - T.mp3"
    );
    match plugin.decrypt_in_memory(&XmInfo::default(), &[], &[]).0 {
        Err(XmError::InvalidFormat(m)) => assert_eq!(m, "TSIZ field is 0 or missing"),
        _ => panic!("expected InvalidFormat"),
    }
    match plugin.decrypt_in_memory(&XmInfo { size: 5, ..Default::default() }, &[], &[]).0 {
        Err(XmError::MissingMetadata(m)) => assert_eq!(m, "No IV found (TSRC or TENC missing)"),
        _ => panic!("expected MissingMetadata"),
    }
}

#[test]
fn error_codes_and_messages() {
    let e = XmError::InvalidFormat("x".to_string());
    assert_eq!(e.error_code(), "INVALID_FORMAT");
    assert_eq!(e.user_message(), "文件格式无效: x");
    assert!(!e.is_recoverable());
    let e = XmError::IoError("disk".to_string());
    assert_eq!(e.error_code(), "IO_ERROR");
    assert_eq!(e.user_message(), "文件读写错误: disk");
    assert!(e.is_recoverable());
    assert_eq!(XmError::WasmError(String::new()).error_code(), "WASM_ERROR");
    assert_eq!(XmError::UnsupportedFormat("u".to_string()).user_message(), "不支持的格式: u");
    assert_eq!(XmError::Id3Error("i".to_string()).user_message(), "ID3 标签解析错误: i");
}

#[test]
fn fallback_algorithm() {
    assert!(is_xm_decryption_available());
    match xm_decrypt_algorithm("data", "1") {
        Err(XmError::UnsupportedFormat(m)) => {
            assert!(m.starts_with("XM format decryption is not available in web environment. Please use"))
        }
        _ => panic!("expected UnsupportedFormat"),
    }
}

#[test]
fn plan_parameters_reproduce_file_decryption() {
    let plugin = XmFormatPlugin::new(PluginConfig::default());
    let audio = b"streamed audio bytes".to_vec();
    let b64 = base64::engine::general_purpose::STANDARD.encode(&audio);
    let chunk = encrypt(b64[4..].as_bytes());
    let info = XmInfo {
        tracknumber: 11,
        size: chunk.len(),
        header_size: 30,
        encodedby: Some("000102030405060708090A0B0C0D0E0F".to_string()),
        encoding_technology: Some(b64[..4].to_string()),
        ..Default::default()
    };
    let plan = plugin.plan_for_info(&info).unwrap();
    let params = match &plan.segments[0] {
        DecryptionSegment::Encrypted { params, .. } => params,
        _ => panic!("first segment must be encrypted"),
    };
    let via_plan = plugin.decrypt_chunk_data(&chunk, params, &identity_module()).0.unwrap();
    let direct = decrypt_chunk(&info, &chunk, &identity_module()).0.unwrap();
    assert_eq!(via_plan, direct);
    assert_eq!(via_plan, audio);
}

/// A stand-in transform module that returns the track id it was given.
fn track_module() -> Vec<u8> {
    wat::parse_str(
        r#"(module
            (memory (export "i") 1)
            (global $heap (mut i32) (i32.const 1024))
            (func (export "a") (param i32) (result i32) (i32.const 16))
            (func (export "c") (param $n i32) (result i32) (local $p i32)
                (local.set $p (global.get $heap))
                (global.set $heap (i32.add (global.get $heap) (local.get $n)))
                (local.get $p))
            (func (export "g") (param $sp i32) (param $p1 i32) (param $l1 i32) (param $p2 i32) (param $l2 i32)
                (i32.store (local.get $sp) (local.get $p2))
                (i32.store (i32.add (local.get $sp) (i32.const 4)) (local.get $l2))))"#,
    )
    .unwrap()
}

/// An ID3v2.3 tag holding the given text frames.
fn id3_bytes(frames: &[(&str, &str)]) -> Vec<u8> {
    let mut body = Vec::new();
    for (id, text) in frames {
        body.extend_from_slice(id.as_bytes());
        body.extend_from_slice(&((text.len() + 1) as u32).to_be_bytes());
        body.extend_from_slice(&[0, 0, 0]);
        body.extend_from_slice(text.as_bytes());
    }
    let n = body.len();
    let mut out = b"ID3\x03\x00\x00".to_vec();
    out.extend_from_slice(&[(n >> 21) as u8 & 0x7f, (n >> 14) as u8 & 0x7f, (n >> 7) as u8 & 0x7f, n as u8 & 0x7f]);
    out.extend_from_slice(&body);
    out
}

#[test]
fn track_number_reaches_transform() {
    let chunk = encrypt(b"ignored text");
    let info = XmInfo {
        tracknumber: 1234,
        size: chunk.len(),
        isrc: Some(IV_HEX.to_string()),
        ..Default::default()
    };
    let out = decrypt_chunk(&info, &chunk, &track_module()).0.unwrap();
    assert_eq!(out, base64::engine::general_purpose::STANDARD.decode("1234").unwrap());
}

#[test]
fn decryption_plan_from_tag_bytes() {
    let plugin = XmFormatPlugin::new(PluginConfig::default());
    let probe = id3_bytes(&[("TSRC", IV_HEX), ("TSIZ", "64"), ("TRCK", "9"), ("TSSE", "PRE")]);
    let info = xm_format::xm::extract_xm_info(&probe).unwrap();
    assert_eq!(info.header_size, probe.len());
    assert_eq!(info.size, 64);
    assert_eq!(info.tracknumber, 9);
    let plan = plugin.get_decryption_plan(&probe).unwrap();
    match &plan.segments[0] {
        DecryptionSegment::Encrypted { offset, length, params } => {
            assert_eq!(*offset as usize, probe.len());
            assert_eq!(*length, 64);
            assert_eq!(params.iv.as_deref(), Some(IV_HEX));
            assert_eq!(params.track_number, Some(9));
            assert_eq!(params.encoding_technology.as_deref(), Some("PRE"));
        }
        _ => panic!("first segment must be encrypted"),
    }
    match plugin.get_decryption_plan(b"not a tag at all") {
        Err(XmError::Id3Error(_)) => {}
        _ => panic!("expected Id3Error"),
    }
    let no_iv = id3_bytes(&[("TSIZ", "64")]);
    match plugin.checked_decryption_plan(&no_iv) {
        Some(Err(XmError::MissingMetadata(_))) => {}
        _ => panic!("expected MissingMetadata"),
    }
}

#[test]
fn finish_chunk_decodes_prefix_and_text() {
    let out = finish_chunk(&Some("aGVs".to_string()), "bG8=").unwrap();
    assert_eq!(out, b"hello".to_vec());
    assert_eq!(finish_chunk(&None, "aGk=").unwrap(), b"hi".to_vec());
    match finish_chunk(&Some("a".to_string()), "!!") {
        Err(XmError::DecryptionError(m)) => assert!(m.starts_with("Base64 decode failed: ")),
        _ => panic!("expected DecryptionError"),
    }
}

#[test]
fn transform_result_from_memory() {
    let mem = b"xxhello".to_vec();
    assert_eq!(transform_result(&mem, 2, 5).unwrap(), "hello");
    assert_eq!(transform_result(&mem, 0, 0).unwrap(), "");
    match transform_result(&mem, 3, 5) {
        Err(XmError::WasmError(m)) => assert_eq!(m, "Result range is out of memory bounds"),
        _ => panic!("expected WasmError"),
    }
    match transform_result(&mem, -1, 1) {
        Err(XmError::WasmError(_)) => {}
        _ => panic!("expected WasmError"),
    }
    let bad = vec![0xffu8, 0xfe];
    match transform_result(&bad, 0, 2) {
        Err(XmError::DecryptionError(m)) => assert!(m.starts_with("Invalid UTF-8 in result: ")),
        _ => panic!("expected DecryptionError"),
    }
}

#[test]
fn chunk_plaintext_requires_utf8() {
    let info = XmInfo { isrc: Some(IV_HEX.to_string()), ..Default::default() };
    assert_eq!(chunk_plaintext(&info, &encrypt(b"plain text")).unwrap(), b"plain text".to_vec());
    match chunk_plaintext(&info, &encrypt(&[0xff, 0xfe, 0xfd])) {
        Err(XmError::DecryptionError(m)) => assert!(m.starts_with("Invalid UTF-8: ")),
        _ => panic!("expected DecryptionError"),
    }
}

#[test]
fn decrypt_mode_follows_config() {
    let streaming = XmFormatPlugin::new(PluginConfig { enable_streaming: true, buffer_size: 1024 });
    match streaming.decrypt_mode() {
        DecryptMode::Streaming(d) => assert_eq!(d.buffer_size, 1024),
        DecryptMode::InMemory => panic!("expected streaming"),
    }
    let memory = XmFormatPlugin::new(PluginConfig { enable_streaming: false, buffer_size: 1024 });
    assert!(matches!(memory.decrypt_mode(), DecryptMode::InMemory));
}

#[test]
fn invoke_status_codes() {
    assert_eq!(InvokeStatus::Success.code(), 0);
    assert_eq!(InvokeStatus::NullArgument.code(), -1);
    assert_eq!(InvokeStatus::MethodNotUtf8.code(), -2);
    assert_eq!(InvokeStatus::ParamsNotUtf8.code(), -3);
    assert_eq!(InvokeStatus::ParamsNotJson.code(), -4);
    assert_eq!(InvokeStatus::MethodFailed.code(), -5);
}
