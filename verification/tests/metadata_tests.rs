use xm_format::metadata::{AudioFormat, MetadataExtractor};
use xm_format::xm::XmInfo;

#[test]
fn test_detect_audio_format() {
    // MP3 with ID3
    let mp3_header = b"ID3\x03\x00\x00\x00\x00\x00\x00";
    assert_eq!(MetadataExtractor::detect_audio_format(mp3_header), AudioFormat::Mp3);

    // MP3 with MPEG sync
    let mp3_sync = b"\xFF\xFB\x90\x00\x00\x00\x00\x00";
    assert_eq!(MetadataExtractor::detect_audio_format(mp3_sync), AudioFormat::Mp3);

    // M4A
    let m4a_header = b"\x00\x00\x00\x20ftypM4A ";
    assert_eq!(MetadataExtractor::detect_audio_format(m4a_header), AudioFormat::M4a);

    // FLAC
    let flac_header = b"fLaC\x00\x00\x00\x22";
    assert_eq!(MetadataExtractor::detect_audio_format(flac_header), AudioFormat::Flac);

    // WAV
    let wav_header = b"RIFF\x00\x00\x00\x00WAVEfmt ";
    assert_eq!(MetadataExtractor::detect_audio_format(wav_header), AudioFormat::Wav);

    // OGG
    let ogg_header = b"OggS\x00\x02\x00\x00";
    assert_eq!(MetadataExtractor::detect_audio_format(ogg_header), AudioFormat::Ogg);

    // Unknown
    let unknown_header = b"XXXX\x00\x00\x00\x00";
    assert_eq!(MetadataExtractor::detect_audio_format(unknown_header), AudioFormat::Unknown);
}

#[test]
fn test_format_filename() {
    let info = XmInfo {
        title: Some("Test Title".to_string()),
        artist: Some("Test Artist".to_string()),
        album: Some("Test Album".to_string()),
        ..Default::default()
    };

    let header = b"ftyp M4A";
    let filename = MetadataExtractor::format_filename(&info, header);
    assert_eq!(filename, "Test Artist - Test Album - Test Title.m4a");

    // Test with special characters
    let info = XmInfo {
        title: Some("Title: With/Special*Chars?".to_string()),
        artist: Some("Artist".to_string()),
        album: Some("Album".to_string()),
        ..Default::default()
    };
    let filename = MetadataExtractor::format_filename(&info, header);
    assert!(!filename.contains(':'));
    assert!(!filename.contains('/'));
    assert!(!filename.contains('*'));
    assert!(!filename.contains('?'));
}

#[test]
fn detect_audio_format_short_and_edge_headers() {
    assert_eq!(MetadataExtractor::detect_audio_format(b"ID3"), AudioFormat::Unknown);
    assert_eq!(MetadataExtractor::detect_audio_format(b""), AudioFormat::Unknown);
    // MPEG sync needs the top three bits of the second byte.
    assert_eq!(MetadataExtractor::detect_audio_format(b"\xFF\xC0\x00\x00"), AudioFormat::Unknown);
    // RIFF without WAVE is not WAV.
    assert_eq!(MetadataExtractor::detect_audio_format(b"RIFF\x00\x00\x00\x00AVI "), AudioFormat::Unknown);
    // ftyp needs eight bytes.
    assert_eq!(MetadataExtractor::detect_audio_format(b"\x00\x00\x00\x20fty"), AudioFormat::Unknown);
}

#[test]
fn format_filename_defaults_and_extensions() {
    let info = XmInfo::default();
    assert_eq!(
        MetadataExtractor::format_filename(&info, b"\x00OGGS"),
        "Unknown Artist - Unknown Album - Unknown Title.ogg"
    );
    assert_eq!(
        MetadataExtractor::format_filename(&info, b"xx FLAC xx"),
        "Unknown Artist - Unknown Album - Unknown Title.flac"
    );
    assert_eq!(
        MetadataExtractor::format_filename(&info, b"\x01\x02"),
        "Unknown Artist - Unknown Album - Unknown Title.m4a"
    );
    // m4a wins over mp3 when both appear.
    assert_eq!(
        MetadataExtractor::format_filename(&info, b"mp3 m4a"),
        "Unknown Artist - Unknown Album - Unknown Title.m4a"
    );
    let info = XmInfo {
        artist: Some("A<B>|C\"D\\E".to_string()),
        ..Default::default()
    };
    assert_eq!(
        MetadataExtractor::format_filename(&info, b"WAV"),
        "ABCDE - Unknown Album - Unknown Title.wav"
    );
}

#[test]
fn xm_info_file_name() {
    let info = XmInfo {
        title: Some("Ch 1".to_string()),
        artist: Some("Reader".to_string()),
        album: Some("Book".to_string()),
        ..Default::default()
    };
    assert_eq!(info.file_name(b"..MP3.."), "Reader - Book - Ch 1.mp3");
    // No ogg detection here: falls back to m4a.
    assert_eq!(info.file_name(b"ogg"), "Reader - Book - Ch 1.m4a");
    assert_eq!(XmInfo::default().file_name(b""), " -  - .m4a");
}

#[test]
fn clean_titles() {
    assert_eq!(MetadataExtractor::clean_book_title("  My Book | extra  "), "My Book");
    assert_eq!(MetadataExtractor::clean_book_title("书名丨作者"), "书名");
    assert_eq!(MetadataExtractor::clean_book_title("  Plain  "), "Plain");
    assert_eq!(MetadataExtractor::clean_book_title(""), "");

    assert_eq!(MetadataExtractor::clean_chapter_title("My Book Episode 12: The Start", "My Book"), "The Start");
    assert_eq!(MetadataExtractor::clean_chapter_title("第12集 开始", ""), "开始");
    assert_eq!(MetadataExtractor::clean_chapter_title("Ep3 - Next", "Book"), "Next");
    assert_eq!(MetadataExtractor::clean_chapter_title("  007. Bond ", ""), "Bond");
    assert_eq!(MetadataExtractor::clean_chapter_title("Nothing to strip", ""), "Nothing to strip");
    assert_eq!(MetadataExtractor::clean_chapter_title("Epic Story", ""), "Epic Story");
    assert_eq!(MetadataExtractor::clean_chapter_title("Episodes of Life", ""), "Episodes of Life");
    assert_eq!(MetadataExtractor::clean_chapter_title("Ep 4 Home", ""), "Home");
    assert_eq!(MetadataExtractor::clean_chapter_title("Ep.3 Title", ""), "3 Title");
    assert_eq!(MetadataExtractor::clean_chapter_title("Ep", ""), "");
}

#[test]
fn id3_size() {
    assert_eq!(MetadataExtractor::get_id3_size(b"ID3\x03\x00\x00\x00\x00\x00\x00"), Some(10));
    assert_eq!(MetadataExtractor::get_id3_size(b"ID3\x03\x00\x00\x00\x00\x02\x01"), Some(257 + 10));
    assert_eq!(MetadataExtractor::get_id3_size(b"ID3\x04\x00\x00\x01\x00\x00\x00"), Some((1 << 21) + 10));
    assert_eq!(MetadataExtractor::get_id3_size(b"ID3\x03\x00\x00\x00\x00\x00"), None);
    assert_eq!(MetadataExtractor::get_id3_size(b"XYZ\x03\x00\x00\x00\x00\x00\x00"), None);
}

#[test]
fn audio_format_names() {
    assert_eq!(AudioFormat::Mp3.name(), "MP3");
    assert_eq!(AudioFormat::M4a.name(), "M4A");
    assert_eq!(AudioFormat::Unknown.name(), "Unknown");
}

#[test]
fn extract_metadata_from_info() {
    let info = XmInfo {
        title: Some("Great Book 第3集：Chapter".to_string()),
        artist: Some("Narrator".to_string()),
        album: Some("Great Book | Author".to_string()),
        tracknumber: 3,
        size: 4096,
        header_size: 200,
        cover_url: Some("https://x/image.jpg".to_string()),
        duration_text: Some("418".to_string()),
        ..Default::default()
    };
    let m = MetadataExtractor::extract(&info, b"ID3\x03\x00\x00\x00\x00\x01\x00");
    assert_eq!(m.album.as_deref(), Some("Great Book"));
    assert_eq!(m.title.as_deref(), Some("：Chapter"));
    assert_eq!(m.artist, None);
    assert_eq!(m.narrator.as_deref(), Some("Narrator"));
    assert_eq!(m.track_number, Some(3));
    assert_eq!(m.format, AudioFormat::Mp3);
    assert_eq!(m.encrypted_size, Some(4096));
    assert_eq!(m.header_size, Some(200));
    assert_eq!(m.duration_text.as_deref(), Some("418"));
    assert_eq!(m.cover_url.as_deref(), Some("https://x/image.jpg"));

    let d = MetadataExtractor::extract_from_decrypted(b"fLaC\x00\x00\x00\x22");
    assert_eq!(d.format, AudioFormat::Flac);
    assert_eq!(d.title, None);
    assert_eq!(d.encrypted_size, None);
}
