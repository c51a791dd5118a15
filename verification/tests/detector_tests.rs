use xm_format::detector::{CorruptionReport, ValidationResult, XmDetector};
use xm_format::xm::XmInfo;

#[test]
fn test_validate_xm_info() {
    // Valid XM info
    let valid_info = XmInfo {
        size: 1000,
        isrc: Some("0123456789abcdef0123456789abcdef".to_string()),
        ..Default::default()
    };
    assert!(XmDetector::validate_xm_info(&valid_info));

    // Invalid: no size
    let invalid_info = XmInfo {
        size: 0,
        isrc: Some("0123456789abcdef0123456789abcdef".to_string()),
        ..Default::default()
    };
    assert!(!XmDetector::validate_xm_info(&invalid_info));

    // Invalid: no IV
    let invalid_info = XmInfo {
        size: 1000,
        isrc: None,
        encodedby: None,
        ..Default::default()
    };
    assert!(!XmDetector::validate_xm_info(&invalid_info));

    // Valid: IV in encodedby
    let valid_info = XmInfo {
        size: 1000,
        isrc: None,
        encodedby: Some("0123456789abcdef0123456789abcdef".to_string()),
        ..Default::default()
    };
    assert!(XmDetector::validate_xm_info(&valid_info));

    // Invalid: bad hex in IV
    let invalid_info = XmInfo {
        size: 1000,
        isrc: Some("not_hex_string".to_string()),
        ..Default::default()
    };
    assert!(!XmDetector::validate_xm_info(&invalid_info));
}

fn good_info() -> XmInfo {
    XmInfo {
        title: Some("t".to_string()),
        artist: Some("a".to_string()),
        album: Some("b".to_string()),
        tracknumber: 5,
        size: 1000,
        header_size: 100,
        isrc: Some("0123456789abcdef0123456789abcdef".to_string()),
        ..Default::default()
    }
}

#[test]
fn detect_from_header_and_tag() {
    let info = good_info();
    assert!(XmDetector::detect(2000, b"ID3\x03\x00\x00\x00\x00\x00\x00", Some(&info)));
    assert!(!XmDetector::detect(9, b"ID3\x03\x00\x00\x00\x00\x00", Some(&info)));
    assert!(!XmDetector::detect(2000, b"XYZ\x03\x00\x00\x00\x00\x00\x00", Some(&info)));
    assert!(!XmDetector::detect(2000, b"ID3\x03\x00\x00\x00\x00\x00\x00", None));
    // TSRC takes precedence over TENC, even when TSRC is not hex.
    let info = XmInfo {
        isrc: Some("zz".to_string()),
        encodedby: Some("00".to_string()),
        ..good_info()
    };
    assert!(!XmDetector::detect(2000, b"ID3\x03\x00\x00\x00\x00\x00\x00", Some(&info)));
}

#[test]
fn validate_file_clean() {
    let r: ValidationResult = XmDetector::validate_file(good_info(), 5000);
    assert!(r.is_valid());
    assert!(r.issues().is_empty());
    assert!(r.warnings().is_empty());
    assert_eq!(r.error_message(), None);
}

#[test]
fn validate_file_issues_and_warnings() {
    let info = XmInfo {
        size: 1000,
        header_size: 5,
        isrc: Some("00ff".to_string()),
        ..Default::default()
    };
    let r = XmDetector::validate_file(info, 500);
    assert!(!r.is_valid());
    assert_eq!(
        r.issues(),
        &[
            "Encrypted data size (1005) exceeds file size (500)".to_string(),
            "ID3 header size too small: 5".to_string(),
        ]
    );
    assert_eq!(
        r.warnings(),
        &[
            "IV length is 2 bytes (expected 16)".to_string(),
            "Title (TIT2) is missing".to_string(),
            "Artist (TPE1) is missing".to_string(),
            "Album (TALB) is missing".to_string(),
            "Track number (TRCK) is 0 or missing".to_string(),
        ]
    );
    assert_eq!(
        r.error_message().unwrap(),
        "XM validation failed:\nEncrypted data size (1005) exceeds file size (500)\nID3 header size too small: 5"
    );

    let info = XmInfo { size: 0, header_size: 800, encodedby: Some("xyz".to_string()), ..good_info() };
    let info = XmInfo { isrc: None, ..info };
    let r = XmDetector::validate_file(info, 500);
    assert_eq!(
        r.issues(),
        &[
            "TSIZ field is 0 or missing".to_string(),
            "IV is not valid hex string".to_string(),
            "ID3 header size (800) exceeds file size (500)".to_string(),
        ]
    );

    let info = XmInfo { isrc: None, ..good_info() };
    let r = XmDetector::validate_file(info, 5000);
    assert_eq!(r.issues(), &["No IV found (TSRC or TENC missing)".to_string()]);
}

#[test]
fn corruption_report() {
    let info = XmInfo {
        size: 1000,
        header_size: 800,
        isrc: Some("not hex".to_string()),
        ..good_info()
    };
    let v = XmDetector::validate_file(info, 500);
    let report: CorruptionReport = XmDetector::detect_corruption(v);
    assert!(report.is_corrupted);
    assert_eq!(
        report.indicators,
        vec![
            "Data size mismatch".to_string(),
            "Corrupted IV data".to_string(),
            "Data size mismatch".to_string(),
            "Invalid header size".to_string(),
        ]
    );
    assert!(!report.validation_result.is_valid());

    let clean = XmDetector::detect_corruption(XmDetector::validate_file(good_info(), 5000));
    assert!(!clean.is_corrupted);
    assert!(clean.indicators.is_empty());

    // A missing size is an issue but no sign of corruption.
    let info = XmInfo { size: 0, ..good_info() };
    let r = XmDetector::detect_corruption(XmDetector::validate_file(info, 5000));
    assert!(!r.validation_result.is_valid);
    assert!(!r.is_corrupted);
}

#[test]
fn missing_iv_is_no_corruption() {
    let info = XmInfo { isrc: None, encodedby: None, ..good_info() };
    let r = XmDetector::detect_corruption(XmDetector::validate_file(info, 5000));
    assert!(!r.validation_result.is_valid);
    assert_eq!(r.validation_result.issues, vec!["No IV found (TSRC or TENC missing)".to_string()]);
    assert!(!r.is_corrupted);
    assert!(r.indicators.is_empty());
}

#[test]
fn header_past_end_gives_two_indicators() {
    let info = XmInfo { header_size: 6000, ..good_info() };
    let r = XmDetector::detect_corruption(XmDetector::validate_file(info, 5000));
    assert!(r.is_corrupted);
    assert!(r
        .validation_result
        .issues
        .contains(&"ID3 header size (6000) exceeds file size (5000)".to_string()));
    assert!(r.indicators.contains(&"Data size mismatch".to_string()));
    assert!(r.indicators.contains(&"Invalid header size".to_string()));
}
