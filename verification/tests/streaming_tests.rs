use xm_format::streaming::{CopyAction, StreamingDecryptor};
use xm_format::xm::XmInfo;
use xm_format::XmError;

#[test]
fn test_streaming_decryptor_creation() {
    let decryptor = StreamingDecryptor::new(4096);
    assert_eq!(decryptor.buffer_size, 4096);

    let default_decryptor = StreamingDecryptor::default();
    assert_eq!(default_decryptor.buffer_size, 8192);
}

#[test]
fn streaming_layout_and_reads() {
    let d = StreamingDecryptor::new(4096);
    let info = XmInfo {
        size: 1000,
        header_size: 100,
        encodedby: Some("00".to_string()),
        ..Default::default()
    };
    let l = d.layout(&info).unwrap();
    assert_eq!(l.encrypted_start, 100);
    assert_eq!(l.encrypted_end, 1100);

    match d.layout(&XmInfo { size: 0, ..Default::default() }) {
        Err(XmError::InvalidFormat(m)) => assert_eq!(m, "TSIZ field is 0 or missing"),
        _ => panic!("expected InvalidFormat"),
    }
    match d.layout(&XmInfo { size: 10, ..Default::default() }) {
        Err(XmError::MissingMetadata(m)) => assert_eq!(m, "No IV found"),
        _ => panic!("expected MissingMetadata"),
    }

    assert_eq!(d.next_read_len(0, 10000), 4096);
    assert_eq!(d.next_read_len(8192, 10000), 1808);
    assert_eq!(d.next_read_len(9999, 10000), 1);
}

#[test]
fn copy_steps() {
    let d = StreamingDecryptor::new(4);
    match d.next_action(0, 10) {
        CopyAction::Read(n) => assert_eq!(n, 4),
        CopyAction::Finish => panic!("expected a read"),
    }
    match d.next_action(8, 10) {
        CopyAction::Read(n) => assert_eq!(n, 2),
        CopyAction::Finish => panic!("expected a read"),
    }
    assert!(matches!(d.next_action(10, 10), CopyAction::Finish));
    assert_eq!(d.after_read(8, 10, 2), Some(10));
    assert_eq!(d.after_read(8, 10, 0), None);
}

#[test]
fn zero_buffer_still_copies() {
    let d = StreamingDecryptor::new(0);
    assert_eq!(d.copy_buffer_len(), 8192);
    assert_eq!(d.next_read_len(0, 100), 100);
    assert_eq!(d.next_read_len(0, 10000), 8192);
    match d.next_action(0, 5) {
        CopyAction::Read(n) => assert_eq!(n, 5),
        CopyAction::Finish => panic!("expected a read"),
    }
}
