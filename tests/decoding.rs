use buss_sanity_checker::header::{
    action_to_string, decode_header, has_flag, is_utf16, Action, Header, MAGIC,
};
use buss_sanity_checker::request::{
    decode_request, decode_settings_entry, process_request, u8_to_settings, DecodedRequest,
    SettingsEntry, SettingsKind,
};
use buss_sanity_checker::source::{ByteSource, DecodeError};
use buss_sanity_checker::text::{decode_lossy, encode_buss_string, read_buss_string};

fn header(flags: u8) -> Header {
    Header { magic_number: MAGIC, version_major: 1, version_minor: 0, action: Action::Read, flags }
}

fn decode(flags: u8, bytes: Vec<u8>) -> Result<DecodedRequest, DecodeError> {
    let mut src = ByteSource::new(bytes);
    decode_request(&header(flags), &mut src)
}

#[test]
fn utf8_host_scenario() {
    let mut bytes = vec![0, 0, 0, 2, b'/', b'x', 0, 1, 1, 0, 0, 0, 5];
    bytes.extend_from_slice(b"hello");
    bytes.extend_from_slice(b"OK");
    let d = decode(0, bytes).unwrap();
    assert_eq!(d.path, "/x");
    assert_eq!(d.settings, vec![SettingsEntry::Host(String::from("hello"))]);
    assert_eq!(d.body, b"OK".to_vec());
    assert_eq!(d.header, header(0));
}

#[test]
fn utf16_host_scenario() {
    let bytes = vec![0, 0, 0, 0, 0, 1, 1, 0, 0, 0, 2, 0x00, 0xE9];
    let d = decode(1, bytes).unwrap();
    assert_eq!(d.path, "");
    assert_eq!(d.settings, vec![SettingsEntry::Host(String::from("é"))]);
    assert!(d.body.is_empty());
}

#[test]
fn utf16_surrogate_pair_host() {
    let bytes = vec![0, 0, 0, 0, 0, 1, 1, 0, 0, 0, 4, 0xD8, 0x3D, 0xDE, 0x00];
    let d = decode(1, bytes).unwrap();
    assert_eq!(d.settings, vec![SettingsEntry::Host(String::from("\u{1F600}"))]);
}

#[test]
fn no_settings_and_empty_stream() {
    let d = decode(0, vec![0, 0, 0, 0, 0, 0]).unwrap();
    assert_eq!(d.path, "");
    assert!(d.settings.is_empty());
    assert!(d.body.is_empty());
    let d = decode(0, vec![0, 0, 0, 1, b'a', 0, 0]).unwrap();
    assert_eq!(d.path, "a");
    assert!(d.body.is_empty());
}

#[test]
fn lossy_path_never_fails() {
    let d = decode(0, vec![0, 0, 0, 2, 0xFF, b'a', 0, 0]).unwrap();
    assert_eq!(d.path, "\u{FFFD}a");
    assert!(!d.path.is_empty());
    assert_eq!(decode_lossy(&vec![0xC3, 0xA9]), "é");
}

#[test]
fn custom_entry_is_skipped_exactly() {
    let mut bytes = vec![0, 0, 0, 0, 0, 2];
    bytes.extend_from_slice(&[0xFF, 0, 0, 0, 3, 7, 8, 9]);
    bytes.extend_from_slice(&[0, 0, 0, 0, 42]);
    bytes.extend_from_slice(b"body");
    let d = decode(0, bytes).unwrap();
    assert_eq!(d.settings, vec![SettingsEntry::Custom(3), SettingsEntry::BodyLength(42)]);
    assert_eq!(d.body, b"body".to_vec());
}

#[test]
fn unknown_tag_reads_nothing() {
    let bytes = vec![0, 0, 0, 0, 0, 2, 0x02, 0, 0, 0, 0, 5, 0xAA];
    let d = decode(0, bytes).unwrap();
    assert_eq!(d.settings, vec![SettingsEntry::Unknown(2), SettingsEntry::BodyLength(5)]);
    assert_eq!(d.body, vec![0xAA]);
}

#[test]
fn repeated_tags_are_kept_in_order() {
    let bytes = vec![0, 0, 0, 0, 0, 3, 0, 0, 0, 0, 1, 0, 0, 0, 0, 2, 0x10];
    let d = decode(0, bytes).unwrap();
    assert_eq!(
        d.settings,
        vec![
            SettingsEntry::BodyLength(1),
            SettingsEntry::BodyLength(2),
            SettingsEntry::Unknown(0x10),
        ]
    );
}

#[test]
fn path_longer_than_stream_is_truncated() {
    assert_eq!(decode(0, vec![0, 0, 0, 5, b'/', b'x']), Err(DecodeError::TruncatedStream));
    assert_eq!(decode(0, vec![0, 0]), Err(DecodeError::TruncatedStream));
}

#[test]
fn custom_longer_than_stream_is_truncated() {
    let bytes = vec![0, 0, 0, 0, 0, 1, 0xFF, 0, 0, 0, 9, 1, 2];
    assert_eq!(decode(0, bytes), Err(DecodeError::TruncatedStream));
}

#[test]
fn missing_entries_are_truncated() {
    assert_eq!(decode(0, vec![0, 0, 0, 0, 0, 2, 0x05]), Err(DecodeError::TruncatedStream));
    assert_eq!(decode(0, vec![0, 0, 0, 0, 0]), Err(DecodeError::TruncatedStream));
}

#[test]
fn bad_magic_reads_nothing() {
    let mut h = header(0);
    h.magic_number = 0x00042068;
    let mut src = ByteSource::new(vec![0, 0, 0, 0, 0, 0]);
    assert_eq!(decode_request(&h, &mut src), Err(DecodeError::InvalidMagic));
    assert_eq!(src.position(), 0);
}

#[test]
fn invalid_host_text() {
    let bytes = vec![0, 0, 0, 0, 0, 1, 1, 0, 0, 0, 1, 0xFF];
    assert_eq!(decode(0, bytes), Err(DecodeError::InvalidText));
    let lone = vec![0, 0, 0, 0, 0, 1, 1, 0, 0, 0, 2, 0xDC, 0x00];
    assert_eq!(decode(1, lone), Err(DecodeError::InvalidText));
    let odd = vec![0, 0, 0, 0, 0, 1, 1, 0, 0, 0, 3, 0x00, 0x41, 0x00];
    assert_eq!(decode(1, odd), Err(DecodeError::InvalidText));
}

#[test]
fn whole_request_from_header() {
    let mut bytes = vec![0x00, 0x04, 0x20, 0x69, 1, 0, 2, 0];
    bytes.extend_from_slice(&[0, 0, 0, 1, b'/', 0, 0]);
    bytes.extend_from_slice(b"hi");
    let mut src = ByteSource::new(bytes);
    let d = process_request(&mut src).unwrap();
    assert_eq!(d.header.action, Action::Write);
    assert_eq!(d.header.version_major, 1);
    assert_eq!(d.path, "/");
    assert_eq!(d.body, b"hi".to_vec());
    assert_eq!(src.remaining(), 0);
}

#[test]
fn whole_request_errors() {
    let mut src = ByteSource::new(vec![0x00, 0x04, 0x20, 0x70, 1, 0, 0, 0, 0, 0, 0, 0, 0, 0]);
    assert_eq!(process_request(&mut src), Err(DecodeError::InvalidMagic));
    let mut src = ByteSource::new(vec![0x00, 0x04, 0x20, 0x69, 1, 0, 9, 0]);
    assert_eq!(process_request(&mut src), Err(DecodeError::InvalidAction));
    let mut src = ByteSource::new(vec![0x00, 0x04, 0x20]);
    assert_eq!(process_request(&mut src), Err(DecodeError::TruncatedStream));
}

#[test]
fn header_fields() {
    let h = decode_header(&[0x00, 0x04, 0x20, 0x69, 2, 7, 4, 0x81]).unwrap();
    assert_eq!(h.magic_number, 0x00042069);
    assert_eq!(h.version_major, 2);
    assert_eq!(h.version_minor, 7);
    assert_eq!(h.action, Action::Delete);
    assert_eq!(h.flags, 0x81);
    assert_eq!(decode_header(&[0, 0, 0, 0, 0, 0, 5, 0]), Err(DecodeError::InvalidAction));
}

#[test]
fn flags_and_names() {
    assert!(has_flag(0b101, 0b100));
    assert!(!has_flag(0b001, 0b011));
    assert!(has_flag(0, 0));
    assert!(is_utf16(0x81));
    assert!(!is_utf16(0x80));
    assert_eq!(action_to_string(Action::Noop), "NOOP");
    assert_eq!(action_to_string(Action::Modify), "MOFIFY");
    assert_eq!(action_to_string(Action::Delete), "DELETE");
}

#[test]
fn settings_tags() {
    assert_eq!(u8_to_settings(0), Some(SettingsKind::BodyLength));
    assert_eq!(u8_to_settings(1), Some(SettingsKind::Host));
    assert_eq!(u8_to_settings(0xFF), Some(SettingsKind::Custom));
    assert_eq!(u8_to_settings(2), None);
    let mut src = ByteSource::new(vec![0, 0, 0, 2, 1, 2, 3]);
    assert_eq!(decode_settings_entry(0xFF, &mut src, false), Ok(SettingsEntry::Custom(2)));
    assert_eq!(src.position(), 6);
    assert_eq!(decode_settings_entry(7, &mut src, false), Ok(SettingsEntry::Unknown(7)));
    assert_eq!(src.position(), 6);
}

#[test]
fn text_round_trip() {
    for text in ["", "hello", "héllo wörld", "\u{1F600} ok \u{10FFFF}"] {
        for utf16 in [false, true] {
            let mut bytes = encode_buss_string(text, utf16).unwrap();
            let n = bytes.len();
            bytes.push(0x5A);
            let mut src = ByteSource::new(bytes);
            assert_eq!(read_buss_string(&mut src, utf16), Ok(String::from(text)));
            assert_eq!(src.position(), n);
        }
    }
}

#[test]
fn text_encoding_bytes() {
    assert_eq!(encode_buss_string("hi", false), Some(vec![0, 0, 0, 2, b'h', b'i']));
    assert_eq!(encode_buss_string("é", true), Some(vec![0, 0, 0, 2, 0x00, 0xE9]));
    assert_eq!(encode_buss_string("é", false), Some(vec![0, 0, 0, 2, 0xC3, 0xA9]));
    assert_eq!(
        encode_buss_string("\u{1F600}", true),
        Some(vec![0, 0, 0, 4, 0xD8, 0x3D, 0xDE, 0x00])
    );
}

#[test]
fn empty_text_field_reads_only_its_length() {
    let mut src = ByteSource::new(vec![0, 0, 0, 0, 0xFF]);
    assert_eq!(read_buss_string(&mut src, true), Ok(String::new()));
    assert_eq!(src.position(), 4);
}

#[test]
fn byte_source_reads() {
    let mut src = ByteSource::new(vec![1, 2, 3, 4, 5, 6, 7, 8, 9]);
    assert_eq!(src.read_u16(), Ok(0x0102));
    assert_eq!(src.read_u32(), Ok(0x03040506));
    assert_eq!(src.read_u32(), Err(DecodeError::TruncatedStream));
    assert_eq!(src.position(), 6);
    assert_eq!(src.skip(4), Err(DecodeError::TruncatedStream));
    assert_eq!(src.skip(1), Ok(()));
    assert_eq!(src.read_u8(), Ok(8));
    assert_eq!(src.read_exact(2), Err(DecodeError::TruncatedStream));
    assert_eq!(src.read_to_end(), vec![9]);
    assert_eq!(src.read_to_end(), Vec::<u8>::new());
    assert_eq!(src.read_u8(), Err(DecodeError::TruncatedStream));
}
