use backend::packet::{frame_packet, handshake_packet, status_request_packet, write_string};
use backend::response::{frame_error, json_text, next_read, FrameError, ReadAction};
use backend::error::Error;
use backend::varint::{read_varint, read_varint_at, write_varint, VarIntRead};

fn encode(v: i32) -> Vec<u8> {
    let mut buf = Vec::new();
    write_varint(&mut buf, v);
    buf
}

#[test]
fn varint_known_encodings() {
    assert_eq!(encode(0), vec![0x00]);
    assert_eq!(encode(1), vec![0x01]);
    assert_eq!(encode(47), vec![0x2f]);
    assert_eq!(encode(127), vec![0x7f]);
    assert_eq!(encode(128), vec![0x80, 0x01]);
    assert_eq!(encode(255), vec![0xff, 0x01]);
    assert_eq!(encode(300), vec![0xac, 0x02]);
    assert_eq!(encode(25565), vec![0xdd, 0xc7, 0x01]);
    assert_eq!(encode(2097151), vec![0xff, 0xff, 0x7f]);
    assert_eq!(encode(i32::MAX), vec![0xff, 0xff, 0xff, 0xff, 0x07]);
    assert_eq!(encode(-1), vec![0xff, 0xff, 0xff, 0xff, 0x0f]);
    assert_eq!(encode(i32::MIN), vec![0x80, 0x80, 0x80, 0x80, 0x08]);
}

#[test]
fn varint_appends_to_existing_bytes() {
    let mut buf = vec![9u8, 9u8];
    write_varint(&mut buf, 300);
    assert_eq!(buf, vec![9, 9, 0xac, 0x02]);
}

#[test]
fn varint_roundtrip_on_values() {
    let values = [0, 1, 2, 63, 64, 127, 128, 129, 255, 256, 16383, 16384, 2097151, 2097152,
        268435455, 268435456, i32::MAX, -1, -2, -128, -129, -2147483647, i32::MIN, 25565, 47];
    for &v in values.iter() {
        let mut buf = encode(v);
        let n = buf.len();
        assert!(n >= 1 && n <= 5);
        buf.extend_from_slice(&[0x80, 0x01, 0x33]);
        assert_eq!(read_varint(&buf), VarIntRead::Value(v, n));
    }
}

#[test]
fn varint_read_incomplete_and_too_big() {
    assert_eq!(read_varint(&[]), VarIntRead::Incomplete);
    assert_eq!(read_varint(&[0x80]), VarIntRead::Incomplete);
    assert_eq!(read_varint(&[0xff, 0xff, 0xff, 0xff]), VarIntRead::Incomplete);
    // five bytes with the high bit set: the sixth is still awaited
    assert_eq!(read_varint(&[0x80, 0x80, 0x80, 0x80, 0x80]), VarIntRead::Incomplete);
    // a sixth byte is an error, whatever it holds
    assert_eq!(read_varint(&[0x80, 0x80, 0x80, 0x80, 0x80, 0x01]), VarIntRead::TooBig);
    assert_eq!(read_varint(&[0x80, 0x80, 0x80, 0x80, 0x80, 0x80, 0x80]), VarIntRead::TooBig);
}

#[test]
fn varint_read_drops_high_bits_of_fifth_byte() {
    // 0x7f in the fifth byte carries bits beyond 32, which are dropped
    assert_eq!(read_varint(&[0xff, 0xff, 0xff, 0xff, 0x7f]), VarIntRead::Value(-1, 5));
    assert_eq!(read_varint(&[0x80, 0x80, 0x80, 0x80, 0x10]), VarIntRead::Value(0, 5));
}

#[test]
fn varint_read_at_offset() {
    let buf = [0x05, 0xac, 0x02, 0x00];
    assert_eq!(read_varint_at(&buf, 1), VarIntRead::Value(300, 2));
    assert_eq!(read_varint_at(&buf, 3), VarIntRead::Value(0, 1));
    assert_eq!(read_varint_at(&buf, 4), VarIntRead::Incomplete);
}

#[test]
fn string_field_is_length_then_bytes() {
    let mut buf = Vec::new();
    write_string(&mut buf, "abc");
    assert_eq!(buf, vec![3, b'a', b'b', b'c']);
    let mut buf = Vec::new();
    write_string(&mut buf, "é");
    assert_eq!(buf, vec![2, 0xc3, 0xa9]);
    let mut buf = Vec::new();
    write_string(&mut buf, "");
    assert_eq!(buf, vec![0]);
}

#[test]
fn frame_packet_prefixes_length() {
    assert_eq!(frame_packet(&[]), vec![0]);
    assert_eq!(frame_packet(&[7, 8, 9]), vec![3, 7, 8, 9]);
    let long = vec![1u8; 200];
    let framed = frame_packet(&long);
    assert_eq!(&framed[..2], &[0xc8, 0x01]);
    assert_eq!(&framed[2..], &long[..]);
}

#[test]
fn handshake_packet_bytes() {
    let packet = handshake_packet("localhost", 25565);
    let mut body = vec![0x00, 0x2f, 9];
    body.extend_from_slice(b"localhost");
    body.extend_from_slice(&[0x63, 0xdd, 0x01]);
    let mut expected = vec![body.len() as u8];
    expected.extend_from_slice(&body);
    assert_eq!(packet, expected);
}

#[test]
fn handshake_packet_port_is_big_endian() {
    let packet = handshake_packet("a", 0x1234);
    assert_eq!(packet, vec![7, 0x00, 0x2f, 1, b'a', 0x12, 0x34, 0x01]);
}

#[test]
fn status_request_packet_bytes() {
    assert_eq!(status_request_packet(), vec![1, 0]);
}

fn server_response(json: &str) -> Vec<u8> {
    let mut body = Vec::new();
    write_varint(&mut body, 0);
    write_string(&mut body, json);
    frame_packet(&body)
}

/// Feeds the reader as the query does: one byte or one block at a time.
fn read_all(bytes: &[u8]) -> (ReadAction, usize) {
    let mut received: Vec<u8> = Vec::new();
    let mut pos = 0;
    loop {
        match next_read(&received) {
            ReadAction::NeedByte => {
                if pos >= bytes.len() {
                    return (ReadAction::NeedByte, pos);
                }
                received.push(bytes[pos]);
                pos += 1;
            }
            ReadAction::NeedBytes(n) => {
                if pos + n > bytes.len() {
                    return (ReadAction::NeedBytes(n), pos);
                }
                received.extend_from_slice(&bytes[pos..pos + n]);
                pos += n;
            }
            other => return (other, pos),
        }
    }
}

#[test]
fn reader_reads_a_status_response() {
    let json = r#"{"version":{"name":"Paper-1.21.4","protocol":769},"players":{"max":20,"online":3}}"#;
    let bytes = server_response(json);
    let (action, used) = read_all(&bytes);
    assert_eq!(used, bytes.len());
    match action {
        ReadAction::Complete(payload) => assert_eq!(payload, json.as_bytes().to_vec()),
        other => panic!("unexpected {:?}", other),
    }
}

#[test]
fn reader_asks_for_more_on_every_prefix() {
    let bytes = server_response("{\"a\":1}");
    for k in 0..bytes.len() {
        match next_read(&bytes[..k]) {
            ReadAction::NeedByte | ReadAction::NeedBytes(_) => {}
            other => panic!("prefix {} gave {:?}", k, other),
        }
    }
}

#[test]
fn reader_asks_for_the_whole_text_at_once() {
    let bytes = server_response("hello");
    // length 7, id 0, text length 5
    assert!(matches!(next_read(&bytes[..3]), ReadAction::NeedBytes(5)));
    assert!(matches!(next_read(&bytes[..5]), ReadAction::NeedBytes(3)));
}

#[test]
fn reader_rejects_unexpected_packet_id() {
    let bytes = [5u8, 0x01, 0x00];
    assert!(matches!(next_read(&bytes), ReadAction::Failed(FrameError::UnexpectedPacketId(1))));
}

#[test]
fn reader_rejects_negative_length() {
    let bytes = [6u8, 0x00, 0xff, 0xff, 0xff, 0xff, 0x0f];
    assert!(matches!(next_read(&bytes), ReadAction::Failed(FrameError::NegativeLength(-1))));
}

#[test]
fn reader_rejects_oversized_varint() {
    let bytes = [0x80u8, 0x80, 0x80, 0x80, 0x80, 0x80];
    assert!(matches!(next_read(&bytes), ReadAction::Failed(FrameError::VarIntTooBig)));
    let bytes = [3u8, 0x00, 0x80, 0x80, 0x80, 0x80, 0x80, 0x00];
    assert!(matches!(next_read(&bytes), ReadAction::Failed(FrameError::VarIntTooBig)));
}

#[test]
fn reader_empty_text() {
    let bytes = server_response("");
    assert!(matches!(next_read(&bytes), ReadAction::Complete(ref v) if v.is_empty()));
}

fn message(e: Error) -> String {
    match e {
        Error::ServerError(m) => m,
        other => panic!("unexpected {:?}", other),
    }
}

#[test]
fn frame_error_messages() {
    assert_eq!(message(frame_error(FrameError::VarIntTooBig)), "VarInt too big");
    assert_eq!(message(frame_error(FrameError::UnexpectedPacketId(7))), "Unexpected packet ID: 7");
    assert_eq!(message(frame_error(FrameError::UnexpectedPacketId(-12))), "Unexpected packet ID: -12");
    assert_eq!(message(frame_error(FrameError::NegativeLength(-3))), "Negative JSON length: -3");
}

#[test]
fn json_text_decodes_utf8() {
    assert_eq!(json_text("{\"é\":1}".as_bytes().to_vec()).unwrap(), "{\"é\":1}");
    let err = json_text(vec![0x7b, 0xff, 0x7d]).unwrap_err();
    let m = message(err);
    let expected = String::from_utf8(vec![0x7b, 0xff, 0x7d]).unwrap_err().to_string();
    assert_eq!(m, format!("Invalid UTF-8: {}", expected));
}

#[test]
fn framed_length_reads_back() {
    for len in [0usize, 1, 127, 128, 300, 20000] {
        let data: Vec<u8> = (0..len).map(|i| (i % 251) as u8).collect();
        let packet = frame_packet(&data);
        match read_varint(&packet) {
            VarIntRead::Value(n, k) => {
                assert_eq!(n as usize, len);
                assert_eq!(&packet[k..], &data[..]);
            }
            other => panic!("unexpected {:?}", other),
        }
    }
}

#[test]
fn signed_decimal_extremes() {
    let mut s = String::new();
    backend::text::push_signed_decimal(&mut s, i64::MIN);
    assert_eq!(s, i64::MIN.to_string());
}
