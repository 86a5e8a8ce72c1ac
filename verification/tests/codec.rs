use pixel_canvas::codec::{
    decode_request, decode_response, encode_request, encode_response, RequestPacket,
    ResponsePacket,
};
use pixel_canvas::errors::DecodeError;

#[test]
fn request_get_cell_byte_layout() {
    let frame = encode_request(RequestPacket::GetCell { x: 3, y: 4 });
    assert_eq!(frame, vec![0, 0, 0, 0, 0, 3, 0, 4]);
}

#[test]
fn request_set_cell_byte_layout() {
    let frame = encode_request(RequestPacket::SetCell { x: 3, y: 4, color: 200 });
    assert_eq!(frame, vec![0, 0, 0, 1, 0, 3, 0, 4, 200]);
}

#[test]
fn request_big_endian_coordinates() {
    let frame = encode_request(RequestPacket::GetCell { x: 0x1234, y: 0xABCD });
    assert_eq!(frame, vec![0, 0, 0, 0, 0x12, 0x34, 0xAB, 0xCD]);
}

#[test]
fn request_round_trip_get_cell() {
    let p = RequestPacket::GetCell { x: 65535, y: 0 };
    let frame = encode_request(p);
    assert_eq!(decode_request(&frame), Ok(p));
}

#[test]
fn request_round_trip_set_cell() {
    let p = RequestPacket::SetCell { x: 7, y: 9, color: 255 };
    let frame = encode_request(p);
    assert_eq!(decode_request(&frame), Ok(p));
}

#[test]
fn short_frame_is_truncated() {
    assert_eq!(decode_request(&[0, 0, 1]), Err(DecodeError::Truncated));
    assert_eq!(decode_request(&[]), Err(DecodeError::Truncated));
    assert_eq!(decode_request(&[0, 0, 0, 0, 0, 3]), Err(DecodeError::Truncated));
    assert_eq!(decode_request(&[0, 0, 0, 1, 0, 3, 0, 4]), Err(DecodeError::Truncated));
}

#[test]
fn long_frame_is_trailing() {
    assert_eq!(
        decode_request(&[0, 0, 0, 0, 0, 3, 0, 4, 9]),
        Err(DecodeError::Trailing)
    );
    assert_eq!(
        decode_request(&[0, 0, 0, 1, 0, 3, 0, 4, 200, 0]),
        Err(DecodeError::Trailing)
    );
}

#[test]
fn unknown_discriminant_is_rejected() {
    assert_eq!(
        decode_request(&[0, 0, 0, 9, 0, 0, 0, 0]),
        Err(DecodeError::UnknownTag { tag: 9 })
    );
    assert_eq!(
        decode_request(&[0xFF, 0, 0, 0]),
        Err(DecodeError::UnknownTag { tag: 0xFF00_0000 })
    );
}

#[test]
fn response_cell_data_byte_layout() {
    let frame = encode_response(&ResponsePacket::CellData { x: 3, y: 4, color: 200 });
    assert_eq!(frame, vec![0, 0, 0, 1, 0, 3, 0, 4, 200]);
}

#[test]
fn response_cell_updated_byte_layout() {
    let frame = encode_response(&ResponsePacket::CellUpdated { x: 3, y: 4, color: 200 });
    assert_eq!(frame, vec![0, 0, 0, 2, 0, 3, 0, 4, 200]);
}

#[test]
fn response_error_byte_layout() {
    let frame = encode_response(&ResponsePacket::Error { message: String::from("no") });
    let mut expected = vec![0u8, 0, 0, 0];
    expected.extend_from_slice(&[0, 0, 0, 0, 0, 0, 0, 2]);
    expected.extend_from_slice(b"no");
    assert_eq!(frame, expected);
}

#[test]
fn response_round_trip_error() {
    let frame = encode_response(&ResponsePacket::Error {
        message: String::from("x out of bounds"),
    });
    match decode_response(&frame) {
        Ok(ResponsePacket::Error { message }) => assert_eq!(message, "x out of bounds"),
        other => panic!("unexpected decode result: {:?}", other),
    }
}

#[test]
fn response_round_trip_cell_data() {
    let frame = encode_response(&ResponsePacket::CellData { x: 10, y: 20, color: 30 });
    match decode_response(&frame) {
        Ok(ResponsePacket::CellData { x, y, color }) => {
            assert_eq!((x, y, color), (10, 20, 30));
        }
        other => panic!("unexpected decode result: {:?}", other),
    }
}

#[test]
fn response_round_trip_cell_updated() {
    let frame = encode_response(&ResponsePacket::CellUpdated { x: 1, y: 2, color: 3 });
    match decode_response(&frame) {
        Ok(ResponsePacket::CellUpdated { x, y, color }) => {
            assert_eq!((x, y, color), (1, 2, 3));
        }
        other => panic!("unexpected decode result: {:?}", other),
    }
}

#[test]
fn response_error_rejects_invalid_utf8() {
    let mut frame = vec![0u8, 0, 0, 0];
    frame.extend_from_slice(&[0, 0, 0, 0, 0, 0, 0, 2]);
    frame.extend_from_slice(&[0xFF, 0xFE]);
    match decode_response(&frame) {
        Err(e) => assert_eq!(e, DecodeError::InvalidUtf8),
        other => panic!("unexpected decode result: {:?}", other),
    }
}

#[test]
fn response_error_length_prefix_is_checked() {
    let mut frame = vec![0u8, 0, 0, 0];
    frame.extend_from_slice(&[0, 0, 0, 0, 0, 0, 0, 5]);
    frame.extend_from_slice(b"ab");
    assert!(matches!(decode_response(&frame), Err(DecodeError::Truncated)));

    let mut frame = vec![0u8, 0, 0, 0];
    frame.extend_from_slice(&[0, 0, 0, 0, 0, 0, 0, 1]);
    frame.extend_from_slice(b"ab");
    assert!(matches!(decode_response(&frame), Err(DecodeError::Trailing)));
}

#[test]
fn decode_error_messages() {
    assert_eq!(DecodeError::Truncated.message(), "truncated frame");
    assert_eq!(DecodeError::Trailing.message(), "trailing bytes after frame");
    assert_eq!(
        DecodeError::UnknownTag { tag: 9 }.message(),
        "unknown frame tag: 9"
    );
    assert_eq!(DecodeError::InvalidUtf8.message(), "invalid utf-8 in frame");
}
