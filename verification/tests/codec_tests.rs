use palboard_gateway::codec::{
    decode_frame, encode_frame, buffered_frame_well_sized, Frame, RconError, MAX_FRAME_LEN,
    SERVERDATA_AUTH, SERVERDATA_EXECCOMMAND, SERVERDATA_RESPONSE_VALUE,
};

fn frame(id: i32, kind: i32, body: &str) -> Frame {
    Frame { id, kind, body: body.to_string() }
}

#[test]
fn round_trip_exec_frame() {
    let mut wire: Vec<u8> = Vec::new();
    encode_frame(&frame(14, SERVERDATA_EXECCOMMAND, "ShowPlayers"), &mut wire).unwrap();
    let decoded = decode_frame(&mut wire).unwrap().unwrap();
    assert_eq!(decoded.id, 14);
    assert_eq!(decoded.kind, SERVERDATA_EXECCOMMAND);
    assert_eq!(decoded.body, "ShowPlayers");
    assert!(wire.is_empty());
}

#[test]
fn round_trip_empty_body() {
    let mut wire: Vec<u8> = Vec::new();
    encode_frame(&frame(13, SERVERDATA_AUTH, ""), &mut wire).unwrap();
    let decoded = decode_frame(&mut wire).unwrap().unwrap();
    assert_eq!(decoded.id, 13);
    assert_eq!(decoded.kind, SERVERDATA_AUTH);
    assert_eq!(decoded.body, "");
    assert!(wire.is_empty());
}

#[test]
fn round_trip_negative_id_and_multibyte_body() {
    let mut wire: Vec<u8> = Vec::new();
    encode_frame(&frame(-7, SERVERDATA_RESPONSE_VALUE, "héllo ☃"), &mut wire).unwrap();
    let decoded = decode_frame(&mut wire).unwrap().unwrap();
    assert_eq!(decoded.id, -7);
    assert_eq!(decoded.kind, SERVERDATA_RESPONSE_VALUE);
    assert_eq!(decoded.body, "héllo ☃");
}

#[test]
fn exact_wire_bytes() {
    let mut wire: Vec<u8> = Vec::new();
    encode_frame(&frame(5, 0, "AB"), &mut wire).unwrap();
    assert_eq!(
        wire,
        vec![12, 0, 0, 0, 5, 0, 0, 0, 0, 0, 0, 0, b'A', b'B', 0, 0]
    );
}

#[test]
fn partial_delivery_one_byte_at_a_time() {
    let mut wire: Vec<u8> = Vec::new();
    encode_frame(&frame(14, 2, "Info"), &mut wire).unwrap();
    let mut buf: Vec<u8> = Vec::new();
    for (fed, byte) in wire.iter().enumerate() {
        buf.push(*byte);
        let step = decode_frame(&mut buf).unwrap();
        if fed + 1 < wire.len() {
            assert!(step.is_none(), "prefix of {} bytes decoded early", fed + 1);
        } else {
            let decoded = step.unwrap();
            assert_eq!(decoded.id, 14);
            assert_eq!(decoded.kind, 2);
            assert_eq!(decoded.body, "Info");
        }
    }
    assert!(buf.is_empty());
}

#[test]
fn two_frames_back_to_back() {
    let mut wire: Vec<u8> = Vec::new();
    encode_frame(&frame(1, 2, "first"), &mut wire).unwrap();
    encode_frame(&frame(2, 0, "second"), &mut wire).unwrap();
    let a = decode_frame(&mut wire).unwrap().unwrap();
    let b = decode_frame(&mut wire).unwrap().unwrap();
    assert_eq!((a.id, a.body.as_str()), (1, "first"));
    assert_eq!((b.id, b.body.as_str()), (2, "second"));
    assert!(wire.is_empty());
    assert!(decode_frame(&mut wire).unwrap().is_none());
}

#[test]
fn oversize_body_is_rejected_never_truncated() {
    let body = "x".repeat(MAX_FRAME_LEN - 10 + 1);
    let mut wire: Vec<u8> = Vec::new();
    let err = encode_frame(&frame(1, 2, &body), &mut wire).unwrap_err();
    assert_eq!(err, RconError::FrameTooLarge);
    assert!(wire.is_empty());
}

#[test]
fn largest_fitting_body_is_accepted() {
    let body = "x".repeat(MAX_FRAME_LEN - 10);
    let mut wire: Vec<u8> = Vec::new();
    encode_frame(&frame(1, 2, &body), &mut wire).unwrap();
    let decoded = decode_frame(&mut wire).unwrap().unwrap();
    assert_eq!(decoded.body.len(), MAX_FRAME_LEN - 10);
}

#[test]
fn oversize_declared_length_is_rejected_without_consuming() {
    let mut buf: Vec<u8> = ((MAX_FRAME_LEN + 1) as u32).to_le_bytes().to_vec();
    buf.extend_from_slice(&[0, 0, 0]);
    let before = buf.clone();
    let err = decode_frame(&mut buf).unwrap_err();
    assert_eq!(err, RconError::FrameTooLarge);
    assert_eq!(buf, before);
}

#[test]
fn invalid_utf8_body_is_invalid_body() {
    let mut buf: Vec<u8> = Vec::new();
    buf.extend_from_slice(&11u32.to_le_bytes());
    buf.extend_from_slice(&14i32.to_le_bytes());
    buf.extend_from_slice(&0i32.to_le_bytes());
    buf.push(0xFF);
    buf.extend_from_slice(&[0, 0]);
    let err = decode_frame(&mut buf).unwrap_err();
    assert_eq!(err, RconError::InvalidBody);
    assert!(buf.is_empty(), "the malformed frame's bytes are consumed");
}

#[test]
fn short_buffer_asks_for_more() {
    let mut buf: Vec<u8> = vec![16, 0, 0];
    assert!(decode_frame(&mut buf).unwrap().is_none());
    assert_eq!(buf, vec![16, 0, 0]);
    buf.push(0);
    assert!(decode_frame(&mut buf).unwrap().is_none());
    assert_eq!(buf.len(), 4);
}

#[test]
fn well_sized_guard_spots_a_length_with_no_room_for_the_header() {
    let mut buf: Vec<u8> = 5u32.to_le_bytes().to_vec();
    assert!(buffered_frame_well_sized(&buf), "incomplete frame is still fine");
    buf.extend_from_slice(&[1, 2, 3, 4, 5]);
    assert!(!buffered_frame_well_sized(&buf));
    let ok: Vec<u8> = 10u32.to_le_bytes().to_vec();
    assert!(buffered_frame_well_sized(&ok));
}
