use discord_bots::ws::header::{Error, Header, Kind, MaskingKey};
use discord_bots::ws::message::{Context, Message, Owned, Reassembler};

#[test]
fn test() {
    let header = Header {
        is_final: true,
        extensions: [false; 3],
        kind: Kind::Text,
        payload_len: 10,
        masking_key: Some(MaskingKey::new().unwrap()),
    };
    let bytes = header.bytes();
    let (nheader, _) = Header::read(bytes.as_slice()).unwrap();
    assert_eq!(header, nheader)
}

#[test]
fn test2() {
    let input = b"\x81\xfe\0\xeb8\xda\x018C\xf8uWS\xbfo\x1a\x02\xf8LBy\xadOB[\xadO|q\xeaOBy\xebLB_\xeaO|i\xee/`l\xbeeoy\xf4KaN\xb8nMz\x9fmW\x01\x83Qnw\xaed]I\xed,i\x08\xe3mA\0\xf8-\x1aH\xa8nH]\xa8uQ]\xa9#\x02C\xf8%WK\xf8;\x1aT\xb3oM@\xf8-\x1a\x1c\xb8sWO\xa9dJ\x1a\xe0#LW\xb1hW\x1a\xf6#\x1c\\\xbfwQ[\xbf#\x02\x1a\xa9dJN\xbfs\x1aE\xf6#[W\xb7qJ]\xa9r\x1a\x02\xbc`TK\xbf-\x1aT\xbbs_]\x85uPJ\xbfrPW\xb6e\x1a\x02\xb4tTT\xf6#KP\xbbs\\\x1a\xe0oMT\xb6-\x1aH\xa8dK]\xb4b]\x1a\xe0oMT\xb6-\x1a_\xafhT\\\x85rMZ\xa9bJQ\xaauQW\xb4r\x1a\x02\xbc`TK\xbf|";
    Owned::read(input.as_ref()).unwrap();
}

fn round_trip(header: Header) {
    let bytes = header.bytes();
    let encoded = bytes.as_slice().to_vec();
    let (decoded, used) = Header::read(&encoded).unwrap();
    assert_eq!(decoded, header);
    assert_eq!(used, encoded.len());
    let mut longer = encoded.clone();
    longer.extend_from_slice(&[1, 2, 3]);
    let (decoded, used) = Header::read(&longer).unwrap();
    assert_eq!(decoded, header);
    assert_eq!(used, encoded.len());
}

#[test]
fn header_round_trip_across_length_boundaries() {
    let kinds = [Kind::Continuation, Kind::Text, Kind::Binary];
    let lengths = [0u64, 1, 125, 126, 127, 65535, 65536, 1 << 40, u64::MAX];
    for kind in kinds {
        for len in lengths {
            for fin in [true, false] {
                for mask in [None, Some(MaskingKey::from_bytes([9, 8, 7, 6]))] {
                    round_trip(Header {
                        is_final: fin,
                        extensions: [fin, false, !fin],
                        kind,
                        payload_len: len,
                        masking_key: mask,
                    });
                }
            }
        }
    }
    for kind in [Kind::Close, Kind::Ping, Kind::Pong] {
        for len in [0u64, 2, 125] {
            for mask in [None, Some(MaskingKey::from_bytes([1, 2, 3, 4]))] {
                round_trip(Header {
                    is_final: true,
                    extensions: [false, true, false],
                    kind,
                    payload_len: len,
                    masking_key: mask,
                });
            }
        }
    }
}

#[test]
fn header_encoding_exact_bytes() {
    let h = Header {
        is_final: true,
        extensions: [false; 3],
        kind: Kind::Binary,
        payload_len: 300,
        masking_key: Some(MaskingKey::from_bytes([0xaa, 0xbb, 0xcc, 0xdd])),
    };
    assert_eq!(h.bytes().as_slice(), &[0x82, 0xfe, 0x01, 0x2c, 0xaa, 0xbb, 0xcc, 0xdd]);
    let h = Header {
        is_final: false,
        extensions: [false; 3],
        kind: Kind::Text,
        payload_len: 70000,
        masking_key: None,
    };
    assert_eq!(h.bytes().as_slice(), &[0x01, 0x7f, 0, 0, 0, 0, 0, 0x01, 0x11, 0x70]);
    let h = Header {
        is_final: true,
        extensions: [false; 3],
        kind: Kind::Pong,
        payload_len: 5,
        masking_key: None,
    };
    assert_eq!(h.bytes().as_slice(), &[0x8a, 0x05]);
}

#[test]
fn reserved_opcodes_are_refused() {
    for op in [3u8, 4, 5, 6, 7, 11, 12, 13, 14, 15] {
        assert_eq!(Header::read(&[0x80 | op, 0x00]), Err(Error::ReservedOpcode));
    }
}

#[test]
fn short_input_is_premature() {
    assert_eq!(Header::read(&[]), Err(Error::PrematureFinish));
    assert_eq!(Header::read(&[0x82]), Err(Error::PrematureFinish));
    assert_eq!(Header::read(&[0x82, 0x7e, 0x01]), Err(Error::PrematureFinish));
    assert_eq!(Header::read(&[0x82, 0x85, 1, 2, 3]), Err(Error::PrematureFinish));
    assert_eq!(Header::remaining_len(0x7e), 2);
    assert_eq!(Header::remaining_len(0xff), 12);
    assert_eq!(Header::remaining_len(0x05), 0);
}

#[test]
fn control_frames_refused_on_first_two_bytes() {
    // a ping announcing 126 bytes, with nothing after the two bytes
    assert_eq!(Header::read(&[0x89, 0x7e]), Err(Error::InvalidLength));
    assert_eq!(Header::read(&[0x88, 0xff]), Err(Error::InvalidLength));
    // a close that is not final
    assert_eq!(Header::read(&[0x08, 0x02]), Err(Error::InvalidDataFrame));
    assert_eq!(Header::read(&[0x0a, 0x00]), Err(Error::InvalidDataFrame));
}

#[test]
fn masking_is_its_own_inverse() {
    let key = MaskingKey::from_bytes([0x12, 0x34, 0x56, 0x78]);
    let original: Vec<u8> = (0u8..=200).collect();
    let mut data = original.clone();
    key.apply(&mut data);
    assert_ne!(data, original);
    key.apply(&mut data);
    assert_eq!(data, original);
}

#[test]
fn masking_exact_value() {
    let key = MaskingKey::from_bytes([1, 2, 3, 4]);
    let mut data = vec![0u8, 0, 0, 0, 0, 0xff];
    key.apply(&mut data);
    assert_eq!(data, vec![1, 2, 3, 4, 1, 0xfd]);
    assert_eq!(key.to_bytes(), [1, 2, 3, 4]);
}

fn frame(fin: bool, opcode: u8, mask: Option<[u8; 4]>, payload: &[u8]) -> Vec<u8> {
    let kind = match opcode {
        0 => Kind::Continuation,
        1 => Kind::Text,
        2 => Kind::Binary,
        8 => Kind::Close,
        9 => Kind::Ping,
        _ => Kind::Pong,
    };
    let key = mask.map(MaskingKey::from_bytes);
    let header = Header {
        is_final: fin,
        extensions: [false; 3],
        kind,
        payload_len: payload.len() as u64,
        masking_key: key,
    };
    let mut out = header.bytes().as_slice().to_vec();
    let mut body = payload.to_vec();
    if let Some(k) = key {
        k.apply(&mut body);
    }
    out.extend_from_slice(&body);
    out
}

#[test]
fn invalid_utf8_text_is_refused() {
    let bytes = frame(true, 1, None, &[0x66, 0xff, 0xfe]);
    assert_eq!(Owned::read(&bytes).unwrap_err(), Error::NonUtf8Text);
    let bytes = frame(true, 1, Some([5, 6, 7, 8]), &[0xc3, 0x28]);
    assert_eq!(Owned::read(&bytes).unwrap_err(), Error::NonUtf8Text);
    assert_eq!(Owned::new(Kind::Text, vec![0x80]).unwrap_err(), Error::NonUtf8Text);
}

#[test]
fn close_reason_must_be_utf8() {
    assert_eq!(Owned::new(Kind::Close, vec![0x03, 0xe8, 0xff]).unwrap_err(), Error::NonUtf8Text);
    let o = Owned::new(Kind::Close, vec![0x03, 0xe8, b'o', b'k']).unwrap();
    assert_eq!(o.message(), Message::Close(Some((1000, "ok"))));
    let o = Owned::new(Kind::Close, vec![0x03, 0xe9]).unwrap();
    assert_eq!(o.message(), Message::Close(Some((1001, ""))));
    let o = Owned::new(Kind::Close, vec![]).unwrap();
    assert_eq!(o.message(), Message::Close(None));
}

#[test]
fn continuation_cannot_start_a_message() {
    let bytes = frame(true, 0, None, b"abc");
    assert_eq!(Owned::read(&bytes).unwrap_err(), Error::InvalidDataFrame);
    assert_eq!(Owned::new(Kind::Continuation, vec![]).unwrap_err(), Error::InvalidDataFrame);
}

#[test]
fn fragmented_binary_reassembles_in_order() {
    let mut bytes = frame(false, 2, Some([1, 2, 3, 4]), b"abc");
    bytes.extend(frame(false, 0, None, b"de"));
    bytes.extend(frame(true, 0, Some([9, 9, 9, 9]), b"fgh"));
    bytes.extend(frame(true, 2, None, b"next"));
    let (owned, used) = Owned::read(&bytes).unwrap();
    assert_eq!(owned.message(), Message::Binary(b"abcdefgh"));
    assert_eq!(owned.buf(), b"abcdefgh");
    let (next, rest) = Owned::read(&bytes[used..]).unwrap();
    assert_eq!(next.message(), Message::Binary(b"next"));
    assert_eq!(used + rest, bytes.len());
}

#[test]
fn reassembler_collects_fragments() {
    let mut r = Reassembler::new();
    let h = |kind, fin, len| Header {
        is_final: fin,
        extensions: [false; 3],
        kind,
        payload_len: len,
        masking_key: None,
    };
    assert!(r.push(h(Kind::Text, false, 2), b"he".to_vec()).unwrap().is_none());
    assert!(r.push(h(Kind::Continuation, false, 1), b"l".to_vec()).unwrap().is_none());
    let done = r.push(h(Kind::Continuation, true, 2), b"lo".to_vec()).unwrap().unwrap();
    assert_eq!(done.message(), Message::Text("hello"));
    // a control frame in the middle of a fragmented message
    assert!(r.push(h(Kind::Binary, false, 1), b"x".to_vec()).unwrap().is_none());
    assert_eq!(r.push(h(Kind::Ping, true, 0), vec![]).unwrap_err(), Error::InvalidDataFrame);
    // a payload whose length differs from the header's
    assert_eq!(r.push(h(Kind::Binary, true, 3), b"xy".to_vec()).unwrap_err(), Error::InvalidDataFrame);
}

#[test]
fn truncated_payload_is_premature() {
    let bytes = frame(true, 2, None, b"abcdef");
    assert_eq!(Owned::read(&bytes[..5]).unwrap_err(), Error::PrematureFinish);
}

#[test]
fn encode_text_frames() {
    assert_eq!(Message::Text("hi").encode(None), vec![0x81, 0x02, b'h', b'i']);
    let key = MaskingKey::from_bytes([1, 1, 1, 1]);
    assert_eq!(Message::Text("hi").encode(Some(key)), vec![0x81, 0x82, 1, 1, 1, 1, b'h' ^ 1, b'i' ^ 1]);
    assert_eq!(Message::Close(Some((1000, "")))
        .encode(None), vec![0x88, 0x02, 0x03, 0xe8]);
    assert_eq!(Message::Close(None).encode(None), Vec::<u8>::new());
    assert_eq!(Message::Ping(b"").encode(None), Vec::<u8>::new());
}

#[test]
fn written_frames_read_back() {
    let mut out = Vec::new();
    assert!(Message::Text("{\"op\":1}").write(Context::Client, &mut out));
    assert_eq!(out[1] & 0x80, 0x80);
    let (owned, used) = Owned::read(&out).unwrap();
    assert_eq!(owned.message(), Message::Text("{\"op\":1}"));
    assert_eq!(used, out.len());
    let mut out = Vec::new();
    assert!(Message::Binary(&[1, 2, 3]).write(Context::Server, &mut out));
    assert_eq!(out, vec![0x82, 0x03, 1, 2, 3]);
}

#[test]
fn empty_messages_are_not_written() {
    let mut out = vec![9u8];
    assert!(Message::Close(None).write(Context::Client, &mut out));
    assert!(Message::Text("").write(Context::Client, &mut out));
    assert_eq!(out, vec![9u8]);
    assert_eq!(Message::Close(Some((1000, "bye"))).payload_len(), 5);
}
