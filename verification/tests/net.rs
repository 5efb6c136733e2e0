use staccato::net::addr::{client_bind_addr, normalize_server_addr, IpAddr, SocketAddr};
use staccato::net::client::{cache_is_complete, cache_path};
use staccato::net::protocol::{
    announced_length, check_header, decode_frame, decode_json, duration_ms, encode_frame,
    frame_body, message_kind, Envelope, FrameError, Message, MessageKind,
    MAX_MESSAGE_BYTES,
};
use staccato::time::Duration;

#[test]
fn cache_paths_are_per_server_and_track() {
    let dir = "/tmp/cache";
    assert_ne!(
        cache_path(dir, "aaa", "track-1"),
        cache_path(dir, "bbb", "track-1")
    );
    assert_eq!(cache_path(dir, "aaa", "track-1"), "/tmp/cache/aaa/track-1");
}

/// The message that JSON spells, for the kinds that are written below.
fn spelled(json: &[u8]) -> Option<Message> {
    let value: serde_json::Value = serde_json::from_slice(json).ok()?;
    value.get("v")?.as_u64().filter(|v| *v <= u64::from(u32::MAX))?;
    match value.get("type")?.as_str()? {
        "ping" => Some(Message::Ping),
        "rescan" => Some(Message::Rescan),
        "pair" => Some(Message::Pair { code: value.get("code")?.as_str()?.to_owned() }),
        "get_catalog" => Some(Message::GetCatalog { since_revision: value["since_revision"].as_u64() }),
        _ => None,
    }
}

fn decode(json: &[u8]) -> Result<Message, FrameError> {
    decode_json(json, spelled(json))
}

#[test]
fn unknown_type_is_a_decode_error() {
    let json = br#"{"v":1,"type":"not_a_verb"}"#;
    let mut frame = Vec::from((json.len() as u32).to_be_bytes());
    frame.extend_from_slice(json);
    assert!(decode_frame(&frame, spelled(json)).is_err());
}

#[test]
fn unsupported_version_is_rejected() {
    let json = br#"{"v":99,"type":"ping"}"#;
    assert!(decode(json).is_err());
    assert_eq!(decode(json), Err(FrameError::UnsupportedVersion(99)));
    assert_eq!(
        FrameError::UnsupportedVersion(99).text(),
        "unsupported protocol version 99"
    );
}

#[test]
fn known_messages_are_recognised() {
    assert_eq!(decode(br#"{"v":1,"type":"ping"}"#), Ok(Message::Ping));
    assert_eq!(
        decode(br#"{"type":"get_catalog","v":1,"since_revision":3}"#),
        Ok(Message::GetCatalog { since_revision: Some(3) })
    );
    assert_eq!(decode(br#"{"type":"ping"}"#), Err(FrameError::Malformed));
    assert_eq!(decode(b"not json"), Err(FrameError::Malformed));
    assert_eq!(decode(br#"{"v":4294967296,"type":"ping"}"#), Err(FrameError::Malformed));
}

#[test]
fn messages_without_their_fields_are_refused() {
    assert_eq!(
        decode(br#"{"v":1,"type":"pair","code":"1"}"#),
        Ok(Message::Pair { code: "1".into() })
    );
    assert_eq!(decode(br#"{"v":1,"type":"pair"}"#), Err(FrameError::Malformed));
    assert_eq!(decode(br#"{"v":2,"type":"pair"}"#), Err(FrameError::Malformed));
    assert_eq!(decode(br#"{"v":1,"type":"pair","code":1}"#), Err(FrameError::Malformed));
    assert_eq!(
        decode_json(br#"{"v":1,"type":"pong"}"#, Some(Message::Ping)),
        Err(FrameError::Malformed)
    );
    assert_eq!(check_header(None, Some(Message::Ping)), Err(FrameError::Malformed));
    assert_eq!(check_header(Some((1, "ping".into())), None), Err(FrameError::Malformed));
    assert_eq!(check_header(Some((1, "ping".into())), Some(Message::Ping)), Ok(Message::Ping));
    assert_eq!(
        check_header(Some((2, "ping".into())), Some(Message::Ping)),
        Err(FrameError::UnsupportedVersion(2))
    );
}

#[test]
fn frames_carry_their_length() {
    let body = br#"{"v":1,"type":"rescan"}"#;
    let frame = encode_frame(body).expect("encode");
    assert_eq!(
        u32::from_be_bytes(frame[..4].try_into().unwrap()) as usize,
        frame.len() - 4
    );
    assert_eq!(frame_body(&frame), Ok(&body[..]));
    assert_eq!(decode_frame(&frame, spelled(body)), Ok(Message::Rescan));
    assert_eq!(decode_frame(&frame[..9], spelled(body)), Err(FrameError::TruncatedBody));
}

#[test]
fn broken_frames_are_refused() {
    assert_eq!(frame_body(&[0, 0, 1]), Err(FrameError::TruncatedHeader));
    assert_eq!(frame_body(&[0, 0, 0, 2, 7]), Err(FrameError::TruncatedBody));
    assert_eq!(frame_body(&[2, 0, 0, 0, 7]), Err(FrameError::TooLong));
    assert_eq!(announced_length(&[1, 0, 0, 0]), Ok(MAX_MESSAGE_BYTES));
    assert_eq!(
        encode_frame(&vec![0; MAX_MESSAGE_BYTES + 1]),
        Err(FrameError::TooLong)
    );
    assert_eq!(
        FrameError::TooLong.text(),
        format!("message exceeds {} bytes", MAX_MESSAGE_BYTES)
    );
    assert_eq!(FrameError::TruncatedBody.text(), "truncated frame body");
    assert_eq!(FrameError::TruncatedHeader.text(), "truncated frame header");
    assert_eq!(FrameError::Malformed.text(), "decoding message");
}

#[test]
fn kinds_have_tags() {
    assert_eq!(message_kind(&Message::Rescan), "rescan");
    assert_eq!(
        message_kind(&Message::LibraryChanged { revision: 1 }),
        "library_changed"
    );
    assert_eq!(MessageKind::MediaHeader.tag(), "media_header");
    assert_eq!(Envelope::new(Message::Pong).v, 1);
}

#[test]
fn listen_addresses_are_dialled_on_this_computer() {
    let any = SocketAddr {
        ip: IpAddr::V4(0),
        port: 1744,
        flowinfo: 0,
        scope_id: 0,
    };
    assert_eq!(
        normalize_server_addr(any).ip,
        IpAddr::V4(u32::from_be_bytes([127, 0, 0, 1]))
    );
    let six = SocketAddr {
        ip: IpAddr::V6(0),
        port: 9,
        flowinfo: 3,
        scope_id: 4,
    };
    let normal = normalize_server_addr(six);
    assert_eq!(normal.ip, IpAddr::V6(1));
    assert_eq!((normal.port, normal.scope_id), (9, 0));
    let lan = SocketAddr {
        ip: IpAddr::V4(0xc0a8_0001),
        ..any
    };
    assert_eq!(normalize_server_addr(lan), lan);
    assert_eq!(client_bind_addr(six).ip, IpAddr::V6(0));
    assert_eq!(client_bind_addr(lan).port, 0);
}

#[test]
fn only_whole_files_count_as_cached() {
    assert!(cache_is_complete(Some(10), 10));
    assert!(!cache_is_complete(Some(9), 10));
    assert!(!cache_is_complete(None, 0));
}

#[test]
fn durations_are_told_in_milliseconds() {
    assert_eq!(duration_ms(Duration::from_millis(12_345)), 12_345);
    assert_eq!(duration_ms(Duration::from_micros(1_999)), 1);
    assert_eq!(duration_ms(Duration::from_secs(u64::MAX)), u64::MAX);
}
