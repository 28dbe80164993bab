use orly_server::format::{check_size, format_message, FormatError};
use orly_server::messages::{decode_binary, decode_members, DecodeError, InFrame, OnlineClientInfo, OrlyMessage, OutFrame};
use orly_server::post::Post;

fn text_of(frame: OutFrame) -> String {
    match frame {
        OutFrame::Text(s) => s,
        OutFrame::Binary(_) => panic!("expected a text frame"),
    }
}

fn bytes_of(frame: OutFrame) -> Vec<u8> {
    match frame {
        OutFrame::Binary(b) => b,
        OutFrame::Text(_) => panic!("expected a binary frame"),
    }
}

#[test]
fn binary_without_delimiter_is_refused() {
    let r = OrlyMessage::from_message(&InFrame::Binary(b"channel.broadcast.data".to_vec()));
    assert!(matches!(r, Err(DecodeError::NoPreloadEnd)));
    assert!(matches!(decode_binary(b""), Err(DecodeError::NoPreloadEnd)));
}

#[test]
fn binary_data_request_decodes_its_payload() {
    match decode_binary(b"channel.broadcast.data:a:b\x00") {
        Ok(OrlyMessage::ClientChannelBroadcastData { message }) => assert_eq!(message, b"a:b\x00".to_vec()),
        other => panic!("unexpected {:?}", other),
    }
    match decode_binary(b"channel.broadcast.data@room:xyz") {
        Ok(OrlyMessage::ClientChannelBroadcastData { message }) => assert_eq!(message, b"xyz".to_vec()),
        other => panic!("unexpected {:?}", other),
    }
    match decode_binary(b"channel.broadcast.data:") {
        Ok(OrlyMessage::ClientChannelBroadcastData { message }) => assert!(message.is_empty()),
        other => panic!("unexpected {:?}", other),
    }
}

#[test]
fn binary_preload_errors() {
    assert!(matches!(decode_binary(b"channel.broadcast.dat\xff:x"), Err(DecodeError::PreloadNotUtf8)));
    assert!(matches!(decode_binary(b"channel.broadcast.data@\xff:x"), Err(DecodeError::PreloadNotUtf8)));
    assert!(matches!(decode_binary(b"channel.broadcast:x"), Err(DecodeError::UnknownType)));
    assert!(matches!(decode_binary(b"x@channel.broadcast.data:x"), Err(DecodeError::UnknownType)));
}

#[test]
fn text_requests_decode() {
    let f = InFrame::Text(r#"{"type":"channel.broadcast.text","message":"hi \"there\""}"#.to_string());
    match OrlyMessage::from_message(&f) {
        Ok(OrlyMessage::ClientChannelBroadcast { message }) => assert_eq!(message, "hi \"there\""),
        other => panic!("unexpected {:?}", other),
    }
    let f = InFrame::Text(r#"{"message":"**b**","type":"channel.broadcast.text.formatted"}"#.to_string());
    match OrlyMessage::from_message(&f) {
        Ok(OrlyMessage::ClientChannelBroadcastFormatted { message }) => assert_eq!(message, "**b**"),
        other => panic!("unexpected {:?}", other),
    }
}

#[test]
fn text_request_errors() {
    let cases: Vec<(&str, DecodeError)> = vec![
        ("not json", DecodeError::InvalidJson),
        ("[1,2]", DecodeError::InvalidJson),
        (r#"{"message":"x"}"#, DecodeError::InvalidJson),
        (r#"{"type":7,"message":"x"}"#, DecodeError::InvalidJson),
        (r#"{"type":"channel.broadcast.text"}"#, DecodeError::InvalidJson),
        (r#"{"type":"channel.broadcast.text","message":5}"#, DecodeError::InvalidJson),
        (r#"{"type":"client.join","message":"x"}"#, DecodeError::UnknownType),
        (r#"{"type":"channel.broadcast.formatted","message":"x"}"#, DecodeError::UnknownType),
    ];
    for (text, want) in cases {
        let r = OrlyMessage::from_message(&InFrame::Text(text.to_string()));
        match r {
            Err(e) => assert_eq!(e, want, "{}", text),
            Ok(m) => panic!("{} decoded to {:?}", text, m),
        }
    }
}

#[test]
fn control_frames_decode_to_empty() {
    for f in [InFrame::Close, InFrame::Ping, InFrame::Pong] {
        assert!(matches!(OrlyMessage::from_message(&f), Ok(OrlyMessage::Empty)));
    }
}

#[test]
fn decode_members_directly() {
    let r = decode_members(Some("channel.broadcast.text".to_string()), Some("m".to_string()));
    assert!(matches!(r, Ok(OrlyMessage::ClientChannelBroadcast { message }) if message == "m"));
    let r = decode_members(Some("channel.broadcast.text.formatted".to_string()), None);
    assert!(matches!(r, Err(DecodeError::InvalidJson)));
    let r = decode_members(None, Some("m".to_string()));
    assert!(matches!(r, Err(DecodeError::InvalidJson)));
    let r = decode_members(Some("client.leave".to_string()), Some("m".to_string()));
    assert!(matches!(r, Err(DecodeError::UnknownType)));
}

#[test]
fn text_broadcast_encodes_as_tagged_json() {
    let m = OrlyMessage::ChannelBroadcast {
        message: "say \"hi\"\n".to_string(),
        view: "default".to_string(),
        client: Some(3),
        user: None,
    };
    assert_eq!(
        text_of(m.encode()),
        r#"{"type":"channel.broadcast.text","message":"say \"hi\"\n","view":"default","client":3,"user":null}"#
    );
}

#[test]
fn leave_notice_encodes_user_token() {
    let m = OrlyMessage::ClientLeave { client: 12345, user: Some(0xa1a2a3a4b1b2c1c2d1d2d3d4d5d6d7d8) };
    assert_eq!(
        text_of(m.encode()),
        r#"{"type":"client.leave","client":12345,"user":"a1a2a3a4-b1b2-c1c2-d1d2-d3d4d5d6d7d8"}"#
    );
}

#[test]
fn info_messages_encode() {
    let me = OnlineClientInfo { id: 0, user: None };
    assert_eq!(text_of(OrlyMessage::ClientInfoSelf { client: me }.encode()), r#"{"type":"client-info.self","client":{"id":0,"user":null}}"#);
    assert_eq!(text_of(OrlyMessage::ClientJoin { client: me }.encode()), r#"{"type":"client.join","client":{"id":0,"user":null}}"#);
    let list = OrlyMessage::ClientInfoList {
        clients: vec![OnlineClientInfo { id: 7, user: None }, OnlineClientInfo { id: 10, user: Some(1) }],
    };
    assert_eq!(
        text_of(list.encode()),
        r#"{"type":"client-info.list","clients":[{"id":7,"user":null},{"id":10,"user":"00000000-0000-0000-0000-000000000001"}]}"#
    );
    assert_eq!(text_of(OrlyMessage::ClientInfoList { clients: vec![] }.encode()), r#"{"type":"client-info.list","clients":[]}"#);
    assert_eq!(text_of(OrlyMessage::Empty.encode()), r#"{"type":"empty"}"#);
    assert_eq!(
        text_of(OrlyMessage::ClientError { error: "message too long".to_string() }.encode()),
        r#"{"type":"client.error","error":"message too long"}"#
    );
    assert_eq!(OrlyMessage::ClientJoin { client: me }.tag(), "client.join");
}

#[test]
fn data_broadcast_encodes_as_binary_frame() {
    let m = OrlyMessage::ChannelBroadcastData {
        message: vec![0, 58, 255],
        view: "default".to_string(),
        client: Some(1),
        user: None,
    };
    let mut want = b"channel.broadcast.data:".to_vec();
    want.extend_from_slice(&[0, 58, 255]);
    assert_eq!(bytes_of(m.encode()), want);
}

#[test]
fn data_broadcast_round_trip() {
    let m = OrlyMessage::ChannelBroadcastData {
        message: b"\x01:@payload".to_vec(),
        view: "default".to_string(),
        client: Some(4),
        user: Some(9),
    };
    let frame = InFrame::Binary(bytes_of(m.encode()));
    match OrlyMessage::from_message(&frame) {
        Ok(OrlyMessage::ClientChannelBroadcastData { message }) => assert_eq!(message, b"\x01:@payload".to_vec()),
        other => panic!("unexpected {:?}", other),
    }
}

#[test]
fn text_broadcast_round_trip() {
    for (tagged, formatted) in [(false, false), (true, true)] {
        let text = "quote \" backslash \\ tab \t é".to_string();
        let m = if tagged {
            OrlyMessage::ChannelBroadcastFormatted { message: text.clone(), view: "default".to_string(), client: Some(2), user: Some(5) }
        } else {
            OrlyMessage::ChannelBroadcast { message: text.clone(), view: "default".to_string(), client: None, user: None }
        };
        let frame = InFrame::Text(text_of(m.encode()));
        match (OrlyMessage::from_message(&frame), formatted) {
            (Ok(OrlyMessage::ClientChannelBroadcast { message }), false) => assert_eq!(message, text),
            (Ok(OrlyMessage::ClientChannelBroadcastFormatted { message }), true) => assert_eq!(message, text),
            (other, _) => panic!("unexpected {:?}", other),
        }
    }
}

#[test]
fn server_only_variants_are_refused_from_clients() {
    let m = OrlyMessage::ClientJoin { client: OnlineClientInfo { id: 1, user: None } };
    let r = OrlyMessage::from_message(&InFrame::Text(text_of(m.encode())));
    assert!(matches!(r, Err(DecodeError::UnknownType)));
}

#[test]
fn size_policy_bounds() {
    assert_eq!(check_size(""), Err(FormatError::Empty));
    assert_eq!(check_size("a"), Ok(()));
    assert_eq!(check_size(&"a".repeat(1024)), Ok(()));
    assert_eq!(check_size(&"a".repeat(1025)), Err(FormatError::TooLong));
    // the bound is on bytes, not characters
    assert_eq!(check_size(&"é".repeat(512)), Ok(()));
    assert_eq!(check_size(&"é".repeat(513)), Err(FormatError::TooLong));
    assert_eq!(FormatError::Empty.reason(), "message too empty");
    assert_eq!(FormatError::TooLong.reason(), "message too long");
}

#[test]
fn formatting_renders_markdown() {
    assert_eq!(format_message("**hi**"), Ok("<p><strong>hi</strong></p>\n".to_string()));
    assert_eq!(format_message(""), Err(FormatError::Empty));
    assert_eq!(format_message(&"a".repeat(1025)), Err(FormatError::TooLong));
    let long = "a".repeat(1024);
    assert_eq!(format_message(&long), Ok(format!("<p>{}</p>\n", long)));
}

fn post(id: u64, content: &str) -> Post {
    Post {
        id,
        time: 1_600_000_000 + id as i64,
        view: "default".to_string(),
        user_id: 1,
        user_uuid: 42,
        content: content.to_string(),
    }
}

#[test]
fn post_replays_as_formatted_broadcast() {
    match OrlyMessage::from_post(&post(1, "_x_")) {
        OrlyMessage::ChannelBroadcastFormatted { message, view, client, user } => {
            assert_eq!(message, "<p><em>x</em></p>\n");
            assert_eq!(view, "default");
            assert_eq!(client, None);
            assert_eq!(user, Some(42));
        }
        other => panic!("unexpected {:?}", other),
    }
    let long = "b".repeat(1024);
    assert!(matches!(OrlyMessage::from_post(&post(2, &long)),
        OrlyMessage::ChannelBroadcastFormatted { message, .. } if message == format!("<p>{}</p>\n", long)));
}

#[test]
fn data_request_encodes_as_tagged_text() {
    let m = OrlyMessage::ClientChannelBroadcastData { message: vec![0, 58, 255] };
    assert_eq!(text_of(m.encode()), r#"{"type":"channel.broadcast.data","message":[0,58,255]}"#);
    let empty = OrlyMessage::ClientChannelBroadcastData { message: vec![] };
    assert_eq!(text_of(empty.encode()), r#"{"type":"channel.broadcast.data","message":[]}"#);
}

#[test]
fn backlog_keeps_newest_hundred_oldest_first() {
    let newest_first: Vec<Post> = (0..150u64).rev().map(|i| post(i, "p")).collect();
    let b = Post::backlog(newest_first);
    assert_eq!(b.len(), 100);
    assert_eq!(b[0].id, 50);
    assert_eq!(b[99].id, 149);
    assert!(b.windows(2).all(|w| w[0].id < w[1].id));
    let few = Post::backlog(vec![post(2, "b"), post(1, "a")]);
    assert_eq!(few.iter().map(|p| p.id).collect::<Vec<_>>(), vec![1, 2]);
    assert!(Post::backlog(vec![]).is_empty());
}

#[test]
fn replay_skips_refused_posts() {
    let r = Post::replay(&vec![post(1, "a"), post(2, ""), post(3, "c")]);
    assert_eq!(r.len(), 2);
    assert!(matches!(&r[0], OrlyMessage::ChannelBroadcastFormatted { message, .. } if message == "<p>a</p>\n"));
    assert!(matches!(&r[1], OrlyMessage::ChannelBroadcastFormatted { message, .. } if message == "<p>c</p>\n"));
}
