use orly_server::client::{Clients, OnlineClient};
use orly_server::messages::{InFrame, OrlyMessage, OutFrame};
use orly_server::post::Post;
use orly_server::websocket::{
    client_channel_broadcast_formatted, client_connected, client_disconnected, client_frame_received,
    formatted_delivery, formatted_delivery_of, Connection, Delivery, Phase, RuntimeState,
    UserConnectionRequest,
};
use tokio::sync::mpsc::{unbounded_channel, UnboundedReceiver};

fn join(state: &mut RuntimeState, backlog: &Vec<Post>) -> (Connection, UnboundedReceiver<OutFrame>) {
    let (tx, rx) = unbounded_channel::<OutFrame>();
    let conn = client_connected(state, tx, None, &UserConnectionRequest {}, backlog).expect("an id");
    (conn, rx)
}

fn drain(rx: &mut UnboundedReceiver<OutFrame>) -> Vec<OutFrame> {
    let mut out = Vec::new();
    while let Ok(f) = rx.try_recv() {
        out.push(f);
    }
    out
}

fn texts(frames: Vec<OutFrame>) -> Vec<String> {
    frames
        .into_iter()
        .map(|f| match f {
            OutFrame::Text(s) => s,
            OutFrame::Binary(b) => format!("<binary {:?}>", b),
        })
        .collect()
}

fn post(id: u64, content: &str) -> Post {
    Post { id, time: 0, view: "default".to_string(), user_id: 1, user_uuid: 7, content: content.to_string() }
}

fn sorted(mut v: Vec<u64>) -> Vec<u64> {
    v.sort();
    v
}

fn text_frame(json: &str) -> InFrame {
    InFrame::Text(json.to_string())
}

#[test]
fn new_client_receives_self_then_peers_then_backlog() {
    let mut state = RuntimeState::new(false);
    let (_a, mut rx_a) = join(&mut state, &vec![]);
    drain(&mut rx_a);
    let backlog = vec![post(1, "first"), post(2, "second")];
    let (b, mut rx_b) = join(&mut state, &backlog);
    assert_eq!(b.id, 1);
    assert_eq!(b.phase, Phase::Active);
    let got = texts(drain(&mut rx_b));
    assert_eq!(
        got,
        vec![
            r#"{"type":"client-info.self","client":{"id":1,"user":null}}"#.to_string(),
            r#"{"type":"client-info.list","clients":[{"id":0,"user":null}]}"#.to_string(),
            r#"{"type":"channel.broadcast.text.formatted","message":"<p>first</p>\n","view":"default","client":null,"user":"00000000-0000-0000-0000-000000000007"}"#.to_string(),
            r#"{"type":"channel.broadcast.text.formatted","message":"<p>second</p>\n","view":"default","client":null,"user":"00000000-0000-0000-0000-000000000007"}"#.to_string(),
        ]
    );
    // the client already there hears of the join
    assert_eq!(texts(drain(&mut rx_a)), vec![r#"{"type":"client.join","client":{"id":1,"user":null}}"#.to_string()]);
    assert_eq!(state.clients.len(), 2);
}

#[test]
fn client_with_closed_queue_is_dropped_silently() {
    let mut state = RuntimeState::new(false);
    let (_a, mut rx_a) = join(&mut state, &vec![]);
    drain(&mut rx_a);
    let (tx, rx) = unbounded_channel::<OutFrame>();
    drop(rx);
    let c = client_connected(&mut state, tx, None, &UserConnectionRequest {}, &vec![]).unwrap();
    assert_eq!(c.phase, Phase::Removed);
    assert!(drain(&mut rx_a).is_empty());
    assert_eq!(state.clients.len(), 1);
    assert!(state.clients.lookup(c.id).is_none());
}

#[test]
fn text_broadcast_excludes_sender_unless_echo() {
    for echo in [false, true] {
        let mut state = RuntimeState::new(echo);
        let (mut a, mut rx_a) = join(&mut state, &vec![]);
        let (_b, mut rx_b) = join(&mut state, &vec![]);
        drain(&mut rx_a);
        drain(&mut rx_b);
        let r = client_frame_received(&mut state, &mut a, &text_frame(r#"{"type":"channel.broadcast.text","message":"hello"}"#));
        let want = r#"{"type":"channel.broadcast.text","message":"hello","view":"default","client":0,"user":null}"#.to_string();
        assert_eq!(texts(drain(&mut rx_b)), vec![want.clone()]);
        if echo {
            assert_eq!(sorted(r.clone()), vec![0, 1]);
            assert_eq!(texts(drain(&mut rx_a)), vec![want]);
        } else {
            assert_eq!(sorted(r.clone()), vec![1]);
            assert!(drain(&mut rx_a).is_empty());
        }
        assert_eq!(a.phase, Phase::Active);
    }
}

#[test]
fn binary_data_is_relayed_verbatim() {
    let mut state = RuntimeState::new(false);
    let (mut a, _rx_a) = join(&mut state, &vec![]);
    let (_b, mut rx_b) = join(&mut state, &vec![]);
    drain(&mut rx_b);
    let r = client_frame_received(&mut state, &mut a, &InFrame::Binary(b"channel.broadcast.data@x:\x00\x01".to_vec()));
    assert_eq!(sorted(r.clone()), vec![1]);
    let got = drain(&mut rx_b);
    assert_eq!(got.len(), 1);
    match &got[0] {
        OutFrame::Binary(b) => assert_eq!(b, &b"channel.broadcast.data:\x00\x01".to_vec()),
        other => panic!("unexpected {:?}", other),
    }
}

#[test]
fn empty_formatted_message_only_answers_sender() {
    let mut state = RuntimeState::new(true);
    let (mut a, mut rx_a) = join(&mut state, &vec![]);
    let (_b, mut rx_b) = join(&mut state, &vec![]);
    drain(&mut rx_a);
    drain(&mut rx_b);
    let r = client_frame_received(&mut state, &mut a, &text_frame(r#"{"type":"channel.broadcast.text.formatted","message":""}"#));
    assert_eq!(sorted(r.clone()), vec![0]);
    assert_eq!(texts(drain(&mut rx_a)), vec![r#"{"type":"client.error","error":"message too empty"}"#.to_string()]);
    assert!(drain(&mut rx_b).is_empty());
    assert_eq!(a.phase, Phase::Active);
}

#[test]
fn oversized_formatted_message_only_answers_sender() {
    let mut state = RuntimeState::new(true);
    let (_a, mut rx_a) = join(&mut state, &vec![]);
    let (_b, mut rx_b) = join(&mut state, &vec![]);
    drain(&mut rx_a);
    drain(&mut rx_b);
    let r = client_channel_broadcast_formatted(&mut state.clients, 0, None, &"x".repeat(1025), true);
    assert_eq!(sorted(r.clone()), vec![0]);
    assert_eq!(texts(drain(&mut rx_a)), vec![r#"{"type":"client.error","error":"message too long"}"#.to_string()]);
    assert!(drain(&mut rx_b).is_empty());
}

#[test]
fn formatted_message_of_limit_size_is_broadcast() {
    let mut state = RuntimeState::new(false);
    let (_a, mut rx_a) = join(&mut state, &vec![]);
    let (_b, mut rx_b) = join(&mut state, &vec![]);
    drain(&mut rx_a);
    drain(&mut rx_b);
    let text = "x".repeat(1024);
    let r = client_channel_broadcast_formatted(&mut state.clients, 0, Some(3), &text, false);
    assert_eq!(sorted(r.clone()), vec![1]);
    let want = format!(
        r#"{{"type":"channel.broadcast.text.formatted","message":"<p>{}</p>\n","view":"default","client":0,"user":"00000000-0000-0000-0000-000000000003"}}"#,
        text
    );
    assert_eq!(texts(drain(&mut rx_b)), vec![want]);
    assert!(drain(&mut rx_a).is_empty());
}

#[test]
fn formatted_delivery_plans() {
    match formatted_delivery(5, None, "", false) {
        Delivery::Reply { to, message: OrlyMessage::ClientError { error } } => {
            assert_eq!(to, 5);
            assert_eq!(error, "message too empty");
        }
        _ => panic!("expected a reply"),
    }
    match formatted_delivery(5, None, &"y".repeat(1025), false) {
        Delivery::Reply { to, message: OrlyMessage::ClientError { error } } => {
            assert_eq!(to, 5);
            assert_eq!(error, "message too long");
        }
        _ => panic!("expected a reply"),
    }
    match formatted_delivery_of(5, Some(1), Ok("<b>h</b>".to_string()), false) {
        Delivery::Broadcast { message: OrlyMessage::ChannelBroadcastFormatted { message, view, client, user }, except } => {
            assert_eq!(message, "<b>h</b>");
            assert_eq!(view, "default");
            assert_eq!(client, Some(5));
            assert_eq!(user, Some(1));
            assert_eq!(except, Some(5));
        }
        _ => panic!("expected a broadcast"),
    }
    match formatted_delivery_of(5, None, Ok("h".to_string()), true) {
        Delivery::Broadcast { except, .. } => assert_eq!(except, None),
        _ => panic!("expected a broadcast"),
    }
}

#[test]
fn disconnect_notifies_each_remaining_client_once() {
    let mut state = RuntimeState::new(false);
    let (_a, mut rx_a) = join(&mut state, &vec![]);
    let (mut b, mut rx_b) = join(&mut state, &vec![]);
    let (_c, mut rx_c) = join(&mut state, &vec![]);
    drain(&mut rx_a);
    drain(&mut rx_b);
    drain(&mut rx_c);
    let r = client_disconnected(&mut state, &mut b);
    assert_eq!(sorted(r.clone()), vec![0, 2]);
    assert_eq!(b.phase, Phase::Removed);
    let leave = r#"{"type":"client.leave","client":1,"user":null}"#.to_string();
    assert_eq!(texts(drain(&mut rx_a)), vec![leave.clone()]);
    assert_eq!(texts(drain(&mut rx_c)), vec![leave]);
    assert!(drain(&mut rx_b).is_empty());
    assert!(state.clients.lookup(1).is_none());
    assert_eq!(state.clients.len(), 2);
}

#[test]
fn frame_without_delimiter_closes_connection_without_broadcast() {
    let mut state = RuntimeState::new(true);
    let (mut a, mut rx_a) = join(&mut state, &vec![]);
    let (_b, mut rx_b) = join(&mut state, &vec![]);
    drain(&mut rx_a);
    drain(&mut rx_b);
    let r = client_frame_received(&mut state, &mut a, &InFrame::Binary(b"channel.broadcast.data no delimiter".to_vec()));
    assert!(r.is_empty());
    assert_eq!(a.phase, Phase::Closing);
    assert!(drain(&mut rx_a).is_empty());
    assert!(drain(&mut rx_b).is_empty());
    assert_eq!(state.clients.len(), 2);
}

#[test]
fn close_and_bad_json_end_the_connection() {
    let mut state = RuntimeState::new(false);
    let (mut a, _rx_a) = join(&mut state, &vec![]);
    let r = client_frame_received(&mut state, &mut a, &InFrame::Close);
    assert!(r.is_empty());
    assert_eq!(a.phase, Phase::Closing);
    let (mut b, _rx_b) = join(&mut state, &vec![]);
    let r = client_frame_received(&mut state, &mut b, &text_frame(r#"{"type":"client.join"}"#));
    assert!(r.is_empty());
    assert_eq!(b.phase, Phase::Closing);
    let (mut c, _rx_c) = join(&mut state, &vec![]);
    let r = client_frame_received(&mut state, &mut c, &InFrame::Ping);
    assert!(r.is_empty());
    assert_eq!(c.phase, Phase::Active);
}

#[test]
fn registry_size_is_net_of_connects_and_disconnects() {
    let mut state = RuntimeState::new(false);
    let mut conns = Vec::new();
    let mut rxs = Vec::new();
    for _ in 0..7 {
        let (c, rx) = join(&mut state, &vec![]);
        conns.push(c);
        rxs.push(rx);
    }
    assert_eq!(state.clients.len(), 7);
    for i in [5usize, 0, 3] {
        client_disconnected(&mut state, &mut conns[i]);
    }
    assert_eq!(state.clients.len(), 4);
    let mut ids: Vec<u64> = state.clients.enumerate().iter().map(|c| c.id).collect();
    ids.sort();
    assert_eq!(ids, vec![1, 2, 4, 6]);
}

#[test]
fn ids_are_fresh_and_increasing() {
    let mut clients = Clients::new();
    assert_eq!(clients.allocate_id(), Some(0));
    assert_eq!(clients.allocate_id(), Some(1));
    assert_eq!(clients.len(), 0);
    assert!(clients.deregister(0).is_none());
}

#[test]
fn send_functions_queue_the_wire_form() {
    let mut clients = Clients::new();
    let id = clients.allocate_id().unwrap();
    let (tx, mut rx) = unbounded_channel::<OutFrame>();
    let c = OnlineClient { id, user: None, wstx: tx };
    let data = OrlyMessage::ChannelBroadcastData { message: vec![7], view: "default".to_string(), client: None, user: None };
    assert!(data.send(&mut clients, &c));
    assert!(c.send_text(&mut clients, "plain".to_string()));
    assert!(c.send_binary(&mut clients, vec![1, 2]));
    assert!(c.send(&mut clients, &OrlyMessage::Empty));
    let got = drain(&mut rx);
    assert_eq!(got.len(), 4);
    assert!(matches!(&got[0], OutFrame::Binary(b) if b == &b"channel.broadcast.data:\x07".to_vec()));
    assert!(matches!(&got[1], OutFrame::Text(s) if s == "plain"));
    assert!(matches!(&got[2], OutFrame::Binary(b) if b == &vec![1u8, 2]));
    assert!(matches!(&got[3], OutFrame::Text(s) if s == r#"{"type":"empty"}"#));
    drop(rx);
    assert!(!c.send_text(&mut clients, "lost".to_string()));
}

#[test]
fn broadcast_passes_over_a_closed_queue() {
    let mut state = RuntimeState::new(false);
    let (mut a, _rx_a) = join(&mut state, &vec![]);
    let (_b, rx_b) = join(&mut state, &vec![]);
    let (_c, mut rx_c) = join(&mut state, &vec![]);
    drain(&mut rx_c);
    drop(rx_b);
    let r = client_frame_received(&mut state, &mut a, &text_frame(r#"{"type":"channel.broadcast.text","message":"x"}"#));
    assert_eq!(sorted(r), vec![2]);
    assert_eq!(drain(&mut rx_c).len(), 1);
    assert_eq!(state.clients.len(), 3);
}
