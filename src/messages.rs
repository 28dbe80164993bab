//! The tagged message union, its wire frames, and the codec between them.
use vstd::prelude::*;
use vstd::slice::{slice_subrange, slice_to_vec};
use vstd::utf8::{
    encode_utf8, encode_utf8_valid_utf8, is_ascii_chars, is_ascii_chars_encode_utf8, valid_utf8,
};
use crate::text::{
    decimal, json_member, json_quoted, json_str_member, opt_view, quote_json, u64_text,
    uuid_string, uuid_text,
};

verus! {

/// Identifies one connection for the lifetime of the process.
pub type ClientId = u64;

/// Identifies a person across connections.
pub type UserId = u128;

/// What others are told of a connected client.
#[derive(Clone, Copy, Debug, PartialEq, Eq, Structural)]
pub struct OnlineClientInfo {
    pub id: ClientId,
    pub user: Option<UserId>,
}

/// Why an inbound frame could not be decoded; each one ends the connection.
#[derive(Clone, Copy, Debug, PartialEq, Eq, Structural)]
pub enum DecodeError {
    /// A text frame that is no JSON object with string members `type` and,
    /// for the broadcast requests, `message`.
    InvalidJson,
    /// A binary frame without the `:` that ends its preload.
    NoPreloadEnd,
    /// A binary frame whose preload is not UTF-8.
    PreloadNotUtf8,
    /// A well-formed frame of a type that clients may not send.
    UnknownType,
}

/// The tagged message union of the protocol. The `Client...` request
/// variants come from clients; the others go out from the server.
#[derive(Clone, Debug)]
pub enum OrlyMessage {
    Empty,
    ClientJoin { client: OnlineClientInfo },
    ClientLeave { client: ClientId, user: Option<UserId> },
    ClientInfoSelf { client: OnlineClientInfo },
    ClientInfoList { clients: Vec<OnlineClientInfo> },
    ClientError { error: String },
    ClientChannelBroadcast { message: String },
    ClientChannelBroadcastData { message: Vec<u8> },
    ClientChannelBroadcastFormatted { message: String },
    ChannelBroadcast {
        message: String,
        view: String,
        client: Option<ClientId>,
        user: Option<UserId>,
    },
    ChannelBroadcastData {
        message: Vec<u8>,
        view: String,
        client: Option<ClientId>,
        user: Option<UserId>,
    },
    ChannelBroadcastFormatted {
        message: String,
        view: String,
        client: Option<ClientId>,
        user: Option<UserId>,
    },
}

/// The mathematical value of an `OrlyMessage`.
pub enum Msg {
    Empty,
    ClientJoin { client: OnlineClientInfo },
    ClientLeave { client: ClientId, user: Option<UserId> },
    ClientInfoSelf { client: OnlineClientInfo },
    ClientInfoList { clients: Seq<OnlineClientInfo> },
    ClientError { error: Seq<char> },
    ClientChannelBroadcast { message: Seq<char> },
    ClientChannelBroadcastData { message: Seq<u8> },
    ClientChannelBroadcastFormatted { message: Seq<char> },
    ChannelBroadcast {
        message: Seq<char>,
        view: Seq<char>,
        client: Option<ClientId>,
        user: Option<UserId>,
    },
    ChannelBroadcastData {
        message: Seq<u8>,
        view: Seq<char>,
        client: Option<ClientId>,
        user: Option<UserId>,
    },
    ChannelBroadcastFormatted {
        message: Seq<char>,
        view: Seq<char>,
        client: Option<ClientId>,
        user: Option<UserId>,
    },
}

impl View for OrlyMessage {
    type V = Msg;

    open spec fn view(&self) -> Msg {
        match self {
            OrlyMessage::Empty => Msg::Empty,
            OrlyMessage::ClientJoin { client } => Msg::ClientJoin { client: *client },
            OrlyMessage::ClientLeave { client, user } => Msg::ClientLeave {
                client: *client,
                user: *user,
            },
            OrlyMessage::ClientInfoSelf { client } => Msg::ClientInfoSelf { client: *client },
            OrlyMessage::ClientInfoList { clients } => Msg::ClientInfoList { clients: clients@ },
            OrlyMessage::ClientError { error } => Msg::ClientError { error: error@ },
            OrlyMessage::ClientChannelBroadcast { message } => Msg::ClientChannelBroadcast {
                message: message@,
            },
            OrlyMessage::ClientChannelBroadcastData { message } => Msg::ClientChannelBroadcastData {
                message: message@,
            },
            OrlyMessage::ClientChannelBroadcastFormatted { message } =>
                Msg::ClientChannelBroadcastFormatted { message: message@ },
            OrlyMessage::ChannelBroadcast { message, view, client, user } => Msg::ChannelBroadcast {
                message: message@,
                view: view@,
                client: *client,
                user: *user,
            },
            OrlyMessage::ChannelBroadcastData { message, view, client, user } =>
                Msg::ChannelBroadcastData {
                message: message@,
                view: view@,
                client: *client,
                user: *user,
            },
            OrlyMessage::ChannelBroadcastFormatted { message, view, client, user } =>
                Msg::ChannelBroadcastFormatted {
                message: message@,
                view: view@,
                client: *client,
                user: *user,
            },
        }
    }
}

/// An inbound frame as the transport delivers it.
#[derive(Clone, Debug)]
pub enum InFrame {
    Text(String),
    Binary(Vec<u8>),
    Close,
    Ping,
    Pong,
}

/// An outbound frame, queued for the transport.
#[derive(Clone, Debug)]
pub enum OutFrame {
    Text(String),
    Binary(Vec<u8>),
}

/// The mathematical value of a frame.
pub enum Wire {
    Text(Seq<char>),
    Binary(Seq<u8>),
    Close,
    Ping,
    Pong,
}

impl View for InFrame {
    type V = Wire;

    open spec fn view(&self) -> Wire {
        match self {
            InFrame::Text(s) => Wire::Text(s@),
            InFrame::Binary(b) => Wire::Binary(b@),
            InFrame::Close => Wire::Close,
            InFrame::Ping => Wire::Ping,
            InFrame::Pong => Wire::Pong,
        }
    }
}

impl View for OutFrame {
    type V = Wire;

    open spec fn view(&self) -> Wire {
        match self {
            OutFrame::Text(s) => Wire::Text(s@),
            OutFrame::Binary(b) => Wire::Binary(b@),
        }
    }
}

/// True of the variants that a client may send.
pub open spec fn is_request(m: Msg) -> bool {
    ||| m is Empty
    ||| m is ClientChannelBroadcast
    ||| m is ClientChannelBroadcastData
    ||| m is ClientChannelBroadcastFormatted
}

// ---------------------------------------------------------------------------
// The textual form
// ---------------------------------------------------------------------------
/// The discriminator of each variant.
pub open spec fn tag_of(m: Msg) -> Seq<char> {
    match m {
        Msg::Empty => "empty"@,
        Msg::ClientJoin { .. } => "client.join"@,
        Msg::ClientLeave { .. } => "client.leave"@,
        Msg::ClientInfoSelf { .. } => "client-info.self"@,
        Msg::ClientInfoList { .. } => "client-info.list"@,
        Msg::ClientError { .. } => "client.error"@,
        Msg::ClientChannelBroadcast { .. } => "channel.broadcast.text"@,
        Msg::ClientChannelBroadcastData { .. } => "channel.broadcast.data"@,
        Msg::ClientChannelBroadcastFormatted { .. } => "channel.broadcast.text.formatted"@,
        Msg::ChannelBroadcast { .. } => "channel.broadcast.text"@,
        Msg::ChannelBroadcastData { .. } => "channel.broadcast.data"@,
        Msg::ChannelBroadcastFormatted { .. } => "channel.broadcast.text.formatted"@,
    }
}

/// The text that introduces member `k` after an earlier member.
pub open spec fn key_text(k: Seq<char>) -> Seq<char> {
    ",\""@ + k + "\":"@
}

/// An optional user token: `null`, or the quoted token.
pub open spec fn user_json(u: Option<UserId>) -> Seq<char> {
    match u {
        None => "null"@,
        Some(v) => "\""@ + uuid_text(v) + "\""@,
    }
}

/// An optional client id: `null`, or its decimal digits.
pub open spec fn client_json(c: Option<ClientId>) -> Seq<char> {
    match c {
        None => "null"@,
        Some(v) => decimal(v as nat),
    }
}

/// A client description as a JSON object.
pub open spec fn info_json(c: OnlineClientInfo) -> Seq<char> {
    "{\"id\":"@ + decimal(c.id as nat) + key_text("user"@) + user_json(c.user) + "}"@
}

/// Bytes as decimal numbers, comma-separated.
pub open spec fn bytes_json(bs: Seq<u8>) -> Seq<char>
    decreases bs.len(),
{
    if bs.len() == 0 {
        seq![]
    } else if bs.len() == 1 {
        decimal(bs[0] as nat)
    } else {
        bytes_json(bs.drop_last()) + ","@ + decimal(bs.last() as nat)
    }
}

/// Client descriptions, comma-separated.
pub open spec fn infos_json(cs: Seq<OnlineClientInfo>) -> Seq<char>
    decreases cs.len(),
{
    if cs.len() == 0 {
        seq![]
    } else if cs.len() == 1 {
        info_json(cs[0])
    } else {
        infos_json(cs.drop_last()) + ","@ + info_json(cs.last())
    }
}

/// The members that follow the discriminator.
pub open spec fn members_json(m: Msg) -> Seq<char> {
    match m {
        Msg::ClientJoin { client } => key_text("client"@) + info_json(client),
        Msg::ClientLeave { client, user } => key_text("client"@) + decimal(client as nat)
            + key_text("user"@) + user_json(user),
        Msg::ClientInfoSelf { client } => key_text("client"@) + info_json(client),
        Msg::ClientInfoList { clients } => key_text("clients"@) + "["@ + infos_json(clients)
            + "]"@,
        Msg::ClientError { error } => key_text("error"@) + json_quoted(error),
        Msg::ClientChannelBroadcast { message } => key_text("message"@) + json_quoted(message),
        Msg::ClientChannelBroadcastFormatted { message } => key_text("message"@) + json_quoted(
            message,
        ),
        Msg::ClientChannelBroadcastData { message } => key_text("message"@) + "["@ + bytes_json(
            message,
        ) + "]"@,
        Msg::ChannelBroadcast { message, view, client, user } => broadcast_members(
            message,
            view,
            client,
            user,
        ),
        Msg::ChannelBroadcastFormatted { message, view, client, user } => broadcast_members(
            message,
            view,
            client,
            user,
        ),
        _ => seq![],
    }
}

/// The members of a text broadcast.
pub open spec fn broadcast_members(
    message: Seq<char>,
    view: Seq<char>,
    client: Option<ClientId>,
    user: Option<UserId>,
) -> Seq<char> {
    key_text("message"@) + json_quoted(message) + key_text("view"@) + json_quoted(view)
        + key_text("client"@) + client_json(client) + key_text("user"@) + user_json(user)
}

/// The tagged JSON object of a message.
pub open spec fn json_of(m: Msg) -> Seq<char> {
    "{\"type\":\""@ + tag_of(m) + "\""@ + members_json(m) + "}"@
}

// ---------------------------------------------------------------------------
// The binary form
// ---------------------------------------------------------------------------
/// The byte that ends a binary preload.
pub const COLON: u8 = 58;

/// The byte that separates a preload's type from its target.
pub const AT: u8 = 64;

/// The preload of a data broadcast: the bytes of `channel.broadcast.data`.
pub open spec fn data_preload() -> Seq<u8> {
    seq![99u8, 104, 97, 110, 110, 101, 108, 46, 98, 114, 111, 97, 100, 99, 97, 115, 116, 46, 100, 97, 116, 97]
}

/// A data broadcast on the wire: its preload, the delimiter, the payload.
pub open spec fn data_frame(payload: Seq<u8>) -> Seq<u8> {
    data_preload().push(COLON) + payload
}

/// `i` is the first position of `x` in `b`.
pub open spec fn first_at(b: Seq<u8>, x: u8, i: int) -> bool {
    &&& 0 <= i < b.len()
    &&& b[i] == x
    &&& forall|j: int| 0 <= j < i ==> b[j] != x
}

/// `b` up to its first `x`, or all of `b` where it holds none.
pub open spec fn before_first(b: Seq<u8>, x: u8) -> Seq<u8> {
    if exists|i: int| first_at(b, x, i) {
        b.take(choose|i: int| first_at(b, x, i))
    } else {
        b
    }
}

/// What a binary frame decodes to.
pub open spec fn decode_binary_spec(b: Seq<u8>) -> Result<Msg, DecodeError> {
    if exists|i: int| first_at(b, COLON, i) {
        let i = choose|i: int| first_at(b, COLON, i);
        let preload = b.take(i);
        if !valid_utf8(preload) {
            Err(DecodeError::PreloadNotUtf8)
        } else if before_first(preload, AT) == data_preload() {
            Ok(Msg::ClientChannelBroadcastData { message: b.skip(i + 1) })
        } else {
            Err(DecodeError::UnknownType)
        }
    } else {
        Err(DecodeError::NoPreloadEnd)
    }
}

/// What a text frame decodes to, from its `type` and `message` members.
pub open spec fn decode_members_spec(tag: Option<Seq<char>>, message: Option<Seq<char>>) -> Result<
    Msg,
    DecodeError,
> {
    match tag {
        None => Err(DecodeError::InvalidJson),
        Some(t) => if t == "channel.broadcast.text"@ {
            match message {
                Some(m) => Ok(Msg::ClientChannelBroadcast { message: m }),
                None => Err(DecodeError::InvalidJson),
            }
        } else if t == "channel.broadcast.text.formatted"@ {
            match message {
                Some(m) => Ok(Msg::ClientChannelBroadcastFormatted { message: m }),
                None => Err(DecodeError::InvalidJson),
            }
        } else {
            Err(DecodeError::UnknownType)
        },
    }
}

/// What an inbound frame decodes to.
pub open spec fn decode_spec(f: Wire) -> Result<Msg, DecodeError> {
    match f {
        Wire::Text(t) => decode_members_spec(
            json_str_member(t, "type"@),
            json_str_member(t, "message"@),
        ),
        Wire::Binary(b) => decode_binary_spec(b),
        _ => Ok(Msg::Empty),
    }
}

/// What a message is sent as: the data broadcast as a binary frame, every
/// other variant (the data request included) as its tagged JSON text.
pub open spec fn encode_spec(m: Msg) -> Wire {
    match m {
        Msg::ChannelBroadcastData { message, .. } => Wire::Binary(data_frame(message)),
        _ => Wire::Text(json_of(m)),
    }
}

/// The view of a decode result.
pub open spec fn result_view(r: Result<OrlyMessage, DecodeError>) -> Result<Msg, DecodeError> {
    match r {
        Ok(m) => Ok(m@),
        Err(e) => Err(e),
    }
}

// ---------------------------------------------------------------------------
// Encoding
// ---------------------------------------------------------------------------
fn push_key(out: &mut String, k: &str)
    ensures
        final(out)@ == old(out)@ + key_text(k@),
{
    out.append(",\"");
    out.append(k);
    out.append("\":");
    assert(final(out)@ =~= old(out)@ + key_text(k@));
}

fn push_user(out: &mut String, u: Option<UserId>)
    ensures
        final(out)@ == old(out)@ + user_json(u),
{
    match u {
        None => {
            out.append("null");
        },
        Some(v) => {
            let t = uuid_string(v);
            out.append("\"");
            out.append(t.as_str());
            out.append("\"");
            assert(final(out)@ =~= old(out)@ + user_json(u));
        },
    }
}

fn push_u64(out: &mut String, n: u64)
    ensures
        final(out)@ == old(out)@ + decimal(n as nat),
{
    let t = u64_text(n);
    out.append(t.as_str());
}

fn push_client(out: &mut String, c: Option<ClientId>)
    ensures
        final(out)@ == old(out)@ + client_json(c),
{
    match c {
        None => {
            out.append("null");
        },
        Some(v) => {
            push_u64(out, v);
        },
    }
}

fn push_quoted(out: &mut String, s: &str)
    ensures
        final(out)@ == old(out)@ + json_quoted(s@),
{
    let t = quote_json(s);
    out.append(t.as_str());
}

fn push_info(out: &mut String, c: OnlineClientInfo)
    ensures
        final(out)@ == old(out)@ + info_json(c),
{
    let ghost start = out@;
    out.append("{\"id\":");
    push_u64(out, c.id);
    push_key(out, "user");
    push_user(out, c.user);
    out.append("}");
    assert(out@ =~= start + info_json(c));
}

fn push_bytes(out: &mut String, bs: &Vec<u8>)
    ensures
        final(out)@ == old(out)@ + bytes_json(bs@),
{
    let ghost start = out@;
    let mut i: usize = 0;
    while i < bs.len()
        invariant
            i <= bs@.len(),
            out@ == start + bytes_json(bs@.take(i as int)),
        decreases bs@.len() - i,
    {
        if i > 0 {
            out.append(",");
        }
        push_u64(out, bs[i] as u64);
        proof {
            let t = bs@.take(i as int + 1);
            assert(t.drop_last() =~= bs@.take(i as int));
            assert(t.last() == bs@[i as int]);
            if i == 0 {
                assert(bytes_json(bs@.take(0)) =~= seq![]);
            }
            assert(out@ =~= start + bytes_json(t));
        }
        i = i + 1;
    }
    assert(bs@.take(bs@.len() as int) =~= bs@);
}

fn push_infos(out: &mut String, cs: &Vec<OnlineClientInfo>)
    ensures
        final(out)@ == old(out)@ + infos_json(cs@),
{
    let ghost start = out@;
    let mut i: usize = 0;
    while i < cs.len()
        invariant
            i <= cs@.len(),
            out@ == start + infos_json(cs@.take(i as int)),
        decreases cs@.len() - i,
    {
        let ghost before = out@;
        if i > 0 {
            out.append(",");
        }
        push_info(out, cs[i]);
        proof {
            let t = cs@.take(i as int + 1);
            assert(t.drop_last() =~= cs@.take(i as int));
            assert(t.last() == cs@[i as int]);
            if i == 0 {
                assert(infos_json(cs@.take(0)) =~= seq![]);
                assert(out@ =~= start + infos_json(t));
            } else {
                assert(out@ =~= start + infos_json(t));
            }
        }
        i = i + 1;
    }
    assert(cs@.take(cs@.len() as int) =~= cs@);
}

fn push_broadcast_members(
    out: &mut String,
    message: &String,
    view: &String,
    client: Option<ClientId>,
    user: Option<UserId>,
)
    ensures
        final(out)@ == old(out)@ + broadcast_members(message@, view@, client, user),
{
    let ghost start = out@;
    push_key(out, "message");
    push_quoted(out, message.as_str());
    push_key(out, "view");
    push_quoted(out, view.as_str());
    push_key(out, "client");
    push_client(out, client);
    push_key(out, "user");
    push_user(out, user);
    assert(out@ =~= start + broadcast_members(message@, view@, client, user));
}

fn data_preload_bytes() -> (r: Vec<u8>)
    ensures
        r@ == data_preload(),
{
    let r: Vec<u8> = vec![99u8, 104, 97, 110, 110, 101, 108, 46, 98, 114, 111, 97, 100, 99, 97, 115, 116, 46, 100, 97, 116, 97];
    assert(r@ =~= data_preload());
    r
}

fn data_frame_bytes(payload: &Vec<u8>) -> (r: Vec<u8>)
    ensures
        r@ == data_frame(payload@),
{
    let mut r = data_preload_bytes();
    r.push(COLON);
    let mut i: usize = 0;
    while i < payload.len()
        invariant
            i <= payload@.len(),
            r@ == data_preload().push(COLON) + payload@.take(i as int),
        decreases payload@.len() - i,
    {
        r.push(payload[i]);
        assert(payload@.take(i as int + 1) =~= payload@.take(i as int).push(payload@[i as int]));
        assert(r@ =~= data_preload().push(COLON) + payload@.take(i as int + 1));
        i = i + 1;
    }
    assert(payload@.take(payload@.len() as int) =~= payload@);
    r
}

impl OrlyMessage {
    /// The discriminator of this message.
    pub fn tag(&self) -> (r: &'static str)
        ensures
            r@ == tag_of(self@),
    {
        match self {
            OrlyMessage::Empty => "empty",
            OrlyMessage::ClientJoin { .. } => "client.join",
            OrlyMessage::ClientLeave { .. } => "client.leave",
            OrlyMessage::ClientInfoSelf { .. } => "client-info.self",
            OrlyMessage::ClientInfoList { .. } => "client-info.list",
            OrlyMessage::ClientError { .. } => "client.error",
            OrlyMessage::ClientChannelBroadcast { .. } => "channel.broadcast.text",
            OrlyMessage::ClientChannelBroadcastData { .. } => "channel.broadcast.data",
            OrlyMessage::ClientChannelBroadcastFormatted { .. } => "channel.broadcast.text.formatted",
            OrlyMessage::ChannelBroadcast { .. } => "channel.broadcast.text",
            OrlyMessage::ChannelBroadcastData { .. } => "channel.broadcast.data",
            OrlyMessage::ChannelBroadcastFormatted { .. } => "channel.broadcast.text.formatted",
        }
    }

    /// The tagged JSON text of this message.
    pub fn to_json(&self) -> (r: String)
        ensures
            r@ == json_of(self@),
    {
        let mut out = String::from_str("{\"type\":\"");
        out.append(self.tag());
        out.append("\"");
        let ghost head = out@;
        match self {
            OrlyMessage::ClientJoin { client } => {
                push_key(&mut out, "client");
                push_info(&mut out, *client);
            },
            OrlyMessage::ClientLeave { client, user } => {
                push_key(&mut out, "client");
                push_u64(&mut out, *client);
                push_key(&mut out, "user");
                push_user(&mut out, *user);
            },
            OrlyMessage::ClientInfoSelf { client } => {
                push_key(&mut out, "client");
                push_info(&mut out, *client);
            },
            OrlyMessage::ClientInfoList { clients } => {
                push_key(&mut out, "clients");
                out.append("[");
                push_infos(&mut out, clients);
                out.append("]");
            },
            OrlyMessage::ClientError { error } => {
                push_key(&mut out, "error");
                push_quoted(&mut out, error.as_str());
            },
            OrlyMessage::ClientChannelBroadcast { message } => {
                push_key(&mut out, "message");
                push_quoted(&mut out, message.as_str());
            },
            OrlyMessage::ClientChannelBroadcastFormatted { message } => {
                push_key(&mut out, "message");
                push_quoted(&mut out, message.as_str());
            },
            OrlyMessage::ClientChannelBroadcastData { message } => {
                push_key(&mut out, "message");
                out.append("[");
                push_bytes(&mut out, message);
                out.append("]");
            },
            OrlyMessage::ChannelBroadcast { message, view, client, user } => {
                push_broadcast_members(&mut out, message, view, *client, *user);
            },
            OrlyMessage::ChannelBroadcastFormatted { message, view, client, user } => {
                push_broadcast_members(&mut out, message, view, *client, *user);
            },
            _ => {},
        }
        assert(out@ =~= head + members_json(self@));
        out.append("}");
        assert(out@ =~= json_of(self@));
        out
    }

    /// The frame this message is sent as: the data broadcast as a binary
    /// frame (preload, `:`, the payload verbatim), all else as JSON text.
    pub fn encode(&self) -> (r: OutFrame)
        ensures
            r@ == encode_spec(self@),
    {
        match self {
            OrlyMessage::ChannelBroadcastData { message, .. } => OutFrame::Binary(
                data_frame_bytes(message),
            ),
            _ => OutFrame::Text(self.to_json()),
        }
    }
}

// ---------------------------------------------------------------------------
// Decoding
// ---------------------------------------------------------------------------
/// There is at most one first position of a byte.
pub proof fn lemma_first_at_unique(b: Seq<u8>, x: u8, i: int, k: int)
    requires
        first_at(b, x, i),
        first_at(b, x, k),
    ensures
        i == k,
{
    if i < k {
        assert(b[i] != x);
    } else if k < i {
        assert(b[k] != x);
    }
}

/// Relies on `std::str::from_utf8`, which succeeds exactly on valid UTF-8.
#[verifier::external_body]
fn is_utf8(b: &[u8]) -> (r: bool)
    ensures
        r == valid_utf8(b@),
{
    std::str::from_utf8(b).is_ok()
}

/// The first position of `x` in `b`, if any.
fn find_byte(b: &[u8], x: u8) -> (r: Option<usize>)
    ensures
        match r {
            Some(i) => first_at(b@, x, i as int),
            None => forall|j: int| 0 <= j < b@.len() ==> b@[j] != x,
        },
{
    let mut i: usize = 0;
    while i < b.len()
        invariant
            i <= b@.len(),
            forall|j: int| 0 <= j < i ==> b@[j] != x,
        decreases b@.len() - i,
    {
        if b[i] == x {
            return Some(i);
        }
        i = i + 1;
    }
    None
}

/// `b` up to its first `x`.
fn take_before(b: &[u8], x: u8) -> (r: &[u8])
    ensures
        r@ == before_first(b@, x),
{
    match find_byte(b, x) {
        Some(j) => {
            proof {
                let k = choose|k: int| first_at(b@, x, k);
                lemma_first_at_unique(b@, x, j as int, k);
            }
            let t = slice_subrange(b, 0, j);
            assert(t@ =~= b@.take(j as int));
            t
        },
        None => {
            assert(!exists|k: int| first_at(b@, x, k));
            b
        },
    }
}

fn bytes_equal(a: &[u8], b: &[u8]) -> (r: bool)
    ensures
        r == (a@ == b@),
{
    if a.len() != b.len() {
        return false;
    }
    let mut i: usize = 0;
    while i < a.len()
        invariant
            i <= a@.len(),
            a@.len() == b@.len(),
            forall|j: int| 0 <= j < i ==> a@[j] == b@[j],
        decreases a@.len() - i,
    {
        if a[i] != b[i] {
            return false;
        }
        i = i + 1;
    }
    assert(a@ =~= b@);
    true
}

/// Decodes a binary frame: a preload, `:`, then the payload. The preload's
/// type, before an optional `@target`, must be `channel.broadcast.data`.
pub fn decode_binary(b: &[u8]) -> (r: Result<OrlyMessage, DecodeError>)
    ensures
        result_view(r) == decode_binary_spec(b@),
{
    let i = match find_byte(b, COLON) {
        Some(i) => i,
        None => {
            assert(!exists|k: int| first_at(b@, COLON, k));
            return Err(DecodeError::NoPreloadEnd);
        },
    };
    proof {
        let k = choose|k: int| first_at(b@, COLON, k);
        lemma_first_at_unique(b@, COLON, i as int, k);
    }
    let preload = slice_subrange(b, 0, i);
    assert(preload@ =~= b@.take(i as int));
    if !is_utf8(preload) {
        return Err(DecodeError::PreloadNotUtf8);
    }
    let kind = take_before(preload, AT);
    let expected = data_preload_bytes();
    if bytes_equal(kind, expected.as_slice()) {
        let n = b.len();
        let payload = slice_to_vec(slice_subrange(b, i + 1, n));
        assert(payload@ =~= b@.skip(i as int + 1));
        Ok(OrlyMessage::ClientChannelBroadcastData { message: payload })
    } else {
        Err(DecodeError::UnknownType)
    }
}

/// Decodes a text request from its `type` and `message` members.
pub fn decode_members(tag: Option<String>, message: Option<String>) -> (r: Result<
    OrlyMessage,
    DecodeError,
>)
    ensures
        result_view(r) == decode_members_spec(opt_view(tag), opt_view(message)),
{
    match tag {
        None => Err(DecodeError::InvalidJson),
        Some(t) => {
            if t == String::from_str("channel.broadcast.text") {
                match message {
                    Some(m) => Ok(OrlyMessage::ClientChannelBroadcast { message: m }),
                    None => Err(DecodeError::InvalidJson),
                }
            } else if t == String::from_str("channel.broadcast.text.formatted") {
                match message {
                    Some(m) => Ok(OrlyMessage::ClientChannelBroadcastFormatted { message: m }),
                    None => Err(DecodeError::InvalidJson),
                }
            } else {
                Err(DecodeError::UnknownType)
            }
        },
    }
}

impl OrlyMessage {
    /// Decodes an inbound frame. Text frames are tagged JSON requests, binary
    /// frames data broadcasts; close, ping and pong decode to `Empty`.
    pub fn from_message(msg: &InFrame) -> (r: Result<OrlyMessage, DecodeError>)
        ensures
            result_view(r) == decode_spec(msg@),
            r is Ok ==> is_request(r->Ok_0@),
    {
        match msg {
            InFrame::Text(t) => {
                let tag = json_member(t.as_str(), "type");
                let message = json_member(t.as_str(), "message");
                decode_members(tag, message)
            },
            InFrame::Binary(b) => decode_binary(b.as_slice()),
            _ => Ok(OrlyMessage::Empty),
        }
    }
}

// ---------------------------------------------------------------------------
// Round trips
// ---------------------------------------------------------------------------
/// The client request that corresponds to a server broadcast, carrying the
/// same payload; none for the server-only variants.
pub open spec fn request_of(m: Msg) -> Option<Msg> {
    match m {
        Msg::ChannelBroadcast { message, .. } => Some(Msg::ClientChannelBroadcast { message }),
        Msg::ChannelBroadcastData { message, .. } => Some(
            Msg::ClientChannelBroadcastData { message },
        ),
        Msg::ChannelBroadcastFormatted { message, .. } => Some(
            Msg::ClientChannelBroadcastFormatted { message },
        ),
        _ => None,
    }
}

/// The preload of a data broadcast is ASCII: valid UTF-8, with neither `:`
/// nor `@`.
pub proof fn lemma_data_preload()
    ensures
        valid_utf8(data_preload()),
        forall|j: int| 0 <= j < data_preload().len() ==> data_preload()[j] != COLON,
        forall|j: int| 0 <= j < data_preload().len() ==> data_preload()[j] != AT,
{
    let b = data_preload();
    let chars = Seq::new(b.len(), |i: int| b[i] as char);
    assert(is_ascii_chars(chars));
    is_ascii_chars_encode_utf8(chars);
    encode_utf8_valid_utf8(chars);
    assert(encode_utf8(chars) =~= b);
}

/// Encoding a data broadcast and decoding the binary frame yields the data
/// request with the same payload.
pub proof fn lemma_data_round_trip(
    payload: Seq<u8>,
    view: Seq<char>,
    client: Option<ClientId>,
    user: Option<UserId>,
)
    ensures
        decode_spec(encode_spec(Msg::ChannelBroadcastData { message: payload, view, client, user }))
            == Ok::<Msg, DecodeError>(Msg::ClientChannelBroadcastData { message: payload }),
{
    lemma_data_preload();
    let b = data_frame(payload);
    let n = data_preload().len() as int;
    assert(b[n] == COLON);
    assert forall|j: int| 0 <= j < n implies b[j] != COLON by {
        assert(b[j] == data_preload()[j]);
    }
    assert(first_at(b, COLON, n));
    let k = choose|k: int| first_at(b, COLON, k);
    lemma_first_at_unique(b, COLON, n, k);
    assert(b.take(n) =~= data_preload());
    assert(b.skip(n + 1) =~= payload);
    assert(!exists|k: int| first_at(data_preload(), AT, k));
    assert(before_first(data_preload(), AT) == data_preload());
}

/// Every server variant that has a request counterpart round-trips through
/// the wire: a data broadcast through its binary frame, a text broadcast
/// through the `type` and `message` members of its JSON form. Every other
/// server variant's discriminator is refused when a client sends it.
pub proof fn lemma_round_trip(m: Msg)
    requires
        !is_request(m),
    ensures
        match request_of(m) {
            Some(q) => match m {
                Msg::ChannelBroadcastData { .. } => decode_spec(encode_spec(m)) == Ok::<
                    Msg,
                    DecodeError,
                >(q),
                Msg::ChannelBroadcast { message, .. } => decode_members_spec(
                    Some(tag_of(m)),
                    Some(message),
                ) == Ok::<Msg, DecodeError>(q),
                Msg::ChannelBroadcastFormatted { message, .. } => decode_members_spec(
                    Some(tag_of(m)),
                    Some(message),
                ) == Ok::<Msg, DecodeError>(q),
                _ => false,
            },
            None => forall|message: Option<Seq<char>>|
                #[trigger] decode_members_spec(Some(tag_of(m)), message) == Err::<Msg, DecodeError>(
                    DecodeError::UnknownType,
                ),
        },
{
    reveal_strlit("channel.broadcast.text");
    reveal_strlit("channel.broadcast.text.formatted");
    reveal_strlit("client.join");
    reveal_strlit("client.leave");
    reveal_strlit("client-info.self");
    reveal_strlit("client-info.list");
    reveal_strlit("client.error");
    reveal_strlit("channel.broadcast.data");
    match m {
        Msg::ChannelBroadcastData { message, view, client, user } => {
            lemma_data_round_trip(message, view, client, user);
        },
        _ => {},
    }
}

} // verus!
