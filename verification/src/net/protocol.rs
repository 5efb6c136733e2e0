//! The messages between client and server, and how they are framed.

use vstd::prelude::*;
use vstd::slice::slice_subrange;
use vstd::string::*;

use crate::order::views;
use crate::soulseek::opt_view;
use crate::text::{append_decimal, decimal, same_text};
use crate::time::Duration;

verus! {

/// The port that a server listens on where none is given.
pub const DEFAULT_PORT: u16 = 1744;

/// The version that both sides must speak.
pub const PROTOCOL_VERSION: u32 = 1;

/// The largest message, in bytes.
pub const MAX_MESSAGE_BYTES: usize = 16_777_216;

/// A message under the version that it is written in.
#[derive(Debug, PartialEq, Eq)]
pub struct Envelope {
    pub v: u32,
    pub message: Message,
}

#[allow(inconsistent_fields)]
#[derive(Debug, PartialEq, Eq)]
pub enum Message {
    Hello { client_name: String, token: Option<String> },
    Welcome { server_name: String, library_revision: u64, pair_required: bool, fingerprint: String },
    Pair { code: String },
    Paired { token: String },
    GetCatalog { since_revision: Option<u64> },
    Rescan,
    /// With `replace` the client drops every track of the server that is not listed.
    Catalog { revision: u64, tracks: Vec<CatalogTrack>, removed: Vec<String>, replace: bool },
    OpenMedia { remote_id: String, offset: u64, length: Option<u64> },
    MediaHeader { size: u64, etag: String, codec: String },
    GetCover { remote_id: String },
    Cover { remote_id: String, data: Option<String> },
    Ping,
    Pong,
    LibraryChanged { revision: u64 },
    Error { code: String, message: String },
}

/// A track as a server lists it.
#[derive(Debug, PartialEq, Eq)]
pub struct CatalogTrack {
    pub remote_id: String,
    pub title: String,
    pub artist: String,
    pub album: String,
    pub date: Option<u32>,
    pub track_number: Option<u32>,
    pub duration_ms: u64,
    pub codec: String,
    pub sample_rate: Option<u32>,
    pub channels: Option<u8>,
    pub file_size: u64,
    pub modified_ns: i64,
}

impl Clone for CatalogTrack {
    fn clone(&self) -> (copy: CatalogTrack)
        ensures
            copy == *self,
    {
        CatalogTrack {
            remote_id: self.remote_id.clone(),
            title: self.title.clone(),
            artist: self.artist.clone(),
            album: self.album.clone(),
            date: self.date,
            track_number: self.track_number,
            duration_ms: self.duration_ms,
            codec: self.codec.clone(),
            sample_rate: self.sample_rate,
            channels: self.channels,
            file_size: self.file_size,
            modified_ns: self.modified_ns,
        }
    }
}

/// What a listed track says.
pub struct CatalogEntry {
    pub remote_id: Seq<char>,
    pub title: Seq<char>,
    pub artist: Seq<char>,
    pub album: Seq<char>,
    pub date: Option<u32>,
    pub track_number: Option<u32>,
    pub duration_ms: u64,
    pub codec: Seq<char>,
    pub sample_rate: Option<u32>,
    pub channels: Option<u8>,
    pub file_size: u64,
    pub modified_ns: i64,
}

impl View for CatalogTrack {
    type V = CatalogEntry;

    open spec fn view(&self) -> CatalogEntry {
        CatalogEntry {
            remote_id: self.remote_id@,
            title: self.title@,
            artist: self.artist@,
            album: self.album@,
            date: self.date,
            track_number: self.track_number,
            duration_ms: self.duration_ms,
            codec: self.codec@,
            sample_rate: self.sample_rate,
            channels: self.channels,
            file_size: self.file_size,
            modified_ns: self.modified_ns,
        }
    }
}

pub open spec fn entries(tracks: Seq<CatalogTrack>) -> Seq<CatalogEntry> {
    tracks.map_values(|track: CatalogTrack| track@)
}

/// What a message says.
#[allow(inconsistent_fields)]
pub enum MessageView {
    Hello { client_name: Seq<char>, token: Option<Seq<char>> },
    Welcome {
        server_name: Seq<char>,
        library_revision: u64,
        pair_required: bool,
        fingerprint: Seq<char>,
    },
    Pair { code: Seq<char> },
    Paired { token: Seq<char> },
    GetCatalog { since_revision: Option<u64> },
    Rescan,
    Catalog {
        revision: u64,
        tracks: Seq<CatalogEntry>,
        removed: Seq<Seq<char>>,
        replace: bool,
    },
    OpenMedia { remote_id: Seq<char>, offset: u64, length: Option<u64> },
    MediaHeader { size: u64, etag: Seq<char>, codec: Seq<char> },
    GetCover { remote_id: Seq<char> },
    Cover { remote_id: Seq<char>, data: Option<Seq<char>> },
    Ping,
    Pong,
    LibraryChanged { revision: u64 },
    Error { code: Seq<char>, message: Seq<char> },
}

impl View for Message {
    type V = MessageView;

    open spec fn view(&self) -> MessageView {
        match self {
            Message::Hello { client_name, token } => MessageView::Hello {
                client_name: client_name@,
                token: opt_view(*token),
            },
            Message::Welcome { server_name, library_revision, pair_required, fingerprint } =>
                MessageView::Welcome {
                server_name: server_name@,
                library_revision: *library_revision,
                pair_required: *pair_required,
                fingerprint: fingerprint@,
            },
            Message::Pair { code } => MessageView::Pair { code: code@ },
            Message::Paired { token } => MessageView::Paired { token: token@ },
            Message::GetCatalog { since_revision } => MessageView::GetCatalog {
                since_revision: *since_revision,
            },
            Message::Rescan => MessageView::Rescan,
            Message::Catalog { revision, tracks, removed, replace } => MessageView::Catalog {
                revision: *revision,
                tracks: entries(tracks@),
                removed: views(removed@),
                replace: *replace,
            },
            Message::OpenMedia { remote_id, offset, length } => MessageView::OpenMedia {
                remote_id: remote_id@,
                offset: *offset,
                length: *length,
            },
            Message::MediaHeader { size, etag, codec } => MessageView::MediaHeader {
                size: *size,
                etag: etag@,
                codec: codec@,
            },
            Message::GetCover { remote_id } => MessageView::GetCover { remote_id: remote_id@ },
            Message::Cover { remote_id, data } => MessageView::Cover {
                remote_id: remote_id@,
                data: opt_view(*data),
            },
            Message::Ping => MessageView::Ping,
            Message::Pong => MessageView::Pong,
            Message::LibraryChanged { revision } => MessageView::LibraryChanged {
                revision: *revision,
            },
            Message::Error { code, message } => MessageView::Error {
                code: code@,
                message: message@,
            },
        }
    }
}

/// Whether a message refuses something, for this reason.
pub open spec fn refusal(message: MessageView, reason: Seq<char>) -> bool {
    message matches MessageView::Error { code, .. } && code == reason
}

impl Envelope {
    pub fn new(message: Message) -> (envelope: Envelope)
        ensures
            envelope == (Envelope { v: PROTOCOL_VERSION, message }),
    {
        Envelope { v: PROTOCOL_VERSION, message }
    }
}

/// The kinds of message.
#[derive(Clone, Copy, Debug, PartialEq, Eq, Structural)]
pub enum MessageKind {
    Hello,
    Welcome,
    Pair,
    Paired,
    GetCatalog,
    Rescan,
    Catalog,
    OpenMedia,
    MediaHeader,
    GetCover,
    Cover,
    Ping,
    Pong,
    LibraryChanged,
    Error,
}

impl MessageKind {
    /// The tag that a kind is written with.
    pub open spec fn tag_text(self) -> Seq<char> {
        match self {
            MessageKind::Hello => "hello"@,
            MessageKind::Welcome => "welcome"@,
            MessageKind::Pair => "pair"@,
            MessageKind::Paired => "paired"@,
            MessageKind::GetCatalog => "get_catalog"@,
            MessageKind::Rescan => "rescan"@,
            MessageKind::Catalog => "catalog"@,
            MessageKind::OpenMedia => "open_media"@,
            MessageKind::MediaHeader => "media_header"@,
            MessageKind::GetCover => "get_cover"@,
            MessageKind::Cover => "cover"@,
            MessageKind::Ping => "ping"@,
            MessageKind::Pong => "pong"@,
            MessageKind::LibraryChanged => "library_changed"@,
            MessageKind::Error => "error"@,
        }
    }

    pub fn tag(self) -> (tag: &'static str)
        ensures
            tag@ == self.tag_text(),
    {
        match self {
            MessageKind::Hello => "hello",
            MessageKind::Welcome => "welcome",
            MessageKind::Pair => "pair",
            MessageKind::Paired => "paired",
            MessageKind::GetCatalog => "get_catalog",
            MessageKind::Rescan => "rescan",
            MessageKind::Catalog => "catalog",
            MessageKind::OpenMedia => "open_media",
            MessageKind::MediaHeader => "media_header",
            MessageKind::GetCover => "get_cover",
            MessageKind::Cover => "cover",
            MessageKind::Ping => "ping",
            MessageKind::Pong => "pong",
            MessageKind::LibraryChanged => "library_changed",
            MessageKind::Error => "error",
        }
    }
}

/// The kind of a message.
pub open spec fn kind_of(message: Message) -> MessageKind {
    match message {
        Message::Hello { .. } => MessageKind::Hello,
        Message::Welcome { .. } => MessageKind::Welcome,
        Message::Pair { .. } => MessageKind::Pair,
        Message::Paired { .. } => MessageKind::Paired,
        Message::GetCatalog { .. } => MessageKind::GetCatalog,
        Message::Rescan => MessageKind::Rescan,
        Message::Catalog { .. } => MessageKind::Catalog,
        Message::OpenMedia { .. } => MessageKind::OpenMedia,
        Message::MediaHeader { .. } => MessageKind::MediaHeader,
        Message::GetCover { .. } => MessageKind::GetCover,
        Message::Cover { .. } => MessageKind::Cover,
        Message::Ping => MessageKind::Ping,
        Message::Pong => MessageKind::Pong,
        Message::LibraryChanged { .. } => MessageKind::LibraryChanged,
        Message::Error { .. } => MessageKind::Error,
    }
}

/// The tag of a message's kind.
pub fn message_kind(message: &Message) -> (tag: &'static str)
    ensures
        tag@ == kind_of(*message).tag_text(),
{
    match message {
        Message::Hello { .. } => "hello",
        Message::Welcome { .. } => "welcome",
        Message::Pair { .. } => "pair",
        Message::Paired { .. } => "paired",
        Message::GetCatalog { .. } => "get_catalog",
        Message::Rescan => "rescan",
        Message::Catalog { .. } => "catalog",
        Message::OpenMedia { .. } => "open_media",
        Message::MediaHeader { .. } => "media_header",
        Message::GetCover { .. } => "get_cover",
        Message::Cover { .. } => "cover",
        Message::Ping => "ping",
        Message::Pong => "pong",
        Message::LibraryChanged { .. } => "library_changed",
        Message::Error { .. } => "error",
    }
}

/// No two kinds share a tag.
pub proof fn law_tags_tell_kinds_apart(a: MessageKind, b: MessageKind)
    requires
        a.tag_text() == b.tag_text(),
    ensures
        a == b,
{
    reveal_strlit("hello");
    reveal_strlit("welcome");
    reveal_strlit("pair");
    reveal_strlit("paired");
    reveal_strlit("get_catalog");
    reveal_strlit("rescan");
    reveal_strlit("catalog");
    reveal_strlit("open_media");
    reveal_strlit("media_header");
    reveal_strlit("get_cover");
    reveal_strlit("cover");
    reveal_strlit("ping");
    reveal_strlit("pong");
    reveal_strlit("library_changed");
    reveal_strlit("error");
    assert("pair"@[1] == 'a' && "ping"@[1] == 'i' && "pong"@[1] == 'o');
    assert("hello"@[0] == 'h' && "cover"@[0] == 'c' && "error"@[0] == 'e');
    assert("paired"@[0] == 'p' && "rescan"@[0] == 'r');
    assert("welcome"@[0] == 'w' && "catalog"@[0] == 'c');
    assert("pair"@.len() == 4 && "ping"@.len() == 4 && "pong"@.len() == 4);
    assert("hello"@.len() == 5 && "cover"@.len() == 5 && "error"@.len() == 5);
    assert("paired"@.len() == 6 && "rescan"@.len() == 6);
    assert("welcome"@.len() == 7 && "catalog"@.len() == 7);
    assert("get_cover"@.len() == 9 && "open_media"@.len() == 10 && "get_catalog"@.len() == 11);
    assert("media_header"@.len() == 12 && "library_changed"@.len() == 15);
    assert(a.tag_text().len() == b.tag_text().len());
    assert(a.tag_text()[0] == b.tag_text()[0]);
    assert(a.tag_text()[1] == b.tag_text()[1]);
}

/// Why bytes are no message.
#[derive(Clone, Copy, Debug, PartialEq, Eq, Structural)]
pub enum FrameError {
    TruncatedHeader,
    TooLong,
    TruncatedBody,
    Malformed,
    UnsupportedVersion(u64),
}

impl FrameError {
    pub open spec fn message_text(self) -> Seq<char> {
        match self {
            FrameError::TruncatedHeader => "truncated frame header"@,
            FrameError::TooLong => "message exceeds 16777216 bytes"@,
            FrameError::TruncatedBody => "truncated frame body"@,
            FrameError::Malformed => "decoding message"@,
            FrameError::UnsupportedVersion(v) => "unsupported protocol version "@ + decimal(
                v as nat,
            ),
        }
    }

    pub fn text(self) -> (text: String)
        ensures
            text@ == self.message_text(),
    {
        match self {
            FrameError::TruncatedHeader => "truncated frame header".to_owned(),
            FrameError::TooLong => "message exceeds 16777216 bytes".to_owned(),
            FrameError::TruncatedBody => "truncated frame body".to_owned(),
            FrameError::Malformed => "decoding message".to_owned(),
            FrameError::UnsupportedVersion(v) => {
                let mut text = "unsupported protocol version ".to_owned();
                append_decimal(&mut text, v);
                text
            },
        }
    }
}

/// A number as four bytes, the most significant first.
pub open spec fn be_bytes(n: nat) -> Seq<u8> {
    seq![
        (n / 16_777_216 % 256) as u8,
        (n / 65_536 % 256) as u8,
        (n / 256 % 256) as u8,
        (n % 256) as u8,
    ]
}

/// The number that four bytes spell, the most significant first.
pub open spec fn be_number(bytes: Seq<u8>) -> nat {
    (bytes[0] * 16_777_216 + bytes[1] * 65_536 + bytes[2] * 256 + bytes[3]) as nat
}

/// A message's bytes behind their length.
pub open spec fn framed(body: Seq<u8>) -> Seq<u8> {
    be_bytes(body.len()) + body
}

/// Puts a message's bytes behind their length.
pub fn encode_frame(body: &[u8]) -> (frame: Result<Vec<u8>, FrameError>)
    ensures
        frame == Err::<Vec<u8>, FrameError>(FrameError::TooLong) <==> body@.len()
            > MAX_MESSAGE_BYTES,
        body@.len() <= MAX_MESSAGE_BYTES ==> (frame matches Ok(bytes) && bytes@ == framed(body@)),
{
    let len: usize = body.len();
    if len > MAX_MESSAGE_BYTES {
        return Err(FrameError::TooLong);
    }
    let mut frame: Vec<u8> = Vec::new();
    frame.push((len / 16_777_216 % 256) as u8);
    frame.push((len / 65_536 % 256) as u8);
    frame.push((len / 256 % 256) as u8);
    frame.push((len % 256) as u8);
    assert(frame@ =~= be_bytes(len as nat));
    frame.extend_from_slice(body);
    assert(frame@ =~= framed(body@));
    Ok(frame)
}

/// The length that a frame's first four bytes announce.
pub fn announced_length(header: &[u8]) -> (length: Result<usize, FrameError>)
    requires
        header@.len() == 4,
    ensures
        match length {
            Ok(n) => n == be_number(header@) && n <= MAX_MESSAGE_BYTES,
            Err(error) => error == FrameError::TooLong && be_number(header@) > MAX_MESSAGE_BYTES,
        },
{
    let length: u64 = header[0] as u64 * 16_777_216 + header[1] as u64 * 65_536 + header[2] as u64
        * 256 + header[3] as u64;
    if length > MAX_MESSAGE_BYTES as u64 {
        Err(FrameError::TooLong)
    } else {
        Ok(length as usize)
    }
}

/// What is in a frame.
pub open spec fn unframed(bytes: Seq<u8>) -> Result<Seq<u8>, FrameError> {
    if bytes.len() < 4 {
        Err(FrameError::TruncatedHeader)
    } else if be_number(bytes.take(4)) > MAX_MESSAGE_BYTES {
        Err(FrameError::TooLong)
    } else if bytes.len() < 4 + be_number(bytes.take(4)) {
        Err(FrameError::TruncatedBody)
    } else {
        Ok(bytes.subrange(4, 4 + be_number(bytes.take(4)) as int))
    }
}

/// Takes a message's bytes out of their frame.
pub fn frame_body(bytes: &[u8]) -> (body: Result<&[u8], FrameError>)
    ensures
        match body {
            Ok(body) => unframed(bytes@) == Ok::<Seq<u8>, FrameError>(body@),
            Err(error) => unframed(bytes@) == Err::<Seq<u8>, FrameError>(error),
        },
{
    if bytes.len() < 4 {
        return Err(FrameError::TruncatedHeader);
    }
    let header = slice_subrange(bytes, 0, 4);
    assert(header@ =~= bytes@.take(4));
    let length: usize = match announced_length(header) {
        Ok(length) => length,
        Err(error) => {
            return Err(error);
        },
    };
    if bytes.len() - 4 < length {
        return Err(FrameError::TruncatedBody);
    }
    Ok(slice_subrange(bytes, 4, 4 + length))
}

/// What was framed comes out again, whatever stands behind the frame.
pub proof fn law_frames_round_trip(body: Seq<u8>, behind: Seq<u8>)
    requires
        body.len() <= MAX_MESSAGE_BYTES,
    ensures
        unframed(framed(body) + behind) == Ok::<Seq<u8>, FrameError>(body),
{
    let n = body.len();
    let bytes = framed(body) + behind;
    assert(bytes.take(4) =~= be_bytes(n));
    assert(be_number(be_bytes(n)) == n) by {
        assert(n / 16_777_216 < 256);
        assert(n / 65_536 % 256 == n / 65_536 - n / 16_777_216 * 256);
        assert(n / 256 % 256 == n / 256 - n / 65_536 * 256);
    }
    assert(bytes.subrange(4, 4 + n as int) =~= body);
}

/// What `serde_json` finds in the object that bytes spell: the number under one key and the text
/// under another, where both are there.
pub uninterp spec fn json_header(bytes: Seq<u8>, number: Seq<char>, text: Seq<char>) -> Option<
    (u64, Seq<char>),
>;

/// Calls `serde_json::from_slice` and looks two keys up. Gives nothing where the bytes are no
/// JSON, or there is no number of 64 bits under the one or no text under the other.
#[verifier::external_body]
fn read_header(bytes: &[u8], number: &str, text: &str) -> (header: Option<(u64, String)>)
    ensures
        match header {
            Some((v, tag)) => json_header(bytes@, number@, text@) == Some((v, tag@)),
            None => json_header(bytes@, number@, text@) is None,
        },
{
    let value: serde_json::Value = serde_json::from_slice(bytes).ok()?;
    let v = value.get(number)?.as_u64()?;
    Some((v, value.get(text)?.as_str()?.to_owned()))
}

/// What is made of a message's version and type, and of the message that was read from the same
/// bytes, where they spell one. A version is a number of 32 bits.
pub open spec fn checked(header: Option<(u64, Seq<char>)>, fields: Option<Message>) -> Result<
    Message,
    FrameError,
> {
    match (header, fields) {
        (Some((v, tag)), Some(message)) => if tag != kind_of(message).tag_text() || v > u32::MAX {
            Err(FrameError::Malformed)
        } else if v != PROTOCOL_VERSION {
            Err(FrameError::UnsupportedVersion(v))
        } else {
            Ok(message)
        },
        _ => Err(FrameError::Malformed),
    }
}

/// Checks a message that was read against the version and the type that stand in the same bytes.
pub fn check_header(header: Option<(u64, String)>, fields: Option<Message>) -> (message: Result<
    Message,
    FrameError,
>)
    ensures
        message == checked(
            match header {
                Some((v, tag)) => Some((v, tag@)),
                None => None,
            },
            fields,
        ),
{
    match (header, fields) {
        (Some((v, tag)), Some(message)) => {
            if !same_text(&tag, message_kind(&message)) || v > u32::MAX as u64 {
                Err(FrameError::Malformed)
            } else if v != PROTOCOL_VERSION as u64 {
                Err(FrameError::UnsupportedVersion(v))
            } else {
                Ok(message)
            }
        },
        _ => Err(FrameError::Malformed),
    }
}

/// The message that bytes hold: the version stands under `v`, the type under `type`.
pub open spec fn decoded_json(bytes: Seq<u8>, fields: Option<Message>) -> Result<
    Message,
    FrameError,
> {
    checked(json_header(bytes, "v"@, "type"@), fields)
}

/// The message that bytes hold, where they are written in the version that is spoken. `fields` is
/// the message that the bytes spell, whatever their version; nothing where a field is missing,
/// repeated or of another type, or the type is not known.
pub fn decode_json(bytes: &[u8], fields: Option<Message>) -> (message: Result<Message, FrameError>)
    ensures
        message == decoded_json(bytes@, fields),
{
    check_header(read_header(bytes, "v", "type"), fields)
}

/// Takes a message out of its frame. `fields` is the message that the bytes in the frame spell,
/// where they spell one.
pub fn decode_frame(bytes: &[u8], fields: Option<Message>) -> (message: Result<Message, FrameError>)
    ensures
        message == match unframed(bytes@) {
            Err(error) => Err(error),
            Ok(body) => decoded_json(body, fields),
        },
{
    match frame_body(bytes) {
        Ok(body) => decode_json(body, fields),
        Err(error) => Err(error),
    }
}

/// A span in whole milliseconds.
pub fn duration_ms(duration: Duration) -> (millis: u64)
    ensures
        millis == if duration.secs * 1000 + duration.nanos / 1_000_000 > u64::MAX {
            u64::MAX as int
        } else {
            duration.secs * 1000 + duration.nanos / 1_000_000
        },
{
    let millis: u128 = duration.as_millis();
    if millis > u64::MAX as u128 {
        u64::MAX
    } else {
        millis as u64
    }
}

} // verus!
