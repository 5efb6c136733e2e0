//! The server's side of a library session.

use std::collections::{BTreeMap, HashMap};

use vstd::prelude::*;
use vstd::string::*;

use crate::keys::{ids_in_order, lists_ids, track_keys, tracks_in_order};
use crate::model::{ScannedTrack, Track, TrackId};
use crate::net::addr::{IpAddr, SocketAddr};
use crate::net::identity::{digest_text, generate_token, is_hex, remote_id_for};
use crate::net::protocol::{
    duration_ms, entries, refusal, CatalogEntry, CatalogTrack, Message, MessageView,
};
use crate::path_codec::encoded;
use crate::order::{lemma_filter_members, sort_stably, sorted_by, views};
use crate::soulseek::opt_view;
use crate::split::{begins, starts_with};
use crate::text::{append_decimal, decimal, same_text, signed_decimal, signed_decimal_text};
use crate::time::Duration;

verus! {

broadcast use {
    vstd::std_specs::hash::group_hash_axioms,
    vstd::std_specs::btree::group_btree_axioms,
};

/// The name of the server's database.
pub fn server_db_name() -> (name: &'static str)
    ensures
        name@ == "staccato-server.db"@,
{
    "staccato-server.db"
}

/// What a server was started with, and which connections may use it.
#[derive(Debug)]
pub struct ServerState {
    pub roots: Vec<String>,
    pub pairing_code: String,
    pub server_name: String,
    pub fingerprint: String,
    pub authorized: HashMap<usize, bool>,
}

/// What a server knows.
pub struct ServerView {
    pub roots: Seq<Seq<char>>,
    pub pairing_code: Seq<char>,
    pub server_name: Seq<char>,
    pub fingerprint: Seq<char>,
    pub authorized: Map<usize, bool>,
}

impl View for ServerState {
    type V = ServerView;

    open spec fn view(&self) -> ServerView {
        ServerView {
            roots: views(self.roots@),
            pairing_code: self.pairing_code@,
            server_name: self.server_name@,
            fingerprint: self.fingerprint@,
            authorized: self.authorized@,
        }
    }
}

impl ServerView {
    /// Whether a connection may use the library.
    pub open spec fn admits(self, conn_id: usize) -> bool {
        self.authorized.contains_key(conn_id) && self.authorized[conn_id]
    }

    pub open spec fn with_authorized(self, conn_id: usize, authorized: bool) -> ServerView {
        ServerView { authorized: self.authorized.insert(conn_id, authorized), ..self }
    }

    pub open spec fn welcome(self, known: bool, revision: u64) -> MessageView {
        MessageView::Welcome {
            server_name: self.server_name,
            library_revision: revision,
            pair_required: !known,
            fingerprint: self.fingerprint,
        }
    }
}

pub open spec fn error_of(code: Seq<char>, message: Seq<char>) -> MessageView {
    MessageView::Error { code, message }
}

fn error_message(code: &str, message: &str) -> (reply: Message)
    ensures
        reply@ == error_of(code@, message@),
{
    Message::Error { code: code.to_owned(), message: message.to_owned() }
}

/// What a stream is for, as its first message says.
#[derive(Debug)]
pub enum StreamStart {
    Control { client_name: String, token: Option<String> },
    Media { remote_id: String, offset: u64, length: Option<u64> },
    Cover { remote_id: String },
    /// Answered by an error with this code, whose text begins so and goes on with the message.
    Refuse { code: &'static str, before: &'static str, message: Message },
}

/// What a stream is for.
pub enum StartView {
    Control { client_name: Seq<char>, token: Option<Seq<char>> },
    Media { remote_id: Seq<char>, offset: u64, length: Option<u64> },
    Cover { remote_id: Seq<char> },
    Refuse { code: Seq<char>, before: Seq<char>, message: MessageView },
}

impl View for StreamStart {
    type V = StartView;

    open spec fn view(&self) -> StartView {
        match self {
            StreamStart::Control { client_name, token } => StartView::Control {
                client_name: client_name@,
                token: opt_view(*token),
            },
            StreamStart::Media { remote_id, offset, length } => StartView::Media {
                remote_id: remote_id@,
                offset: *offset,
                length: *length,
            },
            StreamStart::Cover { remote_id } => StartView::Cover { remote_id: remote_id@ },
            StreamStart::Refuse { code, before, message } => StartView::Refuse {
                code: code@,
                before: before@,
                message: message@,
            },
        }
    }
}

/// What a stream is for, by its first message.
pub open spec fn stream_start(first: MessageView) -> StartView {
    match first {
        MessageView::Hello { client_name, token } => StartView::Control { client_name, token },
        MessageView::OpenMedia { remote_id, offset, length } => StartView::Media {
            remote_id,
            offset,
            length,
        },
        MessageView::GetCover { remote_id } => StartView::Cover { remote_id },
        other => StartView::Refuse {
            code: "unexpected"@,
            before: "first message cannot be "@,
            message: other,
        },
    }
}

/// Sorts a stream by its first message.
pub fn handle_stream(first: Message) -> (start: StreamStart)
    ensures
        start@ == stream_start(first@),
{
    match first {
        Message::Hello { client_name, token } => StreamStart::Control { client_name, token },
        Message::OpenMedia { remote_id, offset, length } => StreamStart::Media {
            remote_id,
            offset,
            length,
        },
        Message::GetCover { remote_id } => StreamStart::Cover { remote_id },
        other => StreamStart::Refuse {
            code: "unexpected",
            before: "first message cannot be ",
            message: other,
        },
    }
}

/// The answer to a first message that cannot be read.
pub fn unreadable_start(error: &str) -> (reply: Message)
    ensures
        reply@ == error_of("bad_message"@, error@),
{
    error_message("bad_message", error)
}

/// What a message on a control stream leads to.
#[derive(Debug)]
pub enum ControlAction {
    Send(Message),
    /// The token is to be kept; once it is, the client is let in.
    StoreToken(String),
    LoadCatalog { since_revision: Option<u64> },
    Rescan,
    OpenMedia { remote_id: String, offset: u64, length: Option<u64> },
    /// Answered by an error with this code, whose text begins so and goes on with the message.
    Refuse { code: &'static str, before: &'static str, message: Message },
}

impl ServerView {
    /// Whether an action is what a message on a control stream leads to.
    pub open spec fn controls(
        self,
        conn_id: usize,
        message: MessageView,
        action: ControlAction,
    ) -> bool {
        match message {
            MessageView::Pair { code } => if code != self.pairing_code {
                action matches ControlAction::Send(reply) && reply@ == error_of(
                    "bad_pair"@,
                    "pairing code does not match"@,
                )
            } else {
                action matches ControlAction::StoreToken(token) && token@.len() == 64 && is_hex(
                    token@,
                )
            },
            MessageView::GetCatalog { since_revision } => if self.admits(conn_id) {
                action == (ControlAction::LoadCatalog { since_revision })
            } else {
                action matches ControlAction::Send(reply) && reply@ == error_of(
                    "unpaired"@,
                    "pair this client before reading the catalog"@,
                )
            },
            MessageView::Rescan => if self.admits(conn_id) {
                action == ControlAction::Rescan
            } else {
                action matches ControlAction::Send(reply) && reply@ == error_of(
                    "unpaired"@,
                    "pair this client before rescanning"@,
                )
            },
            MessageView::Ping => action matches ControlAction::Send(reply) && reply@
                == MessageView::Pong,
            MessageView::OpenMedia { remote_id, offset, length } => action matches
                ControlAction::OpenMedia { remote_id: id, offset: from, length: bound } && id@
                == remote_id && from == offset && bound == length,
            other => action matches ControlAction::Refuse { code, before, message: about } && code@
                == "unknown_type"@ && before@ == "unsupported message on control stream: "@
                && about@ == other,
        }
    }
}

/// The bytes of a file that are still to be handed on, at most so many at a time.
#[derive(Clone, Copy, Debug, PartialEq, Eq, Structural)]
pub struct Transfer {
    pub remaining: u64,
}

/// The most bytes that are read at once.
pub const CHUNK_BYTES: usize = 65536;

impl Transfer {
    /// How many bytes to read next.
    pub open spec fn next(self) -> int {
        if self.remaining < CHUNK_BYTES {
            self.remaining as int
        } else {
            CHUNK_BYTES as int
        }
    }

    /// How many bytes to read next; none once all are through.
    pub fn want(&self) -> (bytes: usize)
        ensures
            bytes == self.next(),
            (bytes == 0) == (self.remaining == 0),
    {
        if self.remaining < CHUNK_BYTES as u64 {
            self.remaining as usize
        } else {
            CHUNK_BYTES
        }
    }

    /// Counts bytes that were read; the end of the file ends the transfer.
    pub fn took(&mut self, read: usize) -> (more: bool)
        requires
            read <= old(self).next(),
        ensures
            final(self).remaining == old(self).remaining - read,
            more == (read > 0 && final(self).remaining > 0),
    {
        self.remaining = self.remaining - read as u64;
        read > 0 && self.remaining > 0
    }
}

/// The mark that a state of a file is told by.
pub open spec fn etag_text(modified_ns: i64, file_size: u64) -> Seq<char> {
    signed_decimal(modified_ns as int) + "-"@ + decimal(file_size as nat)
}

pub fn etag_of(modified_ns: i64, file_size: u64) -> (etag: String)
    ensures
        etag@ == etag_text(modified_ns, file_size),
{
    let mut etag = signed_decimal_text(modified_ns);
    etag.append("-");
    append_decimal(&mut etag, file_size);
    etag
}

/// The identifier of a track for clients.
pub open spec fn remote_id(track: Track) -> Seq<char> {
    digest_text(encoded(track.path@))
}

/// A track as it is listed for clients.
pub open spec fn listed(track: Track) -> CatalogEntry {
    CatalogEntry {
        remote_id: remote_id(track),
        title: track.title@,
        artist: track.artist@,
        album: track.album@,
        date: track.date,
        track_number: track.track_number,
        duration_ms: millis(track.duration),
        codec: track.codec@,
        sample_rate: track.sample_rate,
        channels: track.channels,
        file_size: track.file_size,
        modified_ns: track.modified_ns,
    }
}

/// A span in whole milliseconds, as far as they can be written.
pub open spec fn millis(duration: Duration) -> u64 {
    let whole = duration.secs * 1000 + duration.nanos / 1_000_000;
    if whole > u64::MAX {
        u64::MAX
    } else {
        whole as u64
    }
}

fn list_track(track: &Track) -> (entry: CatalogTrack)
    ensures
        entry@ == listed(*track),
{
    CatalogTrack {
        remote_id: remote_id_for(&track.path),
        title: track.title.clone(),
        artist: track.artist.clone(),
        album: track.album.clone(),
        date: track.date,
        track_number: track.track_number,
        duration_ms: duration_ms(track.duration),
        codec: track.codec.clone(),
        sample_rate: track.sample_rate,
        channels: track.channels,
        file_size: track.file_size,
        modified_ns: track.modified_ns,
    }
}

/// The tracks that clients can see: those of this computer, by rising identifier.
pub open spec fn shared_tracks(tracks: Map<TrackId, Track>) -> Seq<Track> {
    tracks_in_order(tracks).filter(|track: Track| track.origin is Local)
}

/// What is shared are the tracks of this computer.
pub proof fn lemma_shared(tracks: Map<TrackId, Track>)
    ensures
        forall|track: Track| #[trigger]
            shared_tracks(tracks).contains(track) <==> tracks_in_order(tracks).contains(track)
                && track.origin is Local,
{
    lemma_filter_members(tracks_in_order(tracks), |track: Track| track.origin is Local);
}

/// The listing of a library at a revision. A client that has it already is told so by an empty
/// one.
pub open spec fn catalog_of(
    tracks: Map<TrackId, Track>,
    revision: u64,
    since_revision: Option<u64>,
) -> MessageView {
    if since_revision == Some(revision) {
        MessageView::Catalog {
            revision,
            tracks: Seq::empty(),
            removed: Seq::empty(),
            replace: false,
        }
    } else {
        MessageView::Catalog {
            revision,
            tracks: shared_tracks(tracks).map_values(|track: Track| listed(track)),
            removed: Seq::empty(),
            replace: true,
        }
    }
}

fn list_tracks(tracks: &BTreeMap<TrackId, Track>) -> (list: Vec<CatalogTrack>)
    ensures
        entries(list@) == shared_tracks(tracks@).map_values(|track: Track| listed(track)),
{
    let ids = track_keys(tracks);
    let ghost all = tracks_in_order(tracks@);
    let ghost keep = |track: Track| track.origin is Local;
    let mut list: Vec<CatalogTrack> = Vec::new();
    let mut i: usize = 0;
    proof {
        reveal(Seq::filter);
    }
    assert(all.take(0).filter(keep) =~= Seq::empty());
    assert(entries(list@) =~= all.take(0).filter(keep).map_values(|track: Track| listed(track)));
    while i < ids.len()
        invariant
            i <= ids@.len(),
            ids@ == ids_in_order(tracks@.dom()),
            lists_ids(ids@, tracks@.dom()),
            all == tracks_in_order(tracks@),
            keep == (|track: Track| track.origin is Local),
            entries(list@) == all.take(i as int).filter(keep).map_values(
                |track: Track| listed(track),
            ),
        decreases ids@.len() - i,
    {
        proof {
            crate::order::lemma_filter_take(all, keep, i as int);
        }
        let id = ids[i];
        assert(ids@.contains(id));
        let ghost earlier = list@;
        let ghost before = all.take(i as int).filter(keep);
        if let Some(track) = tracks.get(&id) {
            assert(all[i as int] == *track);
            if !track.origin.is_remote() {
                let entry = list_track(track);
                list.push(entry);
                assert(entries(list@) =~= entries(earlier).push(entry@));
                assert(entries(list@) =~= before.push(*track).map_values(
                    |track: Track| listed(track),
                ));
            }
        }
        i = i + 1;
    }
    assert(all.take(i as int) =~= all);
    list
}

/// The listing of a library, for a client that has it at a revision, or not at all.
pub fn catalog_snapshot(
    tracks: &BTreeMap<TrackId, Track>,
    revision: u64,
    since_revision: Option<u64>,
) -> (catalog: Message)
    ensures
        catalog@ == catalog_of(tracks@, revision, since_revision),
{
    let removed: Vec<String> = Vec::new();
    assert(views(removed@) =~= Seq::empty());
    if let Some(since) = since_revision {
        if since == revision {
            let none: Vec<CatalogTrack> = Vec::new();
            assert(entries(none@) =~= Seq::empty());
            return Message::Catalog { revision, tracks: none, removed, replace: false };
        }
    }
    Message::Catalog { revision, tracks: list_tracks(tracks), removed, replace: true }
}

/// The first of the tracks in a list that clients know by an identifier.
pub open spec fn with_remote_id(tracks: Seq<Track>, id: Seq<char>) -> Option<Track>
    decreases tracks.len(),
{
    if tracks.len() == 0 {
        None
    } else if remote_id(tracks[0]) == id {
        Some(tracks[0])
    } else {
        with_remote_id(tracks.skip(1), id)
    }
}

/// The track that clients know by an identifier.
pub fn find_track<'a>(tracks: &'a BTreeMap<TrackId, Track>, id: &str) -> (found: Option<&'a Track>)
    ensures
        with_remote_id(tracks_in_order(tracks@), id@) == match found {
            Some(track) => Some(*track),
            None => None,
        },
{
    let ids = track_keys(tracks);
    let ghost all = tracks_in_order(tracks@);
    let mut i: usize = 0;
    assert(all.skip(0) =~= all);
    while i < ids.len()
        invariant
            i <= ids@.len(),
            ids@ == ids_in_order(tracks@.dom()),
            lists_ids(ids@, tracks@.dom()),
            all == tracks_in_order(tracks@),
            with_remote_id(all, id@) == with_remote_id(all.skip(i as int), id@),
        decreases ids@.len() - i,
    {
        let key = ids[i];
        assert(ids@.contains(key));
        assert(all.skip(i as int)[0] == all[i as int]);
        assert(all.skip(i as int).skip(1) =~= all.skip(i + 1));
        if let Some(track) = tracks.get(&key) {
            assert(all[i as int] == *track);
            let found = remote_id_for(&track.path);
            if same_text(&found, id) {
                return Some(track);
            }
        }
        i = i + 1;
    }
    assert(all.skip(i as int) =~= Seq::empty());
    None
}

/// What a request for a file comes to, before the disk is asked.
#[derive(Debug)]
pub enum Lookup<'a> {
    Refuse(Message),
    Found(&'a Track),
}

impl ServerView {
    /// Whether a lookup is what a request for a track's file comes to.
    pub open spec fn looks_up(
        self,
        conn_id: usize,
        id: Seq<char>,
        tracks: Map<TrackId, Track>,
        cover: bool,
        lookup: Lookup,
    ) -> bool {
        if !self.admits(conn_id) {
            lookup matches Lookup::Refuse(reply) && reply@ == error_of(
                "unpaired"@,
                "pair this client before streaming"@,
            )
        } else {
            match with_remote_id(tracks_in_order(tracks), id) {
                Some(track) => lookup matches Lookup::Found(found) && *found == track,
                None => lookup matches Lookup::Refuse(reply) && reply@ == if cover {
                    MessageView::Cover { remote_id: id, data: None }
                } else {
                    error_of("not_found"@, "unknown track "@ + id)
                },
            }
        }
    }
}

/// What is answered where a track's file lies outside the library.
pub open spec fn forbidden() -> MessageView {
    error_of("forbidden"@, "track is outside the configured library"@)
}

/// The bytes that a request for a stretch of a file gets: what it asks for, or the rest of the
/// file.
pub open spec fn stretch(file_size: u64, offset: u64, length: Option<u64>) -> int {
    match length {
        Some(length) => length as int,
        None => if file_size > offset {
            file_size - offset
        } else {
            0
        },
    }
}

/// The header that a track's file is sent under, and how much of the file follows; `allowed`
/// says whether the file lies in the library.
pub fn handle_media(track: &Track, allowed: bool, offset: u64, length: Option<u64>) -> (outcome:
    Result<(Message, Transfer), Message>)
    ensures
        match outcome {
            Ok((header, transfer)) => {
                &&& allowed
                &&& header@ == (MessageView::MediaHeader {
                    size: track.file_size,
                    etag: etag_text(track.modified_ns, track.file_size),
                    codec: track.codec@,
                })
                &&& transfer.remaining == stretch(track.file_size, offset, length)
            },
            Err(reply) => !allowed && reply@ == forbidden(),
        },
{
    if !allowed {
        return Err(error_message("forbidden", "track is outside the configured library"));
    }
    let header = Message::MediaHeader {
        size: track.file_size,
        etag: etag_of(track.modified_ns, track.file_size),
        codec: track.codec.clone(),
    };
    let remaining: u64 = match length {
        Some(length) => length,
        None => track.file_size.saturating_sub(offset),
    };
    Ok((header, Transfer { remaining }))
}

/// The answer to a request for a cover; `data` is the cover in text form, where the track's
/// file has one.
pub fn handle_cover(remote_id: &str, allowed: bool, data: Option<String>) -> (reply: Message)
    ensures
        reply@ == if allowed {
            MessageView::Cover { remote_id: remote_id@, data: opt_view(data) }
        } else {
            forbidden()
        },
{
    if allowed {
        Message::Cover { remote_id: remote_id.to_owned(), data }
    } else {
        error_message("forbidden", "track is outside the configured library")
    }
}

impl ServerState {
    pub fn new(
        roots: Vec<String>,
        pairing_code: String,
        server_name: String,
        fingerprint: String,
    ) -> (state: ServerState)
        ensures
            state@ == (ServerView {
                roots: views(roots@),
                pairing_code: pairing_code@,
                server_name: server_name@,
                fingerprint: fingerprint@,
                authorized: Map::empty(),
            }),
    {
        ServerState { roots, pairing_code, server_name, fingerprint, authorized: HashMap::new() }
    }

    fn set_authorized(&mut self, conn_id: usize, authorized: bool)
        ensures
            final(self)@ == old(self)@.with_authorized(conn_id, authorized),
    {
        self.authorized.insert(conn_id, authorized);
    }

    /// Whether a connection may use the library.
    pub fn is_authorized(&self, conn_id: usize) -> (authorized: bool)
        ensures
            authorized == self@.admits(conn_id),
    {
        match self.authorized.get(&conn_id) {
            Some(authorized) => *authorized,
            None => false,
        }
    }

    /// Greets a client: `known` says whether it came with a token that was given out, and
    /// `revision` is the library's, where it can be read.
    pub fn greet(&mut self, conn_id: usize, known: bool, revision: Option<u64>) -> (reply: Message)
        ensures
            final(self)@ == old(self)@.with_authorized(conn_id, known),
            reply@ == old(self)@.welcome(
                known,
                match revision {
                    Some(revision) => revision,
                    None => 0,
                },
            ),
    {
        self.set_authorized(conn_id, known);
        Message::Welcome {
            server_name: self.server_name.clone(),
            library_revision: match revision {
                Some(revision) => revision,
                None => 0,
            },
            pair_required: !known,
            fingerprint: self.fingerprint.clone(),
        }
    }

    /// What a message on a control stream leads to.
    pub fn handle_control(&self, conn_id: usize, message: Message) -> (action: ControlAction)
        ensures
            self@.controls(conn_id, message@, action),
    {
        match message {
            Message::Pair { code } => if same_text(&code, &self.pairing_code) {
                ControlAction::StoreToken(generate_token())
            } else {
                ControlAction::Send(error_message("bad_pair", "pairing code does not match"))
            },
            Message::GetCatalog { since_revision } => if self.is_authorized(conn_id) {
                ControlAction::LoadCatalog { since_revision }
            } else {
                ControlAction::Send(
                    error_message("unpaired", "pair this client before reading the catalog"),
                )
            },
            Message::Rescan => if self.is_authorized(conn_id) {
                ControlAction::Rescan
            } else {
                ControlAction::Send(error_message("unpaired", "pair this client before rescanning"))
            },
            Message::Ping => ControlAction::Send(Message::Pong),
            Message::OpenMedia { remote_id, offset, length } => ControlAction::OpenMedia {
                remote_id,
                offset,
                length,
            },
            other => ControlAction::Refuse {
                code: "unknown_type",
                before: "unsupported message on control stream: ",
                message: other,
            },
        }
    }

    /// Lets a client in, once its token has been kept.
    pub fn token_stored(&mut self, conn_id: usize, token: String) -> (reply: Message)
        ensures
            final(self)@ == old(self)@.with_authorized(conn_id, true),
            reply@ == (MessageView::Paired { token: token@ }),
    {
        self.set_authorized(conn_id, true);
        Message::Paired { token }
    }

    /// Finds the track that a connection asks for.
    pub fn look_up<'a>(
        &self,
        conn_id: usize,
        remote_id: &str,
        tracks: &'a BTreeMap<TrackId, Track>,
        cover: bool,
    ) -> (lookup: Lookup<'a>)
        ensures
            self@.looks_up(conn_id, remote_id@, tracks@, cover, lookup),
    {
        if !self.is_authorized(conn_id) {
            return Lookup::Refuse(error_message("unpaired", "pair this client before streaming"));
        }
        match find_track(tracks, remote_id) {
            Some(track) => Lookup::Found(track),
            None => if cover {
                Lookup::Refuse(Message::Cover { remote_id: remote_id.to_owned(), data: None })
            } else {
                let mut text = "unknown track ".to_owned();
                text.append(remote_id);
                Lookup::Refuse(error_message("not_found", &text))
            },
        }
    }
}

/// A client that has not been let in gets neither the catalog nor a rescan nor a file: it is
/// refused, and nothing else happens.
pub proof fn law_strangers_are_refused(
    state: ServerView,
    conn_id: usize,
    message: MessageView,
    action: ControlAction,
    id: Seq<char>,
    tracks: Map<TrackId, Track>,
    cover: bool,
    lookup: Lookup,
)
    requires
        !state.admits(conn_id),
        state.controls(conn_id, message, action),
        state.looks_up(conn_id, id, tracks, cover, lookup),
    ensures
        !(action is LoadCatalog),
        !(action is Rescan),
        message is GetCatalog || message is Rescan ==> (action matches ControlAction::Send(reply)
            && refusal(reply@, "unpaired"@)),
        lookup matches Lookup::Refuse(reply) && refusal(reply@, "unpaired"@),
{
}

/// A client is let in by the pairing code alone: any other code is refused, and the right one
/// leads to a token, after which the client is let in and no other.
pub proof fn law_the_code_lets_in(
    state: ServerView,
    conn_id: usize,
    other: usize,
    code: Seq<char>,
    action: ControlAction,
)
    requires
        state.controls(conn_id, MessageView::Pair { code }, action),
    ensures
        action is StoreToken <==> code == state.pairing_code,
        code != state.pairing_code ==> (action matches ControlAction::Send(reply) && refusal(
            reply@,
            "bad_pair"@,
        )),
        state.with_authorized(conn_id, true).admits(conn_id),
        other != conn_id ==> state.with_authorized(conn_id, true).admits(other) == state.admits(
            other,
        ),
{
}

/// A client that greets with a token that was given out is not asked to pair and is let in; one
/// without is asked to pair and is not.
pub proof fn law_tokens_are_enough(state: ServerView, conn_id: usize, known: bool, revision: u64)
    ensures
        state.with_authorized(conn_id, known).admits(conn_id) == known,
        state.welcome(known, revision) matches MessageView::Welcome { pair_required, .. }
            && pair_required == !known,
{
}

/// A client that has the current revision is sent nothing and keeps what it has; any other is
/// sent every track of this computer, and no track of another server.
pub proof fn law_catalogs_are_current(
    tracks: Map<TrackId, Track>,
    revision: u64,
    since: Option<u64>,
    i: int,
)
    requires
        0 <= i < shared_tracks(tracks).len(),
    ensures
        catalog_of(tracks, revision, Some(revision)) == (MessageView::Catalog {
            revision,
            tracks: Seq::empty(),
            removed: Seq::empty(),
            replace: false,
        }),
        since != Some(revision) ==> (catalog_of(tracks, revision, since) matches
            MessageView::Catalog { tracks: list, replace, .. } && replace && list.len()
            == shared_tracks(tracks).len() && list[i] == listed(shared_tracks(tracks)[i])),
        shared_tracks(tracks)[i].origin is Local,
        tracks_in_order(tracks).contains(shared_tracks(tracks)[i]),
{
    lemma_filter_members(tracks_in_order(tracks), |track: Track| track.origin is Local);
    assert(shared_tracks(tracks).contains(shared_tracks(tracks)[i]));
}

/// Whether a path lies in a folder, or is the folder. Both are taken without symbolic links and
/// without a separator at the end, but for the root's.
pub open spec fn lies_in(path: Seq<char>, root: Seq<char>) -> bool {
    path == root || begins(
        path,
        if root.len() > 0 && root.last() == '/' {
            root
        } else {
            root.push('/')
        },
    )
}

/// Whether a file lies in one of the library's folders. A folder that cannot be resolved holds
/// none.
pub open spec fn allowed(path: Seq<char>, roots: Seq<Option<Seq<char>>>) -> bool {
    exists|i: int| 0 <= i < roots.len() && #[trigger] holds(roots[i], path)
}

/// Whether a path lies in a folder that could be resolved.
pub open spec fn holds(root: Option<Seq<char>>, path: Seq<char>) -> bool {
    match root {
        Some(root) => lies_in(path, root),
        None => false,
    }
}

pub open spec fn resolved(roots: Seq<Option<String>>) -> Seq<Option<Seq<char>>> {
    roots.map_values(|root: Option<String>| opt_view(root))
}

fn is_within(path: &str, root: &str) -> (within: bool)
    ensures
        within == lies_in(path@, root@),
{
    if same_text(path, root) {
        return true;
    }
    let chars = crate::text::chars_of(root);
    if chars.len() > 0 && chars[chars.len() - 1] == '/' {
        starts_with(path, root)
    } else {
        let mut folder = root.to_owned();
        folder.push('/');
        starts_with(path, &folder)
    }
}

/// Whether a file may be handed out: both its path and the folders come resolved, as far as
/// they can be. A path that cannot be resolved lies outside.
pub fn path_allowed(path: Option<&str>, roots: &Vec<Option<String>>) -> (fine: bool)
    ensures
        fine == match path {
            Some(path) => allowed(path@, resolved(roots@)),
            None => false,
        },
{
    let text = match path {
        Some(text) => text,
        None => {
            return false;
        },
    };
    let ghost all = resolved(roots@);
    assert(all.len() == roots@.len());
    let mut i: usize = 0;
    while i < roots.len()
        invariant
            i <= roots@.len(),
            all == resolved(roots@),
            all.len() == roots@.len(),
            path == Some(text),
            forall|k: int|
                0 <= k < i ==> !#[trigger] holds(all[k], text@),
        decreases roots@.len() - i,
    {
        if let Some(root) = &roots[i] {
            if is_within(text, root) {
                assert(all[i as int] == Some(root@));
                assert(holds(all[i as int], text@));
                return true;
            }
        }
        i = i + 1;
    }
    false
}

/// A network interface of this computer.
#[derive(Debug)]
pub struct Interface {
    pub name: String,
    pub loopback: bool,
    pub ip: IpAddr,
}

/// Whether an interface connects to no network of its own.
pub open spec fn virtual_interface(name: Seq<char>) -> bool {
    name == "docker0"@ || name == "podman0"@ || begins(name, "br-"@) || begins(name, "veth"@)
        || begins(name, "cni"@) || begins(name, "virbr"@)
}

pub fn is_virtual_interface(name: &str) -> (found: bool)
    ensures
        found == virtual_interface(name@),
{
    same_text(name, "docker0") || same_text(name, "podman0") || starts_with(name, "br-")
        || starts_with(name, "veth") || starts_with(name, "cni") || starts_with(name, "virbr")
}

/// The addresses of version 4 of the real interfaces.
pub open spec fn real_addresses(interfaces: Seq<Interface>) -> Seq<u32>
    decreases interfaces.len(),
{
    if interfaces.len() == 0 {
        Seq::empty()
    } else {
        let before = real_addresses(interfaces.drop_last());
        let interface = interfaces.last();
        match interface.ip {
            IpAddr::V4(bits) => if interface.loopback || virtual_interface(interface.name@) {
                before
            } else {
                before.push(bits)
            },
            IpAddr::V6(_) => before,
        }
    }
}

/// A sequence without elements that repeat the one before them.
pub open spec fn unrepeated<T>(items: Seq<T>) -> Seq<T>
    decreases items.len(),
{
    if items.len() == 0 {
        items
    } else {
        let before = unrepeated(items.drop_last());
        if items.len() > 1 && items[items.len() - 2] == items.last() {
            before
        } else {
            before.push(items.last())
        }
    }
}

/// The addresses at which a server can be reached: the one it listens at, or all that this
/// computer has, in order and each once.
pub open spec fn reachable(bind: SocketAddr, interfaces: Seq<Interface>) -> Seq<SocketAddr> {
    if !bind.ip.unspecified() {
        seq![bind]
    } else {
        unrepeated(sorted_by(real_addresses(interfaces), |a: u32, b: u32| a < b)).map_values(
            |bits: u32| at_v4(bits, bind.port),
        )
    }
}

pub open spec fn at_v4(bits: u32, port: u16) -> SocketAddr {
    SocketAddr { ip: IpAddr::V4(bits), port, flowinfo: 0, scope_id: 0 }
}

fn list_addresses(interfaces: &Vec<Interface>) -> (found: Vec<u32>)
    ensures
        found@ == real_addresses(interfaces@),
{
    let mut found: Vec<u32> = Vec::new();
    let mut i: usize = 0;
    assert(found@ =~= real_addresses(interfaces@.take(0)));
    while i < interfaces.len()
        invariant
            i <= interfaces@.len(),
            found@ == real_addresses(interfaces@.take(i as int)),
        decreases interfaces@.len() - i,
    {
        assert(interfaces@.take(i + 1).drop_last() =~= interfaces@.take(i as int));
        let interface = &interfaces[i];
        if let IpAddr::V4(bits) = interface.ip {
            if !interface.loopback && !is_virtual_interface(&interface.name) {
                found.push(bits);
            }
        }
        i = i + 1;
    }
    assert(interfaces@.take(i as int) =~= interfaces@);
    found
}

/// The addresses that clients can connect to.
pub fn connectable_addrs(bind: SocketAddr, interfaces: &Vec<Interface>) -> (addrs: Vec<SocketAddr>)
    ensures
        addrs@ == reachable(bind, interfaces@),
{
    let mut addrs: Vec<SocketAddr> = Vec::new();
    if !bind.ip.is_unspecified() {
        addrs.push(bind);
        assert(addrs@ =~= seq![bind]);
        return addrs;
    }
    let mut bits = list_addresses(interfaces);
    let lower = |a: &u32, b: &u32| -> (r: bool)
        ensures
            r == (*a < *b),
        { *a < *b };
    sort_stably(&mut bits, lower, Ghost(|a: u32, b: u32| a < b));
    let port = bind.port;
    let ghost sorted = bits@;
    let mut i: usize = 0;
    assert(addrs@ =~= unrepeated(sorted.take(0)).map_values(|bits: u32| at_v4(bits, port)));
    while i < bits.len()
        invariant
            i <= bits@.len(),
            sorted == bits@,
            addrs@ == unrepeated(sorted.take(i as int)).map_values(
                |bits: u32| at_v4(bits, port),
            ),
        decreases bits@.len() - i,
    {
        assert(sorted.take(i + 1).drop_last() =~= sorted.take(i as int));
        let ghost before = unrepeated(sorted.take(i as int));
        if i == 0 || bits[i - 1] != bits[i] {
            let address = SocketAddr {
                ip: IpAddr::V4(bits[i]),
                port,
                flowinfo: 0,
                scope_id: 0,
            };
            addrs.push(address);
            assert(addrs@ =~= before.push(sorted[i as int]).map_values(
                |bits: u32| at_v4(bits, port),
            ));
        }
        i = i + 1;
    }
    assert(sorted.take(i as int) =~= sorted);
    assert(addrs@ =~= reachable(bind, interfaces@));
    addrs
}

/// The counts of a pass over the library.
#[derive(Clone, Copy, Debug, PartialEq, Eq, Structural)]
pub struct IndexStats {
    pub discovered: usize,
    pub failed: usize,
    pub revision: u64,
}

/// How many of the files could be read.
pub open spec fn readable(tracks: Seq<ScannedTrack>) -> int
    decreases tracks.len(),
{
    if tracks.len() == 0 {
        0
    } else {
        readable(tracks.drop_last()) + if tracks.last().scan_error is None {
            1int
        } else {
            0
        }
    }
}

/// Counts the files of a pass over the library.
pub fn index_roots(tracks: &Vec<ScannedTrack>, revision: u64) -> (stats: IndexStats)
    ensures
        stats.discovered == readable(tracks@),
        stats.discovered + stats.failed == tracks@.len(),
        stats.revision == revision,
{
    let mut discovered: usize = 0;
    let mut failed: usize = 0;
    let mut i: usize = 0;
    while i < tracks.len()
        invariant
            i <= tracks@.len(),
            discovered == readable(tracks@.take(i as int)),
            discovered + failed == i,
        decreases tracks@.len() - i,
    {
        assert(tracks@.take(i + 1).drop_last() =~= tracks@.take(i as int));
        match &tracks[i].scan_error {
            Some(_) => {
                failed = failed + 1;
            },
            None => {
                discovered = discovered + 1;
            },
        }
        i = i + 1;
    }
    assert(tracks@.take(i as int) =~= tracks@);
    IndexStats { discovered, failed, revision }
}

pub open spec fn index_text(stats: IndexStats) -> Seq<char> {
    "Indexed "@ + decimal(stats.discovered as nat) + " tracks ("@ + decimal(stats.failed as nat)
        + " unreadable). Library revision "@ + decimal(stats.revision as nat) + "."@
}

impl IndexStats {
    /// What is said of a pass over the library.
    pub fn summary(&self) -> (text: String)
        ensures
            text@ == index_text(*self),
    {
        let mut text = "Indexed ".to_owned();
        append_decimal(&mut text, self.discovered as u64);
        text.append(" tracks (");
        append_decimal(&mut text, self.failed as u64);
        text.append(" unreadable). Library revision ");
        append_decimal(&mut text, self.revision);
        text.append(".");
        text
    }
}

/// The folders that a server shares: those it was given, or those it shared before.
pub fn serve_roots(given: Vec<String>, saved: Vec<String>) -> (roots: Result<Vec<String>, String>)
    ensures
        match roots {
            Ok(roots) => roots == (if given@.len() > 0 {
                given
            } else {
                saved
            }) && roots@.len() > 0,
            Err(error) => given@.len() == 0 && saved@.len() == 0 && error@
                == "staccato serve requires at least one music folder"@,
        },
{
    if given.len() > 0 {
        Ok(given)
    } else if saved.len() > 0 {
        Ok(saved)
    } else {
        Err("staccato serve requires at least one music folder".to_owned())
    }
}

/// The name of a server that was given none.
pub fn default_server_name(host: Option<String>) -> (name: String)
    ensures
        name@ == match opt_view(host) {
            Some(host) => if host.len() > 0 {
                "Staccato on "@ + host
            } else {
                "Staccato"@
            },
            None => "Staccato"@,
        },
{
    if let Some(host) = host {
        if !host.as_str().is_empty() {
            let mut name = "Staccato on ".to_owned();
            name.append(&host);
            return name;
        }
    }
    "Staccato".to_owned()
}

} // verus!
