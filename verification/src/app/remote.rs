//! The connection to a library server.

use vstd::prelude::*;
use vstd::string::*;

use crate::app::advance::{lemma_played_keeps_wf, queue_cursor};
use crate::app::flow::{
    failed_with, Ask, CatalogWork, Effect, EffectView, Flow, Next, RemoteEvent,
};
use crate::app::playback::{result_view, PlayOrigin};
use crate::app::state::{App, AppView, LinkView, ListsView, Shelf, ShelfView, TransportView};
use crate::audio::{refusal_of, AudioEngine};
use crate::keys::{ids_in_order, lists_ids, track_keys, tracks_in_order};
use crate::model::{Playlist, Track, TrackId, TrackOrigin};
use crate::net::addr::{dialled, normalize_server_addr, DiscoveredServer, SocketAddr};
use crate::net::credentials::{load_for_address, save_credentials, SavedRemote, SavedRemoteView};
use crate::net::protocol::CatalogTrack;
use crate::order::{clone_ids, holds_text, lemma_filter_take, views};
use crate::overlay::{Overlay, OverlayView};
use crate::soulseek::opt_view;
use crate::text::{append_decimal, chars_of, decimal, same_text, stands_at, trim, trimmed};
use crate::tree::derefs;

verus! {

broadcast use vstd::std_specs::btree::group_btree_axioms;

/// Whether a track is the server's with this identifier.
pub open spec fn is_remote_id(track: Track, remote_id: Seq<char>) -> bool {
    match track.origin {
        TrackOrigin::Remote { remote_id: id, .. } => id@ == remote_id,
        TrackOrigin::Local => false,
    }
}

/// Whether a track of this server is among those that are gone.
pub open spec fn is_gone(track: Track, fingerprint: Seq<char>, gone: Seq<Seq<char>>) -> bool {
    match track.origin {
        TrackOrigin::Remote { fingerprint: fp, remote_id, .. } => fp@ == fingerprint
            && gone.contains(remote_id@),
        TrackOrigin::Local => false,
    }
}

/// Whether a track of this server is missing from a catalog.
pub open spec fn is_missing(track: Track, fingerprint: Seq<char>, listed: Seq<Seq<char>>) -> bool {
    match track.origin {
        TrackOrigin::Remote { fingerprint: fp, remote_id, .. } => fp@ == fingerprint
            && !listed.contains(remote_id@),
        TrackOrigin::Local => false,
    }
}

/// The identifier that a server knows a track by.
pub open spec fn remote_id_of(track: Track) -> Seq<char> {
    match track.origin {
        TrackOrigin::Remote { remote_id, .. } => remote_id@,
        TrackOrigin::Local => Seq::empty(),
    }
}

pub open spec fn catalog_ids(tracks: Seq<CatalogTrack>) -> Seq<Seq<char>> {
    tracks.map_values(|track: CatalogTrack| track.remote_id@)
}

/// Whether `text` begins with `head`.
pub open spec fn begins_with(text: Seq<char>, head: Seq<char>) -> bool {
    text.len() >= head.len() && text.take(head.len() as int) == head
}

impl ShelfView {
    /// What a catalog takes out of the library: what it says is gone, and with `replace`
    /// every track of the server that it does not list.
    pub open spec fn gone_tracks(
        self,
        fingerprint: Seq<char>,
        listed: Seq<Seq<char>>,
        removed: Seq<Seq<char>>,
        replace: bool,
    ) -> Seq<Seq<char>> {
        if replace {
            removed + tracks_in_order(self.tracks).filter(
                |track: Track| is_missing(track, fingerprint, listed),
            ).map_values(|track: Track| remote_id_of(track))
        } else {
            removed
        }
    }

    /// The identifiers of the tracks that are gone.
    pub open spec fn gone_ids(self, fingerprint: Seq<char>, gone: Seq<Seq<char>>) -> Seq<TrackId> {
        ids_in_order(self.tracks.dom()).filter(
            |id: TrackId| is_gone(self.tracks[id], fingerprint, gone),
        )
    }

    /// The library without the tracks that are gone.
    pub open spec fn without_gone(self, fingerprint: Seq<char>, gone: Seq<Seq<char>>) -> ShelfView {
        ShelfView {
            tracks: self.tracks.remove_keys(
                Set::new(
                    |id: TrackId|
                        self.tracks.contains_key(id) && is_gone(
                            self.tracks[id],
                            fingerprint,
                            gone,
                        ),
                ),
            ),
            ..self
        }
    }

    /// The number of tracks that come from a server.
    pub open spec fn remote_count(self) -> nat {
        tracks_in_order(self.tracks).filter(|track: Track| track.origin is Remote).len()
    }

    /// The first track, by rising identifier, that a server knows by this identifier.
    pub open spec fn first_remote(self, remote_id: Seq<char>) -> Option<Track> {
        let found = tracks_in_order(self.tracks).filter(
            |track: Track| is_remote_id(track, remote_id),
        );
        if found.len() == 0 {
            None
        } else {
            Some(found[0])
        }
    }
}

pub open spec fn text_or(text: Option<Seq<char>>, or: Seq<char>) -> Seq<char> {
    match text {
        Some(text) => text,
        None => or,
    }
}

impl AppView {
    pub open spec fn with_link(self, link: LinkView) -> AppView {
        AppView { link, ..self }
    }

    pub open spec fn connect_begun(self) -> AppView {
        self.told(EffectView::Browse).showing(
            OverlayView::Connect { text: Seq::empty(), discovered: Seq::empty() },
        )
    }

    pub open spec fn servers_found(self, servers: Seq<DiscoveredServer>) -> AppView {
        match self.front.overlay {
            OverlayView::Connect { text, .. } => self.showing(
                OverlayView::Connect { text, discovered: servers },
            ),
            _ => self,
        }
    }

    pub open spec fn remote_asked(flow: Flow, address: SocketAddr) -> bool {
        flow matches Flow::Ask(
            Ask::LoadRemote { address: asked },
            Next::RemoteLoaded { address: kept },
        ) && asked == address && kept == address
    }

    /// The server that was typed, or else the first one that was found, dialled.
    pub open spec fn connect_asked(self, post: AppView, flow: Flow) -> bool {
        &&& post == self
        &&& match self.front.overlay {
            OverlayView::Connect { text, discovered } => if trimmed(text).len() == 0 {
                if discovered.len() == 0 {
                    failed_with(flow, "type host:port or wait for a LAN server"@)
                } else {
                    AppView::remote_asked(flow, discovered[0].address)
                }
            } else {
                flow matches Flow::Ask(
                    Ask::ResolveEndpoint { endpoint },
                    Next::EndpointResolved,
                ) && endpoint@ == trimmed(text)
            },
            _ => flow is Done,
        }
    }

    pub open spec fn after_endpoint(
        self,
        found: Result<SocketAddr, Seq<char>>,
        post: AppView,
        flow: Flow,
    ) -> bool {
        &&& post == self
        &&& match found {
            Err(error) => failed_with(flow, error),
            Ok(address) => AppView::remote_asked(flow, dialled(address)),
        }
    }

    /// A server dialled with what is remembered of it.
    pub open spec fn connected_to(
        self,
        address: SocketAddr,
        text: Seq<char>,
        saved: Option<SavedRemoteView>,
    ) -> AppView {
        let known = saved is Some && saved->0.address == text;
        self.with_link(LinkView { remote: true, ..self.link }).told(
            EffectView::Connect {
                address,
                token: if known {
                    Some(saved->0.token)
                } else {
                    None
                },
                pin: if known && saved->0.fingerprint.len() > 0 {
                    Some(saved->0.fingerprint)
                } else {
                    None
                },
            },
        ).said("Connecting to "@ + text + "…"@)
    }

    pub open spec fn pair_submitted(self) -> AppView {
        match self.front.overlay {
            OverlayView::Pair { text } => if self.link.remote {
                self.told(EffectView::Pair(trimmed(text))).said("Sending pairing code…"@)
            } else {
                self
            },
            _ => self,
        }
    }

    pub open spec fn disconnected(self) -> AppView {
        let told = if self.link.remote {
            self.told(EffectView::Disconnect)
        } else {
            self
        };
        AppView {
            link: LinkView { remote: false, ..self.link },
            transport: TransportView { pending_play: None, ..self.transport },
            ..told
        }.said("Disconnected from server"@)
    }

    pub open spec fn paired(self) -> AppView {
        self.showing(OverlayView::Closed).said("Paired with server"@)
    }

    /// What follows once it is known which server is remembered.
    pub open spec fn after_paired_address(
        self,
        saved: Option<SavedRemoteView>,
        token: Seq<char>,
        fingerprint: Seq<char>,
        post: AppView,
        flow: Flow,
    ) -> bool {
        match saved {
            None => post == self.paired() && flow is Done,
            Some(saved) => {
                &&& post == self
                &&& flow matches Flow::Ask(Ask::SaveRemote(asked), Next::PairedSaved) && asked@
                    == (SavedRemoteView {
                    address: saved.address,
                    fingerprint,
                    token,
                    server_name: text_or(self.link.remote_name, "Staccato"@),
                })
            },
        }
    }

    /// A catalog to take over: the store forgets first what is gone.
    pub open spec fn catalog_begun(
        self,
        revision: u64,
        tracks: Seq<CatalogTrack>,
        removed: Seq<Seq<char>>,
        replace: bool,
        post: AppView,
        flow: Flow,
    ) -> bool {
        let fingerprint = text_or(self.link.remote_fingerprint, Seq::empty());
        let gone = self.shelf.gone_tracks(fingerprint, catalog_ids(tracks), removed, replace);
        &&& post == self.with_link(LinkView { remote_revision: Some(revision), ..self.link })
        &&& flow matches Flow::Ask(
            Ask::RemoveRemoteTracks { fingerprint: fp, remote_ids },
            Next::CatalogRemoved(work),
        ) && fp@ == fingerprint && views(remote_ids@) == gone && work.revision == revision
            && work.fingerprint@ == fingerprint && work.server_name@ == text_or(
            self.link.remote_name,
            "Server"@,
        ) && views(work.gone@) == gone && work.removed_ids@ == self.shelf.gone_ids(
            fingerprint,
            gone,
        ) && work.tracks@ == tracks
    }

    /// The playlists from the `i`-th on cleared of what is gone: the next one that held
    /// such a track is stored, and when there is none left the tracks follow.
    pub open spec fn catalog_playlists(
        self,
        work: CatalogWork,
        i: int,
        post: AppView,
        flow: Flow,
    ) -> bool
        decreases self.shelf.playlists.len() - i,
    {
        if i < 0 || i >= self.shelf.playlists.len() {
            AppView {
                shelf: self.shelf.without_gone(work.fingerprint@, views(work.gone@)),
                ..self
            }.catalog_tracks(work, 0, post, flow)
        } else {
            let playlist = self.shelf.playlists[i];
            let items = playlist.items.filter(|id: TrackId| !work.removed_ids@.contains(id));
            if items.len() == playlist.items.len() {
                self.catalog_playlists(work, i + 1, post, flow)
            } else {
                &&& post == (AppView { shelf: self.shelf.with_items(i, items), ..self })
                &&& flow matches Flow::Ask(
                    Ask::SaveItems { playlist: id, items: stored },
                    Next::CatalogItemsSaved { work: kept, next },
                ) && id == playlist.id && stored@ == items && kept == work && next == i + 1
            }
        }
    }

    /// The catalog's tracks from the `k`-th on: the next one is stored, and when there is
    /// none left the catalog is taken over.
    pub open spec fn catalog_tracks(
        self,
        work: CatalogWork,
        k: int,
        post: AppView,
        flow: Flow,
    ) -> bool {
        if k < 0 || k >= work.tracks@.len() {
            &&& flow is Done
            &&& post == self.with_lists(
                ListsView {
                    playlist_selection: queue_cursor(
                        self.lists.playlist_selection,
                        self.shelf.active().items.len() as int,
                    ),
                    ..self.lists
                },
            ).said(
                "Streaming from "@ + work.server_name@ + " — "@ + decimal(
                    self.shelf.remote_count(),
                ) + " remote tracks (rev "@ + decimal(work.revision as nat) + ")"@,
            )
        } else {
            &&& post == self
            &&& flow matches Flow::Ask(
                Ask::UpsertRemoteTrack { fingerprint, server_name, track },
                Next::CatalogTrackStored { work: kept, next },
            ) && fingerprint@ == work.fingerprint@ && server_name@ == work.server_name@ && track
                == work.tracks@[k] && kept == work && next == k + 1
        }
    }

    /// What follows once the store has done its part for a playlist or at the beginning.
    pub open spec fn after_catalog_step(
        self,
        stored: Result<(), Seq<char>>,
        work: CatalogWork,
        next: int,
        post: AppView,
        flow: Flow,
    ) -> bool {
        match stored {
            Err(error) => post == self && failed_with(flow, error),
            Ok(()) => self.catalog_playlists(work, next, post, flow),
        }
    }

    pub open spec fn after_catalog_track(
        self,
        stored: Result<Track, Seq<char>>,
        work: CatalogWork,
        next: int,
        post: AppView,
        flow: Flow,
    ) -> bool {
        match stored {
            Err(error) => post == self && failed_with(flow, error),
            Ok(track) => self.with_track(track).catalog_tracks(work, next, post, flow),
        }
    }

    /// What was waited for, now that a track of the server is here.
    pub open spec fn ready_origin(self, remote_id: Seq<char>) -> Option<PlayOrigin> {
        let waited = match self.transport.pending_track {
            Some(id) => match self.shelf.track(id) {
                Some(track) => is_remote_id(track, remote_id),
                None => false,
            },
            None => false,
        };
        if waited {
            Some(PlayOrigin::Track(self.transport.pending_track->0))
        } else {
            match self.transport.pending_play {
                Some((playlist_index, item_index)) => match self.shelf.target(
                    PlayOrigin::Playlist { playlist_index, item_index },
                ) {
                    Ok((track, _)) => if is_remote_id(track, remote_id) {
                        Some(PlayOrigin::Playlist { playlist_index, item_index })
                    } else {
                        None
                    },
                    Err(_) => None,
                },
                None => None,
            }
        }
    }

    /// Something played, and whether it went well.
    pub open spec fn plays(self, origin: PlayOrigin, post: AppView, flow: Flow) -> bool {
        exists|refusal: Option<Seq<char>>|
            match #[trigger] self.played(origin, refusal) {
                (after, Ok(())) => post == after && flow is Done,
                (after, Err(error)) => post == after && failed_with(flow, error),
            }
    }

    /// A track that was waited for is here: it is played.
    pub open spec fn media_ready(self, remote_id: Seq<char>, post: AppView, flow: Flow) -> bool {
        match self.ready_origin(remote_id) {
            None => post == self && flow is Done,
            Some(origin) => self.plays(origin, post, flow),
        }
    }

    /// What follows an event of the connection.
    pub open spec fn remote_followed(self, event: RemoteEvent, post: AppView, flow: Flow) -> bool {
        match event {
            RemoteEvent::Connected { server_name, fingerprint, revision, pair_required } => {
                let linked = self.with_link(
                    LinkView {
                        remote_name: Some(server_name@),
                        remote_fingerprint: Some(fingerprint@),
                        remote_revision: Some(revision),
                        ..self.link
                    },
                );
                &&& flow is Done
                &&& post == if pair_required {
                    linked.showing(OverlayView::Pair { text: Seq::empty() }).said(
                        server_name@ + " requires pairing"@,
                    )
                } else {
                    linked.showing(OverlayView::Closed).said("Connected to "@ + server_name@)
                }
            },
            RemoteEvent::Paired { token, fingerprint } => {
                &&& post == self.with_link(
                    LinkView { remote_fingerprint: Some(fingerprint@), ..self.link },
                )
                &&& flow matches Flow::Ask(
                    Ask::LoadSavedRemote,
                    Next::PairedAddress { token: t, fingerprint: f },
                ) && t@ == token@ && f@ == fingerprint@
            },
            RemoteEvent::Catalog { revision, tracks, removed, replace } => self.catalog_begun(
                revision,
                tracks@,
                views(removed@),
                replace,
                post,
                flow,
            ),
            RemoteEvent::Cover { remote_id, data } => {
                &&& flow is Done
                &&& post == match (data, self.shelf.first_remote(remote_id@)) {
                    (Some(bytes), Some(track)) => self.told(
                        EffectView::SaveCover {
                            fingerprint: match track.origin {
                                TrackOrigin::Remote { fingerprint, .. } => fingerprint@,
                                TrackOrigin::Local => Seq::empty(),
                            },
                            artist: track.artist@,
                            album: track.album@,
                            data: bytes@,
                        },
                    ),
                    _ => self,
                }
            },
            RemoteEvent::MediaReady { remote_id } => self.media_ready(remote_id@, post, flow),
            RemoteEvent::Error(message) => flow is Done && post == self.said(
                "Remote error: "@ + message@,
            ),
            RemoteEvent::Disconnected => {
                let cut = self.with_link(LinkView { remote: false, ..self.link });
                &&& flow is Done
                &&& post == if begins_with(self.front.status, "Disconnected"@) {
                    cut
                } else {
                    cut.said("Disconnected from server"@)
                }
            },
            RemoteEvent::Discovered(_) => post == self && flow is Done,
        }
    }
}

fn text_begins_with(text: &str, head: &str) -> (begins: bool)
    ensures
        begins == begins_with(text@, head@),
{
    let chars = chars_of(text);
    let wanted = chars_of(head);
    let begins = stands_at(&wanted, &chars, 0);
    assert(text@.len() >= head@.len() ==> text@.take(head@.len() as int) =~= text@.subrange(
        0,
        0 + head@.len() as int,
    ));
    begins
}

fn text_or_else(text: &Option<String>, or: &str) -> (value: String)
    ensures
        value@ == text_or(opt_view(*text), or@),
{
    match text {
        Some(text) => text.clone(),
        None => or.to_owned(),
    }
}

fn track_is_gone(track: &Track, fingerprint: &str, gone: &Vec<String>) -> (is: bool)
    ensures
        is == is_gone(*track, fingerprint@, views(gone@)),
{
    match &track.origin {
        TrackOrigin::Remote { fingerprint: fp, remote_id, .. } => same_text(fp, fingerprint)
            && holds_text(gone, remote_id),
        TrackOrigin::Local => false,
    }
}

fn track_is_remote(track: &Track, remote_id: &str) -> (is: bool)
    ensures
        is == is_remote_id(*track, remote_id@),
{
    match &track.origin {
        TrackOrigin::Remote { remote_id: id, .. } => same_text(id, remote_id),
        TrackOrigin::Local => false,
    }
}

impl Shelf {
    fn gone_tracks(
        &self,
        fingerprint: &str,
        tracks: &Vec<CatalogTrack>,
        removed: Vec<String>,
        replace: bool,
    ) -> (gone: Vec<String>)
        ensures
            views(gone@) == self@.gone_tracks(
                fingerprint@,
                catalog_ids(tracks@),
                views(removed@),
                replace,
            ),
    {
        if !replace {
            return removed;
        }
        let ghost listed = catalog_ids(tracks@);
        let mut ids: Vec<String> = Vec::new();
        let mut i: usize = 0;
        while i < tracks.len()
            invariant
                i <= tracks@.len(),
                listed == catalog_ids(tracks@),
                views(ids@) == listed.take(i as int),
            decreases tracks@.len() - i,
        {
            let ghost before = views(ids@);
            ids.push(tracks[i].remote_id.clone());
            assert(views(ids@) =~= before.push(listed[i as int]));
            i = i + 1;
            assert(views(ids@) =~= listed.take(i as int));
        }
        assert(listed.take(i as int) =~= listed);
        let ghost p = |track: Track| is_missing(track, fingerprint@, listed);
        let ghost f = |track: Track| remote_id_of(track);
        let all = self.all_tracks();
        let ghost every = tracks_in_order(self@.tracks);
        let ghost head = views(removed@);
        let mut gone = removed;
        let mut k: usize = 0;
        proof {
            reveal(Seq::filter);
        }
        assert(views(gone@) =~= head + every.take(0).filter(p).map_values(f));
        while k < all.len()
            invariant
                k <= all@.len(),
                views(ids@) == listed,
                every == derefs(all@),
                p == (|track: Track| is_missing(track, fingerprint@, listed)),
                f == (|track: Track| remote_id_of(track)),
                views(gone@) == head + every.take(k as int).filter(p).map_values(f),
            decreases all@.len() - k,
        {
            proof {
                lemma_filter_take(every, p, k as int);
            }
            assert(every[k as int] == *all@[k as int]);
            let ghost before = views(gone@);
            if let TrackOrigin::Remote { fingerprint: fp, remote_id, .. } = &all[k].origin {
                if same_text(fp, fingerprint) && !holds_text(&ids, remote_id) {
                    gone.push(remote_id.clone());
                    assert(views(gone@) =~= before.push(f(every[k as int])));
                }
            }
            k = k + 1;
            assert(views(gone@) =~= head + every.take(k as int).filter(p).map_values(f));
        }
        assert(every.take(k as int) =~= every);
        gone
    }

    fn gone_ids(&self, fingerprint: &str, gone: &Vec<String>) -> (ids: Vec<TrackId>)
        ensures
            ids@ == self@.gone_ids(fingerprint@, views(gone@)),
            forall|id: TrackId|
                #![trigger ids@.contains(id)]
                ids@.contains(id) <==> (self@.tracks.contains_key(id) && is_gone(
                    self@.tracks[id],
                    fingerprint@,
                    views(gone@),
                )),
    {
        let keys = track_keys(&self.tracks);
        let ghost p = |id: TrackId| is_gone(self@.tracks[id], fingerprint@, views(gone@));
        let mut ids: Vec<TrackId> = Vec::new();
        let mut i: usize = 0;
        proof {
            reveal(Seq::filter);
        }
        assert(ids@ =~= keys@.take(0).filter(p));
        while i < keys.len()
            invariant
                i <= keys@.len(),
                lists_ids(keys@, self.tracks@.dom()),
                p == (|id: TrackId| is_gone(self@.tracks[id], fingerprint@, views(gone@))),
                ids@ == keys@.take(i as int).filter(p),
            decreases keys@.len() - i,
        {
            proof {
                lemma_filter_take(keys@, p, i as int);
                assert(keys@.to_set().contains(keys@[i as int]));
            }
            if let Some(track) = self.tracks.get(&keys[i]) {
                if track_is_gone(track, fingerprint, gone) {
                    ids.push(keys[i]);
                }
            }
            i = i + 1;
        }
        assert(keys@.take(i as int) =~= keys@);
        proof {
            crate::order::lemma_filter_members(keys@, p);
            assert forall|id: TrackId|
                #![trigger ids@.contains(id)]
                ids@.contains(id) <==> (self@.tracks.contains_key(id) && is_gone(
                    self@.tracks[id],
                    fingerprint@,
                    views(gone@),
                )) by {
                assert(keys@.to_set().contains(id) <==> self.tracks@.dom().contains(id));
            }
        }
        ids
    }

    /// Takes the tracks that are gone out of the library.
    fn drop_gone(&mut self, fingerprint: &str, gone: &Vec<String>)
        ensures
            final(self)@ == old(self)@.without_gone(fingerprint@, views(gone@)),
    {
        let ids = self.gone_ids(fingerprint, gone);
        let ghost start = self@;
        let mut i: usize = 0;
        assert(self@.tracks =~= start.tracks.remove_keys(ids@.take(0).to_set()));
        while i < ids.len()
            invariant
                i <= ids@.len(),
                self@ == (ShelfView {
                    tracks: start.tracks.remove_keys(ids@.take(i as int).to_set()),
                    ..start
                }),
            decreases ids@.len() - i,
        {
            let ghost before = self@;
            self.tracks.remove(&ids[i]);
            proof {
                let head = ids@.take(i as int);
                let more = ids@.take(i + 1);
                assert(more =~= head.push(ids@[i as int]));
                assert forall|id: TrackId| more.to_set().contains(id) <==> (head.to_set().contains(
                    id,
                ) || id == ids@[i as int]) by {
                    crate::order::lemma_push_contains(head, ids@[i as int], id);
                }
                assert(self@.tracks =~= start.tracks.remove_keys(more.to_set()));
            }
            i = i + 1;
        }
        assert(ids@.take(i as int) =~= ids@);
        assert(self@.tracks =~= start.without_gone(fingerprint@, views(gone@)).tracks);
    }

    fn remote_count(&self) -> (count: usize)
        ensures
            count == self@.remote_count(),
    {
        let all = self.all_tracks();
        let ghost every = tracks_in_order(self@.tracks);
        let ghost p = |track: Track| track.origin is Remote;
        let mut count: usize = 0;
        let mut i: usize = 0;
        proof {
            reveal(Seq::filter);
        }
        assert(every.take(0).filter(p).len() == 0);
        while i < all.len()
            invariant
                i <= all@.len(),
                every == derefs(all@),
                p == (|track: Track| track.origin is Remote),
                count == every.take(i as int).filter(p).len(),
                count <= i,
            decreases all@.len() - i,
        {
            proof {
                lemma_filter_take(every, p, i as int);
            }
            assert(every[i as int] == *all@[i as int]);
            if all[i].origin.is_remote() {
                count = count + 1;
            }
            i = i + 1;
        }
        assert(every.take(i as int) =~= every);
        count
    }

    fn first_remote(&self, remote_id: &str) -> (track: Option<&Track>)
        ensures
            match track {
                Some(track) => self@.first_remote(remote_id@) == Some(*track),
                None => self@.first_remote(remote_id@) is None,
            },
    {
        let all = self.all_tracks();
        let ghost every = tracks_in_order(self@.tracks);
        let ghost p = |track: Track| is_remote_id(track, remote_id@);
        let mut i: usize = 0;
        proof {
            reveal(Seq::filter);
        }
        assert(every.take(0).filter(p).len() == 0);
        while i < all.len()
            invariant
                i <= all@.len(),
                every == derefs(all@),
                every == tracks_in_order(self@.tracks),
                p == (|track: Track| is_remote_id(track, remote_id@)),
                every.take(i as int).filter(p).len() == 0,
            decreases all@.len() - i,
        {
            proof {
                lemma_filter_take(every, p, i as int);
            }
            assert(every[i as int] == *all@[i as int]);
            if track_is_remote(all[i], remote_id) {
                proof {
                    let head = every.take(i + 1);
                    let tail = every.skip(i + 1);
                    assert(every =~= head + tail);
                    crate::order::lemma_filter_concat(head, tail, p);
                    assert(every.take(i as int).filter(p) =~= Seq::empty());
                    assert(head.filter(p)[0] == every[i as int]);
                    assert(every.filter(p)[0] == every[i as int]);
                }
                return Some(all[i]);
            }
            i = i + 1;
        }
        assert(every.take(i as int) =~= every);
        None
    }
}

/// The items that are not among some identifiers.
fn items_without(items: &Vec<TrackId>, gone: &Vec<TrackId>) -> (kept: Vec<TrackId>)
    ensures
        kept@ == items@.filter(|id: TrackId| !gone@.contains(id)),
{
    let ghost p = |id: TrackId| !gone@.contains(id);
    let mut kept: Vec<TrackId> = Vec::new();
    let mut i: usize = 0;
    proof {
        reveal(Seq::filter);
    }
    assert(kept@ =~= items@.take(0).filter(p));
    while i < items.len()
        invariant
            i <= items@.len(),
            p == (|id: TrackId| !gone@.contains(id)),
            kept@ == items@.take(i as int).filter(p),
        decreases items@.len() - i,
    {
        proof {
            lemma_filter_take(items@, p, i as int);
        }
        if !crate::app::browse::holds_id(gone, items[i]) {
            kept.push(items[i]);
        }
        i = i + 1;
    }
    assert(items@.take(i as int) =~= items@);
    kept
}

impl<E: AudioEngine> App<E> {
    pub fn begin_connect(&mut self)
        ensures
            final(self)@ == old(self)@.connect_begun(),
    {
        self.outbox.tell(Effect::Browse);
        let overlay = Overlay::Connect { text: String::new(), discovered: Vec::new() };
        assert(overlay@ == (OverlayView::Connect {
            text: Seq::empty(),
            discovered: Seq::empty(),
        }));
        self.front.overlay = overlay;
    }

    /// Shows the servers that were found.
    pub fn servers_discovered(&mut self, servers: Vec<DiscoveredServer>)
        ensures
            final(self)@ == old(self)@.servers_found(servers@),
    {
        if let Overlay::Connect { discovered, .. } = &mut self.front.overlay {
            *discovered = servers;
        }
    }

    /// Dials the server that was typed, or else the first one that was found.
    pub fn submit_connect(&self) -> (flow: Flow)
        ensures
            self@.connect_asked(self@, flow),
    {
        match &self.front.overlay {
            Overlay::Connect { text, discovered } => {
                let endpoint = trim(text);
                if endpoint.as_str().is_empty() {
                    if discovered.len() == 0 {
                        return Flow::Failed("type host:port or wait for a LAN server".to_owned());
                    }
                    let address = discovered[0].address;
                    return Flow::Ask(
                        Ask::LoadRemote { address },
                        Next::RemoteLoaded { address },
                    );
                }
                Flow::Ask(Ask::ResolveEndpoint { endpoint }, Next::EndpointResolved)
            },
            _ => Flow::Done,
        }
    }

    /// Goes on with the address of the server.
    pub fn endpoint_resolved(&self, found: Result<SocketAddr, String>) -> (flow: Flow)
        ensures
            self@.after_endpoint(
                match found {
                    Ok(address) => Ok(address),
                    Err(error) => Err(error@),
                },
                self@,
                flow,
            ),
    {
        match found {
            Err(error) => Flow::Failed(error),
            Ok(address) => {
                let address = normalize_server_addr(address);
                Flow::Ask(Ask::LoadRemote { address }, Next::RemoteLoaded { address })
            },
        }
    }

    /// Dials a server with what is remembered of it.
    pub fn remote_loaded(
        &mut self,
        address: SocketAddr,
        text: String,
        saved: Option<SavedRemote>,
    ) -> (flow: Flow)
        ensures
            final(self)@ == old(self)@.connected_to(
                address,
                text@,
                match saved {
                    Some(saved) => Some(saved@),
                    None => None,
                },
            ),
            flow matches Flow::Ask(Ask::SaveAddress { address: asked }, Next::Finish) && asked@
                == text@,
    {
        let known = load_for_address(saved, &text);
        let (token, pin): (Option<String>, Option<String>) = match known {
            Some(saved) => {
                let pin = if saved.fingerprint.as_str().is_empty() {
                    None
                } else {
                    Some(saved.fingerprint)
                };
                (Some(saved.token), pin)
            },
            None => (None, None),
        };
        self.link.remote = true;
        self.outbox.tell(Effect::Connect { address, token, pin });
        let mut status = "Connecting to ".to_owned();
        status.append(&text);
        status.append("…");
        self.say(status);
        Flow::Ask(Ask::SaveAddress { address: text }, Next::Finish)
    }

    pub fn submit_pair(&mut self)
        ensures
            final(self)@ == old(self)@.pair_submitted(),
    {
        let code = match &self.front.overlay {
            Overlay::Pair { text } => trim(text),
            _ => {
                return;
            },
        };
        if self.link.remote {
            self.outbox.tell(Effect::Pair(code));
            self.say("Sending pairing code…".to_owned());
        }
    }

    pub fn disconnect_remote(&mut self)
        ensures
            final(self)@ == old(self)@.disconnected(),
    {
        if self.link.remote {
            self.outbox.tell(Effect::Disconnect);
        }
        self.link.remote = false;
        self.transport.pending_play = None;
        self.say("Disconnected from server".to_owned());
    }

    fn finish_pairing(&mut self)
        ensures
            final(self)@ == old(self)@.paired(),
    {
        self.front.overlay = Overlay::Closed;
        self.say("Paired with server".to_owned());
    }

    /// Goes on once it is known which server is remembered.
    pub fn paired_address(
        &mut self,
        saved: Option<SavedRemote>,
        token: String,
        fingerprint: String,
    ) -> (flow: Flow)
        ensures
            old(self)@.after_paired_address(
                match saved {
                    Some(saved) => Some(saved@),
                    None => None,
                },
                token@,
                fingerprint@,
                final(self)@,
                flow,
            ),
    {
        match saved {
            None => {
                self.finish_pairing();
                Flow::Done
            },
            Some(saved) => {
                let name = text_or_else(&self.link.remote_name, "Staccato");
                let kept = save_credentials(&saved.address, &fingerprint, &token, &name);
                Flow::Ask(Ask::SaveRemote(kept), Next::PairedSaved)
            },
        }
    }

    /// Goes on once a server is remembered.
    pub fn paired_saved(&mut self, stored: Result<(), String>) -> (flow: Flow)
        ensures
            match stored {
                Err(error) => final(self)@ == old(self)@ && failed_with(flow, error@),
                Ok(()) => final(self)@ == old(self)@.paired() && flow is Done,
            },
    {
        if let Err(error) = stored {
            return Flow::Failed(error);
        }
        self.finish_pairing();
        Flow::Done
    }

    fn begin_catalog(
        &mut self,
        revision: u64,
        tracks: Vec<CatalogTrack>,
        removed: Vec<String>,
        replace: bool,
    ) -> (flow: Flow)
        ensures
            old(self)@.catalog_begun(
                revision,
                tracks@,
                views(removed@),
                replace,
                final(self)@,
                flow,
            ),
    {
        let empty = String::new();
        assert(empty@ =~= Seq::empty());
        let fingerprint = text_or_else(&self.link.remote_fingerprint, &empty);
        let server_name = text_or_else(&self.link.remote_name, "Server");
        let gone = self.shelf.gone_tracks(&fingerprint, &tracks, removed, replace);
        let removed_ids = self.shelf.gone_ids(&fingerprint, &gone);
        self.link.remote_revision = Some(revision);
        let remote_ids = crate::order::clone_texts(&gone);
        Flow::Ask(
            Ask::RemoveRemoteTracks { fingerprint: fingerprint.clone(), remote_ids },
            Next::CatalogRemoved(
                CatalogWork { revision, fingerprint, server_name, gone, removed_ids, tracks },
            ),
        )
    }

    fn continue_tracks(&mut self, work: CatalogWork, k: usize) -> (flow: Flow)
        requires
            old(self)@.wf(),
        ensures
            old(self)@.catalog_tracks(work, k as int, final(self)@, flow),
            final(self)@.wf(),
    {
        if k < work.tracks.len() {
            return Flow::Ask(
                Ask::UpsertRemoteTrack {
                    fingerprint: work.fingerprint.clone(),
                    server_name: work.server_name.clone(),
                    track: work.tracks[k].clone(),
                },
                Next::CatalogTrackStored { work, next: k + 1 },
            );
        }
        let mut text = "Streaming from ".to_owned();
        text.append(&work.server_name);
        text.append(" — ");
        append_decimal(&mut text, self.shelf.remote_count() as u64);
        text.append(" remote tracks (rev ");
        append_decimal(&mut text, work.revision);
        text.append(")");
        let len: usize = self.shelf.active().items.len();
        let top: usize = if len == 0 {
            0
        } else {
            len - 1
        };
        if self.lists.playlist_selection > top {
            self.lists.playlist_selection = top;
        }
        self.say(text);
        Flow::Done
    }

    fn continue_playlists(&mut self, work: CatalogWork, from: usize) -> (flow: Flow)
        requires
            old(self)@.wf(),
        ensures
            old(self)@.catalog_playlists(work, from as int, final(self)@, flow),
            final(self)@.wf(),
        decreases old(self)@.shelf.playlists.len() - from,
    {
        if from >= self.shelf.playlists.len() {
            self.shelf.drop_gone(&work.fingerprint, &work.gone);
            return self.continue_tracks(work, 0);
        }
        assert(self@.shelf.playlists[from as int] == self.shelf.playlists@[from as int]@);
        let items = items_without(&self.shelf.playlists[from].items, &work.removed_ids);
        if items.len() == self.shelf.playlists[from].items.len() {
            return self.continue_playlists(work, from + 1);
        }
        let stored = clone_ids(&items);
        let id = self.shelf.playlists[from].id;
        self.shelf.set_items(from, items);
        Flow::Ask(
            Ask::SaveItems { playlist: id, items: stored },
            Next::CatalogItemsSaved { work, next: from + 1 },
        )
    }

    /// Goes on with a catalog once the store has done its part for the playlists before.
    pub fn catalog_step(
        &mut self,
        stored: Result<(), String>,
        work: CatalogWork,
        next: usize,
    ) -> (flow: Flow)
        requires
            old(self)@.wf(),
        ensures
            old(self)@.after_catalog_step(
                result_view(stored),
                work,
                next as int,
                final(self)@,
                flow,
            ),
            final(self)@.wf(),
    {
        if let Err(error) = stored {
            return Flow::Failed(error);
        }
        self.continue_playlists(work, next)
    }

    /// Goes on with a catalog once one of its tracks has been stored.
    pub fn catalog_track_stored(
        &mut self,
        stored: Result<Track, String>,
        work: CatalogWork,
        next: usize,
    ) -> (flow: Flow)
        requires
            old(self)@.wf(),
        ensures
            old(self)@.after_catalog_track(
                match stored {
                    Ok(track) => Ok(track),
                    Err(error) => Err(error@),
                },
                work,
                next as int,
                final(self)@,
                flow,
            ),
            final(self)@.wf(),
    {
        let track = match stored {
            Ok(track) => track,
            Err(error) => {
                return Flow::Failed(error);
            },
        };
        let id: TrackId = track.id;
        self.shelf.tracks.insert(id, track);
        self.continue_tracks(work, next)
    }

    /// What was waited for, now that a track of the server is here.
    fn ready_origin(&self, remote_id: &str) -> (origin: Option<PlayOrigin>)
        ensures
            origin == self@.ready_origin(remote_id@),
    {
        if let Some(id) = self.transport.pending_track {
            if let Some(track) = self.shelf.tracks.get(&id) {
                if track_is_remote(track, remote_id) {
                    return Some(PlayOrigin::Track(id));
                }
            }
        }
        if let Some((playlist_index, item_index)) = self.transport.pending_play {
            if playlist_index < self.shelf.playlists.len() {
                assert(self@.shelf.playlists[playlist_index as int]
                    == self.shelf.playlists@[playlist_index as int]@);
                if item_index < self.shelf.playlists[playlist_index].items.len() {
                    let id: TrackId = self.shelf.playlists[playlist_index].items[item_index];
                    if let Some(track) = self.shelf.tracks.get(&id) {
                        if track_is_remote(track, remote_id) {
                            return Some(PlayOrigin::Playlist { playlist_index, item_index });
                        }
                    }
                }
            }
        }
        None
    }

    fn take_ready(&mut self, remote_id: &str) -> (flow: Flow)
        requires
            old(self)@.wf(),
        ensures
            old(self)@.media_ready(remote_id@, final(self)@, flow),
            final(self)@.wf(),
    {
        let ghost start = self@;
        let origin = match self.ready_origin(remote_id) {
            Some(origin) => origin,
            None => {
                return Flow::Done;
            },
        };
        let result = self.play(origin);
        let ghost refusal = refusal_of(result);
        proof {
            lemma_played_keeps_wf(start, origin, refusal);
            assert((self@, result_view(result)) == start.played(origin, refusal));
        }
        match result {
            Ok(()) => Flow::Done,
            Err(error) => Flow::Failed(error),
        }
    }

    fn take_cover(&mut self, remote_id: &str, data: Option<Vec<u8>>)
        ensures
            final(self)@ == match (data, old(self)@.shelf.first_remote(remote_id@)) {
                (Some(bytes), Some(track)) => old(self)@.told(
                    EffectView::SaveCover {
                        fingerprint: match track.origin {
                            TrackOrigin::Remote { fingerprint, .. } => fingerprint@,
                            TrackOrigin::Local => Seq::empty(),
                        },
                        artist: track.artist@,
                        album: track.album@,
                        data: bytes@,
                    },
                ),
                _ => old(self)@,
            },
    {
        let data = match data {
            Some(data) => data,
            None => {
                return;
            },
        };
        let effect = match self.shelf.first_remote(remote_id) {
            Some(track) => {
                let fingerprint = match &track.origin {
                    TrackOrigin::Remote { fingerprint, .. } => fingerprint.clone(),
                    TrackOrigin::Local => String::new(),
                };
                Effect::SaveCover {
                    fingerprint,
                    artist: track.artist.clone(),
                    album: track.album.clone(),
                    data,
                }
            },
            None => {
                return;
            },
        };
        self.outbox.tell(effect);
    }

    fn take_connection(
        &mut self,
        server_name: String,
        fingerprint: String,
        revision: u64,
        pair_required: bool,
    )
        ensures
            old(self)@.remote_followed(
                RemoteEvent::Connected { server_name, fingerprint, revision, pair_required },
                final(self)@,
                Flow::Done,
            ),
            final(self)@.shelf == old(self)@.shelf,
            final(self)@.transport == old(self)@.transport,
    {
        let status = if pair_required {
            let mut text = server_name.clone();
            text.append(" requires pairing");
            text
        } else {
            let mut text = "Connected to ".to_owned();
            text.append(&server_name);
            text
        };
        self.link.remote_name = Some(server_name);
        self.link.remote_fingerprint = Some(fingerprint);
        self.link.remote_revision = Some(revision);
        let overlay = if pair_required {
            Overlay::Pair { text: String::new() }
        } else {
            Overlay::Closed
        };
        assert(pair_required ==> overlay@ == (OverlayView::Pair { text: Seq::empty() }));
        self.front.overlay = overlay;
        self.say(status);
    }

    fn lose_connection(&mut self)
        ensures
            old(self)@.remote_followed(RemoteEvent::Disconnected, final(self)@, Flow::Done),
            final(self)@.shelf == old(self)@.shelf,
            final(self)@.transport == old(self)@.transport,
    {
        self.link.remote = false;
        if !text_begins_with(&self.front.status, "Disconnected") {
            self.say("Disconnected from server".to_owned());
        }
    }

    /// Follows an event of the connection.
    pub fn handle_remote_event(&mut self, event: RemoteEvent) -> (flow: Flow)
        requires
            old(self)@.wf(),
        ensures
            old(self)@.remote_followed(event, final(self)@, flow),
            final(self)@.wf(),
    {
        match event {
            RemoteEvent::Connected { server_name, fingerprint, revision, pair_required } => {
                self.take_connection(server_name, fingerprint, revision, pair_required);
                Flow::Done
            },
            RemoteEvent::Paired { token, fingerprint } => {
                self.link.remote_fingerprint = Some(fingerprint.clone());
                Flow::Ask(Ask::LoadSavedRemote, Next::PairedAddress { token, fingerprint })
            },
            RemoteEvent::Catalog { revision, tracks, removed, replace } => self.begin_catalog(
                revision,
                tracks,
                removed,
                replace,
            ),
            RemoteEvent::Cover { remote_id, data } => {
                self.take_cover(&remote_id, data);
                Flow::Done
            },
            RemoteEvent::MediaReady { remote_id } => self.take_ready(&remote_id),
            RemoteEvent::Error(message) => {
                let mut text = "Remote error: ".to_owned();
                text.append(&message);
                self.say(text);
                Flow::Done
            },
            RemoteEvent::Disconnected => {
                self.lose_connection();
                Flow::Done
            },
            RemoteEvent::Discovered(_) => Flow::Done,
        }
    }
}

} // verus!
