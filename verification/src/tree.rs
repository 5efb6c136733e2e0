//! The library as a tree: computers, artists, albums, tracks.

use vstd::prelude::*;
use vstd::string::*;

use crate::model::{Track, TrackId, TrackOrigin};
use crate::order::{
    concat_map, law_ordered_texts, law_sorting_keeps_items, lemma_filter_members, lemma_filter_take,
    lemma_push_contains, order_texts, ordered_texts, sort_stably, sorted_by, text_before, text_less, views,
};
use crate::text::{lowercase, same_text, to_lowercase};

verus! {

/// A row of the library list.
#[derive(Debug)]
pub struct AlbumEntry {
    pub depth: u8,
    pub label: String,
    pub track_id: Option<TrackId>,
    pub track_ids: Vec<TrackId>,
    pub unavailable: bool,
}

/// What a row of the library list holds.
pub struct EntryView {
    pub depth: int,
    pub label: Seq<char>,
    pub track_id: Option<TrackId>,
    pub track_ids: Seq<TrackId>,
    pub unavailable: bool,
}

impl View for AlbumEntry {
    type V = EntryView;

    open spec fn view(&self) -> EntryView {
        EntryView {
            depth: self.depth as int,
            label: self.label@,
            track_id: self.track_id,
            track_ids: self.track_ids@,
            unavailable: self.unavailable,
        }
    }
}

/// What the rows of a list hold.
pub open spec fn entry_views(entries: Seq<AlbumEntry>) -> Seq<EntryView> {
    entries.map_values(|entry: AlbumEntry| entry@)
}

/// The tracks behind a list of references.
pub open spec fn derefs(tracks: Seq<&Track>) -> Seq<Track> {
    tracks.map_values(|track: &Track| *track)
}

pub open spec fn ids_of(tracks: Seq<Track>) -> Seq<TrackId> {
    tracks.map_values(|track: Track| track.id)
}

pub open spec fn group_entry(depth: int, label: Seq<char>, ids: Seq<TrackId>) -> EntryView {
    EntryView { depth, label, track_id: None, track_ids: ids, unavailable: false }
}

pub open spec fn remote_group_entry(
    label: Seq<char>,
    ids: Seq<TrackId>,
    unavailable: bool,
) -> EntryView {
    EntryView { depth: 0, label, track_id: None, track_ids: ids, unavailable }
}

pub open spec fn leaf_entry(depth: int, track: Track) -> EntryView {
    EntryView {
        depth,
        label: track.title@,
        track_id: Some(track.id),
        track_ids: seq![track.id],
        unavailable: track.unavailable || track.scan_error is Some,
    }
}

impl AlbumEntry {
    fn group(depth: u8, label: String, track_ids: Vec<TrackId>) -> (entry: AlbumEntry)
        ensures
            entry@ == group_entry(depth as int, label@, track_ids@),
    {
        AlbumEntry { depth, label, track_id: None, track_ids, unavailable: false }
    }

    fn remote_group(label: String, track_ids: Vec<TrackId>, unavailable: bool) -> (entry:
        AlbumEntry)
        ensures
            entry@ == remote_group_entry(label@, track_ids@, unavailable),
    {
        AlbumEntry { depth: 0, label, track_id: None, track_ids, unavailable }
    }

    fn leaf(depth: u8, track: &Track) -> (entry: AlbumEntry)
        ensures
            entry@ == leaf_entry(depth as int, *track),
    {
        let mut track_ids: Vec<TrackId> = Vec::new();
        track_ids.push(track.id);
        assert(track_ids@ =~= seq![track.id]);
        AlbumEntry {
            depth,
            label: track.title.clone(),
            track_id: Some(track.id),
            track_ids,
            unavailable: track.unavailable || track.scan_error.is_some(),
        }
    }
}

/// The number that a track is sorted by; tracks without one come last.
pub open spec fn sort_number(track: Track) -> u32 {
    match track.track_number {
        Some(number) => number,
        None => u32::MAX,
    }
}

/// Whether a track stands before another on its album: by number, then by title,
/// letter case left aside.
pub open spec fn before_on_album(a: Track, b: Track) -> bool {
    ||| sort_number(a) < sort_number(b)
    ||| sort_number(a) == sort_number(b) && text_less(lowercase(a.title@), lowercase(b.title@))
}

pub open spec fn by_artist(tracks: Seq<Track>, artist: Seq<char>) -> Seq<Track> {
    tracks.filter(|track: Track| track.artist@ == artist)
}

pub open spec fn on_album(tracks: Seq<Track>, album: Seq<char>) -> Seq<Track> {
    tracks.filter(|track: Track| track.album@ == album)
}

pub open spec fn artists_of(tracks: Seq<Track>) -> Seq<Seq<char>> {
    ordered_texts(tracks.map_values(|track: Track| track.artist@))
}

pub open spec fn albums_of(tracks: Seq<Track>) -> Seq<Seq<char>> {
    ordered_texts(tracks.map_values(|track: Track| track.album@))
}

/// An album's tracks in the order of their numbers.
pub open spec fn album_order(tracks: Seq<Track>) -> Seq<Track> {
    sorted_by(tracks, |a: Track, b: Track| before_on_album(a, b))
}

/// An album's row and the rows of its tracks.
pub open spec fn album_block(own: Seq<Track>, album: Seq<char>, depth: int) -> Seq<EntryView> {
    let ordered = album_order(on_album(own, album));
    seq![group_entry(depth + 1, album, ids_of(ordered))] + ordered.map_values(
        |track: Track| leaf_entry(depth + 2, track),
    )
}

/// An artist's row and the blocks of the artist's albums.
pub open spec fn artist_block(tracks: Seq<Track>, artist: Seq<char>, depth: int) -> Seq<EntryView> {
    let own = by_artist(tracks, artist);
    seq![
        group_entry(
            depth,
            artist,
            concat_map(albums_of(own), |album: Seq<char>| ids_of(on_album(own, album))),
        ),
    ] + concat_map(albums_of(own), |album: Seq<char>| album_block(own, album, depth))
}

/// Artists in order, below each the albums in order, below each the tracks.
pub open spec fn grouped(tracks: Seq<Track>, depth: int) -> Seq<EntryView> {
    concat_map(artists_of(tracks), |artist: Seq<char>| artist_block(tracks, artist, depth))
}

/// The name of the server that a track comes from.
pub open spec fn server_of(track: Track) -> Option<Seq<char>> {
    match track.origin {
        TrackOrigin::Local => None,
        TrackOrigin::Remote { server_name, .. } => Some(server_name@),
    }
}

pub open spec fn local_tracks(tracks: Seq<Track>) -> Seq<Track> {
    tracks.filter(|track: Track| track.origin is Local)
}

pub open spec fn remote_tracks(tracks: Seq<Track>) -> Seq<Track> {
    tracks.filter(|track: Track| track.origin is Remote)
}

pub open spec fn from_server(tracks: Seq<Track>, server: Seq<char>) -> Seq<Track> {
    tracks.filter(|track: Track| server_of(track) == Some(server))
}

/// The servers that tracks come from, in order.
pub open spec fn servers_of(tracks: Seq<Track>) -> Seq<Seq<char>> {
    ordered_texts(remote_tracks(tracks).map_values(|track: Track| server_of(track)->0))
}

pub open spec fn server_block(
    tracks: Seq<Track>,
    server: Seq<char>,
    disconnected: bool,
) -> Seq<EntryView> {
    let own = from_server(tracks, server);
    seq![remote_group_entry(server, ids_of(own), disconnected)] + grouped(own, 1)
}

/// The library list. Where origins are split, this computer comes first and then the
/// servers in order.
pub open spec fn tree_rows(
    tracks: Seq<Track>,
    split_origins: bool,
    disconnected: bool,
    keep_empty_local: bool,
) -> Seq<EntryView> {
    if !split_origins {
        grouped(tracks, 0)
    } else {
        let local = local_tracks(tracks);
        (if keep_empty_local || local.len() > 0 {
            seq![remote_group_entry("This computer"@, ids_of(local), false)] + grouped(local, 1)
        } else {
            Seq::empty()
        }) + concat_map(
            servers_of(tracks),
            |server: Seq<char>| server_block(tracks, server, disconnected),
        )
    }
}

/// The tracks that a test lets through, in their order.
pub(crate) fn kept_tracks<'a, F: Fn(&Track) -> bool>(
    tracks: &Vec<&'a Track>,
    keep: F,
    Ghost(p): Ghost<spec_fn(Track) -> bool>,
) -> (kept: Vec<&'a Track>)
    requires
        forall|track: &Track| #[trigger] keep.requires((track,)),
        forall|track: &Track, r: bool| #[trigger] keep.ensures((track,), r) ==> r == p(*track),
    ensures
        derefs(kept@) == derefs(tracks@).filter(p),
{
    let ghost all = derefs(tracks@);
    let mut kept: Vec<&'a Track> = Vec::new();
    let mut i: usize = 0;
    proof {
        reveal(Seq::filter);
    }
    assert(derefs(kept@) =~= all.take(0).filter(p));
    while i < tracks.len()
        invariant
            i <= tracks@.len(),
            all == derefs(tracks@),
            derefs(kept@) == all.take(i as int).filter(p),
            forall|track: &Track| #[trigger] keep.requires((track,)),
            forall|track: &Track, r: bool| #[trigger] keep.ensures((track,), r) ==> r == p(*track),
        decreases tracks@.len() - i,
    {
        proof {
            lemma_filter_take(all, p, i as int);
        }
        let ghost before = derefs(kept@);
        let track = tracks[i];
        if keep(track) {
            kept.push(track);
            assert(derefs(kept@) =~= before.push(all[i as int]));
        }
        i = i + 1;
    }
    assert(all.take(i as int) =~= all);
    kept
}

fn track_ids(tracks: &Vec<&Track>) -> (ids: Vec<TrackId>)
    ensures
        ids@ == ids_of(derefs(tracks@)),
{
    let mut ids: Vec<TrackId> = Vec::new();
    let mut i: usize = 0;
    while i < tracks.len()
        invariant
            i <= tracks@.len(),
            ids@ == ids_of(derefs(tracks@)).take(i as int),
        decreases tracks@.len() - i,
    {
        ids.push(tracks[i].id);
        i = i + 1;
        assert(ids@ =~= ids_of(derefs(tracks@)).take(i as int));
    }
    assert(ids@ =~= ids_of(derefs(tracks@)));
    ids
}

fn artist_names(tracks: &Vec<&Track>) -> (names: Vec<String>)
    ensures
        views(names@) == artists_of(derefs(tracks@)),
{
    let ghost all = derefs(tracks@).map_values(|track: Track| track.artist@);
    let mut names: Vec<String> = Vec::new();
    let mut i: usize = 0;
    while i < tracks.len()
        invariant
            i <= tracks@.len(),
            all == derefs(tracks@).map_values(|track: Track| track.artist@),
            views(names@) == all.take(i as int),
        decreases tracks@.len() - i,
    {
        let ghost before = views(names@);
        names.push(tracks[i].artist.clone());
        assert(views(names@) =~= before.push(all[i as int]));
        i = i + 1;
        assert(views(names@) =~= all.take(i as int));
    }
    assert(all.take(i as int) =~= all);
    order_texts(&names)
}

fn album_names(tracks: &Vec<&Track>) -> (names: Vec<String>)
    ensures
        views(names@) == albums_of(derefs(tracks@)),
{
    let ghost all = derefs(tracks@).map_values(|track: Track| track.album@);
    let mut names: Vec<String> = Vec::new();
    let mut i: usize = 0;
    while i < tracks.len()
        invariant
            i <= tracks@.len(),
            all == derefs(tracks@).map_values(|track: Track| track.album@),
            views(names@) == all.take(i as int),
        decreases tracks@.len() - i,
    {
        let ghost before = views(names@);
        names.push(tracks[i].album.clone());
        assert(views(names@) =~= before.push(all[i as int]));
        i = i + 1;
        assert(views(names@) =~= all.take(i as int));
    }
    assert(all.take(i as int) =~= all);
    order_texts(&names)
}

fn server_names(tracks: &Vec<&Track>) -> (names: Vec<String>)
    ensures
        views(names@) == servers_of(derefs(tracks@)),
{
    let ghost p = |track: Track| track.origin is Remote;
    let ghost f = |track: Track| server_of(track)->0;
    let ghost all = derefs(tracks@);
    let mut names: Vec<String> = Vec::new();
    let mut i: usize = 0;
    proof {
        reveal(Seq::filter);
    }
    assert(views(names@) =~= all.take(0).filter(p).map_values(f));
    while i < tracks.len()
        invariant
            i <= tracks@.len(),
            all == derefs(tracks@),
            p == (|track: Track| track.origin is Remote),
            f == (|track: Track| server_of(track)->0),
            views(names@) == all.take(i as int).filter(p).map_values(f),
        decreases tracks@.len() - i,
    {
        proof {
            lemma_filter_take(all, p, i as int);
        }
        assert(all[i as int] == *tracks@[i as int]);
        if let TrackOrigin::Remote { server_name, .. } = &tracks[i].origin {
            let ghost before = views(names@);
            names.push(server_name.clone());
            assert(views(names@) =~= before.push(f(all[i as int])));
        }
        i = i + 1;
        assert(views(names@) =~= all.take(i as int).filter(p).map_values(f));
    }
    assert(all.take(i as int) =~= all);
    order_texts(&names)
}

fn is_before_on_album(a: &Track, b: &Track) -> (before: bool)
    ensures
        before == before_on_album(*a, *b),
{
    let left: u32 = match a.track_number {
        Some(number) => number,
        None => u32::MAX,
    };
    let right: u32 = match b.track_number {
        Some(number) => number,
        None => u32::MAX,
    };
    if left == right {
        let a_title = to_lowercase(&a.title);
        let b_title = to_lowercase(&b.title);
        text_before(&a_title, &b_title)
    } else {
        left < right
    }
}

proof fn lemma_place_derefs(sorted: Seq<&Track>, x: &Track)
    ensures
        crate::order::place(sorted, x, |a: &Track, b: &Track| before_on_album(*a, *b))
            == crate::order::place(
            derefs(sorted),
            *x,
            |a: Track, b: Track| before_on_album(a, b),
        ),
    decreases sorted.len(),
{
    if sorted.len() > 0 {
        lemma_place_derefs(sorted.drop_last(), x);
        assert(derefs(sorted).drop_last() =~= derefs(sorted.drop_last()));
        assert(derefs(sorted).last() == *sorted.last());
    }
}

proof fn lemma_sorted_derefs(items: Seq<&Track>)
    ensures
        derefs(sorted_by(items, |a: &Track, b: &Track| before_on_album(*a, *b))) == album_order(
            derefs(items),
        ),
    decreases items.len(),
{
    let less = |a: &Track, b: &Track| before_on_album(*a, *b);
    if items.len() > 0 {
        lemma_sorted_derefs(items.drop_last());
        let rest = sorted_by(items.drop_last(), less);
        let at = crate::order::place(rest, items.last(), less);
        assert(derefs(items).drop_last() =~= derefs(items.drop_last()));
        lemma_place_derefs(rest, items.last());
        crate::order::lemma_place(rest, items.last(), less);
        assert(derefs(items).last() == *items.last());
        assert(derefs(rest.insert(at, items.last())) =~= derefs(rest).insert(at, *items.last()));
    } else {
        assert(derefs(items) =~= Seq::empty());
        assert(derefs(sorted_by(items, less)) =~= Seq::empty());
    }
}

fn push_album_block(
    entries: &mut Vec<AlbumEntry>,
    artist_ids: &mut Vec<TrackId>,
    own: &Vec<&Track>,
    album: &String,
    depth: u8,
)
    requires
        depth <= 253,
    ensures
        entry_views(final(entries)@) == entry_views(old(entries)@) + album_block(
            derefs(own@),
            album@,
            depth as int,
        ),
        final(artist_ids)@ == old(artist_ids)@ + ids_of(on_album(derefs(own@), album@)),
{
    let ghost p = |track: Track| track.album@ == album@;
    let keep = |track: &Track| -> (r: bool)
        ensures
            r == p(*track),
        { same_text(&track.album, album) };
    let mut tracks = kept_tracks(own, keep, Ghost(p));
    let mut ids = track_ids(&tracks);
    artist_ids.append(&mut ids);
    proof {
        lemma_sorted_derefs(tracks@);
    }
    let before = |a: &&Track, b: &&Track| -> (r: bool)
        ensures
            r == before_on_album(**a, **b),
        { is_before_on_album(*a, *b) };
    sort_stably(&mut tracks, before, Ghost(|a: &Track, b: &Track| before_on_album(*a, *b)));
    let ghost ordered = album_order(on_album(derefs(own@), album@));
    assert(derefs(tracks@) == ordered);
    let ghost head = entry_views(entries@);
    let group = AlbumEntry::group(depth + 1, album.clone(), track_ids(&tracks));
    let ghost group_view = group@;
    entries.push(group);
    assert(entry_views(entries@) =~= head.push(group_view));
    let ghost leaf = |track: Track| leaf_entry(depth + 2, track);
    let mut i: usize = 0;
    assert(entry_views(entries@) =~= head.push(group_view) + ordered.take(0).map_values(leaf));
    while i < tracks.len()
        invariant
            i <= tracks@.len(),
            depth <= 253,
            derefs(tracks@) == ordered,
            leaf == (|track: Track| leaf_entry(depth + 2, track)),
            entry_views(entries@) == head.push(group_view) + ordered.take(i as int).map_values(
                leaf,
            ),
        decreases tracks@.len() - i,
    {
        let entry = AlbumEntry::leaf(depth + 2, tracks[i]);
        let ghost before_push = entry_views(entries@);
        assert(ordered[i as int] == *tracks@[i as int]);
        let ghost entry_view = entry@;
        entries.push(entry);
        assert(entry_views(entries@) =~= before_push.push(entry_view));
        i = i + 1;
        assert(entry_views(entries@) =~= head.push(group_view) + ordered.take(i as int).map_values(
            leaf,
        ));
    }
    assert(ordered.take(i as int) =~= ordered);
    assert(entry_views(entries@) =~= head + album_block(derefs(own@), album@, depth as int));
}

fn push_artist_block(
    entries: &mut Vec<AlbumEntry>,
    tracks: &Vec<&Track>,
    artist: &String,
    depth: u8,
)
    requires
        depth <= 253,
    ensures
        entry_views(final(entries)@) == entry_views(old(entries)@) + artist_block(
            derefs(tracks@),
            artist@,
            depth as int,
        ),
{
    let ghost p = |track: Track| track.artist@ == artist@;
    let keep = |track: &Track| -> (r: bool)
        ensures
            r == p(*track),
        { same_text(&track.artist, artist) };
    let own = kept_tracks(tracks, keep, Ghost(p));
    let ghost own_view = by_artist(derefs(tracks@), artist@);
    assert(derefs(own@) == own_view);
    let albums = album_names(&own);
    let ghost names = albums_of(own_view);
    let ghost block = |album: Seq<char>| album_block(own_view, album, depth as int);
    let ghost album_ids = |album: Seq<char>| ids_of(on_album(own_view, album));
    let mut below: Vec<AlbumEntry> = Vec::new();
    let mut ids: Vec<TrackId> = Vec::new();
    let mut i: usize = 0;
    assert(entry_views(below@) =~= concat_map(names.take(0), block));
    assert(ids@ =~= concat_map(names.take(0), album_ids));
    while i < albums.len()
        invariant
            i <= albums@.len(),
            depth <= 253,
            derefs(own@) == own_view,
            views(albums@) == names,
            block == (|album: Seq<char>| album_block(own_view, album, depth as int)),
            album_ids == (|album: Seq<char>| ids_of(on_album(own_view, album))),
            entry_views(below@) == concat_map(names.take(i as int), block),
            ids@ == concat_map(names.take(i as int), album_ids),
        decreases albums@.len() - i,
    {
        push_album_block(&mut below, &mut ids, &own, &albums[i], depth);
        assert(names[i as int] == albums@[i as int]@);
        assert(names.take(i + 1).drop_last() =~= names.take(i as int));
        i = i + 1;
    }
    assert(names.take(i as int) =~= names);
    let ghost head = entry_views(entries@);
    let group = AlbumEntry::group(depth, artist.clone(), ids);
    let ghost group_view = group@;
    entries.push(group);
    assert(entry_views(entries@) =~= head.push(group_view));
    let ghost tail = entry_views(below@);
    entries.append(&mut below);
    assert(entry_views(entries@) =~= head + artist_block(
        derefs(tracks@),
        artist@,
        depth as int,
    ));
}

/// Artists, albums and tracks, from `depth` on.
pub fn group_tracks(tracks: &Vec<&Track>, depth: u8) -> (entries: Vec<AlbumEntry>)
    requires
        depth <= 253,
    ensures
        entry_views(entries@) == grouped(derefs(tracks@), depth as int),
{
    let artists = artist_names(tracks);
    let ghost all = derefs(tracks@);
    let ghost names = artists_of(all);
    let ghost block = |artist: Seq<char>| artist_block(all, artist, depth as int);
    let mut entries: Vec<AlbumEntry> = Vec::new();
    let mut i: usize = 0;
    assert(entry_views(entries@) =~= concat_map(names.take(0), block));
    while i < artists.len()
        invariant
            i <= artists@.len(),
            depth <= 253,
            all == derefs(tracks@),
            views(artists@) == names,
            block == (|artist: Seq<char>| artist_block(all, artist, depth as int)),
            entry_views(entries@) == concat_map(names.take(i as int), block),
        decreases artists@.len() - i,
    {
        push_artist_block(&mut entries, tracks, &artists[i], depth);
        assert(names[i as int] == artists@[i as int]@);
        assert(names.take(i + 1).drop_last() =~= names.take(i as int));
        i = i + 1;
    }
    assert(names.take(i as int) =~= names);
    entries
}

fn push_server_block(
    entries: &mut Vec<AlbumEntry>,
    tracks: &Vec<&Track>,
    server: &String,
    disconnected: bool,
)
    ensures
        entry_views(final(entries)@) == entry_views(old(entries)@) + server_block(
            derefs(tracks@),
            server@,
            disconnected,
        ),
{
    let ghost p = |track: Track| server_of(track) == Some(server@);
    let keep = |track: &Track| -> (r: bool)
        ensures
            r == p(*track),
        {
            match &track.origin {
                TrackOrigin::Local => false,
                TrackOrigin::Remote { server_name, .. } => same_text(server_name, server),
            }
        };
    let own = kept_tracks(tracks, keep, Ghost(p));
    let ghost head = entry_views(entries@);
    let group = AlbumEntry::remote_group(server.clone(), track_ids(&own), disconnected);
    let ghost group_view = group@;
    entries.push(group);
    assert(entry_views(entries@) =~= head.push(group_view));
    let mut below = group_tracks(&own, 1);
    let ghost tail = entry_views(below@);
    entries.append(&mut below);
    assert(entry_views(entries@) =~= head + server_block(derefs(tracks@), server@, disconnected));
}

/// The library list of some tracks.
pub fn album_tree(
    tracks: &Vec<&Track>,
    split_origins: bool,
    remote_disconnected: bool,
    include_empty_local: bool,
) -> (entries: Vec<AlbumEntry>)
    ensures
        entry_views(entries@) == tree_rows(
            derefs(tracks@),
            split_origins,
            remote_disconnected,
            include_empty_local,
        ),
{
    if !split_origins {
        return group_tracks(tracks, 0);
    }
    let ghost all = derefs(tracks@);
    let ghost p = |track: Track| track.origin is Local;
    let keep = |track: &Track| -> (r: bool)
        ensures
            r == p(*track),
        { !track.origin.is_remote() };
    let local = kept_tracks(tracks, keep, Ghost(p));
    assert(derefs(local@).len() == local@.len());
    let mut entries: Vec<AlbumEntry> = Vec::new();
    if include_empty_local || local.len() > 0 {
        let group = AlbumEntry::remote_group(
            "This computer".to_owned(),
            track_ids(&local),
            false,
        );
        let ghost group_view = group@;
        entries.push(group);
        assert(entry_views(entries@) =~= seq![group_view]);
        let mut below = group_tracks(&local, 1);
        let ghost tail = entry_views(below@);
        entries.append(&mut below);
        assert(entry_views(entries@) =~= seq![group_view] + tail);
    }
    let ghost head = entry_views(entries@);
    let servers = server_names(tracks);
    let ghost names = servers_of(all);
    let ghost block = |server: Seq<char>| server_block(all, server, remote_disconnected);
    let mut i: usize = 0;
    assert(concat_map(names.take(0), block) =~= Seq::empty());
    assert(entry_views(entries@) =~= head + concat_map(names.take(0), block));
    while i < servers.len()
        invariant
            i <= servers@.len(),
            all == derefs(tracks@),
            views(servers@) == names,
            block == (|server: Seq<char>| server_block(all, server, remote_disconnected)),
            entry_views(entries@) == head + concat_map(names.take(i as int), block),
        decreases servers@.len() - i,
    {
        push_server_block(&mut entries, tracks, &servers[i], remote_disconnected);
        assert(names[i as int] == servers@[i as int]@);
        assert(names.take(i + 1).drop_last() =~= names.take(i as int));
        i = i + 1;
        assert(entry_views(entries@) =~= head + concat_map(names.take(i as int), block));
    }
    assert(names.take(i as int) =~= names);
    assert(entry_views(entries@) =~= tree_rows(
        all,
        split_origins,
        remote_disconnected,
        include_empty_local,
    ));
    entries
}

/// What is left for an artist and for an album.
proof fn lemma_named(tracks: Seq<Track>, name: Seq<char>)
    ensures
        forall|track: Track| #[trigger]
            by_artist(tracks, name).contains(track) <==> tracks.contains(track) && track.artist@
                == name,
        forall|track: Track| #[trigger]
            on_album(tracks, name).contains(track) <==> tracks.contains(track) && track.album@
                == name,
    decreases tracks.len(),
{
    reveal(Seq::filter);
    if tracks.len() > 0 {
        let rest = tracks.drop_last();
        let last = tracks.last();
        lemma_named(rest, name);
        assert(tracks =~= rest.push(last));
        assert forall|track: Track| #[trigger]
            by_artist(tracks, name).contains(track) <==> tracks.contains(track) && track.artist@
                == name by {
            lemma_push_contains(rest, last, track);
            lemma_push_contains(by_artist(rest, name), last, track);
        }
        assert forall|track: Track| #[trigger]
            on_album(tracks, name).contains(track) <==> tracks.contains(track) && track.album@
                == name by {
            lemma_push_contains(rest, last, track);
            lemma_push_contains(on_album(rest, name), last, track);
        }
    }
}

/// What the parts of a library hold.
pub proof fn lemma_parts(tracks: Seq<Track>, name: Seq<char>)
    ensures
        forall|track: Track| #[trigger]
            by_artist(tracks, name).contains(track) <==> tracks.contains(track) && track.artist@
                == name,
        forall|track: Track| #[trigger]
            on_album(tracks, name).contains(track) <==> tracks.contains(track) && track.album@
                == name,
        forall|track: Track| #[trigger]
            from_server(tracks, name).contains(track) <==> tracks.contains(track) && server_of(
                track,
            ) == Some(name),
        forall|track: Track| #[trigger]
            local_tracks(tracks).contains(track) <==> tracks.contains(track)
                && track.origin is Local,
        forall|track: Track| #[trigger]
            remote_tracks(tracks).contains(track) <==> tracks.contains(track)
                && track.origin is Remote,
{
    lemma_named(tracks, name);
    lemma_filter_members(tracks, |track: Track| server_of(track) == Some(name));
    lemma_filter_members(tracks, |track: Track| track.origin is Local);
    lemma_filter_members(tracks, |track: Track| track.origin is Remote);
}

proof fn lemma_concat_holds<T, U>(items: Seq<T>, f: spec_fn(T) -> Seq<U>, i: int, x: U)
    requires
        0 <= i < items.len(),
        f(items[i]).contains(x),
    ensures
        concat_map(items, f).contains(x),
    decreases items.len(),
{
    let rest = items.drop_last();
    let head = concat_map(rest, f);
    let all = concat_map(items, f);
    if i < rest.len() {
        lemma_concat_holds(rest, f, i, x);
        let k = choose|k: int| 0 <= k < head.len() && head[k] == x;
        assert(all[k] == x);
    } else {
        let last = f(items.last());
        let k = choose|k: int| 0 <= k < last.len() && last[k] == x;
        assert(all[head.len() + k] == x);
    }
}

proof fn lemma_tail_holds<T>(first: T, rest: Seq<T>, x: T)
    requires
        rest.contains(x),
    ensures
        (seq![first] + rest).contains(x),
{
    let k = choose|k: int| 0 <= k < rest.len() && rest[k] == x;
    assert((seq![first] + rest)[k + 1] == x);
}

/// Every track has a row among the rows of its group.
proof fn lemma_grouped_holds(tracks: Seq<Track>, depth: int, track: Track)
    requires
        tracks.contains(track),
    ensures
        grouped(tracks, depth).contains(leaf_entry(depth + 2, track)),
{
    let leaf = leaf_entry(depth + 2, track);
    let artists = tracks.map_values(|track: Track| track.artist@);
    let k = choose|k: int| 0 <= k < tracks.len() && tracks[k] == track;
    assert(artists[k] == track.artist@);
    assert(artists.contains(track.artist@));
    law_ordered_texts(artists);
    assert(ordered_texts(artists).contains(track.artist@));
    assert(artists_of(tracks).contains(track.artist@));
    let i = choose|i: int| 0 <= i < artists_of(tracks).len() && artists_of(tracks)[i]
        == track.artist@;
    let own = by_artist(tracks, track.artist@);
    let artist = track.artist@;
    lemma_filter_members(tracks, |track: Track| track.artist@ == artist);
    assert(own.contains(track));
    let albums = own.map_values(|track: Track| track.album@);
    let m = choose|m: int| 0 <= m < own.len() && own[m] == track;
    assert(albums[m] == track.album@);
    assert(albums.contains(track.album@));
    law_ordered_texts(albums);
    assert(ordered_texts(albums).contains(track.album@));
    assert(albums_of(own).contains(track.album@));
    let j = choose|j: int| 0 <= j < albums_of(own).len() && albums_of(own)[j] == track.album@;
    let album = track.album@;
    let disc = on_album(own, album);
    lemma_filter_members(own, |track: Track| track.album@ == album);
    assert(disc.contains(track));
    let ordered = album_order(disc);
    law_sorting_keeps_items(disc, |a: Track, b: Track| before_on_album(a, b));
    disc.to_multiset_ensures();
    ordered.to_multiset_ensures();
    assert(ordered.to_multiset().contains(track));
    let n = choose|n: int| 0 <= n < ordered.len() && ordered[n] == track;
    let leaves = ordered.map_values(|track: Track| leaf_entry(depth + 2, track));
    assert(leaves[n] == leaf);
    lemma_tail_holds(group_entry(depth + 1, album, ids_of(ordered)), leaves, leaf);
    let blocks = |album: Seq<char>| album_block(own, album, depth);
    lemma_concat_holds(albums_of(own), blocks, j, leaf);
    lemma_tail_holds(
        group_entry(
            depth,
            artist,
            concat_map(albums_of(own), |album: Seq<char>| ids_of(on_album(own, album))),
        ),
        concat_map(albums_of(own), blocks),
        leaf,
    );
    lemma_concat_holds(
        artists_of(tracks),
        |artist: Seq<char>| artist_block(tracks, artist, depth),
        i,
        leaf,
    );
}

/// Every track of the library has its row, under this computer or under its server where
/// origins are told apart.
pub proof fn law_every_track_has_its_row(
    tracks: Seq<Track>,
    track: Track,
    split_origins: bool,
    disconnected: bool,
    keep_empty_local: bool,
)
    requires
        tracks.contains(track),
    ensures
        tree_rows(tracks, split_origins, disconnected, keep_empty_local).contains(
            leaf_entry(
                if split_origins {
                    3
                } else {
                    2
                },
                track,
            ),
        ),
{
    let rows = tree_rows(tracks, split_origins, disconnected, keep_empty_local);
    if !split_origins {
        lemma_grouped_holds(tracks, 0, track);
    } else {
        let leaf = leaf_entry(3, track);
        let local = local_tracks(tracks);
        let head = if keep_empty_local || local.len() > 0 {
            seq![remote_group_entry("This computer"@, ids_of(local), false)] + grouped(local, 1)
        } else {
            Seq::empty()
        };
        let blocks = |server: Seq<char>| server_block(tracks, server, disconnected);
        let tail = concat_map(servers_of(tracks), blocks);
        if track.origin is Local {
            lemma_filter_members(tracks, |track: Track| track.origin is Local);
            assert(local.contains(track));
            lemma_grouped_holds(local, 1, track);
            lemma_tail_holds(
                remote_group_entry("This computer"@, ids_of(local), false),
                grouped(local, 1),
                leaf,
            );
            let k = choose|k: int| 0 <= k < head.len() && head[k] == leaf;
            assert(rows[k] == leaf);
        } else {
            let server = server_of(track)->0;
            lemma_filter_members(tracks, |track: Track| track.origin is Remote);
            let remote = remote_tracks(tracks);
            assert(remote.contains(track));
            let names = remote.map_values(|track: Track| server_of(track)->0);
            let m = choose|m: int| 0 <= m < remote.len() && remote[m] == track;
            assert(names[m] == server);
            assert(names.contains(server));
            law_ordered_texts(names);
            assert(ordered_texts(names).contains(server));
            assert(servers_of(tracks).contains(server));
            let i = choose|i: int| 0 <= i < servers_of(tracks).len() && servers_of(tracks)[i]
                == server;
            lemma_filter_members(tracks, |track: Track| server_of(track) == Some(server));
            let own = from_server(tracks, server);
            assert(own.contains(track));
            lemma_grouped_holds(own, 1, track);
            lemma_tail_holds(
                remote_group_entry(server, ids_of(own), disconnected),
                grouped(own, 1),
                leaf,
            );
            lemma_concat_holds(servers_of(tracks), blocks, i, leaf);
            let k = choose|k: int| 0 <= k < tail.len() && tail[k] == leaf;
            assert(rows[head.len() + k] == leaf);
        }
    }
}

/// Whether a track of a list is by this artist.
pub open spec fn has_artist(tracks: Seq<Track>, name: Seq<char>) -> bool {
    exists|k: int| 0 <= k < tracks.len() && (#[trigger] tracks[k]).artist@ == name
}

/// Whether a track of a list is on this album.
pub open spec fn has_album(tracks: Seq<Track>, name: Seq<char>) -> bool {
    exists|k: int| 0 <= k < tracks.len() && (#[trigger] tracks[k]).album@ == name
}

/// The artists of a library are those of its tracks, each once and in the order of their names, and
/// so are the albums.
pub proof fn law_artists_and_albums_are_in_order(tracks: Seq<Track>)
    ensures
        forall|i: int, j: int|
            0 <= i < j < artists_of(tracks).len() ==> text_less(
                #[trigger] artists_of(tracks)[i],
                #[trigger] artists_of(tracks)[j],
            ),
        forall|name: Seq<char>| #[trigger]
            artists_of(tracks).contains(name) <==> has_artist(tracks, name),
        forall|i: int, j: int|
            0 <= i < j < albums_of(tracks).len() ==> text_less(
                #[trigger] albums_of(tracks)[i],
                #[trigger] albums_of(tracks)[j],
            ),
        forall|name: Seq<char>| #[trigger]
            albums_of(tracks).contains(name) <==> has_album(tracks, name),
{
    let artists = tracks.map_values(|track: Track| track.artist@);
    let albums = tracks.map_values(|track: Track| track.album@);
    law_ordered_texts(artists);
    law_ordered_texts(albums);
    assert(artists_of(tracks) == ordered_texts(artists));
    assert(albums_of(tracks) == ordered_texts(albums));
    assert forall|name: Seq<char>| #[trigger] artists_of(tracks).contains(name) <==> has_artist(
        tracks,
        name,
    ) by {
        if artists.contains(name) {
            let k = choose|k: int| 0 <= k < artists.len() && artists[k] == name;
            assert(tracks[k].artist@ == name);
        }
        if has_artist(tracks, name) {
            let k = choose|k: int| 0 <= k < tracks.len() && (#[trigger] tracks[k]).artist@ == name;
            assert(artists[k] == name);
        }
    }
    assert forall|name: Seq<char>| #[trigger] albums_of(tracks).contains(name) <==> has_album(
        tracks,
        name,
    ) by {
        if albums.contains(name) {
            let k = choose|k: int| 0 <= k < albums.len() && albums[k] == name;
            assert(tracks[k].album@ == name);
        }
        if has_album(tracks, name) {
            let k = choose|k: int| 0 <= k < tracks.len() && (#[trigger] tracks[k]).album@ == name;
            assert(albums[k] == name);
        }
    }
}

} // verus!
