//! What holds between a client and a server.

use vstd::prelude::*;
use vstd::string::*;

use crate::keys::{ids_in_order, law_ids_are_listed, tracks_in_order};
use crate::model::{Track, TrackId, TrackOrigin};
use crate::net::addr::{with_port, IpAddr, SocketAddr};
use crate::net::identity::digest_text;
use crate::net::protocol::{entries, CatalogEntry, CatalogTrack, MessageView};
use crate::net::server::{
    allowed, catalog_of, etag_text, holds, lemma_shared, millis, reachable, real_addresses,
    shared_tracks, stretch, unrepeated, virtual_interface, with_remote_id, ControlAction,
    Interface, Lookup, ServerView, Transfer,
};
use crate::net::session::{
    cache_hit, CommandView, OncePhase, OnceStep, OnceView, SessionActionView, SessionEventView,
    SessionPhase, SessionView, ToldView,
};
use crate::number::{
    law_integers_round_trip, law_numbers_round_trip, lemma_decimal_digits,
};
use crate::order::{
    law_sorting_keeps_items, law_sorting_sorts, lemma_push_contains, sorted_by,
};
use crate::path_codec::encoded;
use crate::soulseek::opt_view;
use crate::split::begins;
use crate::storage::stored_listing;
use crate::text::{decimal, signed_decimal};
use crate::time::Duration;

verus! {

/// A client that brings the pairing code is let in and reads the whole library: it is asked to
/// pair, is given a token, and ends with the server's name, the token and as many tracks as the
/// server shares.
pub proof fn law_the_right_code_opens_the_library(
    server: ServerView,
    conn_id: usize,
    tracks: Map<TrackId, Track>,
    revision: u64,
    client: OnceView,
    asked: (OnceView, OnceStep),
    answer: ControlAction,
    paired: (OnceView, OnceStep),
    opened: ControlAction,
    done: (OnceView, OnceStep),
)
    requires
        client.phase is Greeting,
        client.code == Some(server.pairing_code),
        client.fingerprint == server.fingerprint,
        client.stepped(server.welcome(false, revision), asked.0, asked.1),
        asked.1 matches OnceStep::Send(message) ==> server.controls(conn_id, message@, answer),
        answer matches ControlAction::StoreToken(token) ==> asked.0.stepped(
            MessageView::Paired { token: token@ },
            paired.0,
            paired.1,
        ),
        paired.1 matches OnceStep::Send(message) ==> server.with_authorized(
            conn_id,
            true,
        ).controls(conn_id, message@, opened),
        opened matches ControlAction::LoadCatalog { since_revision } ==> paired.0.stepped(
            catalog_of(tracks, revision, since_revision),
            done.0,
            done.1,
        ),
    ensures
        asked.1 matches OnceStep::Send(message) && message@ == (MessageView::Pair {
            code: server.pairing_code,
        }),
        answer matches ControlAction::StoreToken(token) && (done.1 matches OnceStep::Finish {
            report,
            ..
        } && report.server_name@ == server.server_name && report.fingerprint@ == server.fingerprint
            && report.revision == revision && report.tracks == shared_tracks(tracks).len()
            && opt_view(report.token) == Some(token@)),
        done.0.phase == OncePhase::Over,
{
    assert(server.with_authorized(conn_id, true).admits(conn_id));
}

/// A client whose token the server knows is not asked to pair: it asks for the catalog at once,
/// and gets it.
pub proof fn law_a_known_token_opens_the_library(
    server: ServerView,
    conn_id: usize,
    tracks: Map<TrackId, Track>,
    revision: u64,
    client: OnceView,
    asked: (OnceView, OnceStep),
    opened: ControlAction,
    done: (OnceView, OnceStep),
)
    requires
        client.phase is Greeting,
        client.fingerprint == server.fingerprint,
        client.stepped(server.welcome(true, revision), asked.0, asked.1),
        asked.1 matches OnceStep::Send(message) ==> server.with_authorized(
            conn_id,
            true,
        ).controls(conn_id, message@, opened),
        opened matches ControlAction::LoadCatalog { since_revision } ==> asked.0.stepped(
            catalog_of(tracks, revision, since_revision),
            done.0,
            done.1,
        ),
    ensures
        done.1 matches OnceStep::Finish { report, .. } && report.tracks == shared_tracks(
            tracks,
        ).len() && opt_view(report.token) == client.token,
{
    assert(server.with_authorized(conn_id, true).admits(conn_id));
}

/// Two marks are the same only where both the time of change and the length are.
pub proof fn law_marks_tell_states_apart(
    modified_ns: i64,
    file_size: u64,
    other_ns: i64,
    other_size: u64,
)
    requires
        etag_text(modified_ns, file_size) == etag_text(other_ns, other_size),
    ensures
        modified_ns == other_ns,
        file_size == other_size,
{
    reveal_strlit("-");
    let time = signed_decimal(modified_ns as int);
    let other_time = signed_decimal(other_ns as int);
    let size = decimal(file_size as nat);
    let other = decimal(other_size as nat);
    let text = etag_text(modified_ns, file_size);
    let n = text.len() as int;
    assert(text =~= time + "-"@ + size);
    assert(text =~= other_time + "-"@ + other);
    assert(text[n - size.len() - 1] == '-');
    assert(text[n - other.len() - 1] == '-');
    if size.len() < other.len() {
        let i = other.len() - size.len() - 1;
        assert(text[n - size.len() - 1] == other[i]);
        lemma_decimal_digits(other_size as nat, i);
        assert(false);
    }
    if other.len() < size.len() {
        let i = size.len() - other.len() - 1;
        assert(text[n - other.len() - 1] == size[i]);
        lemma_decimal_digits(file_size as nat, i);
        assert(false);
    }
    assert(size =~= text.skip(n - size.len()));
    assert(other =~= text.skip(n - size.len()));
    assert(time =~= text.take(n - size.len() - 1));
    assert(other_time =~= text.take(n - size.len() - 1));
    law_numbers_round_trip(file_size as nat, u64::MAX as nat);
    law_numbers_round_trip(other_size as nat, u64::MAX as nat);
    law_integers_round_trip(modified_ns);
    law_integers_round_trip(other_ns);
}

/// A file that was fetched whole counts as cached until the track changes: as long as its
/// length and its time of change stay the same, and no longer.
pub proof fn law_fetched_files_count_as_cached(track: Track, later: Track)
    ensures
        stretch(track.file_size, 0, None) == track.file_size,
        cache_hit(
            Some(track.file_size),
            etag_text(track.modified_ns, track.file_size),
            later.file_size,
            etag_text(later.modified_ns, later.file_size),
        ) <==> track.file_size == later.file_size && track.modified_ns == later.modified_ns,
{
    if etag_text(track.modified_ns, track.file_size) == etag_text(
        later.modified_ns,
        later.file_size,
    ) {
        law_marks_tell_states_apart(
            track.modified_ns,
            track.file_size,
            later.modified_ns,
            later.file_size,
        );
    }
}

/// Whether a track that a client has stored is a server's track: what there is to hear and to
/// read of it is the same, and the client asks for it by the digest of the server's path.
pub open spec fn is_the_servers(stored: Track, own: Track, fingerprint: Seq<char>) -> bool {
    &&& own.origin is Local
    &&& stored.title@ == own.title@
    &&& stored.artist@ == own.artist@
    &&& stored.album@ == own.album@
    &&& stored.date == own.date
    &&& stored.track_number == own.track_number
    &&& stored.codec@ == own.codec@
    &&& stored.sample_rate == own.sample_rate
    &&& stored.channels == own.channels
    &&& stored.file_size == own.file_size
    &&& stored.modified_ns == own.modified_ns
    &&& own.duration.nanos < 1_000_000_000 && own.duration.secs < 0xffff_ffff_ffff
        ==> stored.duration.secs == own.duration.secs && stored.duration.nanos / 1_000_000
        == own.duration.nanos / 1_000_000
    &&& stored.origin matches TrackOrigin::Remote { fingerprint: f, remote_id, .. } && f@
        == fingerprint && remote_id@ == digest_text(encoded(own.path@))
}

/// Whether a track that a client has stored is one of a server's tracks.
pub open spec fn is_some_track_of(
    tracks: Map<TrackId, Track>,
    stored: Track,
    fingerprint: Seq<char>,
) -> bool {
    exists|own: TrackId|
        tracks.contains_key(own) && is_the_servers(stored, #[trigger] tracks[own], fingerprint)
}

/// Every track of a server's computer arrives in the library of a client that reads the catalog,
/// as it is on the server and field by field; and nothing else arrives.
pub proof fn law_shared_tracks_arrive_as_they_are(
    tracks: Map<TrackId, Track>,
    revision: u64,
    since_revision: Option<u64>,
    list: Seq<CatalogTrack>,
    removed: Seq<Seq<char>>,
    replace: bool,
    stored: Seq<Track>,
    fingerprint: Seq<char>,
    server_name: Seq<char>,
)
    requires
        tracks.dom().finite(),
        since_revision != Some(revision),
        catalog_of(tracks, revision, since_revision) == (MessageView::Catalog {
            revision,
            tracks: entries(list),
            removed,
            replace,
        }),
        stored.len() == list.len(),
        forall|i: int|
            0 <= i < list.len() ==> stored_listing(
                #[trigger] stored[i],
                stored[i].id,
                fingerprint,
                server_name,
                list[i],
            ),
    ensures
        replace,
        forall|i: int|
            0 <= i < stored.len() ==> is_some_track_of(tracks, #[trigger] stored[i], fingerprint),
        forall|own: TrackId| #[trigger]
            tracks.contains_key(own) && tracks[own].origin is Local ==> exists|i: int|
                0 <= i < stored.len() && is_the_servers(
                    #[trigger] stored[i],
                    tracks[own],
                    fingerprint,
                ),
{
    let shared = shared_tracks(tracks);
    law_ids_are_listed(tracks.dom());
    let ids = ids_in_order(tracks.dom());
    let all = tracks_in_order(tracks);
    lemma_shared(tracks);
    assert(entries(list).len() == list.len());
    assert forall|i: int| 0 <= i < shared.len() implies is_the_servers(
        #[trigger] stored[i],
        shared[i],
        fingerprint,
    ) by {
        assert(entries(list)[i] == list[i]@);
        assert(shared.contains(shared[i]));
        let whole = stored[i].duration.total();
        if shared[i].duration.nanos < 1_000_000_000 && shared[i].duration.secs < 0xffff_ffff_ffff {
            lemma_same_millis(stored[i].duration, shared[i].duration);
        }
    }
    assert forall|i: int| 0 <= i < stored.len() implies is_some_track_of(
        tracks,
        #[trigger] stored[i],
        fingerprint,
    ) by {
        assert(shared.contains(shared[i]));
        assert(all.contains(shared[i]));
        let k = choose|k: int| 0 <= k < all.len() && all[k] == shared[i];
        assert(ids.contains(ids[k]));
        assert(tracks.contains_key(ids[k]));
        assert(is_the_servers(stored[i], tracks[ids[k]], fingerprint));
    }
    assert forall|own: TrackId| #[trigger]
        tracks.contains_key(own) && tracks[own].origin is Local implies exists|i: int|
        0 <= i < stored.len() && is_the_servers(#[trigger] stored[i], tracks[own], fingerprint) by {
        assert(ids.contains(own));
        let k = choose|k: int| 0 <= k < ids.len() && ids[k] == own;
        assert(all[k] == tracks[own]);
        assert(all.contains(tracks[own]));
        assert(shared.contains(tracks[own]));
        let i = choose|i: int| 0 <= i < shared.len() && shared[i] == tracks[own];
        assert(is_the_servers(stored[i], shared[i], fingerprint));
    }
}

proof fn lemma_same_millis(stored: Duration, own: Duration)
    requires
        stored.wf(),
        own.nanos < 1_000_000_000,
        own.secs < 0xffff_ffff_ffff,
        stored.total() == millis(own) * 1_000_000,
    ensures
        stored.secs == own.secs,
        stored.nanos / 1_000_000 == own.nanos / 1_000_000,
{
    let part = own.nanos as int / 1_000_000;
    assert(0 <= part < 1000);
    assert(millis(own) == own.secs * 1000 + part);
    assert(stored.secs * 1_000_000_000 + stored.nanos == own.secs * 1_000_000_000 + part
        * 1_000_000);
    assert(stored.nanos < 1_000_000_000);
    assert(0 <= part * 1_000_000 < 1_000_000_000);
    assert(stored.secs == own.secs);
}

/// A client that is let in and asks for a file gets the track whose path has the digest that it
/// asks by, and is told so where there is none.
pub proof fn law_requests_find_the_listed_file(
    server: ServerView,
    conn_id: usize,
    id: Seq<char>,
    tracks: Map<TrackId, Track>,
    cover: bool,
    lookup: Lookup,
)
    requires
        tracks.dom().finite(),
        server.admits(conn_id),
        server.looks_up(conn_id, id, tracks, cover, lookup),
    ensures
        lookup matches Lookup::Found(track) ==> digest_text(encoded(track.path@)) == id && exists|
            own: TrackId,
        | #[trigger] tracks.contains_key(own) && tracks[own] == *track,
        lookup is Refuse ==> forall|own: TrackId| #[trigger]
            tracks.contains_key(own) ==> digest_text(encoded(tracks[own].path@)) != id,
{
    law_ids_are_listed(tracks.dom());
    let ids = ids_in_order(tracks.dom());
    let all = tracks_in_order(tracks);
    lemma_with_remote_id(all, id);
    if let Lookup::Found(track) = lookup {
        let k = choose|k: int| 0 <= k < all.len() && all[k] == *track;
        assert(ids.contains(ids[k]));
        assert(tracks.contains_key(ids[k]) && tracks[ids[k]] == *track);
    } else {
        assert forall|own: TrackId| #[trigger] tracks.contains_key(own) implies digest_text(
            encoded(tracks[own].path@),
        ) != id by {
            assert(ids.contains(own));
            let k = choose|k: int| 0 <= k < ids.len() && ids[k] == own;
            assert(all[k] == tracks[own]);
        }
    }
}

proof fn lemma_with_remote_id(tracks: Seq<Track>, id: Seq<char>)
    ensures
        with_remote_id(tracks, id) matches Some(track) ==> tracks.contains(track) && digest_text(
            encoded(track.path@),
        ) == id,
        with_remote_id(tracks, id) is None ==> forall|k: int|
            0 <= k < tracks.len() ==> digest_text(encoded((#[trigger] tracks[k]).path@)) != id,
    decreases tracks.len(),
{
    if tracks.len() > 0 {
        let rest = tracks.skip(1);
        lemma_with_remote_id(rest, id);
        if let Some(track) = with_remote_id(tracks, id) {
            if digest_text(encoded(tracks[0].path@)) != id {
                let k = choose|k: int| 0 <= k < rest.len() && rest[k] == track;
                assert(tracks[k + 1] == track);
            } else {
                assert(tracks[0] == track);
            }
        } else {
            assert forall|k: int| 0 <= k < tracks.len() implies digest_text(
                encoded((#[trigger] tracks[k]).path@),
            ) != id by {
                if k > 0 {
                    assert(rest[k - 1] == tracks[k]);
                }
            }
        }
    }
}

/// A request for a file from an offset on gets the bytes from there to the end of the file;
/// one that names a length gets as many. They are handed on in steps, each of some bytes and of
/// no more than are left.
pub proof fn law_requests_get_the_rest_of_the_file(
    file_size: u64,
    offset: u64,
    length: u64,
    transfer: Transfer,
)
    ensures
        offset <= file_size ==> offset + stretch(file_size, offset, None) == file_size,
        offset > file_size ==> stretch(file_size, offset, None) == 0,
        stretch(file_size, offset, Some(length)) == length,
        0 <= transfer.next() <= transfer.remaining,
        transfer.remaining > 0 ==> transfer.next() > 0,
{
}

/// Whether a path is a folder's, or goes on behind it with a separator.
pub open spec fn goes_on_behind(root: Option<Seq<char>>, path: Seq<char>) -> bool {
    root matches Some(root) && root.len() <= path.len() && path.take(root.len() as int) == root && (
    path.len() == root.len() || path[root.len() as int] == '/')
}

/// What is handed out lies in a folder of the library: its path is the folder's, or goes on
/// behind the folder's with a separator. A folder whose name merely begins alike holds
/// nothing of it.
pub proof fn law_only_the_librarys_folders_are_open(
    path: Seq<char>,
    roots: Seq<Option<Seq<char>>>,
)
    requires
        forall|i: int|
            0 <= i < roots.len() ==> (#[trigger] roots[i] matches Some(root) ==> root.len() > 0
                && root.last() != '/'),
    ensures
        allowed(path, roots) <==> exists|i: int|
            0 <= i < roots.len() && #[trigger] goes_on_behind(roots[i], path),
{
    assert forall|i: int| 0 <= i < roots.len() implies holds(roots[i], path)
        == #[trigger] goes_on_behind(roots[i], path) by {
        if let Some(root) = roots[i] {
            let n = root.len() as int;
            let folder = root.push('/');
            if path == root {
                assert(path.take(n) =~= root);
            }
            if begins(path, folder) {
                assert(path.take(n) =~= folder.take(n));
                assert(folder.take(n) =~= root);
                assert(path.take(n + 1)[n] == folder[n]);
            }
            if n < path.len() && path.take(n) == root && path[n] == '/' {
                assert(path.take(n + 1) =~= folder);
            }
            if n == path.len() && path.take(n) == root {
                assert(path =~= root);
            }
        }
    }
    if allowed(path, roots) {
        let i = choose|i: int| 0 <= i < roots.len() && #[trigger] holds(roots[i], path);
        assert(goes_on_behind(roots[i], path));
    }
}

/// A server that listens on every address is reached at the addresses of version 4 of this
/// computer's real interfaces, in rising order and each once, on the port that it listens on.
pub proof fn law_servers_are_reached_at_real_addresses(
    bind: SocketAddr,
    interfaces: Seq<Interface>,
)
    requires
        bind.ip.unspecified(),
    ensures
        forall|k: int|
            0 <= k < reachable(bind, interfaces).len() ==> {
                let address = #[trigger] reachable(bind, interfaces)[k];
                address.port == bind.port && exists|i: int|
                    0 <= i < interfaces.len() && (#[trigger] interfaces[i]).ip == address.ip
                        && address.ip is V4 && !interfaces[i].loopback && !virtual_interface(
                        interfaces[i].name@,
                    )
            },
        forall|i: int|
            0 <= i < interfaces.len() && (#[trigger] interfaces[i]).ip is V4
                && !interfaces[i].loopback && !virtual_interface(interfaces[i].name@) ==> exists|
                k: int,
            |
                0 <= k < reachable(bind, interfaces).len() && (#[trigger] reachable(
                    bind,
                    interfaces,
                )[k]).ip == interfaces[i].ip,
        forall|j: int, k: int|
            0 <= j < k < reachable(bind, interfaces).len() ==> ((#[trigger] reachable(
                bind,
                interfaces,
            )[j]).ip->V4_0) < ((#[trigger] reachable(bind, interfaces)[k]).ip->V4_0),
{
    let found = real_addresses(interfaces);
    let less = |a: u32, b: u32| a < b;
    let sorted = sorted_by(found, less);
    let once = unrepeated(sorted);
    let list = reachable(bind, interfaces);
    lemma_real_addresses(interfaces);
    law_sorting_sorts(found, less);
    law_sorting_keeps_items(found, less);
    found.to_multiset_ensures();
    sorted.to_multiset_ensures();
    lemma_unrepeated_rises(sorted);
    assert(list.len() == once.len());
    assert forall|x: u32| sorted.contains(x) <==> found.contains(x) by {
        assert(sorted.to_multiset().contains(x) <==> found.to_multiset().contains(x));
    }
    assert forall|k: int| 0 <= k < list.len() implies {
        let address = #[trigger] list[k];
        address.port == bind.port && exists|i: int|
            0 <= i < interfaces.len() && (#[trigger] interfaces[i]).ip == address.ip
                && address.ip is V4 && !interfaces[i].loopback && !virtual_interface(
                interfaces[i].name@,
            )
    } by {
        assert(once.contains(once[k]));
        assert(found.contains(once[k]));
        assert(list[k].ip == IpAddr::V4(once[k]));
    }
    assert forall|i: int|
        0 <= i < interfaces.len() && (#[trigger] interfaces[i]).ip is V4 && !interfaces[i].loopback
            && !virtual_interface(interfaces[i].name@) implies exists|k: int|
        0 <= k < list.len() && (#[trigger] list[k]).ip == interfaces[i].ip by {
        let bits = interfaces[i].ip->V4_0;
        assert(found.contains(bits));
        assert(once.contains(bits));
        let k = choose|k: int| 0 <= k < once.len() && once[k] == bits;
        assert(list[k].ip == interfaces[i].ip);
    }
    assert forall|j: int, k: int| 0 <= j < k < list.len() implies ((#[trigger] list[j]).ip->V4_0)
        < ((#[trigger] list[k]).ip->V4_0) by {
        assert(once[j] < once[k]);
    }
}

proof fn lemma_real_addresses(interfaces: Seq<Interface>)
    ensures
        forall|bits: u32| #[trigger]
            real_addresses(interfaces).contains(bits) <==> exists|i: int|
                0 <= i < interfaces.len() && (#[trigger] interfaces[i]).ip == IpAddr::V4(bits)
                    && !interfaces[i].loopback && !virtual_interface(interfaces[i].name@),
    decreases interfaces.len(),
{
    if interfaces.len() > 0 {
        let rest = interfaces.drop_last();
        let before = real_addresses(rest);
        lemma_real_addresses(rest);
        let last = interfaces.last();
        assert(interfaces[interfaces.len() - 1] == last);
        assert forall|bits: u32| #[trigger] real_addresses(interfaces).contains(bits) <==> exists|
            i: int,
        |
            0 <= i < interfaces.len() && (#[trigger] interfaces[i]).ip == IpAddr::V4(bits)
                && !interfaces[i].loopback && !virtual_interface(interfaces[i].name@) by {
            if let IpAddr::V4(own) = last.ip {
                lemma_push_contains(before, own, bits);
            }
            if before.contains(bits) {
                let i = choose|i: int|
                    0 <= i < rest.len() && (#[trigger] rest[i]).ip == IpAddr::V4(bits)
                        && !rest[i].loopback && !virtual_interface(rest[i].name@);
                assert(interfaces[i] == rest[i]);
            }
            if exists|i: int|
                0 <= i < interfaces.len() && (#[trigger] interfaces[i]).ip == IpAddr::V4(bits)
                    && !interfaces[i].loopback && !virtual_interface(interfaces[i].name@) {
                let i = choose|i: int|
                    0 <= i < interfaces.len() && (#[trigger] interfaces[i]).ip == IpAddr::V4(bits)
                        && !interfaces[i].loopback && !virtual_interface(interfaces[i].name@);
                if i < rest.len() {
                    assert(rest[i] == interfaces[i]);
                }
            }
        }
    }
}

proof fn lemma_unrepeated_rises(sorted: Seq<u32>)
    requires
        forall|i: int, j: int| 0 <= i < j < sorted.len() ==> sorted[i] <= sorted[j],
    ensures
        forall|x: u32| #[trigger] unrepeated(sorted).contains(x) <==> sorted.contains(x),
        forall|i: int, j: int|
            0 <= i < j < unrepeated(sorted).len() ==> unrepeated(sorted)[i] < unrepeated(
                sorted,
            )[j],
        sorted.len() > 0 ==> unrepeated(sorted).len() > 0 && unrepeated(sorted).last()
            == sorted.last(),
    decreases sorted.len(),
{
    if sorted.len() > 0 {
        let rest = sorted.drop_last();
        let before = unrepeated(rest);
        let last = sorted.last();
        lemma_unrepeated_rises(rest);
        assert(sorted =~= rest.push(last));
        assert forall|x: u32| #[trigger] unrepeated(sorted).contains(x) <==> sorted.contains(x) by {
            lemma_push_contains(rest, last, x);
            lemma_push_contains(before, last, x);
            if sorted.len() > 1 && rest.last() == last {
                assert(before.contains(before.last()));
                assert(before[before.len() - 1] == last);
            }
        }
        if sorted.len() > 1 {
            assert(rest.last() == sorted[sorted.len() - 2]);
            assert(sorted[sorted.len() - 2] <= sorted[sorted.len() - 1]);
        }
    }
}

/// A computer that is named without a port is asked at the port that servers listen on; a port
/// that is named counts.
pub proof fn law_endpoints_have_a_port(endpoint: Seq<char>)
    ensures
        endpoint.contains(':') ==> with_port(endpoint) == endpoint,
        !endpoint.contains(':') ==> with_port(endpoint) == endpoint + ":1744"@,
{
    reveal_strlit(":");
    reveal_strlit(":1744");
    reveal_with_fuel(decimal, 5);
    assert(decimal(1744) =~= seq!['1', '7', '4', '4']);
    assert(":"@ + decimal(1744) =~= ":1744"@);
    assert(endpoint + ":"@ + decimal(1744) =~= endpoint + (":"@ + decimal(1744)));
}

/// What the player asks of a session reaches the server: the code that was typed, the wish to
/// scan again, and for a file or its artwork the identifier that the server listed it under,
/// with the length and the mark that it must have.
pub proof fn law_commands_reach_the_server(
    session: SessionView,
    server: ServerView,
    conn_id: usize,
    code: Seq<char>,
    remote_id: Seq<char>,
    file_size: u64,
    etag: Seq<char>,
    action: ControlAction,
)
    requires
        session.phase == SessionPhase::Running,
    ensures
        session.stepped(SessionEventView::Command(CommandView::Pair(code))).1 =~= seq![
            SessionActionView::Send(MessageView::Pair { code }),
        ],
        server.controls(conn_id, MessageView::Pair { code }, action) && code
            == server.pairing_code ==> action is StoreToken,
        session.stepped(SessionEventView::Command(CommandView::Rescan)).1 =~= seq![
            SessionActionView::Send(MessageView::Rescan),
        ],
        server.admits(conn_id) && server.controls(conn_id, MessageView::Rescan, action)
            ==> action is Rescan,
        session.stepped(
            SessionEventView::Command(CommandView::Fetch { remote_id, file_size, etag }),
        ).1 =~= seq![SessionActionView::Fetch { remote_id, file_size, etag }],
        session.stepped(SessionEventView::Command(CommandView::FetchCover { remote_id })).1
            =~= seq![SessionActionView::FetchCover { remote_id }],
        session.stepped(SessionEventView::Command(CommandView::Disconnect)).0.phase
            == SessionPhase::Over,
        session.stepped(SessionEventView::Command(CommandView::Disconnect)).1.contains(
            SessionActionView::Close,
        ),
{
    let closing = session.stepped(SessionEventView::Command(CommandView::Disconnect)).1;
    assert(closing[0] == SessionActionView::Close);
}

/// A session tells the player what the server says: who it is and whether it wants to be paired
/// with, the token that it gave out, its catalog, and its errors. A library that has changed is
/// read again.
pub proof fn law_sessions_pass_on_what_the_server_says(
    session: SessionView,
    server: ServerView,
    known: bool,
    revision: u64,
    token: Seq<char>,
    list: Seq<CatalogEntry>,
    removed: Seq<Seq<char>>,
    replace: bool,
    code: Seq<char>,
    text: Seq<char>,
)
    requires
        session.fingerprint == server.fingerprint,
    ensures
        session.phase == SessionPhase::Greeting ==> session.stepped(
            SessionEventView::Message(server.welcome(known, revision)),
        ).1[0] == SessionActionView::Emit(
            ToldView::Connected {
                server_name: server.server_name,
                fingerprint: server.fingerprint,
                revision,
                pair_required: !known,
            },
        ),
        session.phase == SessionPhase::Running ==> {
            &&& session.stepped(SessionEventView::Message(MessageView::Paired { token })).1[0]
                == SessionActionView::Emit(
                ToldView::Paired { token, fingerprint: server.fingerprint },
            )
            &&& session.stepped(
                SessionEventView::Message(
                    MessageView::Catalog { revision, tracks: list, removed, replace },
                ),
            ).1 =~= seq![
                SessionActionView::Emit(
                    ToldView::Catalog { revision, tracks: list, removed, replace },
                ),
            ]
            &&& session.stepped(
                SessionEventView::Message(MessageView::Error { code, message: text }),
            ).1 =~= seq![SessionActionView::Emit(ToldView::Error(text))]
            &&& session.stepped(
                SessionEventView::Message(MessageView::LibraryChanged { revision }),
            ).1 =~= seq![
                SessionActionView::Send(MessageView::GetCatalog { since_revision: None }),
            ]
        },
        session.phase == SessionPhase::Opening ==> (session.stepped(
            SessionEventView::Opened { fingerprint: Some(server.fingerprint) },
        ).1[0] matches SessionActionView::Send(MessageView::Hello { token: shown, .. }) && shown
            == session.token),
{
}

} // verus!
