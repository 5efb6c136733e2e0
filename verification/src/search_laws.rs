//! What a search and a download are for.

use vstd::prelude::*;
use vstd::seq_lib::*;
use vstd::string::*;

use crate::app::flow::EffectView;
use crate::app::state::AppView;
use crate::library::audio_extension;
use crate::order::{
    concat_map, law_sorting_keeps_items, law_sorting_sorts, lemma_concat_locate,
    lemma_concat_split, sorted_by,
};
use crate::path::joined;
use crate::soulseek::{
    file_row, folder_part, folder_row, last_separator, name_part, user_row, SoulseekFilter,
    SoulseekFormat, SoulseekHit, SoulseekScope, SoulseekView, MAX_HITS,
};
use crate::soulseek_session::{
    better_hit, destination, downloads_folder, hits_of, is_audio_file, law_better_hits_sort,
    percent_done, picked_credentials, safe_component, search_hits, SearchFile, SearchResult,
    SoulseekCredentials,
};
use crate::text::{occurs, occurs_at, trimmed};

verus! {

/// Whether a hit is an audio file that a peer has answered with: its name, size and bitrate are
/// the file's, its slots and its speed the peer's, and its user the file's, or else the peer's.
pub open spec fn is_answer(hit: SoulseekHit, result: SearchResult, file: SearchFile) -> bool {
    &&& is_audio_file(file)
    &&& hit.name@ == file.name@
    &&& hit.size == file.size
    &&& hit.bitrate == file.bitrate
    &&& hit.slots == result.slots
    &&& hit.speed == result.speed
    &&& hit.username@ == if file.username@.len() > 0 { file.username@ } else { result.username@ }
}

/// Whether a hit is an audio file in one of the answers.
pub open spec fn is_answered(hit: SoulseekHit, results: Seq<SearchResult>) -> bool {
    exists|r: int, f: int|
        0 <= r < results.len() && 0 <= f < results[r].files@.len() && #[trigger] is_answer(
            hit,
            results[r],
            results[r].files@[f],
        )
}

/// A search shows audio files that peers have answered with, and nothing else: those with more
/// free slots first, then those with the higher bitrate, then the larger ones, and no more than
/// the limit.
pub proof fn law_searches_show_the_best_audio_files(results: Seq<SearchResult>, i: int, j: int)
    requires
        0 <= i < j < search_hits(results).len(),
    ensures
        ({
            let a = search_hits(results)[i];
            let b = search_hits(results)[j];
            let x: int = if a.bitrate is Some { a.bitrate->0 as int } else { 0 };
            let y: int = if b.bitrate is Some { b.bitrate->0 as int } else { 0 };
            &&& is_answered(a, results)
            &&& is_answered(b, results)
            &&& a.slots >= b.slots
            &&& a.slots == b.slots ==> x >= y
            &&& a.slots == b.slots && x == y ==> a.size >= b.size
        }),
        search_hits(results).len() <= MAX_HITS,
{
    let block = |result: SearchResult| hits_of(result);
    let less = |a: SoulseekHit, b: SoulseekHit| better_hit(a, b);
    let found = concat_map(results, block);
    let sorted = sorted_by(found, less);
    law_better_hits_sort();
    law_sorting_sorts(found, less);
    law_sorting_keeps_items(found, less);
    assert(search_hits(results)[i] == sorted[i]);
    assert(search_hits(results)[j] == sorted[j]);
    assert(!less(sorted[j], sorted[i]));
    lemma_answered(results, i);
    lemma_answered(results, j);
}

proof fn lemma_answered(results: Seq<SearchResult>, i: int)
    requires
        0 <= i < search_hits(results).len(),
    ensures
        is_answered(search_hits(results)[i], results),
{
    let block = |result: SearchResult| hits_of(result);
    let less = |a: SoulseekHit, b: SoulseekHit| better_hit(a, b);
    let found = concat_map(results, block);
    let sorted = sorted_by(found, less);
    let hit = search_hits(results)[i];
    law_sorting_keeps_items(found, less);
    sorted.to_multiset_ensures();
    found.to_multiset_ensures();
    assert(hit == sorted[i]);
    assert(sorted.contains(hit));
    assert(sorted.to_multiset().contains(hit));
    assert(found.to_multiset().contains(hit));
    let k = choose|k: int| 0 <= k < found.len() && found[k] == hit;
    let r = lemma_concat_locate(results, block, k);
    lemma_concat_split(results, block, r);
    let start = concat_map(results.take(r), block).len();
    let own = hits_of(results[r]);
    assert(found[k] == own[k - start]);
    let file = crate::soulseek_session::lemma_hit_file(results[r], k - start);
    let f = choose|f: int| 0 <= f < results[r].files@.len() && results[r].files@[f] == file;
    assert(is_answer(hit, results[r], results[r].files@[f]));
}

/// A remote file is told by what stands behind the last separator, and its folder by what stands
/// before it, whichever way the separators lean.
pub proof fn law_remote_names_are_taken_apart(folder: Seq<char>, separator: char, name: Seq<char>)
    requires
        separator == '\\' || separator == '/',
        !name.contains('\\'),
        !name.contains('/'),
    ensures
        name_part(folder.push(separator) + name) == name,
        folder_part(folder.push(separator) + name) == folder,
        name_part(name) == name,
        folder_part(name) == "."@,
{
    lemma_last_separator(folder, separator, name);
    lemma_no_separator(name);
    let whole = folder.push(separator) + name;
    assert(whole.skip(folder.len() as int + 1) =~= name);
    assert(whole.take(folder.len() as int) =~= folder);
    assert(name.skip(0) =~= name);
}

proof fn lemma_no_separator(name: Seq<char>)
    requires
        !name.contains('\\'),
        !name.contains('/'),
    ensures
        last_separator(name) == -1,
    decreases name.len(),
{
    if name.len() > 0 {
        let rest = name.drop_last();
        assert(name[name.len() - 1] == name.last());
        assert(!rest.contains('\\') && !rest.contains('/')) by {
            if rest.contains('\\') {
                let k = choose|k: int| 0 <= k < rest.len() && rest[k] == '\\';
                assert(name[k] == '\\');
            }
            if rest.contains('/') {
                let k = choose|k: int| 0 <= k < rest.len() && rest[k] == '/';
                assert(name[k] == '/');
            }
        }
        lemma_no_separator(rest);
    }
}

proof fn lemma_last_separator(folder: Seq<char>, separator: char, name: Seq<char>)
    requires
        separator == '\\' || separator == '/',
        !name.contains('\\'),
        !name.contains('/'),
    ensures
        last_separator(folder.push(separator) + name) == folder.len(),
    decreases name.len(),
{
    let whole = folder.push(separator) + name;
    if name.len() == 0 {
        assert(whole =~= folder.push(separator));
    } else {
        let rest = name.drop_last();
        assert(name[name.len() - 1] == name.last());
        assert(!rest.contains('\\') && !rest.contains('/')) by {
            if rest.contains('\\') {
                let k = choose|k: int| 0 <= k < rest.len() && rest[k] == '\\';
                assert(name[k] == '\\');
            }
            if rest.contains('/') {
                let k = choose|k: int| 0 <= k < rest.len() && rest[k] == '/';
                assert(name[k] == '/');
            }
        }
        lemma_last_separator(folder, separator, rest);
        assert(whole.drop_last() =~= folder.push(separator) + rest);
        assert(whole.last() == name.last());
    }
}

/// Downloads land in a folder for their album: the name of the folder that the peer keeps the
/// file in, below the folder for downloads. A file that lies in no folder lands there itself.
pub proof fn law_downloads_land_in_the_folder_of_their_album(
    root: Seq<char>,
    above: Seq<char>,
    separator: char,
    album: Seq<char>,
    other: char,
    name: Seq<char>,
)
    requires
        separator == '\\' || separator == '/',
        other == '\\' || other == '/',
        !name.contains('\\'),
        !name.contains('/'),
        album.len() > 0,
        trimmed(album) == album,
        album != "."@,
        album != ".."@,
        !album.contains('\\'),
        !album.contains('/'),
        !album.contains('\0'),
    ensures
        destination(root, above.push(separator) + album.push(other) + name) == joined(root, album),
        destination(root, album.push(other) + name) == joined(root, album),
        destination(root, name) == root,
        root.len() > 0 && root.last() != '/' ==> joined(root, album) =~= root.push('/') + album,
{
    let folder = above.push(separator) + album;
    let remote = above.push(separator) + album.push(other) + name;
    assert(remote =~= folder.push(other) + name);
    law_remote_names_are_taken_apart(folder, other, name);
    lemma_last_separator(folder, other, name);
    assert((folder.push(other) + name).take(folder.len() as int) =~= folder);
    law_remote_names_are_taken_apart(above, separator, album);
    lemma_last_separator(album, other, name);
    assert((album.push(other) + name).take(album.len() as int) =~= album);
    lemma_no_separator(album);
    lemma_no_separator(name);
    assert(album.skip(0) =~= album);
    assert(safe_component(album) =~= album) by {
        assert forall|k: int| 0 <= k < album.len() implies safe_component(album)[k] == album[k] by {
            assert(album.contains(album[k]));
        }
    }
    let none = Seq::<char>::empty();
    assert(!none.contains('\\') && !none.contains('/'));
    lemma_no_separator(none);
    assert(name_part(none) =~= none);
    assert(trimmed(none) =~= none);
    assert(safe_component(none) =~= none);
    assert(!(album[0] == '/')) by {
        assert(album.contains(album[0]));
    }
}

/// Downloads go to the first folder of the library; without one, to a folder beside the database.
pub proof fn law_downloads_go_to_the_library(data_dir: Seq<char>, roots: Seq<Seq<char>>)
    ensures
        roots.len() > 0 ==> downloads_folder(data_dir, roots) == roots[0],
        roots.len() == 0 && data_dir.len() > 0 && data_dir.last() != '/' ==> downloads_folder(
            data_dir,
            roots,
        ) =~= data_dir + "/soulseek"@,
{
    reveal_strlit("soulseek");
    reveal_strlit("/soulseek");
    assert("/soulseek"@ =~= seq!['/'] + "soulseek"@);
    assert(data_dir.push('/') + "soulseek"@ =~= data_dir + (seq!['/'] + "soulseek"@));
}

/// The formats share the audio files out: every extension that the library takes belongs to one
/// of them, and to one only. The choice of all lets everything through, and a filter for free
/// slots only hits that have one.
pub proof fn law_formats_share_out_the_audio_files(
    ext: Seq<char>,
    a: SoulseekFormat,
    b: SoulseekFormat,
    filter: SoulseekFilter,
    hit: SoulseekHit,
)
    ensures
        audio_extension(ext) <==> exists|format: SoulseekFormat|
            format != SoulseekFormat::All && #[trigger] format.has_extension(ext),
        a != SoulseekFormat::All && b != SoulseekFormat::All && a.has_extension(ext)
            && b.has_extension(ext) ==> a == b,
        SoulseekFormat::All.accepts(hit),
        filter.accepts(hit) ==> filter.format.accepts(hit),
        filter.accepts(hit) && filter.free_slot ==> hit.slots > 0,
        filter.format.accepts(hit) && hit.slots > 0 ==> filter.accepts(hit),
        SoulseekFormat::Flac.has_extension("flac"@),
        SoulseekFormat::Mp3.has_extension("mp3"@),
        SoulseekFormat::Ogg.has_extension("ogg"@),
        SoulseekFormat::Aac.has_extension("aac"@) && SoulseekFormat::Aac.has_extension("m4a"@),
        SoulseekFormat::Wav.has_extension("wav"@) && SoulseekFormat::Wav.has_extension("aiff"@),
{
    reveal_strlit("mp3");
    reveal_strlit("flac");
    reveal_strlit("wav");
    reveal_strlit("wave");
    reveal_strlit("ogg");
    reveal_strlit("oga");
    reveal_strlit("aac");
    reveal_strlit("m4a");
    reveal_strlit("mp4");
    reveal_strlit("alac");
    reveal_strlit("aif");
    reveal_strlit("aiff");
    assert("mp3"@[2] == '3' && "mp4"@[2] == '4' && "m4a"@[2] == 'a' && "aac"@[2] == 'c');
    assert("mp3"@[1] == 'p' && "aac"@[1] == 'a' && "aif"@[1] == 'i');
    assert("wav"@[0] == 'w' && "ogg"@[0] == 'o' && "oga"@[0] == 'o' && "aac"@[0] == 'a');
    assert("flac"@[0] == 'f' && "wave"@[0] == 'w' && "alac"@[1] == 'l' && "aiff"@[1] == 'i');
    assert("alac"@[0] == 'a' && "aiff"@[0] == 'a' && "aif"@[0] == 'a' && "mp4"@[0] == 'm');
    assert("mp3"@.len() == 3 && "flac"@.len() == 4 && "wave"@.len() == 4 && "alac"@.len() == 4
        && "aiff"@.len() == 4);
    assert("wav"@.len() == 3 && "ogg"@.len() == 3 && "oga"@.len() == 3 && "aac"@.len() == 3
        && "m4a"@.len() == 3 && "mp4"@.len() == 3 && "aif"@.len() == 3);
    assert("mp3"@[0] == 'm' && "m4a"@[0] == 'm' && "m4a"@[1] == '4');
    assert(SoulseekFormat::Mp3.has_extension(ext) == (ext == "mp3"@));
    assert(SoulseekFormat::Flac.has_extension(ext) == (ext == "flac"@));
    assert(SoulseekFormat::Wav.has_extension(ext) == (ext == "wav"@ || ext == "wave"@ || ext
        == "aif"@ || ext == "aiff"@));
    assert(SoulseekFormat::Ogg.has_extension(ext) == (ext == "ogg"@ || ext == "oga"@));
    assert(SoulseekFormat::Aac.has_extension(ext) == (ext == "aac"@ || ext == "m4a"@ || ext
        == "mp4"@ || ext == "alac"@));
}

/// What the session is told to download are the shown hits that were chosen, each from its own
/// user, under its own name and with its own size, in their order.
pub proof fn law_downloads_are_asked_of_their_users(app: AppView, scope: SoulseekScope, i: int)
    requires
        app.soulseek.session,
        0 <= i < app.soulseek.ui.scope_hits(scope).len(),
    ensures
        ({
            let hits = app.soulseek.ui.scope_hits(scope);
            let told = app.downloading(scope).outbox;
            &&& told.len() == app.outbox.len() + hits.len()
            &&& told.take(app.outbox.len() as int) =~= app.outbox
            &&& told[app.outbox.len() + i] == (EffectView::Download {
                username: hits[i].username@,
                name: hits[i].name@,
                size: hits[i].size,
            })
        }),
{
}

/// A search asks for what was typed, without the white space around it, and lets go of the hits
/// of the search before.
pub proof fn law_searches_ask_for_what_was_typed(app: AppView)
    requires
        app.soulseek.session,
    ensures
        trimmed(app.soulseek.ui.query).len() > 0 ==> app.searched().outbox == app.outbox.push(
            EffectView::Search(trimmed(app.soulseek.ui.query)),
        ) && app.searched().soulseek.ui.hits.len() == 0,
        trimmed(app.soulseek.ui.query).len() == 0 ==> app.searched() == app,
{
}

/// Credentials from the environment count where both are there; else the saved ones.
pub proof fn law_credentials_from_the_environment_count(
    user: Seq<char>,
    password: Seq<char>,
    saved: Option<SoulseekCredentials>,
)
    requires
        user.len() > 0,
        password.len() > 0,
    ensures
        picked_credentials(Some(user), Some(password), saved) == Some((user, password)),
        saved matches Some(kept) ==> picked_credentials(None, Some(password), saved) == Some(
            (kept.username@, kept.password@),
        ) && picked_credentials(Some(user), None, saved) == Some(
            (kept.username@, kept.password@),
        ),
        saved is None ==> picked_credentials(None, None, saved) is None,
{
}

/// A download is done by as many hundredths as it has bytes of the whole.
pub proof fn law_progress_is_in_hundredths(done: nat, total: nat)
    requires
        0 < total,
        done <= total,
        done * 100 <= u64::MAX,
    ensures
        0 <= percent_done(done, total) <= 100,
        percent_done(done, total) * total <= done * 100,
        done * 100 < (percent_done(done, total) + 1) * total,
        percent_done(total, total) == 100 || total * 100 > u64::MAX,
{
    vstd::arithmetic::div_mod::lemma_fundamental_div_mod((done * 100) as int, total as int);
    vstd::arithmetic::div_mod::lemma_mod_bound((done * 100) as int, total as int);
    let q = percent_done(done, total) as int;
    let d = done as int;
    let t = total as int;
    assert(q * t <= d * 100 < (q + 1) * t) by (nonlinear_arith)
        requires
            d * 100 == t * q + (d * 100) % t,
            0 <= (d * 100) % t < t,
    ;
    assert(q <= 100) by (nonlinear_arith)
        requires
            q * t <= d * 100,
            d <= t,
            t > 0,
    ;
    assert(100 * t / t == 100) by {
        vstd::arithmetic::div_mod::lemma_div_multiples_vanish(100, t);
    }
    assert(t * 100 == 100 * t);
}

/// On a file the scopes are that very file, the folder of its user that it is in, and everything of
/// its user; a folder of the same name at another user is not meant.
pub proof fn law_scopes_of_a_file(ui: SoulseekView, own: SoulseekHit, hit: SoulseekHit)
    requires
        ui.current() == Some(file_row(own)),
        own.username@.len() > 0,
    ensures
        ui.in_scope(SoulseekScope::File, hit) <==> hit.username@ == own.username@ && hit.name@
            == own.name@,
        ui.in_scope(SoulseekScope::Folder, hit) <==> hit.username@ == own.username@ && folder_part(
            hit.name@,
        ) == folder_part(own.name@),
        ui.in_scope(SoulseekScope::User, hit) <==> hit.username@ == own.username@,
        ui.in_scope(SoulseekScope::File, hit) ==> ui.in_scope(SoulseekScope::Folder, hit),
        ui.in_scope(SoulseekScope::Folder, hit) ==> ui.in_scope(SoulseekScope::User, hit),
{
}

/// On a folder and on a user the scopes are the folder and the user; no file is meant.
pub proof fn law_scopes_of_a_group(
    ui: SoulseekView,
    hits: Seq<SoulseekHit>,
    user: Seq<char>,
    folder: Seq<char>,
    hit: SoulseekHit,
)
    requires
        user.len() > 0,
    ensures
        ui.current() == Some(folder_row(hits, user, folder, ui.collapsed)) ==> {
            &&& !ui.in_scope(SoulseekScope::File, hit)
            &&& ui.in_scope(SoulseekScope::Folder, hit) <==> hit.username@ == user && folder_part(
                hit.name@,
            ) == folder
            &&& ui.in_scope(SoulseekScope::User, hit) <==> hit.username@ == user
        },
        ui.current() == Some(user_row(hits, user, ui.collapsed)) ==> {
            &&& !ui.in_scope(SoulseekScope::File, hit)
            &&& !ui.in_scope(SoulseekScope::Folder, hit)
            &&& ui.in_scope(SoulseekScope::User, hit) <==> hit.username@ == user
        },
{
}

/// The row of a file names the file and its user, and the rows of a folder and of a user name
/// those; a folded group has another mark than an open one.
pub proof fn law_rows_name_what_they_are(
    hits: Seq<SoulseekHit>,
    hit: SoulseekHit,
    user: Seq<char>,
    folder: Seq<char>,
    collapsed: Set<Seq<char>>,
)
    ensures
        file_row(hit).username == hit.username@,
        file_row(hit).label =~= "      "@ + name_part(hit.name@),
        file_row(hit).folder == Some(folder_part(hit.name@)),
        file_row(hit).hit == Some(hit),
        folder_row(hits, user, folder, collapsed).username == user,
        folder_row(hits, user, folder, collapsed).folder == Some(folder),
        occurs(folder, folder_row(hits, user, folder, collapsed).label),
        user_row(hits, user, collapsed).username == user,
        occurs(user, user_row(hits, user, collapsed).label),
{
    let f = folder_row(hits, user, folder, collapsed).label;
    let u = user_row(hits, user, collapsed).label;
    let a = f.len() - folder.len();
    let b = u.len() - user.len();
    assert(f.subrange(a, a + folder.len()) =~= folder);
    assert(occurs_at(folder, f, a));
    assert(u.subrange(b, b + user.len()) =~= user);
    assert(occurs_at(user, u, b));
}

} // verus!
