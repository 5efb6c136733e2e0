//! What paths, tags, drops and figures are read as.

use vstd::prelude::*;
use vstd::seq_lib::*;
use vstd::string::*;

use crate::app::flow::GainJob;
use crate::cover::artwork_source;
use crate::drop::{file_uri, hex_pair, reading, token_path, tokens, unescaped, Quote};
use crate::library::{
    audio_extension, audio_files, codec_text, fallback_from, known_at, scanned_from, still_known,
    supported, FileFacts, TagFacts,
};
use crate::model::{
    clock_text, title_from_path, ReplayGainMode, ReplayGainInfo, ScannedTrack, Track, TrackId,
    TrackOrigin,
};
use crate::order::{lemma_push_contains, text_less};
use crate::path::{
    extension_of, file_name_of, joined, last_index_of, lemma_last_index_of, parent_of, path_equal,
    stem_of, without_tail,
};
use crate::path_codec::shown_path;
use crate::replaygain::{albums, law_albums_hold_every_file, read_from_tag, GainTags};
use crate::split::{begins, behind};
use crate::storage::{stale_ids, LocalRow};
use crate::text::{
    ascii_lowercase, ascii_uppercase, decimal, lowercase, trimmed, white_space,
};
use crate::util::{stepped, wrapped};

verus! {

proof fn lemma_last_index_at(s: Seq<char>, c: char, at: int)
    requires
        0 <= at < s.len(),
        s[at] == c,
        forall|i: int| at < i < s.len() ==> s[i] != c,
    ensures
        last_index_of(s, c) == at,
{
    lemma_last_index_of(s, c);
    let found = last_index_of(s, c);
    if found < at {
        assert(s[at] != c);
    }
    if found > at {
        assert(s[found] != c);
    }
}

/// A path is taken apart at its last separator and at the last dot behind it: the file's name,
/// the name without its ending, and the ending. By the ending, letter case left aside, a file is
/// taken for audio, and it is listed as of that kind; without a tag it is called by the rest of
/// its name.
pub proof fn law_paths_are_taken_apart(folder: Seq<char>, stem: Seq<char>, ext: Seq<char>)
    requires
        stem.len() > 0,
        ext.len() > 0,
        !stem.contains('/'),
        !ext.contains('/'),
        !ext.contains('.'),
    ensures
        ({
            let name = stem.push('.') + ext;
            let path = folder.push('/') + name;
            &&& file_name_of(path) == Some(name)
            &&& stem_of(path) == Some(stem)
            &&& extension_of(path) == Some(ext)
            &&& supported(path) == audio_extension(ascii_lowercase(ext))
            &&& codec_text(path) == ascii_uppercase(shown_path(ext))
            &&& shown_path(stem).len() > 0 ==> title_from_path(path) == shown_path(stem)
        }),
{
    let name = stem.push('.') + ext;
    let path = folder.push('/') + name;
    let n = folder.len() as int;
    assert forall|i: int| n < i < path.len() implies path[i] != '/' by {
        let k = i - n - 1;
        assert(path[i] == name[k]);
        if k < stem.len() {
            assert(stem.contains(stem[k]));
        } else if k > stem.len() {
            assert(name[k] == ext[k - stem.len() - 1]);
            assert(ext.contains(ext[k - stem.len() - 1]));
        }
    }
    lemma_last_index_at(path, '/', n);
    assert(path.skip(n + 1) =~= name);
    assert(name.len() >= 3);
    assert forall|i: int| stem.len() < i < name.len() implies name[i] != '.' by {
        assert(name[i] == ext[i - stem.len() - 1]);
        assert(ext.contains(ext[i - stem.len() - 1]));
    }
    lemma_last_index_at(name, '.', stem.len() as int);
    assert(name.take(stem.len() as int) =~= stem);
    assert(name.skip(stem.len() as int + 1) =~= ext);
}

/// A name below a folder is its last part again.
pub proof fn law_names_are_put_below_folders(folder: Seq<char>, name: Seq<char>)
    requires
        folder.len() > 0,
        folder.last() != '/',
        name.len() > 0,
        !name.contains('/'),
        name != "."@,
        name != ".."@,
    ensures
        joined(folder, name) =~= folder.push('/') + name,
        file_name_of(joined(folder, name)) == Some(name),
{
    reveal_strlit(".");
    reveal_strlit("..");
    assert("."@ =~= seq!['.']);
    assert(".."@ =~= seq!['.', '.']);
    assert(name.contains(name[0]));
    let path = folder.push('/') + name;
    let n = folder.len() as int;
    assert forall|i: int| n < i < path.len() implies path[i] != '/' by {
        assert(path[i] == name[i - n - 1]);
        assert(name.contains(name[i - n - 1]));
    }
    lemma_last_index_at(path, '/', n);
    assert(path.skip(n + 1) =~= name);
}

/// What is below a folder has it as its parent.
pub proof fn law_folders_are_the_parents_of_what_is_below(folder: Seq<char>, name: Seq<char>)
    requires
        folder.len() > 1,
        folder.last() != '/',
        !(folder.last() == '.' && folder[folder.len() - 2] == '/'),
        name.len() > 0,
        !name.contains('/'),
        name != "."@,
    ensures
        parent_of(folder.push('/') + name) == Some(folder),
{
    reveal_strlit(".");
    assert("."@ =~= seq!['.']);
    let path = folder.push('/') + name;
    let n = folder.len() as int;
    assert forall|i: int| n < i < path.len() implies path[i] != '/' by {
        assert(path[i] == name[i - n - 1]);
        assert(name.contains(name[i - n - 1]));
    }
    assert(name.contains(name.last()));
    assert(path[path.len() - 1] == name.last());
    if path[path.len() - 1] == '.' && path[path.len() - 2] == '/' {
        assert(name.len() == 1);
        assert(name =~= seq!['.']);
    }
    assert(without_tail(path) == path);
    lemma_last_index_at(path, '/', n);
    assert(path.take(n + 1) =~= folder.push('/'));
    assert(folder.push('/').drop_last() =~= folder);
    assert(without_tail(folder) == folder);
    assert(without_tail(folder.push('/')) == without_tail(folder.push('/').drop_last()));
}

/// Whether a text says something and has no white space around it.
pub open spec fn says(text: Seq<char>) -> bool {
    text.len() > 0 && trimmed(text) == text
}

/// A scan takes every tag over under its own name: what the title, the artist and the album are,
/// and all figures. Where there is no artist or album, that is said.
pub proof fn law_tags_are_taken_over(
    track: ScannedTrack,
    path: Seq<char>,
    facts: FileFacts,
    tags: TagFacts,
)
    requires
        scanned_from(track, path, facts, tags),
    ensures
        track.path@ == path,
        tags.title matches Some(title) ==> (says(title@) ==> track.title@ == title@),
        tags.artist matches Some(artist) ==> (says(artist@) ==> track.artist@ == artist@),
        tags.album matches Some(album) ==> (says(album@) ==> track.album@ == album@),
        tags.title is None ==> track.title@ == title_from_path(path),
        tags.artist is None ==> track.artist@ == "Unknown artist"@,
        tags.album is None ==> track.album@ == "Unknown album"@,
        track.date == tags.date,
        track.track_number == tags.track_number,
        track.duration == tags.duration,
        track.sample_rate == tags.sample_rate,
        track.channels == tags.channels,
        track.replay_gain == tags.replay_gain,
        track.file_size == facts.file_size,
        track.modified_ns == facts.modified_ns,
        track.scan_error is None,
{
}

/// A file that cannot be read is listed all the same, as what it is and with what is wrong.
pub proof fn law_unreadable_files_are_listed(
    track: ScannedTrack,
    path: Seq<char>,
    facts: FileFacts,
    error: Seq<char>,
)
    requires
        fallback_from(track, path, facts, error),
    ensures
        track.path@ == path,
        track.title@ == title_from_path(path),
        track.file_size == facts.file_size,
        track.modified_ns == facts.modified_ns,
        track.scan_error matches Some(text) && text@ == error,
{
}

/// What the library knows of a track for the next scan is what the track is.
pub proof fn law_known_files_are_the_tracks(track: Track)
    ensures
        track.scanned().path == track.path,
        track.scanned().title == track.title,
        track.scanned().artist == track.artist,
        track.scanned().album == track.album,
        track.scanned().date == track.date,
        track.scanned().track_number == track.track_number,
        track.scanned().duration == track.duration,
        track.scanned().codec == track.codec,
        track.scanned().sample_rate == track.sample_rate,
        track.scanned().channels == track.channels,
        track.scanned().file_size == track.file_size,
        track.scanned().modified_ns == track.modified_ns,
        track.scanned().scan_error == track.scan_error,
        track.scanned().replay_gain == track.replay_gain,
{
}

/// A file is not read again while it has the length and the time of change that are known of
/// it, and is read again as soon as either is another.
pub proof fn law_changed_files_are_read_again(
    known: Seq<ScannedTrack>,
    path: Seq<char>,
    facts: FileFacts,
)
    ensures
        known_at(known, path) matches Some(track) ==> known.contains(track) && path_equal(
            track.path@,
            path,
        ) && (still_known(track, path, facts) <==> track.file_size == facts.file_size
            && track.modified_ns == facts.modified_ns),
        known_at(known, path) is None ==> forall|i: int|
            0 <= i < known.len() ==> !path_equal((#[trigger] known[i]).path@, path),
    decreases known.len(),
{
    if known.len() > 0 {
        let rest = known.drop_last();
        law_changed_files_are_read_again(rest, path, facts);
        assert(known[known.len() - 1] == known.last());
        if !path_equal(known.last().path@, path) {
            if let Some(track) = known_at(rest, path) {
                let k = choose|k: int| 0 <= k < rest.len() && rest[k] == track;
                assert(known[k] == track);
            } else {
                assert forall|i: int| 0 <= i < known.len() implies !path_equal(
                    (#[trigger] known[i]).path@,
                    path,
                ) by {
                    if i < rest.len() {
                        assert(rest[i] == known[i]);
                    }
                }
            }
        }
    }
}

/// Collected files stand in the order of their paths as they are shown, letter case left aside.
pub proof fn law_collected_files_are_in_order(found: Seq<Seq<char>>, i: int, j: int)
    requires
        0 <= i < j < audio_files(found).len(),
    ensures
        !text_less(
            lowercase(shown_path(audio_files(found)[j])),
            lowercase(shown_path(audio_files(found)[i])),
        ),
{
    crate::library::lemma_audio_files_sorted(found);
}

/// The files that go from the library are those that are stored and not kept, and no others.
pub proof fn law_disappeared_files_go(rows: Seq<LocalRow>, keep: Seq<Seq<char>>, id: TrackId)
    ensures
        stale_ids(rows, keep).contains(id) <==> exists|i: int|
            0 <= i < rows.len() && (#[trigger] rows[i]).id == id && !keep.contains(rows[i].path@),
    decreases rows.len(),
{
    if rows.len() > 0 {
        let rest = rows.drop_last();
        let before = stale_ids(rest, keep);
        law_disappeared_files_go(rest, keep, id);
        lemma_push_contains(before, rows.last().id, id);
        assert(rows[rows.len() - 1] == rows.last());
        if before.contains(id) {
            let i = choose|i: int|
                0 <= i < rest.len() && (#[trigger] rest[i]).id == id && !keep.contains(
                    rest[i].path@,
                );
            assert(rows[i] == rest[i]);
        }
        if exists|i: int|
            0 <= i < rows.len() && (#[trigger] rows[i]).id == id && !keep.contains(rows[i].path@) {
            let i = choose|i: int|
                0 <= i < rows.len() && (#[trigger] rows[i]).id == id && !keep.contains(
                    rows[i].path@,
                );
            if i < rest.len() {
                assert(rest[i] == rows[i]);
            }
        }
    }
}

/// A track's artwork is looked for in its own file, where that is here: the file on this
/// computer, or the one that was fetched whole from a server.
pub proof fn law_artwork_is_looked_for_in_the_file(
    track: Track,
    cache_dir: Seq<char>,
    is_file: bool,
    cached_len: Option<u64>,
)
    ensures
        track.origin is Local && is_file ==> artwork_source(track, cache_dir, is_file, cached_len)
            == Some(track.path@),
        track.origin is Local && !is_file ==> artwork_source(
            track,
            cache_dir,
            is_file,
            cached_len,
        ) is None,
        track.origin matches TrackOrigin::Remote { fingerprint, remote_id, .. } ==> {
            &&& cached_len == Some(track.file_size) ==> artwork_source(
                track,
                cache_dir,
                is_file,
                cached_len,
            ) == Some(joined(joined(cache_dir, fingerprint@), remote_id@))
            &&& cached_len != Some(track.file_size) ==> artwork_source(
                track,
                cache_dir,
                is_file,
                cached_len,
            ) is None
        },
{
}

/// The figures that a file is played at come from its tags: in the mode for tracks from the
/// track's tags, in the mode for albums from the album's, and a gain of the other scheme only
/// where there is none of this one.
pub proof fn law_tags_decide_the_loudness(tags: GainTags, info: ReplayGainInfo)
    requires
        call_ensures(read_from_tag, (tags,), info),
    ensures
        tags.track_gain is Some ==> info.chosen(ReplayGainMode::Track).0 == tags.track_gain,
        tags.track_gain is None && tags.r128_track_gain is Some ==> info.chosen(
            ReplayGainMode::Track,
        ).0 == tags.r128_track_gain,
        tags.track_peak is Some ==> info.chosen(ReplayGainMode::Track).1 == tags.track_peak,
        tags.album_gain is Some ==> info.chosen(ReplayGainMode::Album).0 == tags.album_gain,
        tags.album_gain is None && tags.r128_album_gain is Some ==> info.chosen(
            ReplayGainMode::Album,
        ).0 == tags.r128_album_gain,
        tags.album_peak is Some ==> info.chosen(ReplayGainMode::Album).1 == tags.album_peak,
{
}

/// Files that are measured together are by one artist and on one album, letter case left aside.
pub proof fn law_albums_are_measured_together(jobs: Seq<GainJob>, i: int, j: int, k: int)
    requires
        0 <= i < albums(jobs).len(),
        0 <= j < albums(jobs)[i].len(),
        0 <= k < albums(jobs)[i].len(),
    ensures
        lowercase(albums(jobs)[i][j].artist@) == lowercase(albums(jobs)[i][k].artist@),
        lowercase(albums(jobs)[i][j].album@) == lowercase(albums(jobs)[i][k].album@),
{
    law_albums_hold_every_file(jobs, i, j);
    law_albums_hold_every_file(jobs, i, k);
}

/// Times are shown as minutes and seconds, with the hours before them where there are any, and
/// with two digits for what stands behind a larger unit.
pub proof fn law_clocks_show_hours_minutes_and_seconds(h: nat, m: nat, s: nat)
    requires
        m < 60,
        s < 60,
    ensures
        ({
            let minutes = if m < 10 { "0"@ + decimal(m) } else { decimal(m) };
            let seconds = if s < 10 { "0"@ + decimal(s) } else { decimal(s) };
            &&& h > 0 ==> clock_text(h * 3600 + m * 60 + s) == decimal(h) + ":"@ + minutes + ":"@
                + seconds
            &&& clock_text(m * 60 + s) == decimal(m) + ":"@ + seconds
        }),
{
    let all = h * 3600 + m * 60 + s;
    assert(all / 3600 == h && all % 3600 == m * 60 + s);
    assert((m * 60 + s) / 60 == m && all % 60 == s);
    assert((m * 60 + s) / 3600 == 0 && (m * 60 + s) % 3600 == m * 60 + s);
    assert((m * 60 + s) % 60 == s);
}

/// A step in a list goes as far as it says and stops at the ends; a step in a ring goes on at the
/// other end.
pub proof fn law_steps_in_lists_and_rings(current: int, delta: int, len: int)
    requires
        0 <= current < len,
    ensures
        0 <= stepped(current, delta, len) < len,
        0 <= current + delta < len ==> stepped(current, delta, len) == current + delta,
        current + delta < 0 ==> stepped(current, delta, len) == 0,
        current + delta >= len ==> stepped(current, delta, len) == len - 1,
        0 <= current + delta < len ==> wrapped(current, delta, len) == current + delta,
        wrapped(len - 1, 1, len) == 0,
        wrapped(0, -1, len) == len - 1,
{
    if 0 <= current + delta < len {
        vstd::arithmetic::div_mod::lemma_small_mod((current + delta) as nat, len as nat);
    }
    vstd::arithmetic::div_mod::lemma_mod_self_0(len);
    vstd::arithmetic::div_mod::lemma_mod_add_multiples_vanish(-1, len);
    vstd::arithmetic::div_mod::lemma_small_mod((len - 1) as nat, len as nat);
}

/// Whether a character stands for itself in a token without quotes.
pub open spec fn is_plain(c: char) -> bool {
    !white_space(c) && c != '\'' && c != '"' && c != '\\'
}

/// Whether the end of a text stands in no quotes and behind no lone backslash.
pub open spec fn is_unquoted(text: Seq<char>) -> bool {
    !reading(text).escaped && (reading(text).open matches Some((quote, _)) ==> quote
        == Quote::Bare)
}

proof fn lemma_after_space(text: Seq<char>)
    requires
        is_unquoted(text),
    ensures
        reading(text.push(' ')).open is None,
        reading(text.push(' ')).done == tokens(text),
        !reading(text.push(' ')).escaped,
{
    assert(text.push(' ').drop_last() =~= text);
}

proof fn lemma_bare_word(text: Seq<char>, word: Seq<char>)
    requires
        is_unquoted(text),
        word.len() > 0,
        forall|i: int| 0 <= i < word.len() ==> is_plain(#[trigger] word[i]),
    ensures
        reading(text.push(' ') + word).open == Some((Quote::Bare, word)),
        reading(text.push(' ') + word).done == tokens(text),
        !reading(text.push(' ') + word).escaped,
    decreases word.len(),
{
    let whole = text.push(' ') + word;
    let rest = word.drop_last();
    assert(word.last() == word[word.len() - 1]);
    assert(whole.drop_last() =~= text.push(' ') + rest);
    assert(whole.last() == word.last());
    lemma_after_space(text);
    if rest.len() == 0 {
        assert(whole.drop_last() =~= text.push(' '));
        assert(word =~= seq![word.last()]);
    } else {
        assert forall|i: int| 0 <= i < rest.len() implies is_plain(#[trigger] rest[i]) by {
            assert(rest[i] == word[i]);
        }
        lemma_bare_word(text, rest);
        assert(word =~= rest.push(word.last()));
    }
}

/// Words that are dropped one behind the other are taken one by one.
pub proof fn law_words_are_tokens(text: Seq<char>, word: Seq<char>)
    requires
        is_unquoted(text),
        word.len() > 0,
        forall|i: int| 0 <= i < word.len() ==> is_plain(#[trigger] word[i]),
    ensures
        tokens(text.push(' ') + word) == tokens(text).push(word),
        tokens(word) == seq![word],
{
    lemma_bare_word(text, word);
    let none = Seq::<char>::empty();
    assert(tokens(none) =~= Seq::empty());
    lemma_bare_alone(word);
}

proof fn lemma_bare_alone(word: Seq<char>)
    requires
        word.len() > 0,
        forall|i: int| 0 <= i < word.len() ==> is_plain(#[trigger] word[i]),
    ensures
        reading(word).open == Some((Quote::Bare, word)),
        reading(word).done == Seq::<Seq<char>>::empty(),
        !reading(word).escaped,
        tokens(word) =~= seq![word],
    decreases word.len(),
{
    let rest = word.drop_last();
    assert(word.last() == word[word.len() - 1]);
    if rest.len() == 0 {
        assert(word =~= seq![word.last()]);
        assert(reading(rest).open is None);
    } else {
        assert forall|i: int| 0 <= i < rest.len() implies is_plain(#[trigger] rest[i]) by {
            assert(rest[i] == word[i]);
        }
        lemma_bare_alone(rest);
        assert(word =~= rest.push(word.last()));
    }
}

proof fn lemma_quoted(text: Seq<char>, passage: Seq<char>)
    requires
        is_unquoted(text),
        !passage.contains('\''),
    ensures
        reading(text.push(' ').push('\'') + passage).open == Some((Quote::Single, passage)),
        reading(text.push(' ').push('\'') + passage).done == tokens(text),
        !reading(text.push(' ').push('\'') + passage).escaped,
    decreases passage.len(),
{
    let lead = text.push(' ').push('\'');
    let whole = lead + passage;
    lemma_after_space(text);
    assert(lead.drop_last() =~= text.push(' '));
    assert(!white_space('\''));
    if passage.len() == 0 {
        assert(whole =~= lead);
        assert(passage =~= Seq::<char>::empty());
    } else {
        let rest = passage.drop_last();
        assert(!rest.contains('\'')) by {
            if rest.contains('\'') {
                let k = choose|k: int| 0 <= k < rest.len() && rest[k] == '\'';
                assert(passage[k] == '\'');
            }
        }
        lemma_quoted(text, rest);
        assert(whole.drop_last() =~= lead + rest);
        assert(passage[passage.len() - 1] == passage.last());
        assert(passage =~= rest.push(passage.last()));
    }
}

/// A passage in single quotes is taken as it is, white space and backslashes with it.
pub proof fn law_quoted_passages_are_tokens(text: Seq<char>, passage: Seq<char>)
    requires
        is_unquoted(text),
        passage.len() > 0,
        !passage.contains('\''),
    ensures
        tokens((text.push(' ').push('\'') + passage).push('\'')) == tokens(text).push(passage),
{
    let lead = text.push(' ').push('\'') + passage;
    lemma_quoted(text, passage);
    assert(lead.push('\'').drop_last() =~= lead);
}

/// The digit that a half of a byte is written with.
pub open spec fn half_digit(half: int) -> u8 {
    if half < 10 {
        (48 + half) as u8
    } else {
        (55 + half) as u8
    }
}

/// Bytes with each of them written as an escape.
pub open spec fn all_escaped(bytes: Seq<u8>) -> Seq<u8>
    decreases bytes.len(),
{
    if bytes.len() == 0 {
        Seq::empty()
    } else {
        seq![37u8, half_digit(bytes[0] as int / 16), half_digit(bytes[0] as int % 16)]
            + all_escaped(bytes.skip(1))
    }
}

/// Escapes stand for the bytes that they write.
pub proof fn law_escapes_are_undone(bytes: Seq<u8>)
    ensures
        unescaped(all_escaped(bytes)) == Some(bytes),
    decreases bytes.len(),
{
    if bytes.len() == 0 {
        assert(bytes =~= Seq::empty());
    } else {
        let rest = all_escaped(bytes.skip(1));
        let whole = all_escaped(bytes);
        law_escapes_are_undone(bytes.skip(1));
        assert(whole.skip(3) =~= rest);
        let high = bytes[0] as int / 16;
        let low = bytes[0] as int % 16;
        assert(0 <= high < 16 && 0 <= low < 16 && bytes[0] == high * 16 + low);
        assert(hex_pair(whole[1], whole[2]) == Some(bytes[0]));
        assert(seq![bytes[0]] + bytes.skip(1) =~= bytes);
    }
}

/// An address of a file names the path behind it, up to a question mark or a number sign; and a
/// path below the home folder is put below it.
pub proof fn law_file_addresses_name_their_path(
    path: Seq<char>,
    below: Seq<char>,
    home: Seq<char>,
)
    requires
        path.len() > 0,
        path[0] == '/',
        !path.contains('?'),
        !path.contains('#'),
    ensures
        file_uri("file://"@ + path) == Some(path),
        file_uri("file://localhost"@ + path) == Some(path),
        token_path("~/"@ + below, Some(home)) == Some(joined(home, below)),
        token_path("~"@, Some(home)) == Some(home),
        token_path(path, None) == Some(path),
{
    reveal_strlit("file:");
    reveal_strlit("FILE:");
    reveal_strlit("//");
    reveal_strlit("localhost");
    reveal_strlit("file://");
    reveal_strlit("file://localhost");
    reveal_strlit("~");
    reveal_strlit("~/");
    let plain = "file://"@ + path;
    let host = "file://localhost"@ + path;
    assert(plain.take(5) =~= "file:"@);
    assert(host.take(5) =~= "file:"@);
    assert(plain.skip(5) =~= "//"@ + path);
    assert(host.skip(5) =~= "//localhost"@ + path) by {
        reveal_strlit("//localhost");
    }
    reveal_strlit("//localhost");
    assert(("//"@ + path).take(2) =~= "//"@);
    assert(("//"@ + path).skip(2) =~= path);
    assert(("//localhost"@ + path).take(2) =~= "//"@);
    assert(("//localhost"@ + path).skip(2) =~= "localhost"@ + path);
    assert(("localhost"@ + path).take(9) =~= "localhost"@);
    assert(("localhost"@ + path).skip(9) =~= path);
    assert(!begins(path, "localhost"@)) by {
        if begins(path, "localhost"@) {
            assert(path.take(9)[0] == "localhost"@[0]);
        }
    }
    crate::drop::lemma_nothing_cut(path);
    let tilde = "~/"@ + below;
    assert(tilde.take(2) =~= "~/"@);
    assert(tilde.skip(2) =~= below);
    assert(tilde[0] == '~' && tilde.len() >= 2 && "~"@.len() == 1 && "~"@[0] == '~');
    crate::drop::lemma_no_file_uri(tilde);
    crate::drop::lemma_no_file_uri("~"@);
    crate::drop::lemma_no_file_uri(path);
    assert(!begins(path, "~/"@)) by {
        if begins(path, "~/"@) {
            assert(path.take(2)[0] == "~/"@[0]);
        }
    }
}

} // verus!
