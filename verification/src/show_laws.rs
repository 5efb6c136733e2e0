//! What the lists and texts of the screen show.

use vstd::prelude::*;
use vstd::seq_lib::*;
use vstd::string::*;

use crate::app::context::{number_or, opt_nat, properties_text};
use crate::app::state::AppView;
use crate::library::supported;
use crate::model::{clock_text, Track, TrackId};
use crate::order::text_less;
use crate::overlay::{lemma_listing, listing, name_key, PickerEntryView, PickerMode};
use crate::page::column_titles;
use crate::path::parent_of;
use crate::path_codec::shown_path;
use crate::soulseek::{best_slots, best_speed, lemma_of_user, of_user, speed_text, SoulseekHit};
use crate::text::{
    decimal, half_even, mebi_tenths, occurs, occurs_at, trimmed, white_space,
};

verus! {

/// The cells of a row of a playlist stand under the headings that name them: the number of the
/// track or else its place, the artist, the title, the album, the date where it is known, and
/// the time. A narrow table leaves out the album and the date. The row of the track that plays is
/// the one that says so.
pub proof fn law_cells_stand_under_their_headings(app: AppView, index: int, id: TrackId)
    requires
        0 <= index,
        app.shelf.tracks.contains_key(id),
    ensures
        ({
            let track = app.shelf.tracks[id];
            let wide = app.row_of(index, id, false);
            let narrow = app.row_of(index, id, true);
            let titles = column_titles(false, None);
            let few = column_titles(true, None);
            &&& titles.len() == wide.cells.len() == 7
            &&& few.len() == narrow.cells.len() == 5
            &&& titles[1] == "#"@ && few[1] == "#"@
            &&& wide.cells[1] == narrow.cells[1]
            &&& track.track_number matches Some(n) ==> wide.cells[1] == decimal(n as nat)
            &&& track.track_number is None ==> wide.cells[1] == decimal((index + 1) as nat)
            &&& titles[2] == "Artist"@ && wide.cells[2] == track.artist@
            &&& few[2] == "Artist"@ && narrow.cells[2] == track.artist@
            &&& titles[3] == "Title"@ && wide.cells[3] == track.title@
            &&& few[3] == "Title"@ && narrow.cells[3] == track.title@
            &&& titles[4] == "Album"@ && wide.cells[4] == track.album@
            &&& titles[5] == "Date"@
            &&& track.date matches Some(date) ==> wide.cells[5] == decimal(date as nat)
            &&& track.date is None ==> wide.cells[5].len() == 0
            &&& titles[6] == "Time"@ && wide.cells[6] == clock_text(track.duration.secs as nat)
            &&& few[4] == "Time"@ && narrow.cells[4] == wide.cells[6]
            &&& wide.playing <==> app.front.audio_snapshot.track_id == Some(id)
            &&& narrow.playing == wide.playing
        }),
{
}

/// The rows of a playlist are the items that the filter leaves, in their order, and those of the
/// queue the waiting tracks, in theirs.
pub proof fn law_rows_are_the_items(app: AppView, compact: bool)
    ensures
        app.playlist_rows(compact).len() == app.visible_items().len(),
        forall|k: int|
            0 <= k < app.visible_items().len() ==> #[trigger] app.playlist_rows(compact)[k]
                == app.row_of(
                app.visible_items()[k] as int,
                app.shelf.active().items[app.visible_items()[k] as int],
                compact,
            ),
        app.queue_rows(compact).len() == app.transport.queue.len(),
        forall|k: int|
            0 <= k < app.transport.queue.len() ==> #[trigger] app.queue_rows(compact)[k]
                == app.row_of(k, app.transport.queue[k], compact),
{
}

/// What ends a text stands in it.
proof fn lemma_ends_with(before: Seq<char>, word: Seq<char>, value: Seq<char>)
    ensures
        occurs(word + value, before + word + value),
{
    let needle = word + value;
    let hay = before + word + value;
    let at = before.len() as int;
    assert(hay.subrange(at, at + needle.len()) =~= needle);
    assert(occurs_at(needle, hay, at));
}

/// What stands in a text stands in every longer one.
proof fn lemma_goes_on(text: Seq<char>, more: Seq<char>)
    ensures
        forall|needle: Seq<char>|
            occurs(needle, text) ==> #[trigger] occurs(needle, text + more),
{
    assert forall|needle: Seq<char>| occurs(needle, text) implies #[trigger] occurs(
        needle,
        text + more,
    ) by {
        let at = choose|at: int| occurs_at(needle, text, at);
        assert((text + more).subrange(at, at + needle.len()) =~= text.subrange(
            at,
            at + needle.len(),
        ));
        assert(occurs_at(needle, text + more, at));
    }
}

/// The properties of a track name its title, artist, album, date, number, time, codec, rate,
/// channels, size, loudness and path, each behind the word for it.
pub proof fn law_properties_name_the_track(track: Track, gain: Seq<char>)
    ensures
        ({
            let text = properties_text(track, gain);
            &&& occurs("Title: "@ + track.title@, text)
            &&& occurs("\nArtist: "@ + track.artist@, text)
            &&& occurs("\nAlbum: "@ + track.album@, text)
            &&& track.date matches Some(n) ==> occurs("\nDate: "@ + decimal(n as nat), text)
            &&& track.track_number matches Some(n) ==> occurs(
                "\nTrack: "@ + decimal(n as nat),
                text,
            )
            &&& occurs("\nTime: "@ + clock_text(track.duration.secs as nat), text)
            &&& occurs("\nCodec: "@ + track.codec@, text)
            &&& track.sample_rate matches Some(n) ==> occurs(
                decimal(n as nat) + " Hz | "@,
                text,
            )
            &&& track.channels matches Some(n) ==> occurs(
                decimal(n as nat) + " ch\nSize: "@,
                text,
            )
            &&& occurs(decimal(track.file_size as nat) + " bytes\nReplayGain: "@, text)
            &&& occurs(" bytes\nReplayGain: "@ + gain, text)
            &&& occurs("\nPath: "@ + shown_path(track.path@), text)
        }),
{
    let date = number_or(opt_nat(track.date), "—"@);
    let number = number_or(opt_nat(track.track_number), "—"@);
    let time = clock_text(track.duration.secs as nat);
    let rate = number_or(opt_nat(track.sample_rate), "?"@);
    let channels = number_or(
        match track.channels {
            Some(n) => Some(n as nat),
            None => None,
        },
        "?"@,
    );
    let size = decimal(track.file_size as nat);
    let path = shown_path(track.path@);
    let t1 = "Title: "@ + track.title@;
    let t3 = t1 + "\nArtist: "@ + track.artist@;
    let t5 = t3 + "\nAlbum: "@ + track.album@;
    let t7 = t5 + "\nDate: "@ + date;
    let t9 = t7 + "\nTrack: "@ + number;
    let t11 = t9 + "\nTime: "@ + time;
    let t13 = t11 + "\nCodec: "@ + track.codec@;
    let t14 = t13 + " | "@;
    let t16 = t14 + rate + " Hz | "@;
    let t18 = t16 + channels + " ch\nSize: "@;
    let t20 = t18 + size + " bytes\nReplayGain: "@;
    let t21 = t20 + gain;
    let t23 = t21 + "\nPath: "@ + path;
    assert(t23 == properties_text(track, gain));
    assert(Seq::<char>::empty() + "Title: "@ =~= "Title: "@);
    lemma_ends_with(Seq::empty(), "Title: "@, track.title@);
    lemma_ends_with(t1, "\nArtist: "@, track.artist@);
    lemma_ends_with(t3, "\nAlbum: "@, track.album@);
    lemma_ends_with(t5, "\nDate: "@, date);
    lemma_ends_with(t7, "\nTrack: "@, number);
    lemma_ends_with(t9, "\nTime: "@, time);
    lemma_ends_with(t11, "\nCodec: "@, track.codec@);
    lemma_ends_with(t14, rate, " Hz | "@);
    lemma_ends_with(t16, channels, " ch\nSize: "@);
    lemma_ends_with(t18, size, " bytes\nReplayGain: "@);
    lemma_ends_with(t18 + size, " bytes\nReplayGain: "@, gain);
    lemma_ends_with(t21, "\nPath: "@, path);
    lemma_goes_on(t1, "\nArtist: "@);
    lemma_goes_on(t1 + "\nArtist: "@, track.artist@);
    lemma_goes_on(t3, "\nAlbum: "@);
    lemma_goes_on(t3 + "\nAlbum: "@, track.album@);
    lemma_goes_on(t5, "\nDate: "@);
    lemma_goes_on(t5 + "\nDate: "@, date);
    lemma_goes_on(t7, "\nTrack: "@);
    lemma_goes_on(t7 + "\nTrack: "@, number);
    lemma_goes_on(t9, "\nTime: "@);
    lemma_goes_on(t9 + "\nTime: "@, time);
    lemma_goes_on(t11, "\nCodec: "@);
    lemma_goes_on(t11 + "\nCodec: "@, track.codec@);
    lemma_goes_on(t13, " | "@);
    lemma_goes_on(t14, rate);
    lemma_goes_on(t14 + rate, " Hz | "@);
    lemma_goes_on(t16, channels);
    lemma_goes_on(t16 + channels, " ch\nSize: "@);
    lemma_goes_on(t18, size);
    lemma_goes_on(t18 + size, " bytes\nReplayGain: "@);
    lemma_goes_on(t20, gain);
    lemma_goes_on(t21, "\nPath: "@);
    lemma_goes_on(t21 + "\nPath: "@, path);
}

/// The whole number next to a fraction is at most half away from it.
proof fn lemma_half_even(num: nat, den: nat)
    requires
        0 < den,
    ensures
        2 * (half_even(num, den) * den - num) <= den,
        2 * (num - half_even(num, den) * den) <= den,
{
    vstd::arithmetic::div_mod::lemma_fundamental_div_mod(num as int, den as int);
    let q = (num / den) as int;
    assert(den * q == q * den) by (nonlinear_arith);
    assert((q + 1) * den == q * den + den) by (nonlinear_arith);
}

/// Whether a number of so many units of a part of a thing is the one nearest to a quantity.
pub open spec fn is_nearest(n: nat, unit: nat, quantity: nat, parts: nat) -> bool {
    &&& 2 * (n * unit - quantity * parts) <= unit
    &&& 2 * (quantity * parts - n * unit) <= unit
}

/// Speeds are shown in the unit that fits, rounded to the nearest figure: whole bytes below a
/// kibibyte, whole kibibytes below a mebibyte, and hundredths of a mebibyte from there on. An
/// unknown speed is a dash.
pub proof fn law_speeds_are_shown_in_their_unit(speed: nat)
    ensures
        speed == 0 ==> speed_text(speed) == "—"@,
        0 < speed < 1024 ==> speed_text(speed) == decimal(speed) + " B/s"@,
        1024 <= speed < 1_048_576 ==> exists|n: nat| #[trigger]
            is_nearest(n, 1024, speed, 1) && speed_text(speed) == decimal(n) + " KiB/s"@,
        1_048_576 <= speed ==> exists|n: nat| #[trigger]
            is_nearest(n, 1_048_576, speed, 100) && speed_text(speed) == decimal(n / 100) + "."@
                + decimal(n % 100 / 10) + decimal(n % 10) + " MiB/s"@,
{
    if 1024 <= speed < 1_048_576 {
        lemma_half_even(speed, 1024);
        let n = half_even(speed, 1024);
        assert(is_nearest(n, 1024, speed, 1));
    } else if 1_048_576 <= speed {
        lemma_half_even(speed * 100, 1_048_576);
        let n = half_even(speed * 100, 1_048_576);
        assert(is_nearest(n, 1_048_576, speed, 100));
    }
}

/// Sizes are shown in tenths of a mebibyte, rounded to the nearest.
pub proof fn law_sizes_are_shown_in_mebibytes(size: nat)
    ensures
        exists|n: nat| #[trigger]
            is_nearest(n, 1_048_576, size, 10) && mebi_tenths(size) == decimal(n / 10) + "."@
                + decimal(n % 10),
{
    lemma_half_even(size * 10, 1_048_576);
    let n = half_even(size * 10, 1_048_576);
    assert(is_nearest(n, 1_048_576, size, 10));
}

proof fn lemma_best(hits: Seq<SoulseekHit>)
    ensures
        0 <= best_speed(hits),
        0 <= best_slots(hits),
        forall|i: int| 0 <= i < hits.len() ==> (#[trigger] hits[i]).speed <= best_speed(hits),
        forall|i: int| 0 <= i < hits.len() ==> (#[trigger] hits[i]).slots <= best_slots(hits),
        best_speed(hits) > 0 ==> exists|i: int|
            0 <= i < hits.len() && (#[trigger] hits[i]).speed == best_speed(hits),
        best_slots(hits) > 0 ==> exists|i: int|
            0 <= i < hits.len() && (#[trigger] hits[i]).slots == best_slots(hits),
    decreases hits.len(),
{
    if hits.len() > 0 {
        let rest = hits.drop_last();
        lemma_best(rest);
        assert forall|i: int| 0 <= i < hits.len() implies (#[trigger] hits[i]).speed <= best_speed(
            hits,
        ) && hits[i].slots <= best_slots(hits) by {
            if i < rest.len() {
                assert(rest[i] == hits[i]);
            }
        }
        if best_speed(hits) > 0 {
            if hits.last().speed > best_speed(rest) {
                assert(hits[hits.len() - 1].speed == best_speed(hits));
            } else {
                let i = choose|i: int|
                    0 <= i < rest.len() && (#[trigger] rest[i]).speed == best_speed(rest);
                assert(hits[i].speed == best_speed(hits));
            }
        }
        if best_slots(hits) > 0 {
            if hits.last().slots > best_slots(rest) {
                assert(hits[hits.len() - 1].slots == best_slots(hits));
            } else {
                let i = choose|i: int|
                    0 <= i < rest.len() && (#[trigger] rest[i]).slots == best_slots(rest);
                assert(hits[i].slots == best_slots(hits));
            }
        }
    }
}

/// What is shown of a user is the highest speed and the most slots among that user's hits: no
/// hit of the user has more, and one has as much.
pub proof fn law_users_are_shown_at_their_best(hits: Seq<SoulseekHit>, user: Seq<char>)
    ensures
        forall|i: int|
            0 <= i < hits.len() && (#[trigger] hits[i]).username@ == user ==> hits[i].speed
                <= best_speed(of_user(hits, user)) && hits[i].slots <= best_slots(
                of_user(hits, user),
            ),
        best_speed(of_user(hits, user)) > 0 ==> exists|i: int|
            0 <= i < hits.len() && (#[trigger] hits[i]).username@ == user && hits[i].speed
                == best_speed(of_user(hits, user)),
        best_slots(of_user(hits, user)) > 0 ==> exists|i: int|
            0 <= i < hits.len() && (#[trigger] hits[i]).username@ == user && hits[i].slots
                == best_slots(of_user(hits, user)),
{
    let own = of_user(hits, user);
    lemma_of_user(hits, user);
    lemma_best(own);
    assert forall|i: int|
        0 <= i < hits.len() && (#[trigger] hits[i]).username@ == user implies hits[i].speed
        <= best_speed(own) && hits[i].slots <= best_slots(own) by {
        assert(own.contains(hits[i]));
        let k = choose|k: int| 0 <= k < own.len() && own[k] == hits[i];
        assert(own[k].speed <= best_speed(own));
        assert(own[k].slots <= best_slots(own));
    }
    if best_speed(own) > 0 {
        let k = choose|k: int| 0 <= k < own.len() && (#[trigger] own[k]).speed == best_speed(own);
        assert(own.contains(own[k]));
        let i = choose|i: int| 0 <= i < hits.len() && hits[i] == own[k];
        assert(hits[i].username@ == user);
    }
    if best_slots(own) > 0 {
        let k = choose|k: int| 0 <= k < own.len() && (#[trigger] own[k]).slots == best_slots(own);
        assert(own.contains(own[k]));
        let i = choose|i: int| 0 <= i < hits.len() && hits[i] == own[k];
        assert(hits[i].username@ == user);
    }
}

/// Whether a part of a text is white space.
pub open spec fn is_blank(text: Seq<char>, from: int, to: int) -> bool {
    forall|i: int| from <= i < to ==> white_space(#[trigger] text[i])
}

/// Where what trimming leaves stands in a text.
proof fn lemma_trimmed(text: Seq<char>) -> (at: int)
    ensures
        occurs_at(trimmed(text), text, at),
        is_blank(text, 0, at),
        is_blank(text, at + trimmed(text).len(), text.len() as int),
        trimmed(text).len() > 0 ==> !white_space(trimmed(text)[0]) && !white_space(
            trimmed(text).last(),
        ),
    decreases text.len(),
{
    let core = trimmed(text);
    let len = core.len() as int;
    if text.len() > 0 && white_space(text[0]) {
        let rest = text.drop_first();
        let at = lemma_trimmed(rest);
        assert(core == trimmed(rest));
        assert(text.subrange(at + 1, at + 1 + len) =~= rest.subrange(at, at + len));
        assert forall|i: int| 0 <= i < at + 1 implies white_space(#[trigger] text[i]) by {
            if i > 0 {
                assert(rest[i - 1] == text[i]);
            }
        }
        assert forall|i: int| at + 1 + len <= i < text.len() implies white_space(
            #[trigger] text[i],
        ) by {
            assert(rest[i - 1] == text[i]);
        }
        at + 1
    } else if text.len() > 0 && white_space(text.last()) {
        let rest = text.drop_last();
        let at = lemma_trimmed(rest);
        assert(core == trimmed(rest));
        assert(text.subrange(at, at + len) =~= rest.subrange(at, at + len));
        assert forall|i: int| 0 <= i < at implies white_space(#[trigger] text[i]) by {
            assert(rest[i] == text[i]);
        }
        assert forall|i: int| at + len <= i < text.len() implies white_space(
            #[trigger] text[i],
        ) by {
            if i < rest.len() {
                assert(rest[i] == text[i]);
            }
        }
        at
    } else {
        assert(core == text);
        assert(text.subrange(0, text.len() as int) =~= text);
        0
    }
}

/// Trimming takes white space away from both ends of a text, all of it, and nothing else.
pub proof fn law_trimming_takes_the_white_space(text: Seq<char>)
    ensures
        trimmed(text).len() > 0 ==> !white_space(trimmed(text)[0]) && !white_space(
            trimmed(text).last(),
        ),
        exists|at: int| #[trigger]
            occurs_at(trimmed(text), text, at) && is_blank(text, 0, at) && is_blank(
                text,
                at + trimmed(text).len(),
                text.len() as int,
            ),
{
    let at = lemma_trimmed(text);
    assert(occurs_at(trimmed(text), text, at));
}

/// Whether an entry of the file picker may stand before another: a folder before a file, and
/// otherwise by the names, letter case left aside.
pub open spec fn in_picker_order(a: PickerEntryView, b: PickerEntryView) -> bool {
    &&& b.is_dir ==> a.is_dir
    &&& a.is_dir == b.is_dir ==> !text_less(name_key(b.path), name_key(a.path))
}

/// The file picker lists the folder above and what the folder holds: every folder, and every
/// supported audio file where files are picked; nothing else. Folders come first, and each part is
/// in the order of the names.
pub proof fn law_the_picker_lists_what_can_be_picked(
    mode: PickerMode,
    directory: Seq<char>,
    found: Seq<PickerEntryView>,
)
    ensures
        ({
            let entries = listing(mode, directory, found);
            &&& forall|entry: PickerEntryView| #[trigger]
                entries.contains(entry) <==> {
                    ||| parent_of(directory) == Some(entry.path) && entry.is_dir
                    ||| found.contains(entry) && (entry.is_dir || (mode == PickerMode::Files
                        && supported(entry.path)))
                }
            &&& forall|i: int, j: int|
                0 <= i < j < entries.len() ==> in_picker_order(
                    #[trigger] entries[i],
                    #[trigger] entries[j],
                )
        }),
{
    lemma_listing(mode, directory, found);
}

} // verus!
