//! The library's files.

use vstd::prelude::*;
use vstd::string::*;

use crate::app::flow::ScanEvent;
use crate::model::{fallback_title, title_from_path, ReplayGainInfo, ScannedTrack};
use crate::order::{lemma_filter_take, sort_stably, sorted_by, text_before, text_less, views};
use crate::path::{extension, extension_of, path_equal, same_path};
use crate::path_codec::{show_path, shown_path};
use crate::soulseek::opt_view;
use crate::text::{
    ascii_lowercase, ascii_uppercase, lowercase, same_text, to_ascii_lowercase, to_ascii_uppercase,
    to_lowercase, trim, trimmed,
};
use crate::time::Duration;

verus! {

/// The extensions of the audio files that the library takes, in lower case.
pub open spec fn audio_extension(ext: Seq<char>) -> bool {
    ||| ext == "mp3"@
    ||| ext == "flac"@
    ||| ext == "wav"@
    ||| ext == "wave"@
    ||| ext == "ogg"@
    ||| ext == "oga"@
    ||| ext == "aac"@
    ||| ext == "m4a"@
    ||| ext == "mp4"@
    ||| ext == "alac"@
    ||| ext == "aif"@
    ||| ext == "aiff"@
}

/// Whether a path has the extension of an audio file, letter case left aside.
pub open spec fn supported(path: Seq<char>) -> bool {
    match extension_of(path) {
        Some(ext) => audio_extension(ascii_lowercase(ext)),
        None => false,
    }
}

pub fn is_supported(path: &str) -> (audio: bool)
    ensures
        audio == supported(path@),
{
    match extension(path) {
        Some(ext) => {
            let ext = to_ascii_lowercase(&ext);
            same_text(&ext, "mp3") || same_text(&ext, "flac") || same_text(&ext, "wav")
                || same_text(&ext, "wave") || same_text(&ext, "ogg") || same_text(&ext, "oga")
                || same_text(&ext, "aac") || same_text(&ext, "m4a") || same_text(&ext, "mp4")
                || same_text(&ext, "alac") || same_text(&ext, "aif") || same_text(&ext, "aiff")
        },
        None => false,
    }
}

/// What kind of file a path names, by its extension.
pub open spec fn codec_text(path: Seq<char>) -> Seq<char> {
    match extension_of(path) {
        Some(ext) => ascii_uppercase(shown_path(ext)),
        None => "Unknown"@,
    }
}

pub fn codec_of(path: &str) -> (codec: String)
    ensures
        codec@ == codec_text(path@),
{
    match extension(path) {
        Some(ext) => to_ascii_uppercase(&show_path(&ext)),
        None => "Unknown".to_owned(),
    }
}

/// What the file system says of a file: its length, and when it was changed, in nanoseconds
/// since 1970.
#[derive(Clone, Copy, Debug, PartialEq, Eq, Structural)]
pub struct FileFacts {
    pub file_size: u64,
    pub modified_ns: i64,
}

/// A time in nanoseconds, as far as it can be written.
pub fn clamp_nanos(nanos: u128) -> (clamped: i64)
    ensures
        clamped == if nanos > i64::MAX {
            i64::MAX as int
        } else {
            nanos as int
        },
{
    if nanos > i64::MAX as u128 {
        i64::MAX
    } else {
        nanos as i64
    }
}

/// What a file's tags and its stream say.
#[derive(Debug)]
pub struct TagFacts {
    pub title: Option<String>,
    pub artist: Option<String>,
    pub album: Option<String>,
    pub date: Option<u32>,
    pub track_number: Option<u32>,
    pub duration: Duration,
    pub sample_rate: Option<u32>,
    pub channels: Option<u8>,
    pub replay_gain: ReplayGainInfo,
}

/// A tag without the white space around it, or what stands in where it says nothing.
pub open spec fn tag_text(value: Option<Seq<char>>, fallback: Seq<char>) -> Seq<char> {
    match value {
        Some(value) => if trimmed(value).len() > 0 {
            trimmed(value)
        } else {
            fallback
        },
        None => fallback,
    }
}

fn tag_or(value: &Option<String>, fallback: String) -> (text: String)
    ensures
        text@ == tag_text(opt_view(*value), fallback@),
{
    if let Some(value) = value {
        let value = trim(value);
        if !value.as_str().is_empty() {
            return value;
        }
    }
    fallback
}

/// What a file that can be read is listed as.
pub open spec fn scanned_from(
    track: ScannedTrack,
    path: Seq<char>,
    facts: FileFacts,
    tags: TagFacts,
) -> bool {
    &&& track.path@ == path
    &&& track.title@ == tag_text(opt_view(tags.title), title_from_path(path))
    &&& track.artist@ == tag_text(opt_view(tags.artist), "Unknown artist"@)
    &&& track.album@ == tag_text(opt_view(tags.album), "Unknown album"@)
    &&& track.date == tags.date
    &&& track.track_number == tags.track_number
    &&& track.duration == tags.duration
    &&& track.codec@ == codec_text(path)
    &&& track.sample_rate == tags.sample_rate
    &&& track.channels == tags.channels
    &&& track.file_size == facts.file_size
    &&& track.modified_ns == facts.modified_ns
    &&& track.scan_error is None
    &&& track.replay_gain == tags.replay_gain
}

/// Lists a file that can be read.
pub fn scan_file(path: &str, facts: FileFacts, tags: TagFacts) -> (track: ScannedTrack)
    ensures
        scanned_from(track, path@, facts, tags),
{
    let title = tag_or(&tags.title, fallback_title(path));
    let artist = tag_or(&tags.artist, "Unknown artist".to_owned());
    let album = tag_or(&tags.album, "Unknown album".to_owned());
    ScannedTrack {
        path: path.to_owned(),
        title,
        artist,
        album,
        date: tags.date,
        track_number: tags.track_number,
        duration: tags.duration,
        codec: codec_of(path),
        sample_rate: tags.sample_rate,
        channels: tags.channels,
        file_size: facts.file_size,
        modified_ns: facts.modified_ns,
        scan_error: None,
        replay_gain: tags.replay_gain,
    }
}

/// What a file that cannot be read is listed as.
pub open spec fn fallback_from(
    track: ScannedTrack,
    path: Seq<char>,
    facts: FileFacts,
    error: Seq<char>,
) -> bool {
    &&& track.path@ == path
    &&& track.title@ == title_from_path(path)
    &&& track.artist@ == "Unknown artist"@
    &&& track.album@ == "Unknown album"@
    &&& track.date is None
    &&& track.track_number is None
    &&& track.duration == Duration::zero()
    &&& track.codec@ == codec_text(path)
    &&& track.sample_rate is None
    &&& track.channels is None
    &&& track.file_size == facts.file_size
    &&& track.modified_ns == facts.modified_ns
    &&& opt_view(track.scan_error) == Some(error)
    &&& track.replay_gain == ReplayGainInfo::empty()
}

/// Lists a file that cannot be read: under its name, with what is wrong.
pub fn fallback_scanned_track(path: &str, facts: FileFacts, error: String) -> (track: ScannedTrack)
    ensures
        fallback_from(track, path@, facts, error@),
{
    ScannedTrack {
        path: path.to_owned(),
        title: fallback_title(path),
        artist: "Unknown artist".to_owned(),
        album: "Unknown album".to_owned(),
        date: None,
        track_number: None,
        duration: Duration::zero_span(),
        codec: codec_of(path),
        sample_rate: None,
        channels: None,
        file_size: facts.file_size,
        modified_ns: facts.modified_ns,
        scan_error: Some(error),
        replay_gain: ReplayGainInfo {
            track_gain: None,
            track_peak: None,
            album_gain: None,
            album_peak: None,
        },
    }
}

/// A server's listing of a file: a file that cannot be read is listed all the same, by its
/// length, which is zero where it is not known.
pub fn scan_or_fallback(
    path: &str,
    scanned: Result<ScannedTrack, String>,
    file_size: Option<u64>,
) -> (track: ScannedTrack)
    ensures
        match scanned {
            Ok(found) => track == found,
            Err(error) => fallback_from(
                track,
                path@,
                FileFacts {
                    file_size: match file_size {
                        Some(size) => size,
                        None => 0,
                    },
                    modified_ns: 0,
                },
                error@,
            ),
        },
{
    match scanned {
        Ok(track) => track,
        Err(error) => {
            let file_size: u64 = match file_size {
                Some(size) => size,
                None => 0,
            };
            fallback_scanned_track(path, FileFacts { file_size, modified_ns: 0 }, error)
        },
    }
}

/// Whether a path is listed before another: by how it is shown, in lower case.
pub open spec fn path_before(a: Seq<char>, b: Seq<char>) -> bool {
    text_less(lowercase(shown_path(a)), lowercase(shown_path(b)))
}

/// A list without texts that name the path before them again.
pub open spec fn unrepeated_paths(paths: Seq<Seq<char>>) -> Seq<Seq<char>>
    decreases paths.len(),
{
    if paths.len() == 0 {
        paths
    } else {
        let before = unrepeated_paths(paths.drop_last());
        if before.len() > 0 && path_equal(before.last(), paths.last()) {
            before
        } else {
            before.push(paths.last())
        }
    }
}

/// The audio files among what was found: in order, each once.
pub open spec fn audio_files(found: Seq<Seq<char>>) -> Seq<Seq<char>> {
    unrepeated_paths(
        sorted_by(
            found.filter(|path: Seq<char>| supported(path)),
            |a: Seq<char>, b: Seq<char>| path_before(a, b),
        ),
    )
}

proof fn lemma_place_paths(sorted: Seq<String>, x: String)
    ensures
        crate::order::place(sorted, x, |a: String, b: String| path_before(a@, b@))
            == crate::order::place(
            views(sorted),
            x@,
            |a: Seq<char>, b: Seq<char>| path_before(a, b),
        ),
    decreases sorted.len(),
{
    if sorted.len() > 0 {
        lemma_place_paths(sorted.drop_last(), x);
        assert(views(sorted).drop_last() =~= views(sorted.drop_last()));
        assert(views(sorted).last() == sorted.last()@);
    }
}

proof fn lemma_sorted_paths(items: Seq<String>)
    ensures
        views(sorted_by(items, |a: String, b: String| path_before(a@, b@))) == sorted_by(
            views(items),
            |a: Seq<char>, b: Seq<char>| path_before(a, b),
        ),
    decreases items.len(),
{
    let less = |a: String, b: String| path_before(a@, b@);
    if items.len() > 0 {
        lemma_sorted_paths(items.drop_last());
        let rest = sorted_by(items.drop_last(), less);
        let at = crate::order::place(rest, items.last(), less);
        assert(views(items).drop_last() =~= views(items.drop_last()));
        lemma_place_paths(rest, items.last());
        crate::order::lemma_place(rest, items.last(), less);
        assert(views(items).last() == items.last()@);
        assert(views(rest.insert(at, items.last())) =~= views(rest).insert(at, items.last()@));
    } else {
        assert(views(items) =~= Seq::empty());
        assert(views(sorted_by(items, less)) =~= Seq::empty());
    }
}

/// The audio files among those that were found.
pub fn collect_audio_files(found: Vec<String>) -> (files: Vec<String>)
    ensures
        views(files@) == audio_files(views(found@)),
{
    let ghost all = views(found@);
    let ghost keep = |path: Seq<char>| supported(path);
    let mut kept: Vec<String> = Vec::new();
    let mut i: usize = 0;
    proof {
        reveal(Seq::filter);
    }
    assert(views(kept@) =~= all.take(0).filter(keep));
    while i < found.len()
        invariant
            i <= found@.len(),
            all == views(found@),
            keep == (|path: Seq<char>| supported(path)),
            views(kept@) == all.take(i as int).filter(keep),
        decreases found@.len() - i,
    {
        proof {
            lemma_filter_take(all, keep, i as int);
        }
        let ghost earlier = kept@;
        if is_supported(&found[i]) {
            kept.push(found[i].clone());
            assert(views(kept@) =~= views(earlier).push(all[i as int]));
        }
        i = i + 1;
    }
    assert(all.take(i as int) =~= all);
    proof {
        lemma_sorted_paths(kept@);
    }
    let before = |a: &String, b: &String| -> (r: bool)
        ensures
            r == path_before(a@, b@),
        {
            let left = to_lowercase(&show_path(a));
            let right = to_lowercase(&show_path(b));
            text_before(&left, &right)
        };
    sort_stably(&mut kept, before, Ghost(|a: String, b: String| path_before(a@, b@)));
    let ghost sorted = views(kept@);
    let mut files: Vec<String> = Vec::new();
    let mut j: usize = 0;
    assert(views(files@) =~= unrepeated_paths(sorted.take(0)));
    while j < kept.len()
        invariant
            j <= kept@.len(),
            sorted == views(kept@),
            views(files@) == unrepeated_paths(sorted.take(j as int)),
        decreases kept@.len() - j,
    {
        assert(sorted.take(j + 1).drop_last() =~= sorted.take(j as int));
        assert(sorted.take(j + 1).last() == kept@[j as int]@);
        let ghost earlier = files@;
        assert(views(earlier).len() == earlier.len());
        let n: usize = files.len();
        if n == 0 || !same_path(&files[n - 1], &kept[j]) {
            files.push(kept[j].clone());
            assert(views(files@) =~= views(earlier).push(kept@[j as int]@));
        }
        j = j + 1;
    }
    assert(sorted.take(j as int) =~= sorted);
    files
}

proof fn lemma_unrepeated(paths: Seq<Seq<char>>)
    ensures
        forall|path: Seq<char>| #[trigger]
            unrepeated_paths(paths).contains(path) ==> paths.contains(path),
        forall|i: int|
            0 <= i < paths.len() ==> exists|k: int|
                0 <= k < unrepeated_paths(paths).len() && path_equal(
                    #[trigger] unrepeated_paths(paths)[k],
                    #[trigger] paths[i],
                ),
        forall|k: int|
            0 < k < unrepeated_paths(paths).len() ==> !path_equal(
                unrepeated_paths(paths)[k - 1],
                #[trigger] unrepeated_paths(paths)[k],
            ),
    decreases paths.len(),
{
    if paths.len() > 0 {
        let rest = paths.drop_last();
        let before = unrepeated_paths(rest);
        let all = unrepeated_paths(paths);
        lemma_unrepeated(rest);
        assert forall|path: Seq<char>| #[trigger] all.contains(path) implies paths.contains(
            path,
        ) by {
            let k = choose|k: int| 0 <= k < all.len() && all[k] == path;
            if k < before.len() {
                assert(before[k] == path);
                assert(before.contains(path));
                let i = choose|i: int| 0 <= i < rest.len() && rest[i] == path;
                assert(paths[i] == path);
            } else {
                assert(paths[paths.len() - 1] == path);
            }
        }
        assert forall|i: int| 0 <= i < paths.len() implies exists|k: int|
            0 <= k < all.len() && path_equal(#[trigger] all[k], #[trigger] paths[i]) by {
            if i < rest.len() {
                assert(rest[i] == paths[i]);
                let k = choose|k: int|
                    0 <= k < before.len() && path_equal(#[trigger] before[k], rest[i]);
                assert(all[k] == before[k]);
            } else if before.len() > 0 && path_equal(before.last(), paths.last()) {
                assert(path_equal(all[before.len() - 1], paths[i]));
            } else {
                assert(path_equal(all[before.len() as int], paths[i]));
            }
        }
        assert forall|k: int| 0 < k < all.len() implies !path_equal(
            all[k - 1],
            #[trigger] all[k],
        ) by {
            if k < before.len() {
                assert(before[k] == all[k] && before[k - 1] == all[k - 1]);
            }
        }
    }
}

/// Leaving repetitions out keeps the order.
proof fn lemma_unrepeated_sorted(paths: Seq<Seq<char>>)
    requires
        forall|i: int, j: int|
            0 <= i < j < paths.len() ==> !path_before(#[trigger] paths[j], #[trigger] paths[i]),
    ensures
        forall|i: int, j: int|
            0 <= i < j < unrepeated_paths(paths).len() ==> !path_before(
                #[trigger] unrepeated_paths(paths)[j],
                #[trigger] unrepeated_paths(paths)[i],
            ),
    decreases paths.len(),
{
    if paths.len() > 0 {
        let rest = paths.drop_last();
        let before = unrepeated_paths(rest);
        let all = unrepeated_paths(paths);
        assert forall|i: int, j: int| 0 <= i < j < rest.len() implies !path_before(
            #[trigger] rest[j],
            #[trigger] rest[i],
        ) by {
            assert(rest[i] == paths[i] && rest[j] == paths[j]);
        }
        lemma_unrepeated_sorted(rest);
        lemma_unrepeated(rest);
        assert forall|i: int, j: int| 0 <= i < j < all.len() implies !path_before(
            #[trigger] all[j],
            #[trigger] all[i],
        ) by {
            assert(all[i] == before[i]);
            if j < before.len() {
                assert(all[j] == before[j]);
            } else {
                assert(before.contains(before[i]));
                let k = choose|k: int| 0 <= k < rest.len() && rest[k] == before[i];
                assert(paths[k] == before[i] && paths[paths.len() - 1] == all[j]);
            }
        }
    }
}

/// Collected files are in order.
pub proof fn lemma_audio_files_sorted(found: Seq<Seq<char>>)
    ensures
        forall|i: int, j: int|
            0 <= i < j < audio_files(found).len() ==> !path_before(
                #[trigger] audio_files(found)[j],
                #[trigger] audio_files(found)[i],
            ),
{
    let less = |a: Seq<char>, b: Seq<char>| path_before(a, b);
    let kept = found.filter(|path: Seq<char>| supported(path));
    let sorted = sorted_by(kept, less);
    assert(crate::order::sorts(less)) by {
        assert forall|a: Seq<char>, b: Seq<char>| #[trigger] less(a, b) implies !less(b, a) by {
            crate::order::law_text_order(
                lowercase(shown_path(a)),
                lowercase(shown_path(b)),
                lowercase(shown_path(a)),
            );
        }
        assert forall|a: Seq<char>, b: Seq<char>, c: Seq<char>|
            (#[trigger] less(a, b)) && !(#[trigger] less(c, b)) implies less(a, c) by {
            let x = lowercase(shown_path(a));
            let y = lowercase(shown_path(b));
            let z = lowercase(shown_path(c));
            crate::order::law_text_order(x, y, z);
            crate::order::law_text_order(y, z, x);
            crate::order::law_text_order(z, y, x);
        }
    }
    crate::order::law_sorting_sorts(kept, less);
    assert forall|i: int, j: int| 0 <= i < j < sorted.len() implies !path_before(
        #[trigger] sorted[j],
        #[trigger] sorted[i],
    ) by {
        assert(!less(sorted[j], sorted[i]));
    }
    lemma_unrepeated_sorted(sorted);
}

/// Every audio file that was found is collected, under one of the texts that name it, and
/// nothing else is. No file follows itself.
pub proof fn law_every_audio_file_is_collected(found: Seq<Seq<char>>, path: Seq<char>)
    ensures
        audio_files(found).contains(path) ==> found.contains(path) && supported(path),
        found.contains(path) && supported(path) ==> exists|k: int|
            0 <= k < audio_files(found).len() && path_equal(
                #[trigger] audio_files(found)[k],
                path,
            ),
        forall|k: int|
            0 < k < audio_files(found).len() ==> !path_equal(
                audio_files(found)[k - 1],
                #[trigger] audio_files(found)[k],
            ),
{
    let keep = |path: Seq<char>| supported(path);
    let less = |a: Seq<char>, b: Seq<char>| path_before(a, b);
    let kept = found.filter(keep);
    let sorted = sorted_by(kept, less);
    lemma_unrepeated(sorted);
    crate::order::law_sorting_keeps_items(kept, less);
    sorted.to_multiset_ensures();
    kept.to_multiset_ensures();
    assert(sorted.contains(path) <==> kept.contains(path)) by {
        assert(sorted.to_multiset().contains(path) <==> kept.to_multiset().contains(path));
    }
    crate::order::lemma_filter_members(found, keep);
    if sorted.contains(path) {
        let i = choose|i: int| 0 <= i < sorted.len() && sorted[i] == path;
        assert(path_equal(sorted[i], path));
    }
}

/// Whether what is known of a file still holds: its length and the time of change are the same.
pub open spec fn still_known(track: ScannedTrack, path: Seq<char>, facts: FileFacts) -> bool {
    path_equal(track.path@, path) && track.file_size == facts.file_size && track.modified_ns
        == facts.modified_ns
}

/// What is known of the file at a path; the last of several entries counts.
pub open spec fn known_at(known: Seq<ScannedTrack>, path: Seq<char>) -> Option<ScannedTrack>
    decreases known.len(),
{
    if known.len() == 0 {
        None
    } else if path_equal(known.last().path@, path) {
        Some(known.last())
    } else {
        known_at(known.drop_last(), path)
    }
}

/// What is known of a file, where that still holds and the file need not be read again.
pub fn cached_scan(known: &Vec<ScannedTrack>, path: &str, facts: FileFacts) -> (track: Option<
    ScannedTrack,
>)
    ensures
        track == match known_at(known@, path@) {
            Some(found) => if still_known(found, path@, facts) {
                Some(found)
            } else {
                None
            },
            None => None,
        },
{
    let mut i: usize = known.len();
    assert(known@.take(i as int) =~= known@);
    while i > 0
        invariant
            i <= known@.len(),
            known_at(known@, path@) == known_at(known@.take(i as int), path@),
        decreases i,
    {
        assert(known@.take(i as int).drop_last() =~= known@.take(i - 1));
        i = i - 1;
        if same_path(&known[i].path, path) {
            let found = &known[i];
            return if found.file_size == facts.file_size && found.modified_ns
                == facts.modified_ns {
                Some(found.clone())
            } else {
                None
            };
        }
    }
    None
}

/// A pass over files.
#[derive(Clone, Copy, Debug, PartialEq, Eq, Structural)]
pub struct ScanPass {
    pub add_to_playlist: bool,
    pub discovered: usize,
    pub failed: usize,
}

impl ScanPass {
    pub fn new(add_to_playlist: bool) -> (pass: ScanPass)
        ensures
            pass == (ScanPass { add_to_playlist, discovered: 0, failed: 0 }),
    {
        ScanPass { add_to_playlist, discovered: 0, failed: 0 }
    }

    /// What is told at the start.
    pub fn started(&self, total: usize) -> (event: ScanEvent)
        ensures
            event == (ScanEvent::Started {
                total_hint: total,
                add_to_playlist: self.add_to_playlist,
            }),
    {
        ScanEvent::Started { total_hint: total, add_to_playlist: self.add_to_playlist }
    }

    /// Counts a file that could be read.
    pub fn read(&mut self, track: ScannedTrack) -> (event: ScanEvent)
        requires
            old(self).discovered < usize::MAX,
        ensures
            *final(self) == (ScanPass {
                discovered: (old(self).discovered + 1) as usize,
                ..*old(self)
            }),
            event == (ScanEvent::Track { track, add_to_playlist: old(self).add_to_playlist }),
    {
        self.discovered = self.discovered + 1;
        ScanEvent::Track { track, add_to_playlist: self.add_to_playlist }
    }

    /// Counts a file that could not be read. Where it is there at all, it is listed under its
    /// name before it is reported.
    pub fn unreadable(&mut self, path: &str, facts: Option<FileFacts>, error: &str) -> (events: Vec<
        ScanEvent,
    >)
        requires
            old(self).failed < usize::MAX,
        ensures
            *final(self) == (ScanPass { failed: (old(self).failed + 1) as usize, ..*old(self) }),
            events@.len() == if facts is Some {
                2int
            } else {
                1
            },
            facts matches Some(facts) ==> (events@[0] matches ScanEvent::Track {
                track,
                add_to_playlist,
            } && add_to_playlist == old(self).add_to_playlist && fallback_from(
                track,
                path@,
                facts,
                error@,
            )),
            events@.last() matches ScanEvent::Failed { path: at, error: why } && at@ == path@
                && why@ == error@,
    {
        self.failed = self.failed + 1;
        let mut events: Vec<ScanEvent> = Vec::new();
        if let Some(facts) = facts {
            let track = fallback_scanned_track(path, facts, error.to_owned());
            events.push(ScanEvent::Track { track, add_to_playlist: self.add_to_playlist });
        }
        events.push(ScanEvent::Failed { path: path.to_owned(), error: error.to_owned() });
        events
    }

    /// What is told at the end.
    pub fn finished(&self) -> (event: ScanEvent)
        ensures
            event == (ScanEvent::Finished { discovered: self.discovered, failed: self.failed }),
    {
        ScanEvent::Finished { discovered: self.discovered, failed: self.failed }
    }
}

} // verus!
