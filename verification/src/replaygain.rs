//! Loudness: what tags say of it, and how albums are measured.

use vstd::prelude::*;
use vstd::string::*;

use crate::app::flow::{GainJob, ReplayGainEvent};
use crate::model::{first_known, ReplayGainInfo, TrackId};
use crate::order::{sort_stably, sorted_by, text_before, text_less};
use crate::split::{trim_ending, without_ending};
use crate::text::{lowercase, replace_char, replaced, same_text, to_lowercase, trim, trimmed};

verus! {

/// The number in a gain tag: without its unit and the white space, with a plain minus sign.
pub open spec fn gain_number(value: Seq<char>) -> Seq<char> {
    trimmed(
        without_ending(
            without_ending(without_ending(trimmed(replaced(value, '−', '-')), "dB"@), "db"@),
            "DB"@,
        ),
    )
}

/// Takes the number out of a gain tag.
pub fn gain_text(value: &str) -> (number: String)
    ensures
        number@ == gain_number(value@),
{
    let plain = replace_char(value, '−', '-');
    let core = trim(&plain);
    let core = trim_ending(&core, "dB");
    let core = trim_ending(&core, "db");
    let core = trim_ending(&core, "DB");
    trim(&core)
}

/// Loudness figures as a file's tags have them, each where it could be read: bit patterns of
/// single-precision numbers.
#[derive(Clone, Copy, Debug)]
pub struct GainTags {
    pub track_gain: Option<u32>,
    pub track_peak: Option<u32>,
    pub album_gain: Option<u32>,
    pub album_peak: Option<u32>,
    /// The gains of the other scheme, brought to the same reference.
    pub r128_track_gain: Option<u32>,
    pub r128_album_gain: Option<u32>,
}

/// What tags say of a file's loudness: a gain of the other scheme stands in for a missing one.
pub fn read_from_tag(tags: GainTags) -> (info: ReplayGainInfo)
    ensures
        info == (ReplayGainInfo {
            track_gain: first_known(tags.track_gain, tags.r128_track_gain),
            track_peak: tags.track_peak,
            album_gain: first_known(tags.album_gain, tags.r128_album_gain),
            album_peak: tags.album_peak,
        }),
{
    ReplayGainInfo {
        track_gain: match tags.track_gain {
            Some(gain) => Some(gain),
            None => tags.r128_track_gain,
        },
        track_peak: tags.track_peak,
        album_gain: match tags.album_gain {
            Some(gain) => Some(gain),
            None => tags.r128_album_gain,
        },
        album_peak: tags.album_peak,
    }
}

/// What the files of an album have in common: artist and album, letter case left aside.
pub open spec fn album_key(job: GainJob) -> (Seq<char>, Seq<char>) {
    (lowercase(job.artist@), lowercase(job.album@))
}

/// The order of albums.
pub open spec fn key_less(a: (Seq<char>, Seq<char>), b: (Seq<char>, Seq<char>)) -> bool {
    text_less(a.0, b.0) || (a.0 == b.0 && text_less(a.1, b.1))
}

pub open spec fn job_before(a: GainJob, b: GainJob) -> bool {
    key_less(album_key(a), album_key(b))
}

/// A list cut up where the album changes.
pub open spec fn album_runs(jobs: Seq<GainJob>) -> Seq<Seq<GainJob>>
    decreases jobs.len(),
{
    if jobs.len() == 0 {
        Seq::empty()
    } else {
        let before = album_runs(jobs.drop_last());
        if before.len() > 0 && before.last().len() > 0 && album_key(before.last().last())
            == album_key(jobs.last()) {
            before.drop_last().push(before.last().push(jobs.last()))
        } else {
            before.push(seq![jobs.last()])
        }
    }
}

/// The files to measure, album by album.
pub open spec fn albums(jobs: Seq<GainJob>) -> Seq<Seq<GainJob>> {
    album_runs(sorted_by(jobs, |a: GainJob, b: GainJob| job_before(a, b)))
}

pub open spec fn group_views(groups: Seq<Vec<GainJob>>) -> Seq<Seq<GainJob>> {
    groups.map_values(|group: Vec<GainJob>| group@)
}

fn same_album(a: &GainJob, b: &GainJob) -> (same: bool)
    ensures
        same == (album_key(*a) == album_key(*b)),
{
    let left = to_lowercase(&a.artist);
    let right = to_lowercase(&b.artist);
    if !same_text(&left, &right) {
        return false;
    }
    let left = to_lowercase(&a.album);
    let right = to_lowercase(&b.album);
    same_text(&left, &right)
}

/// Groups the files to measure by album.
pub fn group_jobs(jobs: Vec<GainJob>) -> (groups: Vec<Vec<GainJob>>)
    ensures
        group_views(groups@) == albums(jobs@),
{
    let mut sorted = jobs;
    let before = |a: &GainJob, b: &GainJob| -> (r: bool)
        ensures
            r == job_before(*a, *b),
        {
            let left = to_lowercase(&a.artist);
            let right = to_lowercase(&b.artist);
            if text_before(&left, &right) {
                true
            } else if same_text(&left, &right) {
                let left = to_lowercase(&a.album);
                let right = to_lowercase(&b.album);
                text_before(&left, &right)
            } else {
                false
            }
        };
    sort_stably(&mut sorted, before, Ghost(|a: GainJob, b: GainJob| job_before(a, b)));
    let ghost all = sorted@;
    let mut done: Vec<Vec<GainJob>> = Vec::new();
    let mut open: Vec<GainJob> = Vec::new();
    let mut i: usize = 0;
    while i < sorted.len()
        invariant
            i <= sorted@.len(),
            all == sorted@,
            i == 0 ==> open@.len() == 0 && done@.len() == 0,
            i > 0 ==> open@.len() > 0 && group_views(done@).push(open@) == album_runs(
                all.take(i as int),
            ),
        decreases sorted@.len() - i,
    {
        assert(all.take(i + 1).drop_last() =~= all.take(i as int));
        assert(all.take(0) =~= Seq::empty());
        let ghost runs = album_runs(all.take(i as int));
        let ghost earlier = done@;
        let ghost current = open@;
        let n: usize = open.len();
        if n > 0 && same_album(&open[n - 1], &sorted[i]) {
            assert(runs.last() == current);
            assert(runs.drop_last() =~= group_views(done@));
            open.push(sorted[i].clone());
        } else {
            if n > 0 {
                assert(runs.last() == current);
                let mut whole: Vec<GainJob> = Vec::new();
                core::mem::swap(&mut whole, &mut open);
                done.push(whole);
                assert(group_views(done@) =~= group_views(earlier).push(current));
            } else {
                assert(group_views(done@) =~= Seq::empty());
            }
            open.push(sorted[i].clone());
            assert(open@ =~= seq![all[i as int]]);
            assert(group_views(done@) =~= runs);
        }
        i = i + 1;
        assert(group_views(done@).push(open@) =~= album_runs(all.take(i as int)));
    }
    assert(all.take(i as int) =~= all);
    let ghost earlier = done@;
    if open.len() > 0 {
        done.push(open);
        assert(group_views(done@) =~= group_views(earlier).push(open@));
    } else {
        assert(group_views(done@) =~= Seq::empty());
    }
    done
}

/// The lists of a list, one behind the other.
pub open spec fn joined_runs(groups: Seq<Seq<GainJob>>) -> Seq<GainJob>
    decreases groups.len(),
{
    if groups.len() == 0 {
        Seq::empty()
    } else {
        joined_runs(groups.drop_last()) + groups.last()
    }
}

proof fn lemma_runs(jobs: Seq<GainJob>)
    ensures
        joined_runs(album_runs(jobs)) == jobs,
        forall|i: int, j: int|
            0 <= i < album_runs(jobs).len() && 0 <= j < album_runs(jobs)[i].len() ==> album_key(
                #[trigger] album_runs(jobs)[i][j],
            ) == album_key(album_runs(jobs)[i].last()),
        forall|i: int| 0 <= i < album_runs(jobs).len() ==> #[trigger] album_runs(jobs)[i].len() > 0,
    decreases jobs.len(),
{
    let runs = album_runs(jobs);
    if jobs.len() > 0 {
        let rest = jobs.drop_last();
        lemma_runs(rest);
        let before = album_runs(rest);
        assert(jobs =~= rest.push(jobs.last()));
        if before.len() > 0 && before.last().len() > 0 && album_key(before.last().last())
            == album_key(jobs.last()) {
            let grown = before.last().push(jobs.last());
            assert(runs.drop_last() =~= before.drop_last());
            assert(runs.last() == grown);
            assert(joined_runs(runs) =~= rest.push(jobs.last()));
            assert forall|i: int, j: int|
                0 <= i < runs.len() && 0 <= j < runs[i].len() implies album_key(
                #[trigger] runs[i][j],
            ) == album_key(runs[i].last()) by {
                if i < before.len() - 1 {
                    assert(runs[i] == before[i]);
                    assert(album_key(before[i][j]) == album_key(before[i].last()));
                } else {
                    assert(runs[i] == grown);
                    if j < before.last().len() {
                        assert(grown[j] == before[before.len() - 1][j]);
                    }
                }
            }
        } else {
            assert(runs.drop_last() =~= before);
            assert(joined_runs(runs) =~= rest.push(jobs.last()));
            assert forall|i: int, j: int|
                0 <= i < runs.len() && 0 <= j < runs[i].len() implies album_key(
                #[trigger] runs[i][j],
            ) == album_key(runs[i].last()) by {
                if i < before.len() {
                    assert(runs[i] == before[i]);
                    assert(album_key(before[i][j]) == album_key(before[i].last()));
                }
            }
        }
    }
}

/// Every file is measured once, with its album: the groups make up the files in the order of
/// their albums, and the files of a group belong to one album.
pub proof fn law_albums_hold_every_file(jobs: Seq<GainJob>, i: int, j: int)
    requires
        0 <= i < albums(jobs).len(),
        0 <= j < albums(jobs)[i].len(),
    ensures
        joined_runs(albums(jobs)).to_multiset() == jobs.to_multiset(),
        album_key(albums(jobs)[i][j]) == album_key(albums(jobs)[i][0]),
{
    let less = |a: GainJob, b: GainJob| job_before(a, b);
    let sorted = sorted_by(jobs, less);
    lemma_runs(sorted);
    crate::order::law_sorting_keeps_items(jobs, less);
    assert(album_key(album_runs(sorted)[i][j]) == album_key(album_runs(sorted)[i].last()));
    assert(album_key(album_runs(sorted)[i][0]) == album_key(album_runs(sorted)[i].last()));
}

/// What to do with a file while its album is measured.
#[derive(Clone, Copy, Debug, PartialEq, Eq, Structural)]
pub enum FeedPlan {
    /// The album's meter is made for this file and fed with it.
    Create,
    /// The album's meter is fed with it too.
    Feed,
    /// The file does not fit the album's meter.
    Skip,
}

/// The layout that an album is measured in: rate and channels of its first file.
#[derive(Clone, Copy, Debug)]
pub struct AlbumLayout {
    pub first: Option<(u32, u32)>,
}

impl AlbumLayout {
    pub fn new() -> (layout: AlbumLayout)
        ensures
            layout.first is None,
    {
        AlbumLayout { first: None }
    }

    /// Takes the next file of the album.
    pub fn next(&mut self, rate: u32, channels: u32) -> (plan: FeedPlan)
        ensures
            final(self).first == match old(self).first {
                Some(layout) => Some(layout),
                None => Some((rate, channels)),
            },
            plan == match old(self).first {
                None => FeedPlan::Create,
                Some(layout) => if layout == (rate, channels) {
                    FeedPlan::Feed
                } else {
                    FeedPlan::Skip
                },
            },
    {
        match self.first {
            None => {
                self.first = Some((rate, channels));
                FeedPlan::Create
            },
            Some((r, c)) => if r == rate && c == channels {
                FeedPlan::Feed
            } else {
                FeedPlan::Skip
            },
        }
    }
}

/// A pass over files that are measured.
#[derive(Clone, Copy, Debug, PartialEq, Eq, Structural)]
pub struct GainPass {
    pub scanned: usize,
    pub failed: usize,
}

impl GainPass {
    pub fn new() -> (pass: GainPass)
        ensures
            pass == (GainPass { scanned: 0, failed: 0 }),
    {
        GainPass { scanned: 0, failed: 0 }
    }

    /// What is told at the start.
    pub fn started(&self, total: usize) -> (event: ReplayGainEvent)
        ensures
            event == (ReplayGainEvent::Started { total }),
    {
        ReplayGainEvent::Started { total }
    }

    /// Counts a file that was measured. The length and the time of change are those of the
    /// file now, where they can be read.
    pub fn measured(
        &mut self,
        id: TrackId,
        path: String,
        info: ReplayGainInfo,
        file_size: Option<u64>,
        modified_ns: Option<i64>,
    ) -> (event: ReplayGainEvent)
        requires
            old(self).scanned < usize::MAX,
        ensures
            *final(self) == (GainPass { scanned: (old(self).scanned + 1) as usize, ..*old(self) }),
            event == (ReplayGainEvent::Track { id, info, path, file_size, modified_ns }),
    {
        self.scanned = self.scanned + 1;
        ReplayGainEvent::Track { id, info, path, file_size, modified_ns }
    }

    /// Counts an album that could not be measured: every one of its files failed.
    pub fn album_failed(&mut self, members: usize, error: &str) -> (events: Vec<ReplayGainEvent>)
        requires
            old(self).failed + members <= usize::MAX,
        ensures
            *final(self) == (GainPass { failed: (old(self).failed + members) as usize, ..*old(self) }),
            events@.len() == members,
            forall|i: int|
                0 <= i < members ==> (#[trigger] events@[i] matches ReplayGainEvent::Failed {
                    error: why,
                } && why@ == error@),
    {
        let mut events: Vec<ReplayGainEvent> = Vec::new();
        let mut i: usize = 0;
        while i < members
            invariant
                i <= members,
                events@.len() == i,
                forall|k: int|
                    0 <= k < i ==> (#[trigger] events@[k] matches ReplayGainEvent::Failed {
                        error: why,
                    } && why@ == error@),
            decreases members - i,
        {
            events.push(ReplayGainEvent::Failed { error: error.to_owned() });
            i = i + 1;
        }
        self.failed = self.failed + members;
        events
    }

    /// What is told at the end.
    pub fn finished(&self) -> (event: ReplayGainEvent)
        ensures
            event == (ReplayGainEvent::Finished { scanned: self.scanned, failed: self.failed }),
    {
        ReplayGainEvent::Finished { scanned: self.scanned, failed: self.failed }
    }
}

} // verus!
