//! Adding files, scanning, and the file picker.

use vstd::prelude::*;
use vstd::string::*;

use crate::app::flow::{failed_with, Ask, Effect, EffectView, Flow, Next, ResolvedPath, ScanEvent};
use crate::app::playback::result_view;
use crate::app::state::{App, AppView, FrontView, ShelfView};
use crate::audio::AudioEngine;
use crate::model::{Track, TrackId};
use crate::order::{lemma_filter_members, views};
use crate::overlay::{
    picker_entries, Overlay, OverlayView, PathPicker, PickerEntry, PickerMode, PickerView,
};
use crate::path_codec::{show_path, shown_path};
use crate::text::{append_decimal, decimal};

verus! {

broadcast use vstd::std_specs::btree::group_btree_axioms;

/// The paths of a list.
pub open spec fn resolved_paths(paths: Seq<ResolvedPath>) -> Seq<Seq<char>> {
    paths.map_values(|p: ResolvedPath| p.path@)
}

/// The folders of a list.
pub open spec fn resolved_folders(paths: Seq<ResolvedPath>) -> Seq<Seq<char>> {
    paths.filter(|p: ResolvedPath| p.is_dir).map_values(|p: ResolvedPath| p.path@)
}

/// Every folder of a list is among its folders.
pub proof fn lemma_resolved_folders(found: Seq<ResolvedPath>)
    ensures
        forall|i: int|
            0 <= i < found.len() && (#[trigger] found[i]).is_dir ==> resolved_folders(
                found,
            ).contains(found[i].path@),
        (forall|i: int| 0 <= i < found.len() ==> !(#[trigger] found[i]).is_dir)
            ==> resolved_folders(found).len() == 0,
{
    let dir = |p: ResolvedPath| p.is_dir;
    let dirs = found.filter(dir);
    lemma_filter_members(found, dir);
    assert forall|i: int| 0 <= i < found.len() && (#[trigger] found[i]).is_dir implies
        resolved_folders(found).contains(found[i].path@) by {
        assert(dirs.contains(found[i]));
        let k = choose|k: int| 0 <= k < dirs.len() && dirs[k] == found[i];
        assert(resolved_folders(found)[k] == found[i].path@);
    }
    if forall|i: int| 0 <= i < found.len() ==> !(#[trigger] found[i]).is_dir {
        if dirs.len() > 0 {
            assert(dirs.contains(dirs[0]));
            let i = choose|i: int| 0 <= i < found.len() && found[i] == dirs[0];
            assert(!found[i].is_dir);
        }
    }
}

impl AppView {
    /// Files and folders scanned.
    pub open spec fn scanning(self, paths: Seq<Seq<char>>, add_to_playlist: bool) -> AppView {
        self.told(EffectView::Scan { paths, add_to_playlist, known: self.shelf.known_files() })
    }

    /// Paths to add; what they stand for is asked first.
    pub open spec fn paths_asked(self, paths: Seq<Seq<char>>, post: AppView, flow: Flow) -> bool {
        &&& post == self
        &&& if paths.len() == 0 {
            flow is Done
        } else {
            flow matches Flow::Ask(Ask::ResolvePaths { paths: asked }, Next::PathsResolved)
                && views(asked@) == paths
        }
    }

    /// What follows once it is known which paths are folders: those become library
    /// folders.
    pub open spec fn after_resolving(
        self,
        found: Seq<ResolvedPath>,
        post: AppView,
        flow: Flow,
    ) -> bool {
        if resolved_folders(found).len() == 0 {
            &&& flow is Done
            &&& post == self.scanning(resolved_paths(found), true).showing(OverlayView::Closed)
        } else {
            &&& post == self
            &&& flow matches Flow::Ask(
                Ask::AddRoots { paths: roots },
                Next::RootsAdded { paths },
            ) && views(roots@) == resolved_folders(found) && views(paths@) == resolved_paths(found)
        }
    }

    pub open spec fn after_roots(
        self,
        stored: Result<(), Seq<char>>,
        paths: Seq<Seq<char>>,
        post: AppView,
        flow: Flow,
    ) -> bool {
        match stored {
            Err(error) => post == self && failed_with(flow, error),
            Ok(()) => flow is Done && post == self.scanning(paths, true).showing(
                OverlayView::Closed,
            ),
        }
    }

    /// What is said when libraries are scanned again.
    pub open spec fn refreshing_text(local: bool, remote: bool) -> Seq<char> {
        if !local && !remote {
            "No library folders have been added"@
        } else {
            "Refreshing "@ + (if local && remote {
                "local and remote"@
            } else if local {
                "local"@
            } else {
                "remote"@
            }) + " library…"@
        }
    }

    /// The libraries scanned again: the local folders, and the server's.
    pub open spec fn rescanned(self, roots: Result<Seq<Seq<char>>, Seq<char>>) -> AppView {
        match roots {
            Err(error) => self.said("Error: "@ + error),
            Ok(roots) => {
                let local = if roots.len() > 0 {
                    self.scanning(roots, false)
                } else {
                    self
                };
                let both = if self.link.remote {
                    local.told(EffectView::RescanRemote)
                } else {
                    local
                };
                both.said(AppView::refreshing_text(roots.len() > 0, self.link.remote))
            },
        }
    }

    pub open spec fn with_progress(self, seen: int, progress: Option<(usize, usize)>) -> AppView {
        AppView {
            front: FrontView { scan_seen: seen, scan_progress: progress, ..self.front },
            ..self
        }
    }

    /// What follows an event of a scan.
    pub open spec fn scan_followed(self, event: ScanEvent, post: AppView, flow: Flow) -> bool {
        match event {
            ScanEvent::Started { total_hint, add_to_playlist } => {
                &&& flow is Done
                &&& post == self.with_progress(0, Some((0, total_hint))).said(
                    if add_to_playlist {
                        "Adding "@ + decimal(total_hint as nat) + " files…"@
                    } else {
                        "Refreshing "@ + decimal(total_hint as nat) + " library files…"@
                    },
                )
            },
            ScanEvent::Track { track, add_to_playlist } => {
                let seen = counted_up(self.front.scan_seen);
                &&& post == self.with_progress(
                    seen,
                    match self.front.scan_progress {
                        Some((_, total)) => Some((seen as usize, total)),
                        None => None,
                    },
                )
                &&& flow matches Flow::Ask(Ask::UpsertTrack(asked), Next::TrackStored { add })
                    && asked == track && add == add_to_playlist
            },
            ScanEvent::Failed { path, error } => {
                &&& flow is Done
                &&& post == self.said("Skipped "@ + shown_path(path@) + ": "@ + error@)
            },
            ScanEvent::Finished { discovered, failed } => {
                &&& flow is Done
                &&& post == self.with_progress(self.front.scan_seen, None).said(
                    "Library scan complete: "@ + decimal(discovered as nat) + " tracks, "@
                        + decimal(failed as nat) + " skipped"@,
                )
            },
        }
    }

    pub open spec fn with_track(self, track: Track) -> AppView {
        AppView {
            shelf: ShelfView { tracks: self.shelf.tracks.insert(track.id, track), ..self.shelf },
            ..self
        }
    }

    /// What follows once a scanned track has been stored.
    pub open spec fn after_track(
        self,
        stored: Result<Track, Seq<char>>,
        add: bool,
        post: AppView,
        flow: Flow,
    ) -> bool {
        match stored {
            Err(error) => post == self && failed_with(flow, error),
            Ok(track) => if add {
                self.with_track(track).tracks_added(
                    self.shelf.active_playlist,
                    seq![track.id],
                    false,
                    post,
                    flow,
                )
            } else {
                post == self.with_track(track) && flow is Done
            },
        }
    }

    /// The entry under the picker's cursor opened: a folder is listed, a file added.
    pub open spec fn entry_opened(self, post: AppView, flow: Flow) -> bool {
        match self.front.overlay {
            OverlayView::PathPicker(picker) => {
                if picker.selected < 0 || picker.selected >= picker.entries.len() {
                    post == self && flow is Done
                } else {
                    let entry = picker.entries[picker.selected];
                    if entry.is_dir {
                        &&& post == self.showing(
                            OverlayView::PathPicker(
                                PickerView { directory: entry.path, selected: 0, ..picker },
                            ),
                        )
                        &&& flow matches Flow::Ask(
                            Ask::ListFolder { directory: Some(asked) },
                            Next::PickerListed,
                        ) && asked@ == entry.path
                    } else if picker.mode == PickerMode::Files {
                        self.paths_asked(seq![entry.path], post, flow)
                    } else {
                        post == self && flow is Done
                    }
                }
            },
            _ => post == self && flow is Done,
        }
    }

    /// The picker's own folder added.
    pub open spec fn folder_chosen(self, post: AppView, flow: Flow) -> bool {
        match self.front.overlay {
            OverlayView::PathPicker(picker) => if picker.mode == PickerMode::Folder {
                self.paths_asked(seq![picker.directory], post, flow)
            } else {
                post == self && flow is Done
            },
            _ => post == self && flow is Done,
        }
    }

    /// The picker once its folder has been listed.
    pub open spec fn picker_listed(
        self,
        found: Seq<crate::overlay::PickerEntryView>,
    ) -> AppView {
        match self.front.overlay {
            OverlayView::PathPicker(picker) => self.showing(
                OverlayView::PathPicker(
                    PickerView { entries: Seq::empty(), ..picker }.refreshed(found),
                ),
            ),
            _ => self,
        }
    }
}

/// One more, unless the largest number is reached.
pub open spec fn counted_up(n: int) -> int {
    if n >= usize::MAX {
        usize::MAX as int
    } else {
        n + 1
    }
}

impl<E: AudioEngine> App<E> {
    /// Scans files and folders.
    pub fn begin_scan(&mut self, paths: Vec<String>, add_to_playlist: bool)
        ensures
            final(self)@ == old(self)@.scanning(views(paths@), add_to_playlist),
    {
        let known = self.shelf.known_files();
        self.outbox.tell(Effect::Scan { paths, add_to_playlist, known });
    }

    /// Adds files and folders.
    pub fn add_paths(&self, paths: Vec<String>) -> (flow: Flow)
        ensures
            self@.paths_asked(views(paths@), self@, flow),
    {
        assert(views(paths@).len() == paths@.len());
        if paths.len() == 0 {
            return Flow::Done;
        }
        Flow::Ask(Ask::ResolvePaths { paths }, Next::PathsResolved)
    }

    /// Goes on once it is known which paths are folders.
    pub fn paths_resolved(&mut self, found: Vec<ResolvedPath>) -> (flow: Flow)
        ensures
            old(self)@.after_resolving(found@, final(self)@, flow),
    {
        let ghost p = |p: ResolvedPath| p.is_dir;
        let ghost f = |p: ResolvedPath| p.path@;
        let mut paths: Vec<String> = Vec::new();
        let mut roots: Vec<String> = Vec::new();
        let mut i: usize = 0;
        proof {
            reveal(Seq::filter);
        }
        assert(views(roots@) =~= found@.take(0).filter(p).map_values(f));
        assert(views(paths@) =~= found@.take(0).map_values(f));
        while i < found.len()
            invariant
                i <= found@.len(),
                p == (|p: ResolvedPath| p.is_dir),
                f == (|p: ResolvedPath| p.path@),
                views(paths@) == found@.take(i as int).map_values(f),
                views(roots@) == found@.take(i as int).filter(p).map_values(f),
                self@ == old(self)@,
            decreases found@.len() - i,
        {
            proof {
                crate::order::lemma_filter_take(found@, p, i as int);
            }
            let ghost old_paths = views(paths@);
            let ghost old_roots = views(roots@);
            paths.push(found[i].path.clone());
            assert(views(paths@) =~= old_paths.push(f(found@[i as int])));
            if found[i].is_dir {
                roots.push(found[i].path.clone());
                assert(views(roots@) =~= old_roots.push(f(found@[i as int])));
            }
            i = i + 1;
            assert(views(paths@) =~= found@.take(i as int).map_values(f));
            assert(views(roots@) =~= found@.take(i as int).filter(p).map_values(f));
        }
        assert(found@.take(i as int) =~= found@);
        assert(views(roots@).len() == roots@.len());
        if roots.len() == 0 {
            self.begin_scan(paths, true);
            self.front.overlay = Overlay::Closed;
            return Flow::Done;
        }
        Flow::Ask(Ask::AddRoots { paths: roots }, Next::RootsAdded { paths })
    }

    /// Goes on once library folders have been stored.
    pub fn roots_added(&mut self, stored: Result<(), String>, paths: Vec<String>) -> (flow: Flow)
        ensures
            old(self)@.after_roots(result_view(stored), views(paths@), final(self)@, flow),
    {
        if let Err(error) = stored {
            return Flow::Failed(error);
        }
        self.begin_scan(paths, true);
        self.front.overlay = Overlay::Closed;
        Flow::Done
    }

    /// Scans the libraries again.
    pub fn rescan(&mut self, roots: Result<Vec<String>, String>)
        ensures
            final(self)@ == old(self)@.rescanned(
                match roots {
                    Ok(roots) => Ok(views(roots@)),
                    Err(error) => Err(error@),
                },
            ),
    {
        let roots = match roots {
            Ok(roots) => roots,
            Err(error) => {
                let mut text = "Error: ".to_owned();
                text.append(&error);
                self.say(text);
                return;
            },
        };
        assert(views(roots@).len() == roots@.len());
        let local = roots.len() > 0;
        let remote = self.link.remote;
        if local {
            self.begin_scan(roots, false);
        }
        if remote {
            self.outbox.tell(Effect::RescanRemote);
        }
        let text = refreshing_text(local, remote);
        self.say(text);
    }

    /// Follows an event of a scan.
    pub fn process_scan_event(&mut self, event: ScanEvent) -> (flow: Flow)
        ensures
            old(self)@.scan_followed(event, final(self)@, flow),
    {
        match event {
            ScanEvent::Started { total_hint, add_to_playlist } => {
                self.front.scan_seen = 0;
                self.front.scan_progress = Some((0, total_hint));
                let mut text: String;
                if add_to_playlist {
                    text = "Adding ".to_owned();
                    append_decimal(&mut text, total_hint as u64);
                    text.append(" files…");
                } else {
                    text = "Refreshing ".to_owned();
                    append_decimal(&mut text, total_hint as u64);
                    text.append(" library files…");
                }
                self.say(text);
                Flow::Done
            },
            ScanEvent::Track { track, add_to_playlist } => {
                self.front.scan_seen = self.front.scan_seen.saturating_add(1);
                if let Some((_, total)) = self.front.scan_progress {
                    self.front.scan_progress = Some((self.front.scan_seen, total));
                }
                Flow::Ask(
                    Ask::UpsertTrack(track),
                    Next::TrackStored { add: add_to_playlist },
                )
            },
            ScanEvent::Failed { path, error } => {
                let mut text = "Skipped ".to_owned();
                text.append(&show_path(&path));
                text.append(": ");
                text.append(&error);
                self.say(text);
                Flow::Done
            },
            ScanEvent::Finished { discovered, failed } => {
                self.front.scan_progress = None;
                let mut text = "Library scan complete: ".to_owned();
                append_decimal(&mut text, discovered as u64);
                text.append(" tracks, ");
                append_decimal(&mut text, failed as u64);
                text.append(" skipped");
                self.say(text);
                Flow::Done
            },
        }
    }

    /// Goes on once a scanned track has been stored.
    pub fn track_stored(&mut self, stored: Result<Track, String>, add: bool) -> (flow: Flow)
        requires
            old(self)@.wf(),
        ensures
            old(self)@.after_track(
                match stored {
                    Ok(track) => Ok(track),
                    Err(error) => Err(error@),
                },
                add,
                final(self)@,
                flow,
            ),
            final(self)@.wf(),
    {
        let track = match stored {
            Ok(track) => track,
            Err(error) => {
                return Flow::Failed(error);
            },
        };
        let id: TrackId = track.id;
        self.shelf.tracks.insert(id, track);
        if add {
            let mut ids: Vec<TrackId> = Vec::new();
            ids.push(id);
            assert(ids@ =~= seq![id]);
            return self.add_tracks_to(self.shelf.active_playlist, &ids, false);
        }
        Flow::Done
    }

    /// Opens the entry under the picker's cursor.
    pub fn picker_open_selected(&mut self) -> (flow: Flow)
        ensures
            old(self)@.entry_opened(final(self)@, flow),
    {
        match &mut self.front.overlay {
            Overlay::PathPicker(picker) => {
                assert(picker@.entries.len() == picker.entries@.len());
                if picker.selected >= picker.entries.len() {
                    return Flow::Done;
                }
                assert(picker@.entries[picker.selected as int]
                    == picker.entries@[picker.selected as int]@);
                let path = picker.entries[picker.selected].path.clone();
                if picker.entries[picker.selected].is_dir {
                    picker.directory = path.clone();
                    picker.selected = 0;
                    return Flow::Ask(
                        Ask::ListFolder { directory: Some(path) },
                        Next::PickerListed,
                    );
                }
                if picker.mode == PickerMode::Files {
                    let mut paths: Vec<String> = Vec::new();
                    paths.push(path);
                    assert(views(paths@) =~= seq![path@]);
                    return Flow::Ask(Ask::ResolvePaths { paths }, Next::PathsResolved);
                }
                Flow::Done
            },
            _ => Flow::Done,
        }
    }

    /// Adds the picker's own folder.
    pub fn picker_choose_current(&self) -> (flow: Flow)
        ensures
            self@.folder_chosen(self@, flow),
    {
        if let Overlay::PathPicker(picker) = &self.front.overlay {
            if picker.mode == PickerMode::Folder {
                let mut paths: Vec<String> = Vec::new();
                paths.push(picker.directory.clone());
                assert(views(paths@) =~= seq![picker@.directory]);
                return self.add_paths(paths);
            }
        }
        Flow::Done
    }

    /// Opens a picker on a folder that holds `found`.
    pub fn picker_opened(&mut self, mode: PickerMode, directory: String, found: Vec<PickerEntry>)
        ensures
            final(self)@ == old(self)@.showing(
                OverlayView::PathPicker(
                    PickerView {
                        mode,
                        directory: directory@,
                        entries: Seq::empty(),
                        selected: 0,
                    }.refreshed(picker_entries(found@)),
                ),
            ),
    {
        self.front.overlay = Overlay::PathPicker(PathPicker::new(mode, directory, found));
    }

    /// Shows what the picker's folder holds.
    pub fn picker_refreshed(&mut self, found: Vec<PickerEntry>)
        ensures
            final(self)@ == old(self)@.picker_listed(picker_entries(found@)),
    {
        if let Overlay::PathPicker(picker) = &mut self.front.overlay {
            picker.refresh(found);
        }
    }
}

fn refreshing_text(local: bool, remote: bool) -> (text: String)
    ensures
        text@ == AppView::refreshing_text(local, remote),
{
    if !local && !remote {
        return "No library folders have been added".to_owned();
    }
    let mut text = "Refreshing ".to_owned();
    text.append(
        if local && remote {
            "local and remote"
        } else if local {
            "local"
        } else {
            "remote"
        },
    );
    text.append(" library…");
    text
}

} // verus!
