//! Album artwork: where it is looked for, and when.

use vstd::prelude::*;
use vstd::string::*;

use crate::base64::{base64, base64_text, decode_base64, encode_base64};
use crate::model::{Track, TrackOrigin};
use crate::net::client::{cache_file, cache_is_complete, cache_path};
use crate::net::identity::{digest_text, remote_id_for};
use crate::order::views;
use crate::path::{join, joined};
use crate::path_codec::encoded;
use crate::text::same_text;

verus! {

/// The file that a track's artwork is read from: the track's own, or the cached one, where it
/// is there whole.
pub open spec fn artwork_source(
    track: Track,
    cache_dir: Seq<char>,
    is_file: bool,
    cached_len: Option<u64>,
) -> Option<Seq<char>> {
    match track.origin {
        TrackOrigin::Local => if is_file {
            Some(track.path@)
        } else {
            None
        },
        TrackOrigin::Remote { fingerprint, remote_id, .. } => if cached_len == Some(
            track.file_size,
        ) {
            Some(cache_file(cache_dir, fingerprint@, remote_id@))
        } else {
            None
        },
    }
}

/// Finds the file that a track's artwork is read from: `is_file` says whether the track's path
/// is a file, and `cached_len` is the length of the cached one, where there is one.
pub fn source_path(track: &Track, cache_dir: &str, is_file: bool, cached_len: Option<u64>) -> (path:
    Option<String>)
    ensures
        artwork_source(*track, cache_dir@, is_file, cached_len) == match path {
            Some(path) => Some(path@),
            None => None,
        },
{
    match &track.origin {
        TrackOrigin::Local => if is_file {
            Some(track.path.clone())
        } else {
            None
        },
        TrackOrigin::Remote { fingerprint, remote_id, .. } => {
            if cache_is_complete(cached_len, track.file_size) {
                Some(cache_path(cache_dir, fingerprint, remote_id))
            } else {
                None
            }
        },
    }
}

/// The names under which a folder has artwork, the first choice first.
pub open spec fn artwork_names() -> Seq<Seq<char>> {
    seq![
        "cover.jpg"@,
        "cover.jpeg"@,
        "cover.png"@,
        "cover.webp"@,
        "folder.jpg"@,
        "folder.png"@,
        "front.jpg"@,
        "Front.jpg"@,
        "Cover.jpg"@,
        "Folder.jpg"@,
        "artwork.jpg"@,
        "albumart.jpg"@,
        "AlbumArt.jpg"@,
    ]
}

/// The files that a folder's artwork is looked for in, the first choice first.
pub fn folder_cover(directory: &str) -> (paths: Vec<String>)
    ensures
        views(paths@) == artwork_names().map_values(
            |name: Seq<char>| joined(directory@, name),
        ),
{
    let mut paths: Vec<String> = Vec::new();
    paths.push(join(directory, "cover.jpg"));
    paths.push(join(directory, "cover.jpeg"));
    paths.push(join(directory, "cover.png"));
    paths.push(join(directory, "cover.webp"));
    paths.push(join(directory, "folder.jpg"));
    paths.push(join(directory, "folder.png"));
    paths.push(join(directory, "front.jpg"));
    paths.push(join(directory, "Front.jpg"));
    paths.push(join(directory, "Cover.jpg"));
    paths.push(join(directory, "Folder.jpg"));
    paths.push(join(directory, "artwork.jpg"));
    paths.push(join(directory, "albumart.jpg"));
    paths.push(join(directory, "AlbumArt.jpg"));
    assert(views(paths@) =~= artwork_names().map_values(
        |name: Seq<char>| joined(directory@, name),
    ));
    paths
}

/// Artwork in text form.
pub fn encode_cover_data(bytes: &Vec<u8>) -> (data: String)
    ensures
        data@ == base64_text(bytes@),
{
    encode_base64(bytes)
}

/// Artwork out of its text form.
pub fn decode_cover_data(data: &str) -> (bytes: Option<Vec<u8>>)
    ensures
        base64(data@) == match bytes {
            Some(bytes) => Some(bytes@),
            None => None,
        },
{
    decode_base64(data)
}

/// Where the artwork of a server's album is kept: beside the server's tracks, under a name made of
/// the artist and the album.
pub open spec fn album_cache_file(
    cache_dir: Seq<char>,
    fingerprint: Seq<char>,
    artist: Seq<char>,
    album: Seq<char>,
) -> Seq<char> {
    joined(
        cache_file(cache_dir, fingerprint, "covers"@),
        digest_text(encoded(artist + "\n"@ + album)),
    )
}

pub fn album_cache_path(cache_dir: &str, fingerprint: &str, artist: &str, album: &str) -> (path:
    String)
    ensures
        path@ == album_cache_file(cache_dir@, fingerprint@, artist@, album@),
{
    let mut name = artist.to_owned();
    name.append("\n");
    name.append(album);
    let folder = cache_path(cache_dir, fingerprint, "covers");
    join(&folder, &remote_id_for(&name))
}

/// What is shown of an album's artwork.
#[derive(Clone, Copy, Debug, PartialEq, Eq, Structural)]
pub enum Shown {
    Nothing,
    Image,
    Missing,
}

/// Whose artwork was last looked for, and what came of it.
#[derive(Debug)]
pub struct CoverState {
    pub key: Option<(String, String)>,
    pub shown: Shown,
}

/// What is known of the artwork.
pub struct CoverStateView {
    pub key: Option<(Seq<char>, Seq<char>)>,
    pub shown: Shown,
}

impl View for CoverState {
    type V = CoverStateView;

    open spec fn view(&self) -> CoverStateView {
        CoverStateView {
            key: match self.key {
                Some((artist, album)) => Some((artist@, album@)),
                None => None,
            },
            shown: self.shown,
        }
    }
}

/// What to do about the artwork.
#[derive(Clone, Copy, Debug, PartialEq, Eq, Structural)]
pub enum CoverStep {
    Clear,
    Keep,
    Load,
}

impl CoverStateView {
    pub open spec fn cleared() -> CoverStateView {
        CoverStateView { key: None, shown: Shown::Nothing }
    }

    /// The artwork after a look at the track whose album is shown, and what to do about it.
    pub open spec fn synced(self, track: Option<Track>) -> (CoverStateView, CoverStep) {
        match track {
            None => (CoverStateView::cleared(), CoverStep::Clear),
            Some(track) => {
                let key = Some((track.artist@, track.album@));
                if self.key == key && self.shown != Shown::Nothing {
                    (self, CoverStep::Keep)
                } else {
                    (CoverStateView { key, ..self }, CoverStep::Load)
                }
            },
        }
    }
}

impl CoverState {
    pub fn new() -> (state: CoverState)
        ensures
            state@ == CoverStateView::cleared(),
    {
        CoverState { key: None, shown: Shown::Nothing }
    }

    /// Looks at the track whose album is to be shown.
    pub fn sync(&mut self, track: Option<&Track>) -> (step: CoverStep)
        ensures
            (final(self)@, step) == old(self)@.synced(
                match track {
                    Some(track) => Some(*track),
                    None => None,
                },
            ),
    {
        let track = match track {
            Some(track) => track,
            None => {
                self.key = None;
                self.shown = Shown::Nothing;
                return CoverStep::Clear;
            },
        };
        let same = match &self.key {
            Some((artist, album)) => same_text(artist, &track.artist) && same_text(
                album,
                &track.album,
            ),
            None => false,
        };
        if same && self.shown != Shown::Nothing {
            return CoverStep::Keep;
        }
        self.key = Some((track.artist.clone(), track.album.clone()));
        CoverStep::Load
    }

    /// Takes in whether artwork was found.
    pub fn loaded(&mut self, found: bool)
        ensures
            final(self)@ == (CoverStateView {
                shown: if found {
                    Shown::Image
                } else {
                    Shown::Missing
                },
                ..old(self)@
            }),
    {
        self.shown = if found { Shown::Image } else { Shown::Missing };
    }

    /// Forgets an image that can no longer be drawn.
    pub fn redraw(&mut self)
        ensures
            final(self)@ == (CoverStateView {
                shown: if old(self)@.shown == Shown::Image {
                    Shown::Nothing
                } else {
                    old(self)@.shown
                },
                ..old(self)@
            }),
    {
        if self.shown == Shown::Image {
            self.shown = Shown::Nothing;
        }
    }

    /// Forgets what was found, so that it is looked for again.
    pub fn invalidate(&mut self)
        ensures
            final(self)@ == CoverStateView::cleared(),
    {
        self.key = None;
        self.shown = Shown::Nothing;
    }

    /// Whether there is artwork to draw.
    pub fn has_image(&self) -> (has: bool)
        ensures
            has == (self@.shown == Shown::Image),
    {
        self.shown == Shown::Image
    }
}

/// The artwork of an album is looked for once: while the same album is shown, nothing is
/// loaded again, whether or not artwork was found.
pub proof fn law_artwork_is_loaded_once(
    state: CoverStateView,
    track: Track,
    other: Track,
    found: bool,
)
    requires
        other.artist@ == track.artist@,
        other.album@ == track.album@,
        state.synced(Some(track)).1 == CoverStep::Load,
    ensures
        ({
            let after = CoverStateView {
                shown: if found {
                    Shown::Image
                } else {
                    Shown::Missing
                },
                ..state.synced(Some(track)).0
            };
            after.synced(Some(other)) == (after, CoverStep::Keep)
        }),
{
}

} // verus!
