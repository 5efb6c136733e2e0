//! A Soulseek session: what a search keeps, where downloads land, what is reported.

use vstd::prelude::*;
use vstd::string::*;

use crate::library::{is_supported, supported};
use crate::order::{
    concat_map, lemma_filter_members, lemma_filter_take, sort_stably, sorted_by, views,
};
use crate::path::{join, joined};
use crate::path_codec::{show_path, shown_path};
use crate::soulseek::{
    before_separator, last_part, leading_part, name_part, SoulseekHit, MAX_HITS,
};
use crate::text::{
    append_decimal, chars_of, decimal, replace_char, replaced, same_text, trim, trimmed,
};

verus! {

#[derive(Debug)]
pub struct SoulseekCredentials {
    pub username: String,
    pub password: String,
}

impl Clone for SoulseekCredentials {
    fn clone(&self) -> (copy: SoulseekCredentials)
        ensures
            copy == *self,
    {
        SoulseekCredentials { username: self.username.clone(), password: self.password.clone() }
    }
}

/// What the player asks of the session.
#[derive(Debug)]
pub enum SoulseekCommand {
    Search(String),
    Download { username: String, name: String, size: u64 },
}

/// What the session reports.
#[derive(Debug)]
pub enum SoulseekEvent {
    Ready,
    SearchResults(Vec<SoulseekHit>),
    Status(String),
    Finished(String),
    DownloadFailed(String),
    Error(String),
}

/// What an event says.
pub enum SoulseekEventView {
    Ready,
    SearchResults(Seq<SoulseekHit>),
    Status(Seq<char>),
    Finished(Seq<char>),
    DownloadFailed(Seq<char>),
    Error(Seq<char>),
}

impl View for SoulseekEvent {
    type V = SoulseekEventView;

    open spec fn view(&self) -> SoulseekEventView {
        match self {
            SoulseekEvent::Ready => SoulseekEventView::Ready,
            SoulseekEvent::SearchResults(hits) => SoulseekEventView::SearchResults(hits@),
            SoulseekEvent::Status(text) => SoulseekEventView::Status(text@),
            SoulseekEvent::Finished(path) => SoulseekEventView::Finished(path@),
            SoulseekEvent::DownloadFailed(text) => SoulseekEventView::DownloadFailed(text@),
            SoulseekEvent::Error(text) => SoulseekEventView::Error(text@),
        }
    }
}

/// A file in a peer's answer to a search. Its user may be left empty.
#[derive(Debug)]
pub struct SearchFile {
    pub username: String,
    pub name: String,
    pub size: u64,
    pub bitrate: Option<u32>,
}

/// A peer's answer to a search.
#[derive(Debug)]
pub struct SearchResult {
    pub username: String,
    pub slots: u8,
    pub speed: u32,
    pub files: Vec<SearchFile>,
}

/// The hit that a file makes.
pub open spec fn hit_of(result: SearchResult, file: SearchFile) -> SoulseekHit {
    SoulseekHit {
        username: if file.username@.len() == 0 {
            result.username
        } else {
            file.username
        },
        name: file.name,
        size: file.size,
        slots: result.slots,
        speed: result.speed,
        bitrate: file.bitrate,
    }
}

pub open spec fn is_audio_file(file: SearchFile) -> bool {
    supported(replaced(file.name@, '\\', '/'))
}

/// The audio files of an answer, as hits.
pub open spec fn hits_of(result: SearchResult) -> Seq<SoulseekHit> {
    result.files@.filter(|file: SearchFile| is_audio_file(file)).map_values(
        |file: SearchFile| hit_of(result, file),
    )
}

pub open spec fn known_bitrate(hit: SoulseekHit) -> int {
    match hit.bitrate {
        Some(rate) => rate as int,
        None => 0,
    }
}

/// Whether a hit is to be shown before another: more free slots first, then the higher
/// bitrate, then the larger file.
pub open spec fn better_hit(a: SoulseekHit, b: SoulseekHit) -> bool {
    ||| a.slots > b.slots
    ||| a.slots == b.slots && known_bitrate(a) > known_bitrate(b)
    ||| a.slots == b.slots && known_bitrate(a) == known_bitrate(b) && a.size > b.size
}

/// The hits of a search: the audio files of every answer, the best first, no more
/// than the limit.
pub open spec fn search_hits(results: Seq<SearchResult>) -> Seq<SoulseekHit> {
    let all = sorted_by(
        concat_map(results, |result: SearchResult| hits_of(result)),
        |a: SoulseekHit, b: SoulseekHit| better_hit(a, b),
    );
    if all.len() > MAX_HITS {
        all.take(MAX_HITS as int)
    } else {
        all
    }
}

fn is_better(a: &SoulseekHit, b: &SoulseekHit) -> (better: bool)
    ensures
        better == better_hit(*a, *b),
{
    let left: u32 = match a.bitrate {
        Some(rate) => rate,
        None => 0,
    };
    let right: u32 = match b.bitrate {
        Some(rate) => rate,
        None => 0,
    };
    a.slots > b.slots || (a.slots == b.slots && (left > right || (left == right && a.size
        > b.size)))
}

fn push_hits(hits: &mut Vec<SoulseekHit>, result: &SearchResult)
    ensures
        final(hits)@ == old(hits)@ + hits_of(*result),
{
    let ghost p = |file: SearchFile| is_audio_file(file);
    let ghost f = |file: SearchFile| hit_of(*result, file);
    let ghost before = hits@;
    let files = &result.files;
    let mut i: usize = 0;
    proof {
        reveal(Seq::filter);
        assert(files@.take(0).filter(p).map_values(f) =~= Seq::empty());
        assert(hits@ =~= before + files@.take(0).filter(p).map_values(f));
    }
    while i < files.len()
        invariant
            i <= files@.len(),
            files@ == result.files@,
            p == (|file: SearchFile| is_audio_file(file)),
            f == (|file: SearchFile| hit_of(*result, file)),
            hits@ == before + files@.take(i as int).filter(p).map_values(f),
        decreases files@.len() - i,
    {
        proof {
            lemma_filter_take(files@, p, i as int);
        }
        let file = &files[i];
        let path = replace_char(&file.name, '\\', '/');
        if is_supported(&path) {
            let username = if file.username.as_str().is_empty() {
                result.username.clone()
            } else {
                file.username.clone()
            };
            hits.push(
                SoulseekHit {
                    username,
                    name: file.name.clone(),
                    size: file.size,
                    slots: result.slots,
                    speed: result.speed,
                    bitrate: file.bitrate,
                },
            );
        }
        i = i + 1;
        assert(hits@ =~= before + files@.take(i as int).filter(p).map_values(f));
    }
    assert(files@.take(i as int) =~= files@);
}

pub fn flatten_hits(results: Vec<SearchResult>) -> (hits: Vec<SoulseekHit>)
    ensures
        hits@ == search_hits(results@),
        hits@.len() <= MAX_HITS,
{
    let ghost f = |result: SearchResult| hits_of(result);
    let mut hits: Vec<SoulseekHit> = Vec::new();
    let mut i: usize = 0;
    assert(concat_map(results@.take(0), f) =~= Seq::empty());
    while i < results.len()
        invariant
            i <= results@.len(),
            f == (|result: SearchResult| hits_of(result)),
            hits@ == concat_map(results@.take(i as int), f),
        decreases results@.len() - i,
    {
        push_hits(&mut hits, &results[i]);
        assert(results@.take(i + 1).drop_last() =~= results@.take(i as int));
        i = i + 1;
    }
    assert(results@.take(i as int) =~= results@);
    let before = |a: &SoulseekHit, b: &SoulseekHit| -> (r: bool)
        ensures
            r == better_hit(*a, *b),
        { is_better(a, b) };
    sort_stably(
        &mut hits,
        before,
        Ghost(|a: SoulseekHit, b: SoulseekHit| better_hit(a, b)),
    );
    if hits.len() > MAX_HITS {
        hits.truncate(MAX_HITS);
        assert(hits@ =~= search_hits(results@));
    }
    hits
}

/// Finds the file that a hit of an answer is made of.
pub proof fn lemma_hit_file(result: SearchResult, i: int) -> (file: SearchFile)
    requires
        0 <= i < hits_of(result).len(),
    ensures
        result.files@.contains(file),
        is_audio_file(file),
        hits_of(result)[i] == hit_of(result, file),
{
    let keep = |file: SearchFile| is_audio_file(file);
    let kept = result.files@.filter(keep);
    lemma_filter_members(result.files@, keep);
    assert(kept.contains(kept[i]));
    kept[i]
}

/// The order in which hits are shown can sort them.
pub proof fn law_better_hits_sort()
    ensures
        crate::order::sorts(|a: SoulseekHit, b: SoulseekHit| better_hit(a, b)),
{
}

/// Credentials from the environment win where both are there and neither is empty;
/// else the saved ones count.
pub open spec fn picked_credentials(
    user: Option<Seq<char>>,
    password: Option<Seq<char>>,
    saved: Option<SoulseekCredentials>,
) -> Option<(Seq<char>, Seq<char>)> {
    if user is Some && password is Some && user->0.len() > 0 && password->0.len() > 0 {
        Some((user->0, password->0))
    } else {
        match saved {
            Some(saved) => Some((saved.username@, saved.password@)),
            None => None,
        }
    }
}

pub open spec fn opt_text(text: Option<String>) -> Option<Seq<char>> {
    match text {
        Some(value) => Some(value@),
        None => None,
    }
}

pub fn pick_credentials(
    user: Option<String>,
    password: Option<String>,
    saved: Option<SoulseekCredentials>,
) -> (picked: Option<SoulseekCredentials>)
    ensures
        match picked {
            Some(credentials) => Some((credentials.username@, credentials.password@)),
            None => None,
        } == picked_credentials(opt_text(user), opt_text(password), saved),
{
    if let Some(username) = user {
        if let Some(password) = password {
            if !username.as_str().is_empty() && !password.as_str().is_empty() {
                return Some(SoulseekCredentials { username, password });
            }
        }
    }
    saved
}

/// A folder name that cannot lead out of the folder it is put in.
pub open spec fn safe_component(name: Seq<char>) -> Seq<char> {
    let core = trimmed(name);
    if core.len() == 0 || core == "."@ || core == ".."@ {
        Seq::empty()
    } else {
        core.map_values(|c: char| if c == '/' || c == '\\' || c == '\0' { '_' } else { c })
    }
}

pub fn sanitize_component(name: &str) -> (safe: String)
    ensures
        safe@ == safe_component(name@),
{
    let core = trim(name);
    if core.as_str().is_empty() || same_text(&core, ".") || same_text(&core, "..") {
        return String::new();
    }
    let chars = chars_of(&core);
    let ghost f = |c: char| if c == '/' || c == '\\' || c == '\0' { '_' } else { c };
    let mut safe = String::new();
    let mut i: usize = 0;
    assert(safe@ =~= chars@.take(0).map_values(f));
    while i < chars.len()
        invariant
            i <= chars@.len(),
            f == (|c: char| if c == '/' || c == '\\' || c == '\0' { '_' } else { c }),
            safe@ == chars@.take(i as int).map_values(f),
        decreases chars@.len() - i,
    {
        let c = chars[i];
        safe.push(if c == '/' || c == '\\' || c == '\0' { '_' } else { c });
        i = i + 1;
        assert(safe@ =~= chars@.take(i as int).map_values(f));
    }
    assert(chars@.take(i as int) =~= chars@);
    safe
}

/// A folder name never holds a separator, so it stays one component below its root.
pub proof fn law_components_hold_no_separator(name: Seq<char>, i: int)
    requires
        0 <= i < safe_component(name).len(),
    ensures
        safe_component(name)[i] != '/',
        safe_component(name)[i] != '\\',
        safe_component(name)[i] != '\0',
{
}

/// The folder that a download of `remote` goes to: one for its album below the root.
pub open spec fn destination(root: Seq<char>, remote: Seq<char>) -> Seq<char> {
    let folder = match before_separator(remote) {
        Some(folder) => folder,
        None => Seq::empty(),
    };
    let album = safe_component(name_part(folder));
    if album.len() == 0 {
        root
    } else {
        joined(root, album)
    }
}

pub fn dest_for_remote_path(root: &str, remote: &str) -> (dest: String)
    ensures
        dest@ == destination(root@, remote@),
{
    let folder = match leading_part(remote) {
        Some(folder) => folder,
        None => String::new(),
    };
    let album = last_part(&folder);
    let album = sanitize_component(&album);
    if album.as_str().is_empty() {
        root.to_owned()
    } else {
        join(root, &album)
    }
}

/// The folder for downloads: the first library folder, else one in the data folder.
pub open spec fn downloads_folder(data_dir: Seq<char>, roots: Seq<Seq<char>>) -> Seq<char> {
    if roots.len() > 0 {
        roots[0]
    } else {
        joined(data_dir, "soulseek"@)
    }
}

pub fn download_dir(data_dir: &str, roots: &Vec<String>) -> (dir: String)
    ensures
        dir@ == downloads_folder(data_dir@, views(roots@)),
{
    if roots.len() > 0 {
        assert(views(roots@)[0] == roots@[0]@);
        roots[0].clone()
    } else {
        join(data_dir, "soulseek")
    }
}

/// What the session does for a command.
#[derive(Debug)]
pub enum SessionStep {
    /// Report, then search.
    Search { report: SoulseekEvent, query: String },
    /// Make the folder, report, then download into it.
    Download {
        dest: String,
        display: String,
        report: SoulseekEvent,
        username: String,
        name: String,
        size: u64,
    },
}

/// Decides what a command asks for.
pub fn session_step(command: SoulseekCommand, root: &str) -> (step: SessionStep)
    ensures
        match command {
            SoulseekCommand::Search(query) => {
                &&& step matches SessionStep::Search { report, query: asked }
                &&& report@ == SoulseekEventView::Status("Searching “"@ + query@ + "”…"@)
                &&& asked@ == query@
            },
            SoulseekCommand::Download { username, name, size } => {
                &&& step matches SessionStep::Download {
                    dest,
                    display,
                    report,
                    username: from,
                    name: wanted,
                    size: bytes,
                }
                &&& dest@ == destination(root@, name@)
                &&& display@ == name_part(name@)
                &&& report@ == SoulseekEventView::Status(
                    "Downloading "@ + name_part(name@) + "…"@,
                )
                &&& from == username
                &&& wanted == name
                &&& bytes == size
            },
        },
{
    match command {
        SoulseekCommand::Search(query) => {
            let mut text = "Searching “".to_owned();
            text.append(&query);
            text.append("”…");
            SessionStep::Search { report: SoulseekEvent::Status(text), query }
        },
        SoulseekCommand::Download { username, name, size } => {
            let dest = dest_for_remote_path(root, &name);
            let display = last_part(&name);
            let mut text = "Downloading ".to_owned();
            text.append(&display);
            text.append("…");
            SessionStep::Download {
                dest,
                display,
                report: SoulseekEvent::Status(text),
                username,
                name,
                size,
            }
        },
    }
}

/// What the session reports when the download folder cannot be made.
pub fn folder_failed(dest: &str, error: &str) -> (event: SoulseekEvent)
    ensures
        event@ == SoulseekEventView::DownloadFailed("creating "@ + shown_path(dest@) + ": "@ + error@),
{
    let mut text = "creating ".to_owned();
    text.append(&show_path(dest));
    text.append(": ");
    text.append(error);
    SoulseekEvent::DownloadFailed(text)
}

/// What the session reports when a search is over: the number of hits, then the hits.
pub fn search_finished(results: Result<Vec<SearchResult>, String>) -> (events: Vec<SoulseekEvent>)
    ensures
        match results {
            Ok(results) => {
                &&& events@.len() == 2
                &&& events@[0]@ == SoulseekEventView::Status(
                    decimal(search_hits(results@).len()) + " matching files"@,
                )
                &&& events@[1]@ == SoulseekEventView::SearchResults(search_hits(results@))
            },
            Err(error) => events@ == seq![SoulseekEvent::Error(error)],
        },
{
    let mut events: Vec<SoulseekEvent> = Vec::new();
    match results {
        Ok(results) => {
            let hits = flatten_hits(results);
            let mut text = String::new();
            append_decimal(&mut text, hits.len() as u64);
            text.append(" matching files");
            assert(text@ =~= decimal(hits@.len()) + " matching files"@);
            events.push(SoulseekEvent::Status(text));
            events.push(SoulseekEvent::SearchResults(hits));
        },
        Err(error) => {
            events.push(SoulseekEvent::Error(error));
            assert(events@ =~= seq![SoulseekEvent::Error(error)]);
        },
    }
    events
}

/// How a download goes on.
#[derive(Debug)]
pub enum DownloadUpdate {
    Queued,
    /// `speed` is the speed in kilobytes per second, as text.
    InProgress { done: u64, total: u64, speed: String },
    /// `present` says whether the file lies where it was expected.
    Completed { present: bool },
    Failed(Option<String>),
    TimedOut,
    Paused,
}

/// The share of a download that is done, in percent; 0 where the total is unknown.
pub open spec fn percent_done(done: nat, total: nat) -> nat {
    if total == 0 {
        0
    } else if done * 100 > u64::MAX {
        u64::MAX as nat / total
    } else {
        done * 100 / total
    }
}

/// What is reported of an update.
pub open spec fn update_report(
    update: DownloadUpdate,
    dest: Seq<char>,
    display: Seq<char>,
) -> Option<SoulseekEventView> {
    match update {
        DownloadUpdate::Queued => Some(SoulseekEventView::Status("Queued "@ + display)),
        DownloadUpdate::InProgress { done, total, speed } => Some(
            SoulseekEventView::Status(
                display + "  "@ + decimal(percent_done(done as nat, total as nat)) + "%  "@ + speed@
                    + " KB/s"@,
            ),
        ),
        DownloadUpdate::Completed { present } => Some(
            SoulseekEventView::Finished(
                if present {
                    joined(dest, display)
                } else {
                    dest
                },
            ),
        ),
        DownloadUpdate::Failed(reason) => Some(
            SoulseekEventView::DownloadFailed(
                match reason {
                    Some(reason) => reason@,
                    None => "download of "@ + display + " failed"@,
                },
            ),
        ),
        DownloadUpdate::TimedOut => Some(
            SoulseekEventView::DownloadFailed("download of "@ + display + " timed out"@),
        ),
        DownloadUpdate::Paused => None,
    }
}

/// Reports an update; says whether the download is over.
pub fn download_update(update: DownloadUpdate, dest: &str, display: &str) -> (report: (
    Option<SoulseekEvent>,
    bool,
))
    ensures
        match report.0 {
            Some(event) => update_report(update, dest@, display@) == Some(event@),
            None => update_report(update, dest@, display@) is None,
        },
        report.1 == (update is Completed || update is Failed || update is TimedOut),
{
    match update {
        DownloadUpdate::Queued => {
            let mut text = "Queued ".to_owned();
            text.append(display);
            (Some(SoulseekEvent::Status(text)), false)
        },
        DownloadUpdate::InProgress { done, total, speed } => {
            let scaled: u64 = if done as u128 * 100 > u64::MAX as u128 {
                u64::MAX
            } else {
                done * 100
            };
            let percent: u64 = if total == 0 {
                0
            } else {
                scaled / total
            };
            let mut text = display.to_owned();
            text.append("  ");
            append_decimal(&mut text, percent);
            text.append("%  ");
            text.append(&speed);
            text.append(" KB/s");
            (Some(SoulseekEvent::Status(text)), false)
        },
        DownloadUpdate::Completed { present } => {
            let path = if present {
                join(dest, display)
            } else {
                dest.to_owned()
            };
            (Some(SoulseekEvent::Finished(path)), true)
        },
        DownloadUpdate::Failed(reason) => {
            let text = match reason {
                Some(reason) => reason,
                None => {
                    let mut text = "download of ".to_owned();
                    text.append(display);
                    text.append(" failed");
                    text
                },
            };
            (Some(SoulseekEvent::DownloadFailed(text)), true)
        },
        DownloadUpdate::TimedOut => {
            let mut text = "download of ".to_owned();
            text.append(display);
            text.append(" timed out");
            (Some(SoulseekEvent::DownloadFailed(text)), true)
        },
        DownloadUpdate::Paused => (None, false),
    }
}

} // verus!
