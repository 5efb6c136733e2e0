//! Searching and downloading on Soulseek: the result list, its filters, and where
//! downloads go.

use vstd::prelude::*;
use vstd::slice::slice_subrange;
use vstd::string::*;

use crate::order::{
    concat_map, distinct, holds_text, lemma_filter_all, lemma_filter_members, lemma_filter_none,
    lemma_filter_take, lemma_push_contains, order_texts, ordered_texts, views, TextSet,
};
use crate::path::{extension, extension_of};
use crate::text::{
    append_decimal, append_mebi_hundredths, append_mebi_tenths, ascii_lowercase, chars_of, decimal,
    half_even, mebi_hundredths, mebi_tenths, nearest_double, replace_char, replaced,
    round_half_even, same_text, text_of, to_ascii_lowercase,
};
use crate::util::{clamp_index, stepped, wrap_index};

verus! {

/// The most hits that a search keeps.
pub const MAX_HITS: usize = 150;

/// What the prompt asks for.
#[derive(Clone, Copy, Debug, PartialEq, Eq, Structural)]
pub enum SoulseekPhase {
    Username,
    Password,
    Ready,
}

#[derive(Clone, Copy, Debug, PartialEq, Eq, Structural)]
pub enum SoulseekRowKind {
    User,
    Folder,
    File,
}

/// How much of the list an action takes.
#[derive(Clone, Copy, Debug, PartialEq, Eq, Structural)]
pub enum SoulseekScope {
    File,
    Folder,
    User,
}

#[derive(Clone, Copy, Debug, PartialEq, Eq, Structural)]
pub enum SoulseekFormat {
    All,
    Flac,
    Mp3,
    Ogg,
    Aac,
    Wav,
}

impl Default for SoulseekFormat {
    fn default() -> (format: SoulseekFormat)
        ensures
            format == SoulseekFormat::All,
    {
        SoulseekFormat::All
    }
}

/// A file that a search found.
#[derive(Debug)]
pub struct SoulseekHit {
    pub username: String,
    pub name: String,
    pub size: u64,
    pub slots: u8,
    pub speed: u32,
    pub bitrate: Option<u32>,
}

impl Clone for SoulseekHit {
    fn clone(&self) -> (copy: SoulseekHit)
        ensures
            copy == *self,
    {
        SoulseekHit {
            username: self.username.clone(),
            name: self.name.clone(),
            size: self.size,
            slots: self.slots,
            speed: self.speed,
            bitrate: self.bitrate,
        }
    }
}

/// The last position of a separator, or -1 where there is none.
pub open spec fn last_separator(name: Seq<char>) -> int
    decreases name.len(),
{
    if name.len() == 0 {
        -1
    } else if name.last() == '\\' || name.last() == '/' {
        name.len() - 1
    } else {
        last_separator(name.drop_last())
    }
}

/// What stands behind the last separator.
pub open spec fn name_part(name: Seq<char>) -> Seq<char> {
    name.skip(last_separator(name) + 1)
}

/// What stands before the last separator.
pub open spec fn before_separator(name: Seq<char>) -> Option<Seq<char>> {
    if last_separator(name) < 0 {
        None
    } else {
        Some(name.take(last_separator(name)))
    }
}

/// The folder that a remote file lies in.
pub open spec fn folder_part(name: Seq<char>) -> Seq<char> {
    match before_separator(name) {
        Some(folder) => folder,
        None => "."@,
    }
}

/// The extension of a remote file, in lower case.
pub open spec fn remote_extension(name: Seq<char>) -> Option<Seq<char>> {
    match extension_of(replaced(name, '\\', '/')) {
        Some(ext) => Some(ascii_lowercase(ext)),
        None => None,
    }
}

/// The last position of a separator, plus one; 0 where there is none.
fn after_separator(chars: &[char]) -> (at: usize)
    ensures
        at == last_separator(chars@) + 1,
        at <= chars@.len(),
{
    let mut at: usize = chars.len();
    assert(chars@.take(at as int) =~= chars@);
    while at > 0 && chars[at - 1] != '\\' && chars[at - 1] != '/'
        invariant
            at <= chars@.len(),
            last_separator(chars@) == last_separator(chars@.take(at as int)),
        decreases at,
    {
        assert(chars@.take(at as int).drop_last() =~= chars@.take(at - 1));
        at = at - 1;
    }
    at
}

/// What stands behind the last separator.
pub(crate) fn last_part(name: &str) -> (part: String)
    ensures
        part@ == name_part(name@),
{
    let chars = chars_of(name);
    let at: usize = after_separator(&chars);
    assert(chars@.skip(at as int) =~= chars@.subrange(at as int, chars@.len() as int));
    text_of(slice_subrange(&chars, at, chars.len()))
}

/// What stands before the last separator.
pub(crate) fn leading_part(name: &str) -> (part: Option<String>)
    ensures
        part is Some == before_separator(name@) is Some,
        part is Some ==> part->0@ == before_separator(name@)->0,
{
    let chars = chars_of(name);
    let at: usize = after_separator(&chars);
    if at == 0 {
        None
    } else {
        assert(chars@.take(at - 1) =~= chars@.subrange(0, at - 1));
        Some(text_of(slice_subrange(&chars, 0, at - 1)))
    }
}

impl SoulseekHit {
    pub fn file_name(&self) -> (name: String)
        ensures
            name@ == name_part(self.name@),
    {
        last_part(&self.name)
    }

    pub fn folder(&self) -> (folder: String)
        ensures
            folder@ == folder_part(self.name@),
    {
        match leading_part(&self.name) {
            Some(folder) => folder,
            None => ".".to_owned(),
        }
    }

    pub fn extension(&self) -> (ext: Option<String>)
        ensures
            ext is Some == remote_extension(self.name@) is Some,
            ext is Some ==> ext->0@ == remote_extension(self.name@)->0,
    {
        let name = replace_char(&self.name, '\\', '/');
        match extension(&name) {
            Some(ext) => Some(to_ascii_lowercase(&ext)),
            None => None,
        }
    }
}

impl SoulseekFormat {
    pub open spec fn label_text(self) -> Seq<char> {
        match self {
            SoulseekFormat::All => "All"@,
            SoulseekFormat::Flac => "FLAC"@,
            SoulseekFormat::Mp3 => "MP3"@,
            SoulseekFormat::Ogg => "Ogg"@,
            SoulseekFormat::Aac => "AAC"@,
            SoulseekFormat::Wav => "WAV"@,
        }
    }

    /// Whether a file with this extension belongs to the format.
    pub open spec fn has_extension(self, ext: Seq<char>) -> bool {
        match self {
            SoulseekFormat::All => true,
            SoulseekFormat::Flac => ext == "flac"@,
            SoulseekFormat::Mp3 => ext == "mp3"@,
            SoulseekFormat::Ogg => ext == "ogg"@ || ext == "oga"@,
            SoulseekFormat::Aac => ext == "aac"@ || ext == "m4a"@ || ext == "mp4"@ || ext
                == "alac"@,
            SoulseekFormat::Wav => ext == "wav"@ || ext == "wave"@ || ext == "aif"@ || ext
                == "aiff"@,
        }
    }

    pub open spec fn accepts(self, hit: SoulseekHit) -> bool {
        match remote_extension(hit.name@) {
            Some(ext) => self.has_extension(ext),
            None => self == SoulseekFormat::All,
        }
    }

    pub open spec fn number(self) -> int {
        match self {
            SoulseekFormat::All => 0,
            SoulseekFormat::Flac => 1,
            SoulseekFormat::Mp3 => 2,
            SoulseekFormat::Ogg => 3,
            SoulseekFormat::Aac => 4,
            SoulseekFormat::Wav => 5,
        }
    }

    pub open spec fn numbered(n: int) -> SoulseekFormat {
        if n == 1 {
            SoulseekFormat::Flac
        } else if n == 2 {
            SoulseekFormat::Mp3
        } else if n == 3 {
            SoulseekFormat::Ogg
        } else if n == 4 {
            SoulseekFormat::Aac
        } else if n == 5 {
            SoulseekFormat::Wav
        } else {
            SoulseekFormat::All
        }
    }

    pub open spec fn cycled(self, delta: int) -> SoulseekFormat {
        SoulseekFormat::numbered((self.number() + delta) % 6)
    }

    pub fn label(self) -> (label: &'static str)
        ensures
            label@ == self.label_text(),
    {
        match self {
            SoulseekFormat::All => "All",
            SoulseekFormat::Flac => "FLAC",
            SoulseekFormat::Mp3 => "MP3",
            SoulseekFormat::Ogg => "Ogg",
            SoulseekFormat::Aac => "AAC",
            SoulseekFormat::Wav => "WAV",
        }
    }

    pub fn matches(self, hit: &SoulseekHit) -> (matching: bool)
        ensures
            matching == self.accepts(*hit),
    {
        match hit.extension() {
            None => self == SoulseekFormat::All,
            Some(ext) => match self {
                SoulseekFormat::All => true,
                SoulseekFormat::Flac => same_text(&ext, "flac"),
                SoulseekFormat::Mp3 => same_text(&ext, "mp3"),
                SoulseekFormat::Ogg => same_text(&ext, "ogg") || same_text(&ext, "oga"),
                SoulseekFormat::Aac => same_text(&ext, "aac") || same_text(&ext, "m4a")
                    || same_text(&ext, "mp4") || same_text(&ext, "alac"),
                SoulseekFormat::Wav => same_text(&ext, "wav") || same_text(&ext, "wave")
                    || same_text(&ext, "aif") || same_text(&ext, "aiff"),
            },
        }
    }

    /// The format `delta` places on, around the list.
    pub fn cycle(self, delta: i32) -> (format: SoulseekFormat)
        ensures
            format == self.cycled(delta as int),
    {
        let at: usize = match self {
            SoulseekFormat::All => 0,
            SoulseekFormat::Flac => 1,
            SoulseekFormat::Mp3 => 2,
            SoulseekFormat::Ogg => 3,
            SoulseekFormat::Aac => 4,
            SoulseekFormat::Wav => 5,
        };
        let next: usize = wrap_index(at, delta, 6);
        if next == 1 {
            SoulseekFormat::Flac
        } else if next == 2 {
            SoulseekFormat::Mp3
        } else if next == 3 {
            SoulseekFormat::Ogg
        } else if next == 4 {
            SoulseekFormat::Aac
        } else if next == 5 {
            SoulseekFormat::Wav
        } else {
            SoulseekFormat::All
        }
    }
}

/// Going through the formats one way and back as far ends where it began.
pub proof fn law_format_cycle_is_undone(format: SoulseekFormat, delta: int)
    ensures
        format.cycled(delta).cycled(-delta) == format,
{
    let n = (format.number() + delta) % 6;
    assert(SoulseekFormat::numbered(n).number() == n);
    assert((n - delta) % 6 == format.number()) by {
        vstd::arithmetic::div_mod::lemma_sub_mod_noop(format.number() + delta, delta, 6);
        vstd::arithmetic::div_mod::lemma_sub_mod_noop(n, delta, 6);
        vstd::arithmetic::div_mod::lemma_mod_twice(format.number() + delta, 6);
    }
}

#[derive(Clone, Copy, Debug, PartialEq, Eq, Structural)]
pub struct SoulseekFilter {
    pub format: SoulseekFormat,
    pub free_slot: bool,
}

impl Default for SoulseekFilter {
    fn default() -> (filter: SoulseekFilter)
        ensures
            filter == SoulseekFilter::open(),
    {
        SoulseekFilter { format: SoulseekFormat::All, free_slot: false }
    }
}

impl SoulseekFilter {
    /// The filter that lets everything through.
    pub open spec fn open() -> SoulseekFilter {
        SoulseekFilter { format: SoulseekFormat::All, free_slot: false }
    }

    pub open spec fn accepts(self, hit: SoulseekHit) -> bool {
        self.format.accepts(hit) && (!self.free_slot || hit.slots > 0)
    }

    pub open spec fn active(self) -> bool {
        self.format != SoulseekFormat::All || self.free_slot
    }

    pub fn matches(&self, hit: &SoulseekHit) -> (matching: bool)
        ensures
            matching == self.accepts(*hit),
    {
        self.format.matches(hit) && (!self.free_slot || hit.slots > 0)
    }

    pub fn is_active(&self) -> (active: bool)
        ensures
            active == self.active(),
    {
        self.format != SoulseekFormat::All || self.free_slot
    }
}

/// A filter that is not active lets everything through.
pub proof fn law_inactive_filter_accepts_all(filter: SoulseekFilter, hit: SoulseekHit)
    requires
        !filter.active(),
    ensures
        filter.accepts(hit),
{
}

/// A row of the result list.
#[derive(Debug)]
pub struct SoulseekRow {
    pub kind: SoulseekRowKind,
    pub label: String,
    pub detail: String,
    pub key: String,
    pub username: String,
    pub folder: Option<String>,
    pub hit: Option<SoulseekHit>,
}

/// What a row of the result list shows.
pub struct RowView {
    pub kind: SoulseekRowKind,
    pub label: Seq<char>,
    pub detail: Seq<char>,
    pub key: Seq<char>,
    pub username: Seq<char>,
    pub folder: Option<Seq<char>>,
    pub hit: Option<SoulseekHit>,
}

/// The characters of an optional text.
pub open spec fn opt_view(text: Option<String>) -> Option<Seq<char>> {
    match text {
        Some(value) => Some(value@),
        None => None,
    }
}

impl View for SoulseekRow {
    type V = RowView;

    open spec fn view(&self) -> RowView {
        RowView {
            kind: self.kind,
            label: self.label@,
            detail: self.detail@,
            key: self.key@,
            username: self.username@,
            folder: opt_view(self.folder),
            hit: self.hit,
        }
    }
}

/// What the rows of a list show.
pub open spec fn row_views(rows: Seq<SoulseekRow>) -> Seq<RowView> {
    rows.map_values(|row: SoulseekRow| row@)
}

pub open spec fn user_key_text(user: Seq<char>) -> Seq<char> {
    "u:"@ + user
}

pub open spec fn folder_key_text(user: Seq<char>, folder: Seq<char>) -> Seq<char> {
    "f:"@ + user + ":"@ + folder
}

fn user_key(user: &str) -> (key: String)
    ensures
        key@ == user_key_text(user@),
{
    let mut key = "u:".to_owned();
    key.append(user);
    key
}

fn folder_key(user: &str, folder: &str) -> (key: String)
    ensures
        key@ == folder_key_text(user@, folder@),
{
    let mut key = "f:".to_owned();
    key.append(user);
    key.append(":");
    key.append(folder);
    key
}

/// A speed in bytes per second, in the unit that fits.
pub open spec fn speed_text(speed: nat) -> Seq<char> {
    if speed >= 1_048_576 {
        mebi_hundredths(speed) + " MiB/s"@
    } else if speed >= 1024 {
        decimal(half_even(speed, 1024)) + " KiB/s"@
    } else if speed == 0 {
        "—"@
    } else {
        decimal(speed) + " B/s"@
    }
}

pub fn format_speed(speed: u32) -> (text: String)
    ensures
        text@ == speed_text(speed as nat),
{
    let mut text = String::new();
    if speed >= 1_048_576 {
        append_mebi_hundredths(&mut text, speed);
        text.append(" MiB/s");
    } else if speed >= 1024 {
        append_decimal(&mut text, round_half_even(speed as u128, 1024) as u64);
        text.append(" KiB/s");
    } else if speed == 0 {
        text.append("—");
    } else {
        append_decimal(&mut text, speed as u64);
        text.append(" B/s");
    }
    assert(text@ =~= speed_text(speed as nat));
    text
}

/// The users of a list of hits, in the order in which they first occur.
pub open spec fn users_of(hits: Seq<SoulseekHit>) -> Seq<Seq<char>> {
    distinct(hits.map_values(|hit: SoulseekHit| hit.username@))
}

/// The hits of one user.
pub open spec fn of_user(hits: Seq<SoulseekHit>, user: Seq<char>) -> Seq<SoulseekHit> {
    hits.filter(|hit: SoulseekHit| hit.username@ == user)
}

/// The hits of a user are those that name the user.
pub proof fn lemma_of_user(hits: Seq<SoulseekHit>, user: Seq<char>)
    ensures
        forall|hit: SoulseekHit| #[trigger]
            of_user(hits, user).contains(hit) <==> hits.contains(hit) && hit.username@ == user,
    decreases hits.len(),
{
    reveal(Seq::filter);
    if hits.len() > 0 {
        let rest = hits.drop_last();
        let last = hits.last();
        lemma_of_user(rest, user);
        assert(hits =~= rest.push(last));
        assert forall|hit: SoulseekHit| #[trigger]
            of_user(hits, user).contains(hit) <==> hits.contains(hit) && hit.username@ == user by {
            lemma_push_contains(rest, last, hit);
            lemma_push_contains(of_user(rest, user), last, hit);
        }
    }
}

/// The hits of one user in one folder.
pub open spec fn in_folder(
    hits: Seq<SoulseekHit>,
    user: Seq<char>,
    folder: Seq<char>,
) -> Seq<SoulseekHit> {
    hits.filter(|hit: SoulseekHit| hit.username@ == user && folder_part(hit.name@) == folder)
}

/// The folders of one user, in order.
pub open spec fn folders_of(hits: Seq<SoulseekHit>, user: Seq<char>) -> Seq<Seq<char>> {
    ordered_texts(of_user(hits, user).map_values(|hit: SoulseekHit| folder_part(hit.name@)))
}

/// The most free slots that a hit reports.
pub open spec fn best_slots(hits: Seq<SoulseekHit>) -> int
    decreases hits.len(),
{
    if hits.len() == 0 {
        0
    } else if hits.last().slots > best_slots(hits.drop_last()) {
        hits.last().slots as int
    } else {
        best_slots(hits.drop_last())
    }
}

/// The highest speed that a hit reports.
pub open spec fn best_speed(hits: Seq<SoulseekHit>) -> int
    decreases hits.len(),
{
    if hits.len() == 0 {
        0
    } else if hits.last().speed > best_speed(hits.drop_last()) {
        hits.last().speed as int
    } else {
        best_speed(hits.drop_last())
    }
}

/// The mark of a row that can be folded.
pub open spec fn chevron(folded: bool) -> Seq<char> {
    if folded {
        "▸"@
    } else {
        "▾"@
    }
}

pub open spec fn plural(n: int) -> Seq<char> {
    if n == 1 {
        ""@
    } else {
        "s"@
    }
}

pub open spec fn user_row(
    hits: Seq<SoulseekHit>,
    user: Seq<char>,
    collapsed: Set<Seq<char>>,
) -> RowView {
    let own = of_user(hits, user);
    RowView {
        kind: SoulseekRowKind::User,
        label: chevron(collapsed.contains(user_key_text(user))) + " "@ + user,
        detail: speed_text(best_speed(own) as nat) + "   "@ + decimal(own.len()) + " file"@
            + plural(own.len() as int),
        key: user_key_text(user),
        username: user,
        folder: None,
        hit: None,
    }
}

pub open spec fn folder_row(
    hits: Seq<SoulseekHit>,
    user: Seq<char>,
    folder: Seq<char>,
    collapsed: Set<Seq<char>>,
) -> RowView {
    let slots = best_slots(of_user(hits, user));
    RowView {
        kind: SoulseekRowKind::Folder,
        label: "  "@ + chevron(collapsed.contains(folder_key_text(user, folder))) + " "@ + folder,
        detail: if slots == 0 {
            "queued"@
        } else {
            decimal(slots as nat) + " slot"@ + plural(slots)
        },
        key: folder_key_text(user, folder),
        username: user,
        folder: Some(folder),
        hit: None,
    }
}

pub open spec fn file_row(hit: SoulseekHit) -> RowView {
    RowView {
        kind: SoulseekRowKind::File,
        label: "      "@ + name_part(hit.name@),
        detail: mebi_tenths(nearest_double(hit.size as nat)) + " M  "@ + match hit.bitrate {
            Some(rate) => decimal(rate as nat) + " kbps"@,
            None => ""@,
        },
        key: "file:"@ + hit.username@ + ":"@ + hit.name@,
        username: hit.username@,
        folder: Some(folder_part(hit.name@)),
        hit: Some(hit),
    }
}

/// A folder's row, and its files' rows unless it is folded.
pub open spec fn folder_block(
    hits: Seq<SoulseekHit>,
    user: Seq<char>,
    folder: Seq<char>,
    collapsed: Set<Seq<char>>,
) -> Seq<RowView> {
    seq![folder_row(hits, user, folder, collapsed)] + if collapsed.contains(
        folder_key_text(user, folder),
    ) {
        Seq::empty()
    } else {
        in_folder(hits, user, folder).map_values(|hit: SoulseekHit| file_row(hit))
    }
}

/// A user's row, and the blocks of the user's folders unless it is folded.
pub open spec fn user_block(
    hits: Seq<SoulseekHit>,
    user: Seq<char>,
    collapsed: Set<Seq<char>>,
) -> Seq<RowView> {
    seq![user_row(hits, user, collapsed)] + if collapsed.contains(user_key_text(user)) {
        Seq::empty()
    } else {
        concat_map(
            folders_of(hits, user),
            |folder: Seq<char>| folder_block(hits, user, folder, collapsed),
        )
    }
}

/// The whole result list: users in the order of their first hit, below each the
/// folders in order, below each the files.
pub open spec fn result_rows(hits: Seq<SoulseekHit>, collapsed: Set<Seq<char>>) -> Seq<RowView> {
    concat_map(users_of(hits), |user: Seq<char>| user_block(hits, user, collapsed))
}

fn distinct_users(hits: &Vec<SoulseekHit>) -> (users: Vec<String>)
    ensures
        views(users@) == users_of(hits@),
{
    let ghost names = hits@.map_values(|hit: SoulseekHit| hit.username@);
    let mut users: Vec<String> = Vec::new();
    let mut i: usize = 0;
    assert(views(users@) =~= distinct(names.take(0)));
    while i < hits.len()
        invariant
            i <= hits@.len(),
            names == hits@.map_values(|hit: SoulseekHit| hit.username@),
            views(users@) == distinct(names.take(i as int)),
        decreases hits@.len() - i,
    {
        assert(names.take(i + 1).drop_last() =~= names.take(i as int));
        if !holds_text(&users, &hits[i].username) {
            let ghost before = views(users@);
            users.push(hits[i].username.clone());
            assert(views(users@) =~= before.push(names[i as int]));
        }
        i = i + 1;
    }
    assert(names.take(i as int) =~= names);
    users
}

/// The hits that a test lets through, in their order.
fn kept_hits<F: Fn(&SoulseekHit) -> bool>(
    hits: &Vec<SoulseekHit>,
    keep: F,
    Ghost(p): Ghost<spec_fn(SoulseekHit) -> bool>,
) -> (kept: Vec<SoulseekHit>)
    requires
        forall|hit: &SoulseekHit| #[trigger] keep.requires((hit,)),
        forall|hit: &SoulseekHit, r: bool| #[trigger] keep.ensures((hit,), r) ==> r == p(*hit),
    ensures
        kept@ == hits@.filter(p),
{
    let mut kept: Vec<SoulseekHit> = Vec::new();
    let mut i: usize = 0;
    proof {
        reveal(Seq::filter);
    }
    assert(kept@ =~= hits@.take(0).filter(p));
    while i < hits.len()
        invariant
            i <= hits@.len(),
            kept@ == hits@.take(i as int).filter(p),
            forall|hit: &SoulseekHit| #[trigger] keep.requires((hit,)),
            forall|hit: &SoulseekHit, r: bool| #[trigger] keep.ensures((hit,), r) ==> r == p(*hit),
        decreases hits@.len() - i,
    {
        proof {
            lemma_filter_take(hits@, p, i as int);
        }
        if keep(&hits[i]) {
            kept.push(hits[i].clone());
        }
        i = i + 1;
    }
    assert(hits@.take(i as int) =~= hits@);
    kept
}

fn sorted_folders(own: &Vec<SoulseekHit>) -> (folders: Vec<String>)
    ensures
        views(folders@) == ordered_texts(
            own@.map_values(|hit: SoulseekHit| folder_part(hit.name@)),
        ),
{
    let ghost names = own@.map_values(|hit: SoulseekHit| folder_part(hit.name@));
    let mut folders: Vec<String> = Vec::new();
    let mut i: usize = 0;
    while i < own.len()
        invariant
            i <= own@.len(),
            names == own@.map_values(|hit: SoulseekHit| folder_part(hit.name@)),
            views(folders@) == names.take(i as int),
        decreases own@.len() - i,
    {
        let ghost before = views(folders@);
        folders.push(own[i].folder());
        assert(views(folders@) =~= before.push(names[i as int]));
        i = i + 1;
        assert(views(folders@) =~= names.take(i as int));
    }
    assert(names.take(i as int) =~= names);
    order_texts(&folders)
}

fn most_slots(hits: &Vec<SoulseekHit>) -> (slots: u8)
    ensures
        slots == best_slots(hits@),
{
    let mut slots: u8 = 0;
    let mut i: usize = 0;
    while i < hits.len()
        invariant
            i <= hits@.len(),
            slots == best_slots(hits@.take(i as int)),
        decreases hits@.len() - i,
    {
        assert(hits@.take(i + 1).drop_last() =~= hits@.take(i as int));
        if hits[i].slots > slots {
            slots = hits[i].slots;
        }
        i = i + 1;
    }
    assert(hits@.take(i as int) =~= hits@);
    slots
}

fn most_speed(hits: &Vec<SoulseekHit>) -> (speed: u32)
    ensures
        speed == best_speed(hits@),
{
    let mut speed: u32 = 0;
    let mut i: usize = 0;
    while i < hits.len()
        invariant
            i <= hits@.len(),
            speed == best_speed(hits@.take(i as int)),
        decreases hits@.len() - i,
    {
        assert(hits@.take(i + 1).drop_last() =~= hits@.take(i as int));
        if hits[i].speed > speed {
            speed = hits[i].speed;
        }
        i = i + 1;
    }
    assert(hits@.take(i as int) =~= hits@);
    speed
}

fn make_user_row(
    own: &Vec<SoulseekHit>,
    user: &String,
    folded: bool,
    Ghost(hits): Ghost<Seq<SoulseekHit>>,
    Ghost(collapsed): Ghost<Set<Seq<char>>>,
) -> (row: SoulseekRow)
    requires
        own@ == of_user(hits, user@),
        folded == collapsed.contains(user_key_text(user@)),
    ensures
        row@ == user_row(hits, user@, collapsed),
{
    let mut label = if folded {
        "▸".to_owned()
    } else {
        "▾".to_owned()
    };
    label.append(" ");
    label.append(user);
    let mut detail = format_speed(most_speed(own));
    detail.append("   ");
    append_decimal(&mut detail, own.len() as u64);
    detail.append(" file");
    detail.append(
        if own.len() == 1 {
            ""
        } else {
            "s"
        },
    );
    SoulseekRow {
        kind: SoulseekRowKind::User,
        label,
        detail,
        key: user_key(user),
        username: user.clone(),
        folder: None,
        hit: None,
    }
}

fn make_folder_row(
    slots: u8,
    user: &String,
    folder: &String,
    folded: bool,
    Ghost(hits): Ghost<Seq<SoulseekHit>>,
    Ghost(collapsed): Ghost<Set<Seq<char>>>,
) -> (row: SoulseekRow)
    requires
        slots == best_slots(of_user(hits, user@)),
        folded == collapsed.contains(folder_key_text(user@, folder@)),
    ensures
        row@ == folder_row(hits, user@, folder@, collapsed),
{
    let mut label = "  ".to_owned();
    label.append(
        if folded {
            "▸"
        } else {
            "▾"
        },
    );
    label.append(" ");
    label.append(folder);
    let mut detail = String::new();
    if slots == 0 {
        detail.append("queued");
        assert(detail@ =~= "queued"@);
    } else {
        append_decimal(&mut detail, slots as u64);
        detail.append(" slot");
        detail.append(
            if slots == 1 {
                ""
            } else {
                "s"
            },
        );
        assert(detail@ =~= decimal(slots as nat) + " slot"@ + plural(slots as int));
    }
    SoulseekRow {
        kind: SoulseekRowKind::Folder,
        label,
        detail,
        key: folder_key(user, folder),
        username: user.clone(),
        folder: Some(folder.clone()),
        hit: None,
    }
}

fn make_file_row(hit: &SoulseekHit) -> (row: SoulseekRow)
    ensures
        row@ == file_row(*hit),
{
    let mut label = "      ".to_owned();
    let name = hit.file_name();
    label.append(&name);
    let mut detail = String::new();
    append_mebi_tenths(&mut detail, hit.size);
    detail.append(" M  ");
    match hit.bitrate {
        Some(rate) => {
            append_decimal(&mut detail, rate as u64);
            detail.append(" kbps");
        },
        None => {
            detail.append("");
        },
    }
    assert(detail@ =~= file_row(*hit).detail);
    let mut key = "file:".to_owned();
    key.append(&hit.username);
    key.append(":");
    key.append(&hit.name);
    SoulseekRow {
        kind: SoulseekRowKind::File,
        label,
        detail,
        key,
        username: hit.username.clone(),
        folder: Some(hit.folder()),
        hit: Some(hit.clone()),
    }
}

fn push_folder_block(
    rows: &mut Vec<SoulseekRow>,
    hits: &Vec<SoulseekHit>,
    slots: u8,
    user: &String,
    folder: &String,
    collapsed: &TextSet,
)
    requires
        slots == best_slots(of_user(hits@, user@)),
    ensures
        row_views(final(rows)@) == row_views(old(rows)@) + folder_block(
            hits@,
            user@,
            folder@,
            collapsed@,
        ),
{
    let key = folder_key(user, folder);
    let folded = collapsed.contains(&key);
    let ghost before = row_views(rows@);
    let row = make_folder_row(slots, user, folder, folded, Ghost(hits@), Ghost(collapsed@));
    rows.push(row);
    assert(row_views(rows@) =~= before.push(folder_row(hits@, user@, folder@, collapsed@)));
    if folded {
        assert(row_views(rows@) =~= before + folder_block(hits@, user@, folder@, collapsed@));
        return;
    }
    let ghost p = |hit: SoulseekHit| hit.username@ == user@ && folder_part(hit.name@) == folder@;
    let keep = |hit: &SoulseekHit| -> (r: bool)
        ensures
            r == p(*hit),
        {
            let own = hit.folder();
            same_text(&hit.username, user) && same_text(&own, folder)
        };
    let files = kept_hits(hits, keep, Ghost(p));
    assert(files@ == in_folder(hits@, user@, folder@));
    let ghost head = row_views(rows@);
    let mut i: usize = 0;
    while i < files.len()
        invariant
            i <= files@.len(),
            row_views(rows@) == head + files@.take(i as int).map_values(
                |hit: SoulseekHit| file_row(hit),
            ),
        decreases files@.len() - i,
    {
        let row = make_file_row(&files[i]);
        let ghost current = row_views(rows@);
        rows.push(row);
        assert(row_views(rows@) =~= current.push(file_row(files@[i as int])));
        i = i + 1;
        assert(row_views(rows@) =~= head + files@.take(i as int).map_values(
            |hit: SoulseekHit| file_row(hit),
        ));
    }
    assert(files@.take(i as int) =~= files@);
    assert(row_views(rows@) =~= before + folder_block(hits@, user@, folder@, collapsed@));
}

fn push_user_block(
    rows: &mut Vec<SoulseekRow>,
    hits: &Vec<SoulseekHit>,
    user: &String,
    collapsed: &TextSet,
)
    ensures
        row_views(final(rows)@) == row_views(old(rows)@) + user_block(hits@, user@, collapsed@),
{
    let ghost p = |hit: SoulseekHit| hit.username@ == user@;
    let keep = |hit: &SoulseekHit| -> (r: bool)
        ensures
            r == p(*hit),
        { same_text(&hit.username, user) };
    let own = kept_hits(hits, keep, Ghost(p));
    assert(own@ == of_user(hits@, user@));
    let key = user_key(user);
    let folded = collapsed.contains(&key);
    let ghost before = row_views(rows@);
    let row = make_user_row(&own, user, folded, Ghost(hits@), Ghost(collapsed@));
    rows.push(row);
    assert(row_views(rows@) =~= before.push(user_row(hits@, user@, collapsed@)));
    if folded {
        assert(row_views(rows@) =~= before + user_block(hits@, user@, collapsed@));
        return;
    }
    let folders = sorted_folders(&own);
    let slots: u8 = most_slots(&own);
    let ghost names = folders_of(hits@, user@);
    let ghost block = |folder: Seq<char>| folder_block(hits@, user@, folder, collapsed@);
    let ghost head = row_views(rows@);
    let mut i: usize = 0;
    assert(concat_map(names.take(0), block) =~= Seq::empty());
    assert(row_views(rows@) =~= head + concat_map(names.take(0), block));
    while i < folders.len()
        invariant
            i <= folders@.len(),
            views(folders@) == names,
            slots == best_slots(of_user(hits@, user@)),
            block == (|folder: Seq<char>| folder_block(hits@, user@, folder, collapsed@)),
            row_views(rows@) == head + concat_map(names.take(i as int), block),
        decreases folders@.len() - i,
    {
        let ghost current = row_views(rows@);
        push_folder_block(rows, hits, slots, user, &folders[i], collapsed);
        assert(names[i as int] == folders@[i as int]@);
        assert(names.take(i + 1).drop_last() =~= names.take(i as int));
        i = i + 1;
        assert(row_views(rows@) =~= head + concat_map(names.take(i as int), block));
    }
    assert(names.take(i as int) =~= names);
    assert(row_views(rows@) =~= before + user_block(hits@, user@, collapsed@));
}

/// The rows of a list of hits.
pub fn visible_rows(hits: &Vec<SoulseekHit>, collapsed: &TextSet) -> (rows: Vec<SoulseekRow>)
    ensures
        row_views(rows@) == result_rows(hits@, collapsed@),
{
    let users = distinct_users(hits);
    let ghost names = users_of(hits@);
    let ghost block = |user: Seq<char>| user_block(hits@, user, collapsed@);
    let mut rows: Vec<SoulseekRow> = Vec::new();
    let mut i: usize = 0;
    assert(row_views(rows@) =~= concat_map(names.take(0), block));
    while i < users.len()
        invariant
            i <= users@.len(),
            views(users@) == names,
            block == (|user: Seq<char>| user_block(hits@, user, collapsed@)),
            row_views(rows@) == concat_map(names.take(i as int), block),
        decreases users@.len() - i,
    {
        push_user_block(&mut rows, hits, &users[i], collapsed);
        assert(names[i as int] == users@[i as int]@);
        assert(names.take(i + 1).drop_last() =~= names.take(i as int));
        i = i + 1;
    }
    assert(names.take(i as int) =~= names);
    rows
}

/// The search tab.
#[derive(Debug)]
pub struct SoulseekUi {
    pub phase: SoulseekPhase,
    pub query: String,
    pub username: String,
    pub password: String,
    pub status: String,
    pub hits: Vec<SoulseekHit>,
    pub selected: usize,
    pub collapsed: TextSet,
    pub filter: SoulseekFilter,
}

/// What the search tab holds.
#[verifier::ext_equal]
pub struct SoulseekView {
    pub phase: SoulseekPhase,
    pub query: Seq<char>,
    pub username: Seq<char>,
    pub password: Seq<char>,
    pub status: Seq<char>,
    pub hits: Seq<SoulseekHit>,
    pub selected: int,
    pub collapsed: Set<Seq<char>>,
    pub filter: SoulseekFilter,
}

impl View for SoulseekUi {
    type V = SoulseekView;

    open spec fn view(&self) -> SoulseekView {
        SoulseekView {
            phase: self.phase,
            query: self.query@,
            username: self.username@,
            password: self.password@,
            status: self.status@,
            hits: self.hits@,
            selected: self.selected as int,
            collapsed: self.collapsed@,
            filter: self.filter,
        }
    }
}

/// The user and the folder that a row belongs to.
pub open spec fn row_folder(row: RowView) -> Option<(Seq<char>, Seq<char>)> {
    match row.kind {
        SoulseekRowKind::File => match row.hit {
            Some(hit) => Some((hit.username@, folder_part(hit.name@))),
            None => None,
        },
        SoulseekRowKind::Folder => match row.folder {
            Some(folder) => Some((row.username, folder)),
            None => None,
        },
        SoulseekRowKind::User => None,
    }
}

impl SoulseekView {
    /// The tab before anybody has signed in.
    pub open spec fn signed_out() -> SoulseekView {
        SoulseekView {
            phase: SoulseekPhase::Username,
            query: Seq::empty(),
            username: Seq::empty(),
            password: Seq::empty(),
            status: "Library > Search Soulseek to sign in"@,
            hits: Seq::empty(),
            selected: 0,
            collapsed: Set::empty(),
            filter: SoulseekFilter::open(),
        }
    }

    /// The tab before the first search.
    pub open spec fn fresh() -> SoulseekView {
        SoulseekView {
            phase: SoulseekPhase::Ready,
            status: "Type a search and press Enter"@,
            ..SoulseekView::signed_out()
        }
    }

    /// The hits that the filter lets through.
    pub open spec fn matching(self) -> Seq<SoulseekHit> {
        let filter = self.filter;
        self.hits.filter(|hit: SoulseekHit| filter.accepts(hit))
    }

    pub open spec fn rows(self) -> Seq<RowView> {
        result_rows(self.matching(), self.collapsed)
    }

    /// The row under the cursor.
    pub open spec fn current(self) -> Option<RowView> {
        if 0 <= self.selected < self.rows().len() {
            Some(self.rows()[self.selected])
        } else {
            None
        }
    }

    /// The tab with its cursor moved back into the list.
    pub open spec fn settled(self) -> SoulseekView {
        SoulseekView { selected: stepped(self.selected, 0, self.rows().len() as int), ..self }
    }

    pub open spec fn with_hits(self, hits: Seq<SoulseekHit>) -> SoulseekView {
        SoulseekView { hits, selected: 0, collapsed: Set::empty(), ..self }
    }

    pub open spec fn with_format(self, format: SoulseekFormat) -> SoulseekView {
        SoulseekView { filter: SoulseekFilter { format, ..self.filter }, ..self }.settled()
    }

    pub open spec fn with_slots_toggled(self) -> SoulseekView {
        SoulseekView {
            filter: SoulseekFilter { free_slot: !self.filter.free_slot, ..self.filter },
            ..self
        }.settled()
    }

    /// Folds or unfolds the row under the cursor; `expand` says which, `None` turns it
    /// round. A file's row has nothing to fold.
    pub open spec fn toggled(self, expand: Option<bool>) -> SoulseekView {
        match self.current() {
            None => self,
            Some(row) => if row.kind == SoulseekRowKind::File {
                self.settled()
            } else {
                let fold = match expand {
                    Some(expand) => !expand,
                    None => !self.collapsed.contains(row.key),
                };
                SoulseekView {
                    collapsed: if fold {
                        self.collapsed.insert(row.key)
                    } else {
                        self.collapsed.remove(row.key)
                    },
                    ..self
                }.settled()
            },
        }
    }

    /// Whether a hit belongs to what `scope` takes at the cursor, the filter left
    /// aside.
    pub open spec fn in_scope(self, scope: SoulseekScope, hit: SoulseekHit) -> bool {
        match self.current() {
            None => false,
            Some(row) => match scope {
                SoulseekScope::File => match row.hit {
                    Some(own) => hit.username@ == own.username@ && hit.name@ == own.name@,
                    None => false,
                },
                SoulseekScope::Folder => match row_folder(row) {
                    Some((user, folder)) => hit.username@ == user && folder_part(hit.name@)
                        == folder,
                    None => false,
                },
                SoulseekScope::User => row.username.len() > 0 && hit.username@ == row.username,
            },
        }
    }

    /// The hits that a download with this scope fetches.
    pub open spec fn scope_hits(self, scope: SoulseekScope) -> Seq<SoulseekHit> {
        match scope {
            SoulseekScope::File => match self.current() {
                Some(row) => match row.hit {
                    Some(hit) => seq![hit],
                    None => Seq::empty(),
                },
                None => Seq::empty(),
            },
            _ => self.hits.filter(
                |hit: SoulseekHit| self.filter.accepts(hit) && self.in_scope(scope, hit),
            ),
        }
    }

    /// Whether hiding with this scope has anything to go by at the cursor.
    pub open spec fn hides(self, scope: SoulseekScope) -> bool {
        match self.current() {
            None => false,
            Some(row) => match scope {
                SoulseekScope::File => true,
                SoulseekScope::Folder => row_folder(row) is Some,
                SoulseekScope::User => row.username.len() > 0,
            },
        }
    }

    pub open spec fn hidden(self, scope: SoulseekScope) -> SoulseekView {
        if self.hides(scope) {
            SoulseekView {
                hits: self.hits.filter(|hit: SoulseekHit| !self.in_scope(scope, hit)),
                ..self
            }.settled()
        } else {
            self
        }
    }

    /// What the status line says of the results.
    pub open spec fn summary(self) -> Seq<char> {
        let total = self.hits.len();
        let shown = self.matching().len();
        let noun = if total == 1 {
            "file"@
        } else {
            "files"@
        };
        if total == 0 {
            self.status
        } else {
            (if self.filter.active() {
                decimal(shown) + " of "@ + decimal(total) + " "@ + noun
            } else {
                decimal(shown) + " "@ + noun + "  ·  Shift+F10 or right-click"@
            }) + (if self.filter.format != SoulseekFormat::All {
                "  ·  "@ + self.filter.format.label_text()
            } else {
                Seq::empty()
            }) + (if self.filter.free_slot {
                "  ·  free slots"@
            } else {
                Seq::empty()
            })
        }
    }

    pub open spec fn prompt_text(self, caret: bool) -> Seq<char> {
        let mark = if caret {
            "█"@
        } else {
            Seq::empty()
        };
        match self.phase {
            SoulseekPhase::Username => "Username: "@ + self.username + mark,
            SoulseekPhase::Password => "Password: "@ + Seq::new(self.password.len(), |i: int| '*')
                + mark,
            SoulseekPhase::Ready => "Search: "@ + self.query + mark,
        }
    }
}

impl Default for SoulseekUi {
    fn default() -> (ui: SoulseekUi)
        ensures
            ui@ == SoulseekView::signed_out(),
    {
        SoulseekUi {
            phase: SoulseekPhase::Username,
            query: String::new(),
            username: String::new(),
            password: String::new(),
            status: "Library > Search Soulseek to sign in".to_owned(),
            hits: Vec::new(),
            selected: 0,
            collapsed: TextSet::new(),
            filter: SoulseekFilter { format: SoulseekFormat::All, free_slot: false },
        }
    }
}

impl SoulseekUi {
    pub fn ready() -> (ui: SoulseekUi)
        ensures
            ui@ == SoulseekView::fresh(),
    {
        SoulseekUi {
            phase: SoulseekPhase::Ready,
            query: String::new(),
            username: String::new(),
            password: String::new(),
            status: "Type a search and press Enter".to_owned(),
            hits: Vec::new(),
            selected: 0,
            collapsed: TextSet::new(),
            filter: SoulseekFilter { format: SoulseekFormat::All, free_slot: false },
        }
    }

    pub fn set_hits(&mut self, hits: Vec<SoulseekHit>)
        ensures
            final(self)@ == old(self)@.with_hits(hits@),
    {
        self.collapsed.clear();
        self.hits = hits;
        self.selected = 0;
    }

    pub fn matching_hits(&self) -> (hits: Vec<SoulseekHit>)
        ensures
            hits@ == self@.matching(),
    {
        let filter = self.filter;
        let ghost p = |hit: SoulseekHit| filter.accepts(hit);
        let keep = |hit: &SoulseekHit| -> (r: bool)
            ensures
                r == p(*hit),
            { filter.matches(hit) };
        kept_hits(&self.hits, keep, Ghost(p))
    }

    pub fn visible_rows(&self) -> (rows: Vec<SoulseekRow>)
        ensures
            row_views(rows@) == self@.rows(),
    {
        visible_rows(&self.matching_hits(), &self.collapsed)
    }

    /// The row under the cursor.
    pub fn current_row(&self) -> (row: Option<SoulseekRow>)
        ensures
            row is Some == self@.current() is Some,
            row is Some ==> Some(row->0@) == self@.current(),
    {
        let mut rows = self.visible_rows();
        assert(rows@.len() == self@.rows().len());
        if self.selected < rows.len() {
            assert(self@.rows()[self.selected as int] == rows@[self.selected as int]@);
            Some(rows.remove(self.selected))
        } else {
            None
        }
    }

    pub fn results_status(&self) -> (status: String)
        ensures
            status@ == self@.summary(),
    {
        let total: usize = self.hits.len();
        let shown: usize = self.matching_hits().len();
        if total == 0 {
            return self.status.clone();
        }
        let noun: &str = if total == 1 {
            "file"
        } else {
            "files"
        };
        let mut text = String::new();
        append_decimal(&mut text, shown as u64);
        if self.filter.is_active() {
            text.append(" of ");
            append_decimal(&mut text, total as u64);
            text.append(" ");
            text.append(noun);
        } else {
            text.append(" ");
            text.append(noun);
            text.append("  ·  Shift+F10 or right-click");
        }
        if self.filter.format != SoulseekFormat::All {
            text.append("  ·  ");
            text.append(self.filter.format.label());
        }
        if self.filter.free_slot {
            text.append("  ·  free slots");
        }
        assert(text@ =~= self@.summary());
        text
    }

    fn clamp_selected(&mut self)
        ensures
            final(self)@ == old(self)@.settled(),
    {
        let rows = self.visible_rows();
        assert(rows@.len() == self@.rows().len());
        self.selected = clamp_index(self.selected, rows.len());
    }

    pub fn set_format(&mut self, format: SoulseekFormat)
        ensures
            final(self)@ == old(self)@.with_format(format),
    {
        self.filter.format = format;
        self.clamp_selected();
    }

    pub fn cycle_format(&mut self, delta: i32)
        ensures
            final(self)@ == old(self)@.with_format(old(self)@.filter.format.cycled(delta as int)),
    {
        let format = self.filter.format.cycle(delta);
        self.set_format(format);
    }

    pub fn toggle_free_slot(&mut self)
        ensures
            final(self)@ == old(self)@.with_slots_toggled(),
    {
        self.filter.free_slot = !self.filter.free_slot;
        self.clamp_selected();
    }

    pub fn prompt(&self, caret: bool) -> (prompt: String)
        ensures
            prompt@ == self@.prompt_text(caret),
    {
        let mut prompt: String;
        match self.phase {
            SoulseekPhase::Username => {
                prompt = "Username: ".to_owned();
                prompt.append(&self.username);
            },
            SoulseekPhase::Password => {
                prompt = "Password: ".to_owned();
                let stars = chars_of(&self.password);
                let ghost head = prompt@;
                let mut i: usize = 0;
                while i < stars.len()
                    invariant
                        i <= stars@.len(),
                        prompt@ == head + Seq::new(i as nat, |k: int| '*'),
                    decreases stars@.len() - i,
                {
                    prompt.push('*');
                    i = i + 1;
                    assert(prompt@ =~= head + Seq::new(i as nat, |k: int| '*'));
                }
            },
            SoulseekPhase::Ready => {
                prompt = "Search: ".to_owned();
                prompt.append(&self.query);
            },
        }
        if caret {
            prompt.append("█");
        }
        assert(prompt@ =~= self@.prompt_text(caret));
        prompt
    }

    /// Folds or unfolds the row under the cursor; gives the hit where it is a file.
    pub fn toggle(&mut self, expand: Option<bool>) -> (hit: Option<SoulseekHit>)
        ensures
            final(self)@ == old(self)@.toggled(expand),
            hit == match old(self)@.current() {
                Some(row) => if row.kind == SoulseekRowKind::File {
                    row.hit
                } else {
                    None
                },
                None => None,
            },
    {
        let row = match self.current_row() {
            Some(row) => row,
            None => {
                return None;
            },
        };
        if row.kind == SoulseekRowKind::File {
            self.clamp_selected();
            return row.hit;
        }
        let fold = match expand {
            Some(expand) => !expand,
            None => !self.collapsed.contains(&row.key),
        };
        if fold {
            self.collapsed.insert(row.key);
        } else {
            self.collapsed.remove(&row.key);
        }
        self.clamp_selected();
        None
    }

    pub fn selected_kind(&self) -> (kind: Option<SoulseekRowKind>)
        ensures
            kind == match self@.current() {
                Some(row) => Some(row.kind),
                None => None,
            },
    {
        match self.current_row() {
            Some(row) => Some(row.kind),
            None => None,
        }
    }

    pub fn hits_in_scope(&self, scope: SoulseekScope) -> (hits: Vec<SoulseekHit>)
        ensures
            hits@ == self@.scope_hits(scope),
    {
        let ghost v = self@;
        let filter = self.filter;
        let ghost p = |hit: SoulseekHit| v.filter.accepts(hit) && v.in_scope(scope, hit);
        let row = match self.current_row() {
            Some(row) => row,
            None => {
                proof {
                    if scope != SoulseekScope::File {
                        lemma_filter_none(self@.hits, p);
                        assert(self@.hits.filter(p) =~= Seq::empty());
                    }
                }
                return Vec::new();
            },
        };
        match scope {
            SoulseekScope::File => {
                let mut hits: Vec<SoulseekHit> = Vec::new();
                if let Some(hit) = row.hit {
                    hits.push(hit);
                }
                assert(hits@ =~= self@.scope_hits(scope));
                hits
            },
            SoulseekScope::Folder => match scope_folder(&row) {
                None => {
                    proof {
                        lemma_filter_none(self@.hits, p);
                    }
                    let none: Vec<SoulseekHit> = Vec::new();
                    assert(none@ =~= self@.hits.filter(p));
                    none
                },
                Some((user, folder)) => {
                    let keep = |hit: &SoulseekHit| -> (r: bool)
                        ensures
                            r == p(*hit),
                        {
                            let own = hit.folder();
                            filter.matches(hit) && same_text(&hit.username, &user) && same_text(
                                &own,
                                &folder,
                            )
                        };
                    kept_hits(&self.hits, keep, Ghost(p))
                },
            },
            SoulseekScope::User => {
                if row.username.as_str().is_empty() {
                    proof {
                        lemma_filter_none(self@.hits, p);
                    }
                    let none: Vec<SoulseekHit> = Vec::new();
                    assert(none@ =~= self@.hits.filter(p));
                    return none;
                }
                let keep = |hit: &SoulseekHit| -> (r: bool)
                    ensures
                        r == p(*hit),
                    { filter.matches(hit) && same_text(&hit.username, &row.username) };
                kept_hits(&self.hits, keep, Ghost(p))
            },
        }
    }

    /// Takes everything in scope out of the results.
    pub fn hide_scope(&mut self, scope: SoulseekScope)
        ensures
            final(self)@ == old(self)@.hidden(scope),
    {
        let ghost v = self@;
        let ghost p = |hit: SoulseekHit| !v.in_scope(scope, hit);
        let row = match self.current_row() {
            Some(row) => row,
            None => {
                return;
            },
        };
        match scope {
            SoulseekScope::File => {
                match &row.hit {
                    Some(own) => {
                        let keep = |hit: &SoulseekHit| -> (r: bool)
                            ensures
                                r == p(*hit),
                            {
                                !(same_text(&hit.username, &own.username) && same_text(
                                    &hit.name,
                                    &own.name,
                                ))
                            };
                        self.hits = kept_hits(&self.hits, keep, Ghost(p));
                    },
                    None => {
                        proof {
                            lemma_filter_all(self@.hits, p);
                        }
                    },
                }
            },
            SoulseekScope::Folder => match scope_folder(&row) {
                None => {
                    return;
                },
                Some((user, folder)) => {
                    let keep = |hit: &SoulseekHit| -> (r: bool)
                        ensures
                            r == p(*hit),
                        {
                            let own = hit.folder();
                            !(same_text(&hit.username, &user) && same_text(&own, &folder))
                        };
                    self.hits = kept_hits(&self.hits, keep, Ghost(p));
                },
            },
            SoulseekScope::User => {
                if row.username.as_str().is_empty() {
                    return;
                }
                let keep = |hit: &SoulseekHit| -> (r: bool)
                    ensures
                        r == p(*hit),
                    { !same_text(&hit.username, &row.username) };
                self.hits = kept_hits(&self.hits, keep, Ghost(p));
            },
        }
        self.clamp_selected();
    }
}

/// The user and the folder that a row belongs to.
fn scope_folder(row: &SoulseekRow) -> (scope: Option<(String, String)>)
    ensures
        match scope {
            Some((user, folder)) => row_folder(row@) == Some((user@, folder@)),
            None => row_folder(row@) is None,
        },
{
    match row.kind {
        SoulseekRowKind::File => match &row.hit {
            Some(hit) => Some((hit.username.clone(), hit.folder())),
            None => None,
        },
        SoulseekRowKind::Folder => match &row.folder {
            Some(folder) => Some((row.username.clone(), folder.clone())),
            None => None,
        },
        SoulseekRowKind::User => None,
    }
}

/// A download of a folder or of a user takes only hits that the list shows, and all
/// of the shown ones that belong to it.
pub proof fn law_downloads_take_the_shown_hits_in_scope(
    ui: SoulseekView,
    scope: SoulseekScope,
    hit: SoulseekHit,
)
    requires
        scope != SoulseekScope::File,
    ensures
        ui.scope_hits(scope).contains(hit) <==> (ui.matching().contains(hit) && ui.in_scope(
            scope,
            hit,
        )),
{
    lemma_filter_members(ui.hits, |h: SoulseekHit| ui.filter.accepts(h));
    lemma_filter_members(
        ui.hits,
        |h: SoulseekHit| ui.filter.accepts(h) && ui.in_scope(scope, h),
    );
    let filter = ui.filter;
    assert((|h: SoulseekHit| filter.accepts(h)) =~= (|h: SoulseekHit| ui.filter.accepts(h)));
    assert(ui.matching().contains(hit) <==> ui.hits.contains(hit) && ui.filter.accepts(hit));
    assert(ui.scope_hits(scope) == ui.hits.filter(
        |h: SoulseekHit| ui.filter.accepts(h) && ui.in_scope(scope, h),
    ));
}

/// Hiding takes out what is in scope and nothing else.
pub proof fn law_hiding_takes_out_the_scope(
    ui: SoulseekView,
    scope: SoulseekScope,
    hit: SoulseekHit,
)
    requires
        ui.hides(scope),
    ensures
        ui.hidden(scope).hits.contains(hit) <==> (ui.hits.contains(hit) && !ui.in_scope(
            scope,
            hit,
        )),
{
    lemma_filter_members(ui.hits, |h: SoulseekHit| !ui.in_scope(scope, h));
}

/// The cursor stays on a row, or at the top of an empty list, whatever is hidden,
/// folded or filtered.
pub proof fn law_cursor_stays_in_the_list(
    ui: SoulseekView,
    scope: SoulseekScope,
    expand: Option<bool>,
    format: SoulseekFormat,
)
    requires
        0 <= ui.selected < ui.rows().len(),
    ensures
        ui.hidden(scope).selected == 0 || ui.hidden(scope).selected < ui.hidden(scope).rows().len(),
        ui.toggled(expand).selected == 0 || ui.toggled(expand).selected < ui.toggled(
            expand,
        ).rows().len(),
        ui.with_format(format).selected == 0 || ui.with_format(format).selected < ui.with_format(
            format,
        ).rows().len(),
        ui.with_slots_toggled().selected == 0 || ui.with_slots_toggled().selected
            < ui.with_slots_toggled().rows().len(),
{
    lemma_settled(
        SoulseekView {
            hits: ui.hits.filter(|hit: SoulseekHit| !ui.in_scope(scope, hit)),
            ..ui
        },
    );
    lemma_settled(ui);
    let row = ui.current()->0;
    lemma_settled(SoulseekView { collapsed: ui.collapsed.insert(row.key), ..ui });
    lemma_settled(SoulseekView { collapsed: ui.collapsed.remove(row.key), ..ui });
    lemma_settled(SoulseekView { filter: SoulseekFilter { format, ..ui.filter }, ..ui });
    lemma_settled(
        SoulseekView {
            filter: SoulseekFilter { free_slot: !ui.filter.free_slot, ..ui.filter },
            ..ui
        },
    );
}

proof fn lemma_settled(ui: SoulseekView)
    ensures
        ui.settled().rows() == ui.rows(),
        ui.settled().selected == 0 || ui.settled().selected < ui.rows().len(),
{
    assert(ui.settled().matching() == ui.matching());
}

} // verus!
