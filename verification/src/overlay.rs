//! What can lie over the main screen: menus, prompts, the file picker.

use vstd::prelude::*;
use vstd::seq_lib::*;
use vstd::string::*;

use crate::action::Action;
use crate::help::{HelpState, HelpView};
use crate::library::{is_supported, supported};
use crate::menus::{menu_actions, menu_items};
use crate::model::PlaylistId;
use crate::net::addr::DiscoveredServer;
use crate::order::{
    law_sorting_keeps_items, law_sorting_sorts, law_text_order, lemma_filter_members,
    lemma_filter_take, sort_stably, sorted_by, sorts, text_before, text_less,
};
use crate::path::{file_name, file_name_of, parent, parent_of};
use crate::path_codec::{show_path, shown_path};
use crate::text::{lowercase, to_lowercase};
use crate::util::{clamp_index, step_index, stepped, wrap_index, wrapped};

verus! {

#[derive(Clone, Copy, Debug, PartialEq, Eq, Structural)]
pub enum PickerMode {
    Files,
    Folder,
}

/// An entry of a folder.
#[derive(Debug)]
pub struct PickerEntry {
    pub path: String,
    pub is_dir: bool,
}

impl Clone for PickerEntry {
    fn clone(&self) -> (copy: PickerEntry)
        ensures
            copy == *self,
    {
        PickerEntry { path: self.path.clone(), is_dir: self.is_dir }
    }
}

/// What an entry of a folder says.
pub struct PickerEntryView {
    pub path: Seq<char>,
    pub is_dir: bool,
}

impl View for PickerEntry {
    type V = PickerEntryView;

    open spec fn view(&self) -> PickerEntryView {
        PickerEntryView { path: self.path@, is_dir: self.is_dir }
    }
}

pub open spec fn picker_entries(entries: Seq<PickerEntry>) -> Seq<PickerEntryView> {
    entries.map_values(|entry: PickerEntry| entry@)
}

/// A file picker.
#[derive(Debug)]
pub struct PathPicker {
    pub mode: PickerMode,
    pub directory: String,
    pub entries: Vec<PickerEntry>,
    pub selected: usize,
}

/// What a file picker holds.
#[verifier::ext_equal]
pub struct PickerView {
    pub mode: PickerMode,
    pub directory: Seq<char>,
    pub entries: Seq<PickerEntryView>,
    pub selected: int,
}

impl View for PathPicker {
    type V = PickerView;

    open spec fn view(&self) -> PickerView {
        PickerView {
            mode: self.mode,
            directory: self.directory@,
            entries: picker_entries(self.entries@),
            selected: self.selected as int,
        }
    }
}

/// What an entry is sorted by: its name in lower case.
pub open spec fn name_key(path: Seq<char>) -> Seq<char> {
    match file_name_of(path) {
        Some(name) => lowercase(shown_path(name)),
        None => lowercase(Seq::empty()),
    }
}

pub fn file_name_key(path: &str) -> (key: String)
    ensures
        key@ == name_key(path@),
{
    match file_name(path) {
        Some(name) => to_lowercase(&show_path(&name)),
        None => {
            let empty = String::new();
            assert(empty@ =~= Seq::empty());
            to_lowercase(&empty)
        },
    }
}

/// Whether an entry is listed before another: folders first, then by name.
pub open spec fn entry_before(a: PickerEntryView, b: PickerEntryView) -> bool {
    ||| a.is_dir && !b.is_dir
    ||| a.is_dir == b.is_dir && text_less(name_key(a.path), name_key(b.path))
}

/// Whether a picker offers an entry: folders always, audio files when it picks files.
pub open spec fn offered(mode: PickerMode, entry: PickerEntryView) -> bool {
    entry.is_dir || (mode == PickerMode::Files && supported(entry.path))
}

/// The entries of a picker: the parent folder and what the folder holds, in order.
pub open spec fn listing(
    mode: PickerMode,
    directory: Seq<char>,
    found: Seq<PickerEntryView>,
) -> Seq<PickerEntryView> {
    let above = match parent_of(directory) {
        Some(parent) => seq![PickerEntryView { path: parent, is_dir: true }],
        None => Seq::empty(),
    };
    sorted_by(
        above + found.filter(|entry: PickerEntryView| offered(mode, entry)),
        |a: PickerEntryView, b: PickerEntryView| entry_before(a, b),
    )
}

/// The entries of a picker are those that are offered, in their order.
pub proof fn lemma_listing(mode: PickerMode, directory: Seq<char>, found: Seq<PickerEntryView>)
    ensures
        forall|entry: PickerEntryView| #[trigger]
            listing(mode, directory, found).contains(entry) <==> (parent_of(directory) == Some(
                entry.path,
            ) && entry.is_dir) || (found.contains(entry) && offered(mode, entry)),
        forall|i: int, j: int|
            0 <= i < j < listing(mode, directory, found).len() ==> !entry_before(
                #[trigger] listing(mode, directory, found)[j],
                #[trigger] listing(mode, directory, found)[i],
            ),
{
    broadcast use group_to_multiset_ensures;

    let keep = |entry: PickerEntryView| offered(mode, entry);
    let less = |a: PickerEntryView, b: PickerEntryView| entry_before(a, b);
    let above = match parent_of(directory) {
        Some(parent) => seq![PickerEntryView { path: parent, is_dir: true }],
        None => Seq::empty(),
    };
    let all = above + found.filter(keep);
    let entries = listing(mode, directory, found);
    assert(entries == sorted_by(all, less));
    lemma_filter_members(found, keep);
    law_sorting_keeps_items(all, less);
    assert(sorts(less)) by {
        assert forall|a: PickerEntryView, b: PickerEntryView| #[trigger] less(a, b) implies !less(
            b,
            a,
        ) by {
            law_text_order(name_key(a.path), name_key(b.path), name_key(a.path));
        }
        assert forall|a: PickerEntryView, b: PickerEntryView, c: PickerEntryView|
            (#[trigger] less(a, b)) && !(#[trigger] less(c, b)) implies less(a, c) by {
            law_text_order(name_key(a.path), name_key(b.path), name_key(c.path));
            law_text_order(name_key(c.path), name_key(a.path), name_key(b.path));
        }
    }
    law_sorting_sorts(all, less);
    assert forall|i: int, j: int| 0 <= i < j < entries.len() implies !entry_before(
        #[trigger] entries[j],
        #[trigger] entries[i],
    ) by {
        assert(!less(entries[j], entries[i]));
    }
    assert forall|entry: PickerEntryView| #[trigger] entries.contains(entry) <==> (parent_of(
        directory,
    ) == Some(entry.path) && entry.is_dir) || (found.contains(entry) && offered(mode, entry)) by {
        assert(entries.contains(entry) <==> entries.to_multiset().count(entry) > 0);
        assert(all.contains(entry) <==> all.to_multiset().count(entry) > 0);
        let kept = found.filter(keep);
        assert(all.contains(entry) <==> above.contains(entry) || kept.contains(entry)) by {
            if above.contains(entry) {
                let i = choose|i: int| 0 <= i < above.len() && above[i] == entry;
                assert(all[i] == entry);
            }
            if kept.contains(entry) {
                let i = choose|i: int| 0 <= i < kept.len() && kept[i] == entry;
                assert(all[above.len() + i] == entry);
            }
        }
        if parent_of(directory) is Some {
            assert(above[0] == PickerEntryView { path: parent_of(directory)->0, is_dir: true });
        }
    }
}

impl PickerView {
    /// The picker after a look at its folder.
    pub open spec fn refreshed(self, found: Seq<PickerEntryView>) -> PickerView {
        let entries = listing(self.mode, self.directory, found);
        PickerView { entries, selected: stepped(self.selected, 0, entries.len() as int), ..self }
    }
}

proof fn lemma_place_entries(sorted: Seq<PickerEntry>, x: PickerEntry)
    ensures
        crate::order::place(sorted, x, |a: PickerEntry, b: PickerEntry| entry_before(a@, b@))
            == crate::order::place(
            picker_entries(sorted),
            x@,
            |a: PickerEntryView, b: PickerEntryView| entry_before(a, b),
        ),
    decreases sorted.len(),
{
    if sorted.len() > 0 {
        lemma_place_entries(sorted.drop_last(), x);
        assert(picker_entries(sorted).drop_last() =~= picker_entries(sorted.drop_last()));
        assert(picker_entries(sorted).last() == sorted.last()@);
    }
}

proof fn lemma_sorted_entries(items: Seq<PickerEntry>)
    ensures
        picker_entries(sorted_by(items, |a: PickerEntry, b: PickerEntry| entry_before(a@, b@)))
            == sorted_by(
            picker_entries(items),
            |a: PickerEntryView, b: PickerEntryView| entry_before(a, b),
        ),
    decreases items.len(),
{
    let less = |a: PickerEntry, b: PickerEntry| entry_before(a@, b@);
    if items.len() > 0 {
        lemma_sorted_entries(items.drop_last());
        let rest = sorted_by(items.drop_last(), less);
        let at = crate::order::place(rest, items.last(), less);
        assert(picker_entries(items).drop_last() =~= picker_entries(items.drop_last()));
        lemma_place_entries(rest, items.last());
        crate::order::lemma_place(rest, items.last(), less);
        assert(picker_entries(items).last() == items.last()@);
        assert(picker_entries(rest.insert(at, items.last())) =~= picker_entries(rest).insert(
            at,
            items.last()@,
        ));
    } else {
        assert(picker_entries(items) =~= Seq::empty());
        assert(picker_entries(sorted_by(items, less)) =~= Seq::empty());
    }
}

impl PathPicker {
    /// A picker on a folder that holds `found`.
    pub fn new(mode: PickerMode, directory: String, found: Vec<PickerEntry>) -> (picker: PathPicker)
        ensures
            picker@ == (PickerView {
                mode,
                directory: directory@,
                entries: Seq::empty(),
                selected: 0,
            }).refreshed(picker_entries(found@)),
    {
        let mut picker = PathPicker { mode, directory, entries: Vec::new(), selected: 0 };
        assert(picker@.entries =~= Seq::empty());
        picker.refresh(found);
        picker
    }

    /// Lists the picker's folder, which holds `found`.
    pub fn refresh(&mut self, found: Vec<PickerEntry>)
        ensures
            final(self)@ == old(self)@.refreshed(picker_entries(found@)),
    {
        let ghost mode = self.mode;
        let ghost p = |entry: PickerEntryView| offered(mode, entry);
        let mut entries: Vec<PickerEntry> = Vec::new();
        if let Some(above) = parent(&self.directory) {
            entries.push(PickerEntry { path: above, is_dir: true });
        }
        let ghost above = picker_entries(entries@);
        assert(above =~= match parent_of(self.directory@) {
            Some(parent) => seq![PickerEntryView { path: parent, is_dir: true }],
            None => Seq::empty(),
        });
        let ghost all = picker_entries(found@);
        let mut i: usize = 0;
        proof {
            reveal(Seq::filter);
        }
        assert(picker_entries(entries@) =~= above + all.take(0).filter(p));
        while i < found.len()
            invariant
                i <= found@.len(),
                *self == *old(self),
                mode == self.mode,
                all == picker_entries(found@),
                p == (|entry: PickerEntryView| offered(mode, entry)),
                picker_entries(entries@) == above + all.take(i as int).filter(p),
            decreases found@.len() - i,
        {
            proof {
                lemma_filter_take(all, p, i as int);
            }
            let entry = &found[i];
            let ghost before = picker_entries(entries@);
            if entry.is_dir || (self.mode == PickerMode::Files && is_supported(&entry.path)) {
                entries.push(entry.clone());
                assert(picker_entries(entries@) =~= before.push(all[i as int]));
            }
            i = i + 1;
            assert(picker_entries(entries@) =~= above + all.take(i as int).filter(p));
        }
        assert(all.take(i as int) =~= all);
        proof {
            lemma_sorted_entries(entries@);
        }
        let before = |a: &PickerEntry, b: &PickerEntry| -> (r: bool)
            ensures
                r == entry_before(a@, b@),
            {
                if a.is_dir == b.is_dir {
                    let left = file_name_key(&a.path);
                    let right = file_name_key(&b.path);
                    text_before(&left, &right)
                } else {
                    a.is_dir
                }
            };
        sort_stably(
            &mut entries,
            before,
            Ghost(|a: PickerEntry, b: PickerEntry| entry_before(a@, b@)),
        );
        assert(picker_entries(entries@).len() == entries@.len());
        self.selected = clamp_index(self.selected, entries.len());
        self.entries = entries;
    }
}

/// What lies over the main screen.
#[derive(Debug)]
pub enum Overlay {
    Closed,
    Help(HelpView),
    Menu { menu: usize, selected: usize },
    PathPicker(PathPicker),
    Rename { playlist_id: PlaylistId, text: String },
    Connect { text: String, discovered: Vec<DiscoveredServer> },
    Pair { text: String },
    ContextMenu { selected: usize, items: Vec<(String, Action)>, at: Option<(u16, u16)> },
    Properties { title: String, body: String },
}

/// What an overlay holds.
pub enum OverlayView {
    Closed,
    Help(HelpState),
    Menu { menu: int, selected: int },
    PathPicker(PickerView),
    Rename { playlist_id: PlaylistId, text: Seq<char> },
    Connect { text: Seq<char>, discovered: Seq<DiscoveredServer> },
    Pair { text: Seq<char> },
    ContextMenu { selected: int, items: Seq<(Seq<char>, Action)>, at: Option<(u16, u16)> },
    Properties { title: Seq<char>, body: Seq<char> },
}

/// The texts and actions of a list of entries.
pub open spec fn context_items(items: Seq<(String, Action)>) -> Seq<(Seq<char>, Action)> {
    items.map_values(|item: (String, Action)| (item.0@, item.1))
}

impl View for Overlay {
    type V = OverlayView;

    open spec fn view(&self) -> OverlayView {
        match self {
            Overlay::Closed => OverlayView::Closed,
            Overlay::Help(help) => OverlayView::Help(help@),
            Overlay::Menu { menu, selected } => OverlayView::Menu {
                menu: *menu as int,
                selected: *selected as int,
            },
            Overlay::PathPicker(picker) => OverlayView::PathPicker(picker@),
            Overlay::Rename { playlist_id, text } => OverlayView::Rename {
                playlist_id: *playlist_id,
                text: text@,
            },
            Overlay::Connect { text, discovered } => OverlayView::Connect {
                text: text@,
                discovered: discovered@,
            },
            Overlay::Pair { text } => OverlayView::Pair { text: text@ },
            Overlay::ContextMenu { selected, items, at } => OverlayView::ContextMenu {
                selected: *selected as int,
                items: context_items(items@),
                at: *at,
            },
            Overlay::Properties { title, body } => OverlayView::Properties {
                title: title@,
                body: body@,
            },
        }
    }
}

impl OverlayView {
    /// The text that is being typed into, where there is one.
    pub open spec fn text(self) -> Option<Seq<char>> {
        match self {
            OverlayView::Rename { text, .. } => Some(text),
            OverlayView::Connect { text, .. } => Some(text),
            OverlayView::Pair { text } => Some(text),
            _ => None,
        }
    }

    /// The overlay with another text in its place.
    pub open spec fn with_text(self, text: Seq<char>) -> OverlayView {
        match self {
            OverlayView::Rename { playlist_id, .. } => OverlayView::Rename { playlist_id, text },
            OverlayView::Connect { discovered, .. } => OverlayView::Connect { text, discovered },
            OverlayView::Pair { .. } => OverlayView::Pair { text },
            other => other,
        }
    }

    /// The cursor moved: menus go round, lists stop at their ends.
    pub open spec fn moved(self, delta: int) -> OverlayView {
        match self {
            OverlayView::Menu { menu, selected } => OverlayView::Menu {
                menu,
                selected: wrapped(selected, delta, menu_items(menu).len() as int),
            },
            OverlayView::ContextMenu { selected, items, at } => OverlayView::ContextMenu {
                selected: wrapped(selected, delta, items.len() as int),
                items,
                at,
            },
            OverlayView::PathPicker(picker) => OverlayView::PathPicker(
                PickerView {
                    selected: stepped(picker.selected, delta, picker.entries.len() as int),
                    ..picker
                },
            ),
            OverlayView::Help(help) => OverlayView::Help(help.moved(delta)),
            other => other,
        }
    }
}

/// A text without its last character.
pub open spec fn shortened(text: Seq<char>) -> Seq<char> {
    if text.len() == 0 {
        text
    } else {
        text.drop_last()
    }
}

/// `String::pop` takes the last character off; an empty text stays as it is.
#[verifier::external_body]
pub(crate) fn pop_char(text: &mut String)
    ensures
        final(text)@ == shortened(old(text)@),
{
    text.pop();
}

impl Overlay {
    /// Appends a character to the text that is being typed.
    pub fn push_char(&mut self, c: char)
        ensures
            final(self)@ == match old(self)@.text() {
                Some(text) => old(self)@.with_text(text.push(c)),
                None => old(self)@,
            },
    {
        match self {
            Overlay::Rename { text, .. } => text.push(c),
            Overlay::Connect { text, .. } => text.push(c),
            Overlay::Pair { text } => text.push(c),
            _ => {},
        }
    }

    /// Takes the last character off the text that is being typed.
    pub fn pop_char(&mut self)
        ensures
            final(self)@ == match old(self)@.text() {
                Some(text) => old(self)@.with_text(shortened(text)),
                None => old(self)@,
            },
    {
        match self {
            Overlay::Rename { text, .. } => pop_char(text),
            Overlay::Connect { text, .. } => pop_char(text),
            Overlay::Pair { text } => pop_char(text),
            _ => {},
        }
    }

    /// Moves the cursor.
    pub fn move_cursor(&mut self, delta: i32)
        ensures
            final(self)@ == old(self)@.moved(delta as int),
    {
        match self {
            Overlay::Menu { menu, selected } => {
                let items = menu_actions(*menu);
                assert(items@.len() == menu_items(*menu as int).len());
                *selected = wrap_index(*selected, delta, items.len());
            },
            Overlay::ContextMenu { selected, items, .. } => {
                assert(items@.len() == context_items(items@).len());
                *selected = wrap_index(*selected, delta, items.len());
            },
            Overlay::PathPicker(picker) => {
                picker.selected = step_index(picker.selected, delta, picker.entries.len());
            },
            Overlay::Help(help) => {
                let rows = help.visible_rows();
                assert(rows@.len() == help@.rows().len());
                help.selected = step_index(help.selected, delta, rows.len());
            },
            _ => {},
        }
    }
}

} // verus!
