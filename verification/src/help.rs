//! The help page: sections of key bindings that can be folded.

use std::collections::BTreeSet;

use vstd::prelude::*;

use crate::util::{clamp_index, stepped};

verus! {

broadcast use vstd::std_specs::btree::group_btree_axioms;

/// The number of sections.
pub const SECTION_COUNT: usize = 7;

/// The help page as it is shown: where the cursor is and which sections are folded.
#[derive(Debug)]
pub struct HelpView {
    pub selected: usize,
    pub collapsed: BTreeSet<usize>,
}

/// What is known of a help page.
#[verifier::ext_equal]
pub struct HelpState {
    pub selected: int,
    pub collapsed: Set<usize>,
}

impl View for HelpView {
    type V = HelpState;

    open spec fn view(&self) -> HelpState {
        HelpState { selected: self.selected as int, collapsed: self.collapsed@ }
    }
}

#[derive(Clone, Copy, Debug)]
pub enum HelpRow {
    Section { id: usize, title: &'static str, open: bool },
    Entry { keys: &'static str, text: &'static str },
}

/// What a row of the help page shows.
pub enum HelpRowView {
    Section { id: int, title: Seq<char>, open: bool },
    Entry { keys: Seq<char>, text: Seq<char> },
}

impl View for HelpRow {
    type V = HelpRowView;

    open spec fn view(&self) -> HelpRowView {
        match *self {
            HelpRow::Section { id, title, open } => HelpRowView::Section {
                id: id as int,
                title: title@,
                open,
            },
            HelpRow::Entry { keys, text } => HelpRowView::Entry { keys: keys@, text: text@ },
        }
    }
}

/// What the rows of a list show.
pub open spec fn help_views(rows: Seq<HelpRow>) -> Seq<HelpRowView> {
    rows.map_values(|row: HelpRow| row@)
}

pub open spec fn section_title(id: int) -> Seq<char> {
    if id == 0 {
        "Playback"@
    } else if id == 1 {
        "Playlists"@
    } else if id == 2 {
        "Selection"@
    } else if id == 3 {
        "Files"@
    } else if id == 4 {
        "Views"@
    } else if id == 5 {
        "Soulseek"@
    } else {
        "General"@
    }
}

pub open spec fn entry_row(keys: Seq<char>, text: Seq<char>) -> HelpRowView {
    HelpRowView::Entry { keys, text }
}

pub open spec fn section_entries(id: int) -> Seq<HelpRowView> {
    if id == 0 {
        seq![
            entry_row("Space"@, "Play / pause"@),
            entry_row("Left / Right"@, "Seek ±5 seconds"@),
            entry_row("+ / -"@, "Volume"@),
            entry_row("Stop"@, "Toolbar stop"@),
            entry_row("Playback menu"@, "Order, stop after current, ReplayGain scan"@),
        ]
    } else if id == 1 {
        seq![
            entry_row("Enter"@, "Play selection or add album"@),
            entry_row("Delete"@, "Remove / dequeue"@),
            entry_row("Ctrl+N"@, "New playlist"@),
            entry_row("F2"@, "Rename playlist"@),
            entry_row("Ctrl+W"@, "Close playlist or pane"@),
            entry_row("Alt+Up / Down"@, "Move tracks"@),
            entry_row("Click headers"@, "Sort playlist"@),
        ]
    } else if id == 2 {
        seq![
            entry_row("Ctrl+F"@, "Filter list"@),
            entry_row("Esc"@, "Clear filter or close pane"@),
            entry_row("Shift+Up / Down"@, "Extend selection"@),
            entry_row("Insert"@, "Toggle mark"@),
        ]
    } else if id == 3 {
        seq![
            entry_row("Ctrl+O"@, "Add files"@),
            entry_row("Ctrl+Shift+O"@, "Add folder"@),
            entry_row("Drop / paste"@, "Add files from a file manager"@),
            entry_row("Library menu"@, "Add from clipboard"@),
        ]
    } else if id == 4 {
        seq![
            entry_row("Ctrl+,"@, "Preferences"@),
            entry_row("Library > Soulseek"@, "Search and download"@),
            entry_row("Queue tab"@, "Plays before the playlist"@),
        ]
    } else if id == 5 {
        seq![
            entry_row("Enter"@, "Expand folder / download file"@),
            entry_row("Left / Right"@, "Cycle format"@),
            entry_row("Enter on filters"@, "Toggle free slots"@),
            entry_row("Click chips"@, "Bitrate, speed, length, sort"@),
        ]
    } else {
        seq![
            entry_row("F1"@, "This help"@),
            entry_row("F10"@, "Menu"@),
            entry_row("Shift+F10"@, "Context menu"@),
            entry_row("Ctrl+Q"@, "Exit"@),
        ]
    }
}

/// A section's row, and its entries unless it is folded.
pub open spec fn section_block(id: int, collapsed: Set<usize>) -> Seq<HelpRowView> {
    let open = !collapsed.contains(id as usize);
    seq![HelpRowView::Section { id, title: section_title(id), open }] + if open {
        section_entries(id)
    } else {
        Seq::empty()
    }
}

/// The rows of the first `n` sections.
pub open spec fn rows_of_first(n: nat, collapsed: Set<usize>) -> Seq<HelpRowView>
    decreases n,
{
    if n == 0 {
        Seq::empty()
    } else {
        rows_of_first((n - 1) as nat, collapsed) + section_block(n - 1, collapsed)
    }
}

impl HelpState {
    pub open spec fn rows(self) -> Seq<HelpRowView> {
        rows_of_first(SECTION_COUNT as nat, self.collapsed)
    }

    /// The page as it opens: only the first section unfolded.
    pub open spec fn opening() -> HelpState {
        HelpState { selected: 0, collapsed: Set::new(|id: usize| 1 <= id < SECTION_COUNT) }
    }

    /// The section under the cursor.
    pub open spec fn section(self) -> Option<usize> {
        if 0 <= self.selected < self.rows().len() {
            match self.rows()[self.selected] {
                HelpRowView::Section { id, .. } => Some(id as usize),
                HelpRowView::Entry { .. } => None,
            }
        } else {
            None
        }
    }

    pub open spec fn toggled(self) -> HelpState {
        match self.section() {
            None => self,
            Some(id) => {
                let turned = HelpState {
                    collapsed: if self.collapsed.contains(id) {
                        self.collapsed.remove(id)
                    } else {
                        self.collapsed.insert(id)
                    },
                    ..self
                };
                HelpState {
                    selected: stepped(self.selected, 0, turned.rows().len() as int),
                    ..turned
                }
            },
        }
    }

    pub open spec fn moved(self, delta: int) -> HelpState {
        HelpState { selected: stepped(self.selected, delta, self.rows().len() as int), ..self }
    }
}

fn title_of(id: usize) -> (title: &'static str)
    ensures
        title@ == section_title(id as int),
{
    if id == 0 {
        "Playback"
    } else if id == 1 {
        "Playlists"
    } else if id == 2 {
        "Selection"
    } else if id == 3 {
        "Files"
    } else if id == 4 {
        "Views"
    } else if id == 5 {
        "Soulseek"
    } else {
        "General"
    }
}

fn entry(rows: &mut Vec<HelpRow>, keys: &'static str, text: &'static str)
    ensures
        help_views(final(rows)@) == help_views(old(rows)@).push(entry_row(keys@, text@)),
{
    let ghost before = help_views(rows@);
    rows.push(HelpRow::Entry { keys, text });
    assert(help_views(rows@) =~= before.push(entry_row(keys@, text@)));
}

fn push_entries(rows: &mut Vec<HelpRow>, id: usize)
    ensures
        help_views(final(rows)@) == help_views(old(rows)@) + section_entries(id as int),
{
    let ghost before = help_views(rows@);
    if id == 0 {
        entry(rows, "Space", "Play / pause");
        entry(rows, "Left / Right", "Seek ±5 seconds");
        entry(rows, "+ / -", "Volume");
        entry(rows, "Stop", "Toolbar stop");
        entry(rows, "Playback menu", "Order, stop after current, ReplayGain scan");
    } else if id == 1 {
        entry(rows, "Enter", "Play selection or add album");
        entry(rows, "Delete", "Remove / dequeue");
        entry(rows, "Ctrl+N", "New playlist");
        entry(rows, "F2", "Rename playlist");
        entry(rows, "Ctrl+W", "Close playlist or pane");
        entry(rows, "Alt+Up / Down", "Move tracks");
        entry(rows, "Click headers", "Sort playlist");
    } else if id == 2 {
        entry(rows, "Ctrl+F", "Filter list");
        entry(rows, "Esc", "Clear filter or close pane");
        entry(rows, "Shift+Up / Down", "Extend selection");
        entry(rows, "Insert", "Toggle mark");
    } else if id == 3 {
        entry(rows, "Ctrl+O", "Add files");
        entry(rows, "Ctrl+Shift+O", "Add folder");
        entry(rows, "Drop / paste", "Add files from a file manager");
        entry(rows, "Library menu", "Add from clipboard");
    } else if id == 4 {
        entry(rows, "Ctrl+,", "Preferences");
        entry(rows, "Library > Soulseek", "Search and download");
        entry(rows, "Queue tab", "Plays before the playlist");
    } else if id == 5 {
        entry(rows, "Enter", "Expand folder / download file");
        entry(rows, "Left / Right", "Cycle format");
        entry(rows, "Enter on filters", "Toggle free slots");
        entry(rows, "Click chips", "Bitrate, speed, length, sort");
    } else {
        entry(rows, "F1", "This help");
        entry(rows, "F10", "Menu");
        entry(rows, "Shift+F10", "Context menu");
        entry(rows, "Ctrl+Q", "Exit");
    }
    assert(help_views(rows@) =~= before + section_entries(id as int));
}

impl Default for HelpView {
    fn default() -> (help: HelpView)
        ensures
            help@ == HelpState::opening(),
    {
        let mut collapsed: BTreeSet<usize> = BTreeSet::new();
        let mut id: usize = 1;
        while id < SECTION_COUNT
            invariant
                1 <= id <= SECTION_COUNT,
                collapsed@ == Set::new(|k: usize| 1 <= k < id),
            decreases SECTION_COUNT - id,
        {
            collapsed.insert(id);
            id = id + 1;
            assert(collapsed@ =~= Set::new(|k: usize| 1 <= k < id));
        }
        assert(collapsed@ =~= HelpState::opening().collapsed);
        HelpView { selected: 0, collapsed }
    }
}

impl HelpView {
    pub fn visible_rows(&self) -> (rows: Vec<HelpRow>)
        ensures
            help_views(rows@) == self@.rows(),
    {
        let mut rows: Vec<HelpRow> = Vec::new();
        let mut id: usize = 0;
        assert(help_views(rows@) =~= Seq::empty());
        while id < SECTION_COUNT
            invariant
                id <= SECTION_COUNT,
                help_views(rows@) == rows_of_first(id as nat, self.collapsed@),
            decreases SECTION_COUNT - id,
        {
            let open = !self.collapsed.contains(&id);
            let ghost before = help_views(rows@);
            let row = HelpRow::Section { id, title: title_of(id), open };
            let ghost row_view = row@;
            rows.push(row);
            assert(help_views(rows@) =~= before.push(row_view));
            if open {
                push_entries(&mut rows, id);
            }
            assert(help_views(rows@) =~= before + section_block(id as int, self.collapsed@));
            id = id + 1;
        }
        rows
    }

    /// Folds or unfolds the section under the cursor.
    pub fn toggle(&mut self)
        ensures
            final(self)@ == old(self)@.toggled(),
    {
        let rows = self.visible_rows();
        assert(rows@.len() == self@.rows().len());
        if self.selected >= rows.len() {
            return;
        }
        assert(self@.rows()[self.selected as int] == rows@[self.selected as int]@);
        let id: usize = match rows[self.selected] {
            HelpRow::Section { id, .. } => id,
            HelpRow::Entry { .. } => {
                return;
            },
        };
        if !self.collapsed.remove(&id) {
            self.collapsed.insert(id);
        }
        assert(self@.collapsed =~= if old(self)@.collapsed.contains(id) {
            old(self)@.collapsed.remove(id)
        } else {
            old(self)@.collapsed.insert(id)
        });
        let rows = self.visible_rows();
        assert(rows@.len() == self@.rows().len());
        self.selected = clamp_index(self.selected, rows.len());
    }
}

/// A section's row stands behind the rows of all sections before it.
proof fn lemma_section_place(n: nat, collapsed: Set<usize>, at: int)
    requires
        0 <= at < rows_of_first(n, collapsed).len(),
        n <= SECTION_COUNT,
        rows_of_first(n, collapsed)[at] is Section,
    ensures
        ({
            let id = rows_of_first(n, collapsed)[at]->id;
            &&& 0 <= id < n
            &&& at == rows_of_first(id as nat, collapsed).len()
        }),
    decreases n,
{
    let before = rows_of_first((n - 1) as nat, collapsed);
    if at < before.len() {
        assert(rows_of_first(n, collapsed)[at] == before[at]);
        lemma_section_place((n - 1) as nat, collapsed, at);
    } else {
        let block = section_block(n - 1, collapsed);
        assert(rows_of_first(n, collapsed)[at] == block[at - before.len()]);
        if at > before.len() {
            assert(block[at - before.len()] == section_entries(n - 1)[at - before.len() - 1]);
        }
    }
}

/// The rows of the sections before one do not depend on whether that one is folded.
proof fn lemma_rows_before(n: nat, id: usize, a: Set<usize>, b: Set<usize>)
    requires
        n <= id < SECTION_COUNT,
        forall|k: usize| k != id ==> (a.contains(k) == b.contains(k)),
    ensures
        rows_of_first(n, a) == rows_of_first(n, b),
    decreases n,
{
    if n > 0 {
        lemma_rows_before((n - 1) as nat, id, a, b);
        assert(a.contains((n - 1) as usize) == b.contains((n - 1) as usize));
    }
}

/// A section's row is found behind the rows of the sections before it.
proof fn lemma_section_found(n: nat, id: nat, collapsed: Set<usize>)
    requires
        id < n <= SECTION_COUNT,
    ensures
        rows_of_first(id, collapsed).len() < rows_of_first(n, collapsed).len(),
        rows_of_first(n, collapsed)[rows_of_first(id, collapsed).len() as int]
            == (HelpRowView::Section {
            id: id as int,
            title: section_title(id as int),
            open: !collapsed.contains(id as usize),
        }),
    decreases n,
{
    if n > id + 1 {
        lemma_section_found((n - 1) as nat, id, collapsed);
    }
}

/// Folding a section and unfolding it again leaves the page as it was.
pub proof fn law_help_toggle_is_undone(help: HelpState)
    requires
        help.section() is Some,
    ensures
        help.toggled().toggled() == help,
{
    let id = help.section()->0;
    let n = SECTION_COUNT as nat;
    lemma_section_place(n, help.collapsed, help.selected);
    let turned = help.toggled();
    lemma_rows_before(id as nat, id, help.collapsed, turned.collapsed);
    lemma_section_found(n, id as nat, turned.collapsed);
    assert(turned.selected == help.selected);
    assert(turned.section() == Some(id));
    assert(turned.toggled().collapsed =~= help.collapsed);
}

} // verus!
