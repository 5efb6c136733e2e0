//! The preferences: their rows and how the cursor moves over them.

use vstd::prelude::*;

use crate::util::wrap_index;

verus! {

#[derive(Clone, Copy, Debug, PartialEq, Eq, Structural)]
pub enum SettingId {
    OutputDevice,
    ReplayGainMode,
    ReplayGainPreamp,
    ReplayGainClip,
    CursorFollow,
    AlbumArt,
    Spectrum,
    NerdFont,
}

#[derive(Clone, Copy, Debug, PartialEq, Eq)]
pub enum SettingRow {
    Header(&'static str),
    Item(SettingId),
}

/// The number of rows.
pub const ROW_COUNT: usize = 11;

impl SettingId {
    pub open spec fn label_text(self) -> Seq<char> {
        match self {
            SettingId::OutputDevice => "Output device"@,
            SettingId::ReplayGainMode => "ReplayGain"@,
            SettingId::ReplayGainPreamp => "ReplayGain preamp"@,
            SettingId::ReplayGainClip => "Prevent clipping"@,
            SettingId::CursorFollow => "Cursor follows playback"@,
            SettingId::AlbumArt => "Album art"@,
            SettingId::Spectrum => "Spectrum"@,
            SettingId::NerdFont => "Nerd Font icons"@,
        }
    }

    pub fn label(self) -> (label: &'static str)
        ensures
            label@ == self.label_text(),
    {
        match self {
            SettingId::OutputDevice => "Output device",
            SettingId::ReplayGainMode => "ReplayGain",
            SettingId::ReplayGainPreamp => "ReplayGain preamp",
            SettingId::ReplayGainClip => "Prevent clipping",
            SettingId::CursorFollow => "Cursor follows playback",
            SettingId::AlbumArt => "Album art",
            SettingId::Spectrum => "Spectrum",
            SettingId::NerdFont => "Nerd Font icons",
        }
    }
}

impl SettingRow {
    pub fn is_item(self) -> (item: bool)
        ensures
            item == (self is Item),
    {
        match self {
            SettingRow::Item(_) => true,
            SettingRow::Header(_) => false,
        }
    }

    pub fn id(self) -> (id: Option<SettingId>)
        ensures
            id == match self {
                SettingRow::Item(id) => Some(id),
                SettingRow::Header(_) => None,
            },
    {
        match self {
            SettingRow::Item(id) => Some(id),
            SettingRow::Header(_) => None,
        }
    }
}

/// The setting on a row; headers and what lies beyond the rows have none.
pub open spec fn setting_at(row: int) -> Option<SettingId> {
    if row == 1 {
        Some(SettingId::OutputDevice)
    } else if row == 2 {
        Some(SettingId::ReplayGainMode)
    } else if row == 3 {
        Some(SettingId::ReplayGainPreamp)
    } else if row == 4 {
        Some(SettingId::ReplayGainClip)
    } else if row == 5 {
        Some(SettingId::CursorFollow)
    } else if row == 7 {
        Some(SettingId::AlbumArt)
    } else if row == 8 {
        Some(SettingId::Spectrum)
    } else if row == 9 {
        Some(SettingId::NerdFont)
    } else {
        None
    }
}

/// The text of a header row.
pub open spec fn header_at(row: int) -> Seq<char> {
    if row == 0 {
        "Playback"@
    } else if row == 6 {
        "Display"@
    } else {
        "Enter or Left/Right changes a value."@
    }
}

/// A row of the preferences.
pub fn row(index: usize) -> (row: Option<SettingRow>)
    ensures
        row is Some == (index < ROW_COUNT),
        match row {
            Some(SettingRow::Item(id)) => setting_at(index as int) == Some(id),
            Some(SettingRow::Header(text)) => setting_at(index as int) is None && text@
                == header_at(index as int),
            None => true,
        },
{
    if index == 0 {
        Some(SettingRow::Header("Playback"))
    } else if index == 1 {
        Some(SettingRow::Item(SettingId::OutputDevice))
    } else if index == 2 {
        Some(SettingRow::Item(SettingId::ReplayGainMode))
    } else if index == 3 {
        Some(SettingRow::Item(SettingId::ReplayGainPreamp))
    } else if index == 4 {
        Some(SettingRow::Item(SettingId::ReplayGainClip))
    } else if index == 5 {
        Some(SettingRow::Item(SettingId::CursorFollow))
    } else if index == 6 {
        Some(SettingRow::Header("Display"))
    } else if index == 7 {
        Some(SettingRow::Item(SettingId::AlbumArt))
    } else if index == 8 {
        Some(SettingRow::Item(SettingId::Spectrum))
    } else if index == 9 {
        Some(SettingRow::Item(SettingId::NerdFont))
    } else if index == 10 {
        Some(SettingRow::Header("Enter or Left/Right changes a value."))
    } else {
        None
    }
}

/// Every row of the preferences, from the top.
pub fn rows() -> (rows: Vec<SettingRow>)
    ensures
        rows@.len() == ROW_COUNT,
        forall|i: int|
            0 <= i < ROW_COUNT ==> match #[trigger] rows@[i] {
                SettingRow::Item(id) => setting_at(i) == Some(id),
                SettingRow::Header(text) => setting_at(i) is None && text@ == header_at(i),
            },
{
    let mut rows: Vec<SettingRow> = Vec::new();
    let mut index: usize = 0;
    while index < ROW_COUNT
        invariant
            rows@.len() == index <= ROW_COUNT,
            forall|i: int|
                0 <= i < index ==> match #[trigger] rows@[i] {
                    SettingRow::Item(id) => setting_at(i) == Some(id),
                    SettingRow::Header(text) => setting_at(i) is None && text@ == header_at(i),
                },
        decreases ROW_COUNT - index,
    {
        if let Some(next) = row(index) {
            rows.push(next);
        }
        index = index + 1;
    }
    rows
}

/// The setting on a row.
pub fn setting_id(index: usize) -> (id: Option<SettingId>)
    ensures
        id == setting_at(index as int),
{
    match row(index) {
        Some(row) => row.id(),
        None => None,
    }
}

/// The first row that holds a setting.
pub fn first_item() -> (index: usize)
    ensures
        index == 1,
        setting_at(index as int) is Some,
        forall|i: int| 0 <= i < index ==> setting_at(i) is None,
{
    1
}

/// The row that `k` steps of `delta` lead to, around the rows.
pub open spec fn row_after(from: int, delta: int, k: int) -> int {
    (from + k * delta) % (ROW_COUNT as int)
}

/// The first row with a setting on the way from `from` in steps of `delta`; `from`
/// where a round of steps finds none.
pub open spec fn next_item(from: int, delta: int, k: int) -> int
    decreases ROW_COUNT - k,
{
    if k >= ROW_COUNT {
        from
    } else if setting_at(row_after(from, delta, k + 1)) is Some {
        row_after(from, delta, k + 1)
    } else {
        next_item(from, delta, k + 1)
    }
}

/// Moves the cursor by `delta` rows until it stands on a setting.
pub fn step(from: usize, delta: i32) -> (index: usize)
    ensures
        index == next_item(from as int, delta as int, 0),
{
    let mut at: usize = from;
    let mut k: usize = 0;
    while k < ROW_COUNT
        invariant
            k <= ROW_COUNT,
            k == 0 ==> at == from,
            k > 0 ==> at == row_after(from as int, delta as int, k as int),
            next_item(from as int, delta as int, 0) == next_item(
                from as int,
                delta as int,
                k as int,
            ),
        decreases ROW_COUNT - k,
    {
        proof {
            let n = ROW_COUNT as int;
            let d = delta as int;
            let before = from + k * d;
            assert(from + (k + 1) * d == before + d) by (nonlinear_arith)
                requires
                    before == from + k * d,
            ;
            vstd::arithmetic::div_mod::lemma_add_mod_noop(before, d, n);
            vstd::arithmetic::div_mod::lemma_add_mod_noop(before % n, d, n);
            vstd::arithmetic::div_mod::lemma_mod_twice(before, n);
            if k == 0 {
                assert(0 * d == 0) by (nonlinear_arith);
            }
        }
        at = wrap_index(at, delta, ROW_COUNT);
        k = k + 1;
        if setting_id(at).is_some() {
            return at;
        }
    }
    from
}

/// A step up or down ends on a setting wherever it starts.
pub proof fn law_stepping_skips_headers(from: int, delta: int)
    requires
        0 <= from < ROW_COUNT,
        delta == 1 || delta == -1,
    ensures
        setting_at(next_item(from, delta, 0)) is Some,
        0 <= next_item(from, delta, 0) < ROW_COUNT,
{
    reveal_with_fuel(next_item, 4);
    assert(0 * delta == 0 && 1 * delta == delta && 2 * delta == delta + delta && 3 * delta == delta
        + delta + delta);
}

/// A step down and a step up again come back to the setting they started from.
pub proof fn law_stepping_is_undone(from: int)
    requires
        setting_at(from) is Some,
    ensures
        next_item(next_item(from, 1, 0), -1, 0) == from,
        next_item(next_item(from, -1, 0), 1, 0) == from,
{
    reveal_with_fuel(next_item, 5);
}

} // verus!
