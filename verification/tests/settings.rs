use staccato::settings::{first_item, rows, setting_id, step, SettingId, SettingRow, ROW_COUNT};

#[test]
fn stepping_skips_section_headers() {
    let rows = rows();
    assert_eq!(
        rows[first_item()],
        SettingRow::Item(SettingId::OutputDevice)
    );
    let after_device = step(first_item(), 1);
    assert_eq!(
        rows[after_device],
        SettingRow::Item(SettingId::ReplayGainMode)
    );
    let wrap = step(rows.len() - 1, 1);
    assert!(rows[wrap].is_item());
}

#[test]
fn steps_up_and_down_undo_each_other() {
    for row in 0..ROW_COUNT {
        if setting_id(row).is_some() {
            assert_eq!(step(step(row, 1), -1), row);
        }
    }
}

#[test]
fn a_step_that_finds_nothing_stays() {
    assert_eq!(step(6, 0), 6);
    assert_eq!(step(0, ROW_COUNT as i32), 0);
}
