use macos_space_monitor::DisplayRecord;
use macos_space_monitor::SpaceRecord;
use macos_space_monitor::compute_active_ordinal;

fn space(id: i32) -> SpaceRecord {
    SpaceRecord { id, tiling: false }
}

fn tiling_space(id: i32) -> SpaceRecord {
    SpaceRecord { id, tiling: true }
}

fn display(identifier: &str, current: i32, spaces: Vec<SpaceRecord>) -> DisplayRecord {
    DisplayRecord {
        identifier: Some(identifier.to_string()),
        current_space_id: Some(current),
        spaces: Some(spaces),
    }
}

#[test]
fn zero_displays_resolve_to_sentinel() {
    let displays: Vec<DisplayRecord> = Vec::new();
    assert_eq!(compute_active_ordinal(&displays, &"Main".to_string()), -1);
}

#[test]
fn no_qualifying_display_resolves_to_sentinel() {
    let displays = vec![
        display("External", 42, vec![space(42), space(7)]),
        display("Secondary", 7, vec![space(9)]),
    ];
    assert_eq!(compute_active_ordinal(&displays, &"Builtin".to_string()), -1);
}

#[test]
fn main_display_scenario() {
    let displays = vec![display(
        "Main",
        42,
        vec![space(42), space(7), tiling_space(99)],
    )];
    assert_eq!(compute_active_ordinal(&displays, &"Other".to_string()), 1);
}

#[test]
fn active_menu_bar_display_scenario() {
    let displays = vec![display(
        "Display-7AF2",
        42,
        vec![space(42), space(7), tiling_space(99)],
    )];
    assert_eq!(
        compute_active_ordinal(&displays, &"Display-7AF2".to_string()),
        1
    );
}

#[test]
fn two_displays_global_numbering() {
    let displays = vec![
        display("Other", 1, vec![space(1)]),
        display("Main", 5, vec![space(9), space(5)]),
    ];
    // Global sequence is [1, 9, 5]; space 5 is third.
    assert_eq!(compute_active_ordinal(&displays, &"Elsewhere".to_string()), 3);
}

#[test]
fn tiling_spaces_never_counted() {
    let displays = vec![display(
        "Main",
        7,
        vec![tiling_space(99), space(42), tiling_space(98), space(7)],
    )];
    // Real spaces are [42, 7]; space 7 is second, not fourth.
    assert_eq!(compute_active_ordinal(&displays, &"Other".to_string()), 2);
}

#[test]
fn tiling_active_space_resolves_to_sentinel() {
    // The qualifying display's current space carries the tiling marker, so it
    // is dropped from the numbering and cannot be found there.
    let displays = vec![display("Main", 99, vec![space(42), tiling_space(99)])];
    assert_eq!(compute_active_ordinal(&displays, &"Other".to_string()), -1);
}

#[test]
fn malformed_display_skipped_entirely() {
    let no_identifier = DisplayRecord {
        identifier: None,
        current_space_id: Some(1),
        spaces: Some(vec![space(1), space(2)]),
    };
    let no_current = DisplayRecord {
        identifier: Some("Main".to_string()),
        current_space_id: None,
        spaces: Some(vec![space(3)]),
    };
    let no_spaces = DisplayRecord {
        identifier: Some("Main".to_string()),
        current_space_id: Some(5),
        spaces: None,
    };
    let displays = vec![no_identifier, no_current, no_spaces, display("Main", 5, vec![space(5)])];
    // The malformed records neither qualify nor contribute spaces.
    assert_eq!(compute_active_ordinal(&displays, &"Other".to_string()), 1);
}

#[test]
fn last_qualifying_display_wins() {
    let displays = vec![
        display("Main", 1, vec![space(1), space(2)]),
        display("Main", 4, vec![space(3), space(4)]),
    ];
    // Both displays qualify; the later one's current space id (4) wins.
    assert_eq!(compute_active_ordinal(&displays, &"Other".to_string()), 4);
}

#[test]
fn active_id_not_among_real_spaces_resolves_to_sentinel() {
    let displays = vec![display("Main", 123, vec![space(1), space(2)])];
    assert_eq!(compute_active_ordinal(&displays, &"Other".to_string()), -1);
}

#[test]
fn resolver_is_idempotent() {
    let displays = vec![
        display("Other", 1, vec![space(1)]),
        display("Main", 5, vec![space(9), space(5)]),
    ];
    let active = "Elsewhere".to_string();
    let first = compute_active_ordinal(&displays, &active);
    let second = compute_active_ordinal(&displays, &active);
    assert_eq!(first, second);
    assert_eq!(first, 3);
}
