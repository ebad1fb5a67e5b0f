use zellij_palette::model::{PaletteAction, PaletteItem};
use zellij_palette::selection::{list_offset, next_selectable, normalize_selection};
use zellij_palette::state::{permission_placeholder_items, PermissionState};

fn leaf(title: &str) -> PaletteItem {
    PaletteItem::leaf(title, PaletteAction::Noop)
}

fn group(title: &str) -> PaletteItem {
    PaletteItem::group(title)
}

#[test]
fn next_selectable_steps_forward_and_skips_groups() {
    let items = vec![group("G"), leaf("a"), leaf("b"), group("G2"), leaf("c")];
    assert_eq!(next_selectable(&items, 1, 1), 2);
    assert_eq!(next_selectable(&items, 2, 1), 4);
}

#[test]
fn next_selectable_wraps_at_the_end() {
    let items = vec![group("G"), leaf("a"), leaf("b"), group("G2"), leaf("c")];
    assert_eq!(next_selectable(&items, 4, 1), 1);
}

#[test]
fn next_selectable_steps_backward_and_wraps() {
    let items = vec![group("G"), leaf("a"), leaf("b"), group("G2"), leaf("c")];
    assert_eq!(next_selectable(&items, 4, -1), 2);
    assert_eq!(next_selectable(&items, 2, -1), 1);
    assert_eq!(next_selectable(&items, 1, -1), 4);
}

#[test]
fn next_selectable_returns_zero_when_no_item_is_selectable() {
    let items = vec![group("a"), group("b")];
    assert_eq!(next_selectable(&items, 0, 1), 0);
    assert_eq!(next_selectable(&items, 0, -1), 0);
}

#[test]
fn next_selectable_returns_zero_on_empty_input() {
    assert_eq!(next_selectable(&[], 0, 1), 0);
    assert_eq!(next_selectable(&[], 0, -1), 0);
}

#[test]
fn next_selectable_from_an_unselectable_row_counts_from_the_first() {
    let items = vec![group("G"), leaf("a"), leaf("b"), leaf("c")];
    assert_eq!(next_selectable(&items, 0, 1), 2);
    assert_eq!(next_selectable(&items, 0, -1), 3);
    assert_eq!(next_selectable(&items, 1, 7), 2);
    assert_eq!(next_selectable(&items, 1, -7), 3);
}

#[test]
fn normalize_selection_keeps_a_valid_selectable_index() {
    let items = vec![group("g"), leaf("a"), leaf("b")];
    assert_eq!(normalize_selection(&items, 1), 1);
    assert_eq!(normalize_selection(&items, 2), 2);
}

#[test]
fn normalize_selection_moves_off_a_group_header() {
    let items = vec![group("g"), leaf("a"), leaf("b")];
    assert_eq!(normalize_selection(&items, 0), 1);
}

#[test]
fn normalize_selection_recovers_from_an_out_of_bounds_index() {
    let items = vec![group("g"), leaf("a")];
    assert_eq!(normalize_selection(&items, 99), 1);
}

#[test]
fn normalize_selection_falls_back_to_zero_when_nothing_is_selectable() {
    let items = vec![group("g1"), group("g2")];
    assert_eq!(normalize_selection(&items, 0), 0);
    assert_eq!(normalize_selection(&items, 1), 0);
}

#[test]
fn normalize_selection_handles_an_empty_list() {
    assert_eq!(normalize_selection(&[], 0), 0);
    assert_eq!(normalize_selection(&[], 99), 0);
}

#[test]
fn list_offset_is_zero_when_the_list_fits_the_viewport() {
    assert_eq!(list_offset(0, 5, 10), 0);
    assert_eq!(list_offset(9, 10, 10), 0);
}

#[test]
fn list_offset_is_zero_when_selection_is_near_the_top() {
    assert_eq!(list_offset(3, 100, 10), 0);
    assert_eq!(list_offset(4, 100, 10), 0);
}

#[test]
fn list_offset_centers_the_selection_in_the_viewport() {
    assert_eq!(list_offset(50, 100, 10), 45);
}

#[test]
fn list_offset_clamps_at_the_end_of_the_list() {
    assert_eq!(list_offset(99, 100, 10), 90);
}

#[test]
fn list_offset_does_not_underflow_on_a_huge_viewport() {
    assert_eq!(list_offset(0, 5, 1000), 0);
}

#[test]
fn list_offset_with_a_zero_row_viewport_follows_the_selection() {
    assert_eq!(list_offset(3, 10, 0), 3);
}

#[test]
fn permission_placeholders_follow_the_permission_state() {
    let pending = permission_placeholder_items(PermissionState::Pending);
    assert_eq!(pending.len(), 1);
    assert_eq!(pending[0].title, "Waiting for plugin permissions");
    assert!(!pending[0].selectable);
    let denied = permission_placeholder_items(PermissionState::Denied);
    assert_eq!(denied.len(), 1);
    assert_eq!(denied[0].title, "Permissions denied");
    assert!(permission_placeholder_items(PermissionState::Granted).is_empty());
    assert_eq!(PermissionState::default(), PermissionState::Pending);
}

#[test]
fn moving_down_then_up_returns_to_the_same_row() {
    let items = vec![group("A"), leaf("a1"), leaf("a2"), group("B"), leaf("b1")];
    for start in [1usize, 2, 4] {
        let down = next_selectable(&items, start, 1);
        assert!(items[down].selectable);
        assert_eq!(next_selectable(&items, down, -1), start);
    }
}

#[test]
fn the_selected_row_stays_on_screen() {
    for selected in 0..40usize {
        let offset = list_offset(selected, 40, 7);
        assert!(offset <= selected && selected < offset + 7);
        assert!(offset + 7 <= 40);
    }
}

#[test]
fn any_step_and_back_returns_to_the_same_row() {
    let items = vec![group("A"), leaf("a1"), leaf("a2"), group("B"), leaf("b1"), leaf("b2")];
    for start in [1usize, 2, 4, 5] {
        for step in [-4isize, -2, 0, 3, 5] {
            let moved = next_selectable(&items, start, step);
            assert_eq!(next_selectable(&items, moved, -step), start);
        }
    }
}

#[test]
fn repairing_the_selection_is_a_zero_step() {
    let items = vec![group("A"), leaf("a1"), group("B"), leaf("b1")];
    for current in 0..6usize {
        assert_eq!(normalize_selection(&items, current), next_selectable(&items, current, 0));
    }
}
