use zellij_palette::layout::{item_line, truncate_fragment, truncate_line, LineStyle, StyledRange};
use zellij_palette::model::{PaletteAction, PaletteItem};

#[test]
fn lines_that_fit_are_kept() {
    assert_eq!(truncate_line("hello", 5), "hello");
    assert_eq!(truncate_line("", 0), "");
}

#[test]
fn long_lines_end_with_an_ellipsis_before_the_last_column() {
    assert_eq!(truncate_line("hello world", 8), "hello …");
    assert_eq!(truncate_line("hello", 0), "…");
}

#[test]
fn wide_characters_count_two_columns() {
    assert_eq!(truncate_line("日本語テキスト", 7), "日本…");
    assert_eq!(truncate_fragment("日本語", 5), "日本…");
}

#[test]
fn fragments_are_cut_to_the_room_left() {
    assert_eq!(truncate_fragment("abcdef", 0), "");
    assert_eq!(truncate_fragment("abcdef", 1), "…");
    assert_eq!(truncate_fragment("abcdef", 4), "abc…");
    assert_eq!(truncate_fragment("abc", 4), "abc");
}

#[test]
fn rows_put_the_shortcut_at_the_right_edge() {
    let item = PaletteItem::leaf("Alpha", PaletteAction::Noop).with_shortcut("Ctrl-A");
    let line = item_line(&item, 20);
    assert_eq!(line.text, "Alpha         Ctrl-A");
    assert_eq!(line.ranges, vec![StyledRange { start: 14, end: 20, style: LineStyle::Accent }]);
}

#[test]
fn rows_cut_their_pieces_and_style_them() {
    let item = PaletteItem::leaf("Title", PaletteAction::Noop)
        .with_icon("I")
        .with_aliases(["al"])
        .with_description("desc");
    let line = item_line(&item, 12);
    assert_eq!(line.text, "I  Title  […");
    assert_eq!(
        line.ranges,
        vec![
            StyledRange { start: 0, end: 1, style: LineStyle::Accent },
            StyledRange { start: 8, end: 12, style: LineStyle::Alias },
        ]
    );
    let wide = item_line(&item, 24);
    assert_eq!(wide.text, "I  Title  [al]  desc    ");
    assert_eq!(
        wide.ranges,
        vec![
            StyledRange { start: 0, end: 1, style: LineStyle::Accent },
            StyledRange { start: 8, end: 14, style: LineStyle::Alias },
            StyledRange { start: 14, end: 20, style: LineStyle::Muted },
        ]
    );
}

#[test]
fn coloured_icons_use_the_success_style() {
    let item = PaletteItem::leaf("T", PaletteAction::Noop).with_icon("●").with_icon_color("#fff");
    let line = item_line(&item, 6);
    assert_eq!(line.text, "●  T  ");
    assert_eq!(line.ranges, vec![StyledRange { start: 0, end: 1, style: LineStyle::Success }]);
}

#[test]
fn a_shortcut_alone_is_pushed_right() {
    let item = PaletteItem::leaf("", PaletteAction::Noop).with_shortcut("K");
    let line = item_line(&item, 4);
    assert_eq!(line.text, "   K");
    assert_eq!(line.ranges, vec![StyledRange { start: 3, end: 4, style: LineStyle::Accent }]);
}

