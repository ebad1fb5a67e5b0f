use zellij_palette::model::{PaletteAction, PaneTarget};
use zellij_palette::pane_tree::{
    filter, flatten, tree_fits_query, try_filter, PaneRow, SessionGroup, TabGroup,
};

fn pane(id: u32, title: &str, is_focused: bool) -> PaneRow {
    PaneRow {
        id,
        tab_position: 0,
        tab_id: 0,
        title: title.to_owned(),
        is_plugin: false,
        is_focused,
        terminal_command: None,
        description: format!("terminal · {title}"),
    }
}

fn tab(name: &str, is_active: bool, panes: Vec<PaneRow>) -> TabGroup {
    TabGroup {
        name: name.to_owned(),
        is_active,
        panes,
    }
}

fn session(name: &str, is_current: bool, tabs: Vec<TabGroup>) -> SessionGroup {
    SessionGroup {
        name: name.to_owned(),
        is_current,
        tabs,
    }
}

fn sample_tree() -> Vec<SessionGroup> {
    vec![session(
        "work",
        true,
        vec![
            tab(
                "code",
                true,
                vec![pane(1, "vim", true), pane(2, "shell", false)],
            ),
            tab("notes", false, vec![pane(3, "obsidian", true)]),
        ],
    )]
}

#[test]
fn flatten_emits_session_tab_and_pane_rows() {
    let items = flatten(&sample_tree());
    let titles: Vec<&str> = items.iter().map(|item| item.title.as_str()).collect();
    assert_eq!(
        titles,
        vec!["work (current)", "code", "▶ vim", "○ shell", "● obsidian",]
    );
}

#[test]
fn flatten_uses_last_glyph_for_last_sibling() {
    let items = flatten(&sample_tree());
    assert_eq!(items[0].tree_prefix, None);
    assert_eq!(items[1].tree_prefix.as_deref(), Some("├─ "));
    assert_eq!(items[2].tree_prefix.as_deref(), Some("│   ├─ "));
    assert_eq!(items[3].tree_prefix.as_deref(), Some("│   └─ "));
    assert_eq!(items[4].tree_prefix.as_deref(), Some("└─ "));
}

#[test]
fn flatten_hoists_single_pane_tab() {
    let tree = vec![session(
        "solo",
        false,
        vec![tab("only", true, vec![pane(7, "alone", true)])],
    )];
    let items = flatten(&tree);
    let titles: Vec<&str> = items.iter().map(|item| item.title.as_str()).collect();
    assert_eq!(titles, vec!["solo", "● alone"]);
    assert_eq!(items[1].tree_prefix.as_deref(), Some("└─ "));
}

#[test]
fn marker_distinguishes_current_active_inactive() {
    let tree = vec![
        session(
            "alpha",
            true,
            vec![tab("main", true, vec![pane(1, "current", true)])],
        ),
        session(
            "beta",
            false,
            vec![tab("main", true, vec![pane(2, "active-elsewhere", true)])],
        ),
        session(
            "gamma",
            false,
            vec![tab("main", true, vec![pane(3, "idle", false)])],
        ),
    ];
    let items = flatten(&tree);
    let pane_titles: Vec<&str> = items
        .iter()
        .filter(|item| item.selectable)
        .map(|item| item.title.as_str())
        .collect();
    assert_eq!(
        pane_titles,
        vec!["▶ current", "● active-elsewhere", "○ idle"]
    );
}

#[test]
fn flatten_pane_rows_focus_their_pane_and_carry_aliases() {
    let mut row = pane(5, "vim", false);
    row.tab_position = 2;
    row.tab_id = 9;
    row.terminal_command = Some("nvim".to_owned());
    let tree = vec![session("work", false, vec![tab("code", false, vec![row])])];
    let items = flatten(&tree);
    let leaf = &items[1];
    assert_eq!(leaf.category.as_deref(), Some("Panes"));
    assert_eq!(leaf.description.as_deref(), Some("terminal · vim"));
    assert_eq!(leaf.aliases, vec!["work", "code", "vim", "nvim"]);
    assert_eq!(
        leaf.action,
        PaletteAction::FocusPane(PaneTarget {
            session_name: "work".to_owned(),
            tab_position: 2,
            tab_id: 9,
            pane_id: 5,
            is_plugin: false,
        })
    );
}

#[test]
fn filter_keeps_ancestors_of_matching_pane() {
    let tree = sample_tree();
    let filtered = filter(tree, "obsidian");
    assert_eq!(filtered.len(), 1);
    let session = &filtered[0];
    assert_eq!(session.name, "work");
    assert_eq!(session.tabs.len(), 1);
    assert_eq!(session.tabs[0].name, "notes");
    assert_eq!(session.tabs[0].panes.len(), 1);
    assert_eq!(session.tabs[0].panes[0].title, "obsidian");
}

#[test]
fn filter_drops_non_matching_siblings_within_tab() {
    let tree = sample_tree();
    let filtered = filter(tree, "vim");
    assert_eq!(filtered.len(), 1);
    let tabs = &filtered[0].tabs;
    assert_eq!(tabs.len(), 1);
    assert_eq!(tabs[0].name, "code");
    assert_eq!(tabs[0].panes.len(), 1);
    assert_eq!(tabs[0].panes[0].title, "vim");
}

#[test]
fn filter_drops_session_when_no_pane_matches() {
    let tree = sample_tree();
    let filtered = filter(tree, "nonexistent-query-token");
    assert!(filtered.is_empty());
}

#[test]
fn filter_with_blank_query_returns_tree_unchanged() {
    let tree = sample_tree();
    let filtered = filter(tree.clone(), "   ");
    assert_eq!(filtered, tree);
}

#[test]
fn filter_matches_via_session_alias() {
    let tree = vec![session(
        "deploy",
        false,
        vec![tab("main", true, vec![pane(1, "shell", false)])],
    )];
    let filtered = filter(tree, "deploy");
    assert_eq!(filtered.len(), 1);
    assert_eq!(filtered[0].tabs[0].panes[0].title, "shell");
}

#[test]
fn filter_preserves_natural_order() {
    let tree = vec![session(
        "work",
        true,
        vec![tab(
            "code",
            true,
            vec![
                pane(1, "alpha-shell", false),
                pane(2, "beta-shell", false),
                pane(3, "gamma-shell", false),
            ],
        )],
    )];
    let filtered = filter(tree, "shell");
    let titles: Vec<&str> = filtered[0].tabs[0]
        .panes
        .iter()
        .map(|p| p.title.as_str())
        .collect();
    assert_eq!(titles, vec!["alpha-shell", "beta-shell", "gamma-shell"]);
}

#[test]
fn checked_filter_agrees_where_scores_fit() {
    let tree = sample_tree();
    assert!(tree_fits_query(&tree, "vim"));
    let checked = try_filter(sample_tree(), "vim").expect("scores fit");
    assert_eq!(checked, filter(sample_tree(), "vim"));
}
