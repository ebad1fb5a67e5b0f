use std::path::PathBuf;

use zellij_palette::collections::StringMap;
use zellij_palette::controller::{
    active_palette_from_config, first_line_of, list_rows, ActivePalette, CommandOutcome,
    HostCommand, KeyInput, KeyName, MouseInput, PaletteEvent, PaletteState, SplitDirection,
};
use zellij_palette::model::{
    CommandAction, PaletteAction, PaletteId, PaletteItem, PaneTarget, ThemeAction,
};
use zellij_palette::palettes::{
    builtin_themes, command_palette_base_items, command_palette_items, custom_palette_items,
    description_for_pane, find_pane_items, group_items_by_category, move_pane_items,
    session_items, theme_items,
};
use zellij_palette::session::{
    caller_pane_target, current_session_name, current_tab_id, PaneRef, PaneSummary,
    SessionSummary, TabSummary,
};
use zellij_palette::collections::StringSet;
use zellij_palette::state::PermissionState;
use zellij_palette::user_config::{CustomPalette, RawPaletteItem, ConfigAction};

fn pane(id: u32, title: &str, is_plugin: bool, is_focused: bool, command: Option<&str>) -> PaneSummary {
    PaneSummary {
        id,
        is_plugin,
        is_selectable: true,
        is_suppressed: false,
        is_focused,
        title: title.to_owned(),
        terminal_command: command.map(str::to_owned),
    }
}

fn tab(position: usize, name: &str, active: bool, tab_id: usize) -> TabSummary {
    TabSummary { position, name: name.to_owned(), active, tab_id }
}

fn current_session() -> SessionSummary {
    SessionSummary {
        name: "work".to_owned(),
        is_current_session: true,
        connected_clients: 1,
        tabs: vec![tab(0, "code", true, 10), tab(1, "logs", false, 11)],
        panes: vec![
            (0, vec![pane(1, "editor", false, true, Some("vim")), pane(99, "palette", true, false, None)]),
            (1, vec![pane(2, "tail", false, false, None)]),
        ],
        pane_history: vec![(7, vec![PaneRef::Terminal(2), PaneRef::Terminal(1), PaneRef::Plugin(99)])],
    }
}

fn other_session() -> SessionSummary {
    SessionSummary {
        name: "play".to_owned(),
        is_current_session: false,
        connected_clients: 0,
        tabs: vec![tab(0, "main", true, 20)],
        panes: vec![(0, vec![pane(5, "shell", false, true, Some("zsh"))])],
        pane_history: Vec::new(),
    }
}

fn titles(items: &[PaletteItem]) -> Vec<String> {
    items.iter().map(|item| item.title.clone()).collect()
}

fn key(key: KeyName) -> KeyInput {
    KeyInput { key, no_modifiers: true, ctrl: false }
}

fn ctrl(c: char) -> KeyInput {
    KeyInput { key: KeyName::Char(c), no_modifiers: false, ctrl: true }
}

fn granted_state() -> PaletteState {
    let mut state = PaletteState::new(99, 7, None, None, None);
    state.grant_permissions();
    state.set_sessions(vec![current_session(), other_session()]);
    state
}

#[test]
fn caller_pane_is_the_latest_pane_that_is_not_the_palette() {
    let sessions = vec![other_session(), current_session()];
    let target = caller_pane_target(&sessions, Some(7), Some(99)).expect("caller pane");
    assert_eq!(
        target,
        PaneTarget {
            session_name: "work".to_owned(),
            tab_position: 0,
            tab_id: 10,
            pane_id: 1,
            is_plugin: false,
        }
    );
    assert_eq!(caller_pane_target(&sessions, None, Some(99)), None);
    assert_eq!(caller_pane_target(&sessions, Some(8), Some(99)), None);
    assert_eq!(caller_pane_target(&[other_session()], Some(7), Some(99)), None);
}

#[test]
fn current_session_and_tab_are_looked_up() {
    let sessions = vec![other_session(), current_session()];
    assert_eq!(current_session_name(&sessions), Some("work"));
    assert_eq!(current_tab_id(&sessions), Some(10));
    assert_eq!(current_tab_id(&[other_session()]), None);
}

#[test]
fn base_commands_without_a_caller_pane() {
    let items = command_palette_base_items(None, &None, 3, &[]);
    assert_eq!(
        titles(&items),
        vec![
            "Panes", "Find Pane", "Split Right", "Split Down", "Tabs", "New Tab", "Next Tab",
            "Previous Tab", "Close Tab", "Sessions", "Switch Session...", "Detach Session",
            "Appearance", "Switch Theme...",
        ]
    );
    assert_eq!(items[1].aliases, vec!["pane".to_owned(), "jump".to_owned()]);
    assert_eq!(items[1].description.as_deref(), Some("jump across sessions, tabs, and panes"));
    assert_eq!(items[1].category.as_deref(), Some("Panes"));
    assert_eq!(items[8].action, PaletteAction::CloseTab { tab_id: 3 });
    assert!(!items[0].selectable);
}

#[test]
fn base_commands_with_a_caller_pane_and_user_commands() {
    let target = current_session_pane_target();
    let cwd = Some(PathBuf::from("/tmp/project"));
    let user = vec![PaletteItem::leaf(
        "build",
        PaletteAction::RunShell(CommandAction { command: "make".to_owned(), cwd: None }),
    )];
    let items = command_palette_base_items(Some(target.clone()), &cwd, 0, &user);
    let t = titles(&items);
    assert_eq!(t.len(), 20);
    assert_eq!(
        &t[4..8],
        &["Toggle Fullscreen", "Float / Embed Pane", "Close Pane", "Move Pane to..."]
    );
    assert_eq!(items[6].action, PaletteAction::ClosePane(target));
    assert_eq!(items[9].action, PaletteAction::NewTab { cwd: cwd.clone() });
    assert_eq!(t[18], "Custom");
    assert_eq!(
        items[19].action,
        PaletteAction::RunShell(CommandAction { command: "make".to_owned(), cwd })
    );
}

fn current_session_pane_target() -> PaneTarget {
    PaneTarget {
        session_name: "work".to_owned(),
        tab_position: 0,
        tab_id: 10,
        pane_id: 1,
        is_plugin: false,
    }
}

#[test]
fn root_category_keeps_only_that_category() {
    let base = command_palette_base_items(None, &None, 0, &[]);
    let mut hidden = StringSet::new();
    hidden.insert("Next Tab".to_owned());
    let items = command_palette_items(base, &hidden, Some("Tabs"));
    assert_eq!(titles(&items), vec!["Tabs", "New Tab", "Previous Tab", "Close Tab"]);
    assert!(!items[0].selectable);
}

#[test]
fn hidden_titles_leave_the_command_palette() {
    let base = command_palette_base_items(None, &None, 0, &[]);
    let mut hidden = StringSet::new();
    hidden.insert("Detach Session".to_owned());
    let items = command_palette_items(base, &hidden, None);
    assert_eq!(items.len(), 13);
    assert!(items.iter().all(|item| item.title != "Detach Session"));
}

#[test]
fn user_themes_shadow_built_in_themes() {
    let builtins = builtin_themes();
    assert_eq!(builtins.len(), 41);
    let items = theme_items(&["nord".to_owned(), "zz-mine".to_owned()]);
    assert_eq!(
        titles(&items[..5]),
        vec!["Theme Mode", "Toggle Dark / Light", "Use Dark Theme", "Use Light Theme", "Built-in Themes"]
    );
    assert_eq!(items.len(), 5 + 40 + 1 + 2);
    assert_eq!(items[5].title, "ansi");
    assert!(items[5..45].iter().all(|item| item.title != "nord"));
    assert_eq!(items[45].title, "User Themes");
    assert_eq!(items[46].action, PaletteAction::Theme(ThemeAction::SetNamed("nord".to_owned())));
    assert_eq!(items[47].title, "zz-mine");
    let plain = theme_items(&[]);
    assert_eq!(plain.len(), 46);
}

#[test]
fn session_entries_count_tabs_and_clients() {
    let items = session_items(&[current_session(), other_session()]);
    assert_eq!(titles(&items), vec!["Sessions", "work", "play"]);
    assert_eq!(items[1].description.as_deref(), Some("2 tabs · 1 clients"));
    assert_eq!(items[2].description.as_deref(), Some("1 tabs · 0 clients"));
    assert_eq!(
        items[1].action,
        PaletteAction::SwitchSession { session_name: "work".to_owned() }
    );
}

#[test]
fn move_pane_targets_other_tabs_of_the_current_session() {
    let sessions = vec![current_session(), other_session()];
    assert_eq!(titles(&move_pane_items(&sessions, None)), vec!["No pane to move"]);
    let source = current_session_pane_target();
    assert_eq!(
        titles(&move_pane_items(&[other_session()], Some(source.clone()))),
        vec!["No active session"]
    );
    let items = move_pane_items(&sessions, Some(source.clone()));
    assert_eq!(titles(&items), vec!["Targets", "New Tab", "logs"]);
    assert_eq!(items[1].action, PaletteAction::MovePaneToNewTab(source.clone()));
    assert_eq!(items[2].description.as_deref(), Some("tab 2"));
    assert_eq!(
        items[2].action,
        PaletteAction::MovePaneToTab { source, target_tab_id: 11 }
    );
}

#[test]
fn find_pane_lists_panes_under_session_headers() {
    let sessions = vec![current_session(), other_session()];
    let items = find_pane_items(&sessions, Some(99));
    assert_eq!(
        titles(&items),
        vec!["work (current)", "[code] editor", "[logs] tail", "play", "[main] shell"]
    );
    assert_eq!(items[1].description.as_deref(), Some("current · vim"));
    assert_eq!(items[2].description.as_deref(), Some("terminal · terminal"));
    assert_eq!(items[4].description.as_deref(), Some("terminal · zsh"));
    assert_eq!(
        items[1].aliases,
        vec!["work".to_owned(), "code".to_owned(), "editor".to_owned(), "vim".to_owned()]
    );
    assert_eq!(items[1].action, PaletteAction::FocusPane(current_session_pane_target()));
    let with_palette = find_pane_items(&sessions, None);
    assert_eq!(with_palette.len(), 6);
    assert_eq!(with_palette[2].title, "[code] palette");
}

#[test]
fn pane_descriptions_name_the_kind_and_command() {
    let session = current_session();
    let plugin = pane(4, "status", true, false, None);
    assert_eq!(description_for_pane(&session, &session.tabs[1], &plugin), "plugin · plugin");
}

#[test]
fn grouping_inserts_a_header_per_category_run() {
    let items = vec![
        PaletteItem::leaf("a", PaletteAction::Noop).with_category("X"),
        PaletteItem::leaf("b", PaletteAction::Noop).with_category("X"),
        PaletteItem::leaf("c", PaletteAction::Noop),
        PaletteItem::leaf("d", PaletteAction::Noop).with_category("Y"),
        PaletteItem::group("G"),
        PaletteItem::leaf("e", PaletteAction::Noop).with_category("Y"),
    ];
    let grouped = group_items_by_category(items);
    assert_eq!(titles(&grouped), vec!["X", "a", "b", "c", "Y", "d", "G", "Y", "e"]);
    assert!(!grouped[0].selectable);
}

fn custom(command: Option<&str>, grouped: Option<bool>) -> CustomPalette {
    let mut palette = CustomPalette::default();
    palette.command = command.map(str::to_owned);
    palette.grouped = grouped;
    palette
}

#[test]
fn custom_palettes_fill_from_references_items_and_command_output() {
    let mut palettes = StringMap::new();
    palettes.insert("waiting".to_owned(), custom(Some("ls"), None));
    palettes.insert("empty".to_owned(), custom(None, None));
    let mut tools = custom(None, Some(true));
    tools.title = Some("My Tools".to_owned());
    tools.from = vec!["Next Tab".to_owned()];
    tools.items = vec![PaletteItem::leaf("own", PaletteAction::Detach).with_category("Z")];
    palettes.insert("tools".to_owned(), tools);
    let mut results = StringMap::new();
    results.insert(
        "tools".to_owned(),
        vec![PaletteItem::leaf(
            "produced",
            PaletteAction::RunShell(CommandAction { command: "x".to_owned(), cwd: None }),
        )],
    );
    let base = command_palette_base_items(None, &None, 0, &[]);
    let cwd = Some(PathBuf::from("/w"));
    assert_eq!(
        titles(&custom_palette_items("nope", &palettes, &results, &base, &cwd)),
        vec!["Unknown custom palette"]
    );
    assert_eq!(
        titles(&custom_palette_items("waiting", &palettes, &results, &base, &cwd)),
        vec!["Loading custom palette..."]
    );
    assert_eq!(
        titles(&custom_palette_items("empty", &palettes, &results, &base, &cwd)),
        vec!["Empty custom palette"]
    );
    let items = custom_palette_items("tools", &palettes, &results, &base, &cwd);
    assert_eq!(
        titles(&items),
        vec!["My Tools", "Tabs", "Next Tab", "Z", "own", "produced"]
    );
    assert_eq!(
        items[5].action,
        PaletteAction::RunShell(CommandAction { command: "x".to_owned(), cwd })
    );
}

#[test]
fn configured_palette_names_pick_the_palette() {
    assert_eq!(active_palette_from_config(None), ActivePalette::BuiltIn(PaletteId::Commands));
    assert_eq!(
        active_palette_from_config(Some("find-pane")),
        ActivePalette::BuiltIn(PaletteId::FindPane)
    );
    assert_eq!(
        active_palette_from_config(Some("move-pane")),
        ActivePalette::BuiltIn(PaletteId::MovePane)
    );
    assert_eq!(
        active_palette_from_config(Some("themes")),
        ActivePalette::BuiltIn(PaletteId::Themes)
    );
    assert_eq!(
        active_palette_from_config(Some("git")),
        ActivePalette::Custom("git".to_owned())
    );
}

#[test]
fn escape_clears_the_query_then_goes_back_then_closes() {
    let mut state = granted_state();
    state.query = "de".to_owned();
    state.selected = 4;
    let (handled, cmds) = state.handle_key(key(KeyName::Esc));
    assert!(handled && cmds.is_empty());
    assert_eq!(state.query, "");
    assert_eq!(state.selected, 0);

    state.selected = 2;
    let cmds = state.execute_action(PaletteAction::OpenPalette(PaletteId::Sessions));
    assert!(cmds.is_empty());
    assert_eq!(state.active_palette, Some(ActivePalette::BuiltIn(PaletteId::Sessions)));
    assert_eq!(state.selected, 0);

    let (_, cmds) = state.handle_key(key(KeyName::Esc));
    assert!(cmds.is_empty());
    assert_eq!(state.active_palette, Some(ActivePalette::BuiltIn(PaletteId::Commands)));
    assert_eq!(state.selected, 2);

    let (_, cmds) = state.handle_key(ctrl('c'));
    assert_eq!(cmds, vec![HostCommand::Close]);
}

#[test]
fn typing_narrows_the_list_and_enter_runs_the_selection() {
    let mut state = granted_state();
    for c in "detach".chars() {
        let (handled, _) = state.handle_key(key(KeyName::Char(c)));
        assert!(handled);
    }
    assert_eq!(state.query, "detach");
    let visible = state.visible_items().expect("visible");
    assert_eq!(visible[0].title, "Detach Session");
    let (_, cmds) = state.handle_key(key(KeyName::Enter));
    assert_eq!(cmds, vec![HostCommand::Detach, HostCommand::Close]);

    let (_, _) = state.handle_key(key(KeyName::Backspace));
    assert_eq!(state.query, "detac");
    let (handled, cmds) = state.handle_key(KeyInput { key: KeyName::Other, no_modifiers: true, ctrl: false });
    assert!(!handled && cmds.is_empty());
}

#[test]
fn arrows_and_ctrl_keys_move_over_selectable_rows() {
    let mut state = granted_state();
    state.ensure_selection();
    assert_eq!(state.selected, 1);
    state.handle_key(key(KeyName::Down));
    assert_eq!(state.selected, 2);
    state.handle_key(ctrl('n'));
    assert_eq!(state.selected, 3);
    state.handle_key(ctrl('p'));
    assert_eq!(state.selected, 2);
    state.handle_key(key(KeyName::Up));
    state.handle_key(key(KeyName::Up));
    let last = state.visible_items().unwrap().len() - 1;
    assert_eq!(state.selected, last);
}

#[test]
fn mouse_scroll_click_and_hover_pick_rows() {
    let mut state = granted_state();
    state.last_rows = 30;
    state.ensure_selection();
    let (handled, _) = state.handle_mouse(MouseInput::ScrollDown);
    assert!(handled);
    assert_eq!(state.selected, 2);
    state.handle_mouse(MouseInput::Hover(3 + 3));
    assert_eq!(state.selected, 3);
    let (handled, cmds) = state.handle_mouse(MouseInput::Hover(1));
    assert!(!handled && cmds.is_empty());
    let (_, cmds) = state.handle_mouse(MouseInput::LeftClick(3 + 10));
    assert_eq!(cmds, vec![HostCommand::NextTab, HostCommand::Close]);
}

#[test]
fn actions_become_host_commands() {
    let mut state = granted_state();
    let target = current_session_pane_target();
    assert_eq!(
        state.execute_action(PaletteAction::FocusPane(target.clone())),
        vec![HostCommand::FocusPane(PaneRef::Terminal(1)), HostCommand::Close]
    );
    let elsewhere = PaneTarget { session_name: "play".to_owned(), tab_position: 0, tab_id: 20, pane_id: 5, is_plugin: false };
    assert_eq!(
        state.execute_action(PaletteAction::FocusPane(elsewhere)),
        vec![
            HostCommand::SwitchSessionWithFocus {
                session_name: "play".to_owned(),
                tab_position: 0,
                pane_id: 5,
                is_plugin: false,
            },
            HostCommand::Close,
        ]
    );
    assert_eq!(
        state.execute_action(PaletteAction::SplitDown),
        vec![
            HostCommand::NewTiledPane { direction: SplitDirection::Down, tab_id: Some(10) },
            HostCommand::Close,
        ]
    );
    assert_eq!(
        state.execute_action(PaletteAction::Theme(ThemeAction::SetNamed("x\"y".to_owned()))),
        vec![
            HostCommand::Reconfigure { config: "theme \"x\\\"y\"".to_owned() },
            HostCommand::Close,
        ]
    );
    assert_eq!(
        state.execute_action(PaletteAction::RunShell(CommandAction { command: "ls".to_owned(), cwd: None })),
        vec![HostCommand::RunInBackground { command: "ls".to_owned(), cwd: None }, HostCommand::Close]
    );
    assert_eq!(
        state.execute_action(PaletteAction::OpenCommandPane {
            command: CommandAction { command: "top".to_owned(), cwd: None },
            coordinates: None,
            floating: true,
        }),
        vec![
            HostCommand::OpenFloatingCommand { command: "top".to_owned(), cwd: None, coordinates: None },
            HostCommand::Close,
        ]
    );
    assert!(state.execute_action(PaletteAction::Noop).is_empty());
}

#[test]
fn opening_a_custom_palette_asks_for_its_command_output() {
    let mut state = granted_state();
    state.user_config.custom_palettes.insert("prs".to_owned(), custom(Some("gh pr list"), None));
    let cmds = state.execute_action(PaletteAction::OpenCustomPalette("prs".to_owned()));
    assert_eq!(
        cmds,
        vec![HostCommand::RunPaletteCommand { palette: "prs".to_owned(), command: "gh pr list".to_owned() }]
    );
    assert_eq!(state.palette_title(), "prs");
    assert_eq!(state.footer_path(), "Custom palette · prs");
    assert_eq!(state.empty_state_text(), "No results");
    assert_eq!(titles(&state.palette_items()), vec!["Loading custom palette..."]);
    assert_eq!(
        state.startup_request(),
        Some(HostCommand::RunPaletteCommand { palette: "prs".to_owned(), command: "gh pr list".to_owned() })
    );
}

#[test]
fn command_results_fill_the_palette_or_report_the_failure() {
    let mut state = granted_state();
    let mut prs = custom(Some("gh pr list"), None);
    prs.template_action = Some(ConfigAction::Shell { shell: "open {}".to_owned() });
    state.user_config.custom_palettes.insert("prs".to_owned(), prs);
    state.push_palette(ActivePalette::Custom("prs".to_owned()));
    state.handle_run_command_result(Some(0), "#1 fix\n#2 feat\n", "", Some("custom_palette"), Some("prs"), None);
    assert_eq!(state.message, None);
    assert_eq!(titles(&state.palette_items()), vec!["#1 fix", "#2 feat"]);

    state.handle_run_command_result(Some(1), "", "boom\r\nmore", Some("custom_palette"), Some("prs"), None);
    assert_eq!(state.message.as_deref(), Some("Palette command failed: boom"));
    state.handle_run_command_result(Some(1), "", "", Some("custom_palette"), Some("prs"), None);
    assert_eq!(state.message.as_deref(), Some("Palette command failed: unknown error"));

    state.message = None;
    state.handle_run_command_result(Some(1), "", "x", Some("other"), Some("prs"), None);
    assert_eq!(state.message, None);

    let json = vec![RawPaletteItem {
        title: "from json".to_owned(),
        description: None,
        category: None,
        group: None,
        aliases: None,
        shortcut: None,
        icon: None,
        icon_color: None,
        action: ConfigAction::Shell { shell: "true".to_owned() },
    }];
    state.handle_run_command_result(Some(0), "[...]", "", Some("custom_palette"), Some("prs"), Some(json));
    assert_eq!(titles(&state.palette_items()), vec!["from json"]);
}

#[test]
fn permissions_gate_the_palette() {
    let mut state = PaletteState::new(99, 7, Some("sessions"), None, Some("Tools".to_owned()));
    assert_eq!(state.permission_state, PermissionState::Pending);
    assert_eq!(titles(&state.palette_items()), vec!["Waiting for plugin permissions"]);
    assert_eq!(
        state.message.as_deref(),
        Some("Approve the Zellij permission prompt to enable palette actions")
    );
    state.deny_permissions();
    assert_eq!(titles(&state.palette_items()), vec!["Permissions denied"]);
    assert!(state.grant_permissions());
    assert!(!state.grant_permissions());
    assert_eq!(state.message, None);
    assert_eq!(state.header_line(), " Zellij Palette · Sessions ");
    state.query = "ab".to_owned();
    assert_eq!(state.search_line(), "> ab_");
}

#[test]
fn root_category_titles_the_command_palette() {
    let state = PaletteState::new(1, 1, None, None, Some("Tools".to_owned()));
    assert_eq!(state.palette_title(), "Tools");
    let plain = PaletteState::new(1, 1, None, None, None);
    assert_eq!(plain.palette_title(), "Commands");
    assert_eq!(plain.footer_path(), "Commands");
}

#[test]
fn first_line_stops_at_the_first_line_feed() {
    assert_eq!(first_line_of(""), None);
    assert_eq!(first_line_of("one\ntwo").as_deref(), Some("one"));
    assert_eq!(first_line_of("one\r\ntwo").as_deref(), Some("one"));
    assert_eq!(first_line_of("one\r").as_deref(), Some("one\r"));
    assert_eq!(first_line_of("\nrest").as_deref(), Some(""));
}

#[test]
fn list_rows_leave_room_for_header_and_footer() {
    assert_eq!(list_rows(30), 25);
    assert_eq!(list_rows(5), 1);
    assert_eq!(list_rows(0), 1);
}

#[test]
fn host_events_drive_the_palette() {
    let mut state = PaletteState::new(99, 7, None, None, None);
    let (redraw, cmds) = state.update(PaletteEvent::Visible(true));
    assert!(redraw && cmds.is_empty());
    let (redraw, cmds) = state.update(PaletteEvent::PermissionGranted);
    assert!(redraw);
    assert_eq!(cmds, vec![HostCommand::StartUp]);
    let (_, cmds) = state.update(PaletteEvent::PermissionGranted);
    assert!(cmds.is_empty());
    let (_, cmds) = state.update(PaletteEvent::Visible(true));
    assert_eq!(cmds, vec![HostCommand::RefreshSessions]);
    let (redraw, _) = state.update(PaletteEvent::Visible(false));
    assert!(!redraw);
    let (redraw, _) = state.update(PaletteEvent::SessionUpdate(vec![current_session()]));
    assert!(redraw);
    assert_eq!(state.sessions.len(), 1);
    assert_eq!(state.selected, 1);
    let (_, cmds) = state.update(PaletteEvent::Key(key(KeyName::Esc)));
    assert_eq!(cmds, vec![HostCommand::Close]);
    state.user_config.custom_palettes.insert("p".to_owned(), custom(Some("ls"), None));
    state.update(PaletteEvent::CommandResult(CommandOutcome {
        exit_code: Some(2),
        stdout: String::new(),
        stderr: "nope".to_owned(),
        kind: Some("custom_palette".to_owned()),
        palette: Some("p".to_owned()),
        parsed_json: None,
    }));
    assert_eq!(state.message.as_deref(), Some("Palette command failed: nope"));
    state.update(PaletteEvent::PermissionDenied);
    assert_eq!(state.permission_state, PermissionState::Denied);
    let (redraw, cmds) = state.update(PaletteEvent::Other);
    assert!(!redraw && cmds.is_empty());
}
