use zellij_palette::collections::{StringMap, StringSet};
use zellij_palette::model::{
    CommandAction, PaletteAction, PaletteId, PaletteItem, PopupCoordinates, ThemeAction,
};
use zellij_palette::user_config::{
    alias_overrides_from_pairs, apply_item_overrides, hidden_titles_from_list, load_user_config,
    shortcut_overrides_from_pairs, config_action_to_palette_action,
    filter_hidden_items, interpolate_action, parse_command_palette_output,
    referenced_items_from_custom_palette, with_command_cwd, ConfigAction, CustomPalette,
    RawCustomPalette, RawPaletteItem,
};

#[test]
fn plain_line_output_supports_default_and_inline_icon_metadata() {
    let items = parse_command_palette_output(
        "first\n󰍉\tsecond\n●\t#00ff00\tthird",
        None,
        Some(&ConfigAction::Popup {
            popup: "echo {}".to_owned(),
            x: Some("10%".to_owned()),
            y: Some("5%".to_owned()),
            width: Some("80%".to_owned()),
            height: Some("70%".to_owned()),
            pinned: Some(true),
            borderless: Some(false),
        }),
        Some("󰊠"),
        Some("#ffaa00"),
    );

    assert_eq!(items.len(), 3);
    assert_eq!(items[0].title, "first");
    assert_eq!(items[0].icon.as_deref(), Some("󰊠"));
    assert_eq!(items[0].icon_color.as_deref(), Some("#ffaa00"));
    assert_eq!(items[1].icon.as_deref(), Some("󰍉"));
    assert_eq!(items[1].icon_color.as_deref(), Some("#ffaa00"));
    assert_eq!(items[2].icon.as_deref(), Some("●"));
    assert_eq!(items[2].icon_color.as_deref(), Some("#00ff00"));

    match &items[2].action {
        PaletteAction::OpenCommandPane {
            command,
            coordinates,
            floating,
        } => {
            assert!(floating);
            assert_eq!(command.command, "echo third");
            let coordinates = coordinates.as_ref().unwrap();
            assert_eq!(coordinates.x.as_deref(), Some("10%"));
            assert_eq!(coordinates.width.as_deref(), Some("80%"));
            assert_eq!(coordinates.pinned, Some(true));
        }
        action => panic!("unexpected action: {action:?}"),
    }
}

#[test]
fn item_overrides_preserve_explicit_shortcuts_and_append_aliases() {
    let items = vec![
        PaletteItem::leaf("Find Pane", PaletteAction::Noop)
            .with_shortcut("Enter")
            .with_aliases(["pane"]),
        PaletteItem::leaf("Switch Theme", PaletteAction::Noop),
    ];
    let mut shortcuts = StringMap::new();
    shortcuts.insert("Find Pane".to_owned(), "Ctrl-P".to_owned());
    shortcuts.insert("Switch Theme".to_owned(), "Ctrl-T".to_owned());
    let mut aliases = StringMap::new();
    aliases.insert("Find Pane".to_owned(), vec!["jump".to_owned()]);
    aliases.insert("Switch Theme".to_owned(), vec!["appearance".to_owned()]);

    let items = apply_item_overrides(items, &shortcuts, &aliases);

    assert_eq!(items[0].shortcut.as_deref(), Some("Enter"));
    assert_eq!(items[0].aliases, vec!["pane".to_owned(), "jump".to_owned()]);
    assert_eq!(items[1].shortcut.as_deref(), Some("Ctrl-T"));
    assert_eq!(items[1].aliases, vec!["appearance".to_owned()]);
}

#[test]
fn hidden_items_filter_by_title() {
    let items = vec![
        PaletteItem::leaf("Find Pane", PaletteAction::Noop),
        PaletteItem::leaf("Split Down", PaletteAction::Noop),
    ];
    let mut hidden = StringSet::new();
    hidden.insert("Split Down".to_owned());

    let filtered = filter_hidden_items(items, &hidden);

    assert_eq!(filtered.len(), 1);
    assert_eq!(filtered[0].title, "Find Pane");
}

#[test]
fn custom_palette_references_titles_then_categories() {
    let base_items = vec![
        PaletteItem::leaf("Find Pane", PaletteAction::Noop).with_category("Panes"),
        PaletteItem::leaf("Open Logs", PaletteAction::Noop).with_category("Tools"),
        PaletteItem::leaf("Switch Theme", PaletteAction::Noop).with_category("Appearance"),
    ];
    let custom_palette = CustomPalette {
        from: vec!["Find Pane".to_owned()],
        from_category: Some("Tools".to_owned()),
        ..CustomPalette::default()
    };

    let referenced = referenced_items_from_custom_palette(&base_items, &custom_palette);
    let titles: Vec<_> = referenced.into_iter().map(|item| item.title).collect();

    assert_eq!(titles, vec!["Find Pane".to_owned(), "Open Logs".to_owned()]);
}

#[test]
fn custom_palette_skips_unknown_titles_and_keeps_duplicates_of_the_first() {
    let base_items = vec![
        PaletteItem::leaf("A", PaletteAction::Noop).with_description("first"),
        PaletteItem::leaf("A", PaletteAction::Noop).with_description("second"),
    ];
    let custom_palette = CustomPalette {
        from: vec!["missing".to_owned(), "A".to_owned()],
        ..CustomPalette::default()
    };
    let referenced = referenced_items_from_custom_palette(&base_items, &custom_palette);
    assert_eq!(referenced.len(), 1);
    assert_eq!(referenced[0].description.as_deref(), Some("first"));
}

#[test]
fn configured_actions_map_to_palette_actions() {
    let palette = |name: &str| ConfigAction::Palette { palette: name.to_owned() };
    assert_eq!(
        config_action_to_palette_action(palette("commands")),
        PaletteAction::OpenPalette(PaletteId::Commands)
    );
    assert_eq!(
        config_action_to_palette_action(palette("find-pane")),
        PaletteAction::OpenPalette(PaletteId::FindPane)
    );
    assert_eq!(
        config_action_to_palette_action(palette("move-pane")),
        PaletteAction::OpenPalette(PaletteId::MovePane)
    );
    assert_eq!(
        config_action_to_palette_action(palette("sessions")),
        PaletteAction::OpenPalette(PaletteId::Sessions)
    );
    assert_eq!(
        config_action_to_palette_action(palette("themes")),
        PaletteAction::OpenPalette(PaletteId::Themes)
    );
    assert_eq!(
        config_action_to_palette_action(palette("tools")),
        PaletteAction::OpenCustomPalette("tools".to_owned())
    );
    let theme = |name: &str| ConfigAction::Theme { theme: name.to_owned() };
    assert_eq!(
        config_action_to_palette_action(theme("dark")),
        PaletteAction::Theme(ThemeAction::SetDark)
    );
    assert_eq!(
        config_action_to_palette_action(theme("light")),
        PaletteAction::Theme(ThemeAction::SetLight)
    );
    assert_eq!(
        config_action_to_palette_action(theme("toggle")),
        PaletteAction::Theme(ThemeAction::Toggle)
    );
    assert_eq!(
        config_action_to_palette_action(theme("nord")),
        PaletteAction::Theme(ThemeAction::SetNamed("nord".to_owned()))
    );
    assert_eq!(
        config_action_to_palette_action(ConfigAction::Shell { shell: "ls".to_owned() }),
        PaletteAction::RunShell(CommandAction { command: "ls".to_owned(), cwd: None })
    );
    assert_eq!(
        config_action_to_palette_action(ConfigAction::Popup {
            popup: "top".to_owned(),
            x: None,
            y: None,
            width: None,
            height: None,
            pinned: None,
            borderless: None,
        }),
        PaletteAction::OpenCommandPane {
            command: CommandAction { command: "top".to_owned(), cwd: None },
            coordinates: None,
            floating: true,
        }
    );
}

#[test]
fn popup_coordinates_need_at_least_one_field() {
    assert_eq!(PopupCoordinates::new(None, None, None, None, None, None), None);
    let coordinates = PopupCoordinates::new(None, None, None, None, Some(true), None).unwrap();
    assert_eq!(coordinates.pinned, Some(true));
    assert_eq!(coordinates.x, None);
}

#[test]
fn command_cwd_applies_to_commands_and_new_tabs_only() {
    let cwd = Some(std::path::PathBuf::from("/tmp/work"));
    let shell = PaletteAction::RunShell(CommandAction { command: "ls".to_owned(), cwd: None });
    assert_eq!(
        with_command_cwd(shell, cwd.clone()),
        PaletteAction::RunShell(CommandAction { command: "ls".to_owned(), cwd: cwd.clone() })
    );
    assert_eq!(
        with_command_cwd(PaletteAction::NewTab { cwd: None }, cwd.clone()),
        PaletteAction::NewTab { cwd: cwd.clone() }
    );
    assert_eq!(with_command_cwd(PaletteAction::NextTab, cwd), PaletteAction::NextTab);
}

#[test]
fn interpolation_replaces_every_placeholder() {
    let action = interpolate_action(ConfigAction::Shell { shell: "echo {} {}{".to_owned() }, "x");
    match action {
        ConfigAction::Shell { shell } => assert_eq!(shell, "echo x x{"),
        other => panic!("unexpected action: {other:?}"),
    }
}

#[test]
fn plain_lines_are_trimmed_and_blank_ones_dropped() {
    let items = parse_command_palette_output(
        "  alpha  \r\n\n   \nbeta",
        None,
        Some(&ConfigAction::Shell { shell: "open {}".to_owned() }),
        None,
        None,
    );
    let titles: Vec<_> = items.iter().map(|item| item.title.as_str()).collect();
    assert_eq!(titles, vec!["alpha", "beta"]);
    assert_eq!(
        items[1].action,
        PaletteAction::RunShell(CommandAction { command: "open beta".to_owned(), cwd: None })
    );
    assert_eq!(items[0].icon, None);
}

#[test]
fn command_output_without_template_or_json_gives_nothing() {
    assert!(parse_command_palette_output("a\nb", None, None, None, None).is_empty());
}

#[test]
fn json_command_output_uses_the_parsed_items() {
    let raw = RawPaletteItem {
        title: "Open".to_owned(),
        description: None,
        category: None,
        group: Some("Tools".to_owned()),
        aliases: Some(vec!["o".to_owned()]),
        shortcut: None,
        icon: None,
        icon_color: None,
        action: ConfigAction::Shell { shell: "open".to_owned() },
    };
    let items = parse_command_palette_output(
        "ignored",
        Some(vec![raw]),
        Some(&ConfigAction::Shell { shell: "x".to_owned() }),
        None,
        None,
    );
    assert_eq!(items.len(), 1);
    assert_eq!(items[0].category.as_deref(), Some("Tools"));
    assert_eq!(items[0].aliases, vec!["o"]);
}

#[test]
fn built_config_reads_overlays_and_sorts_theme_names() {
    let palette = RawCustomPalette {
        title: Some("Tools".to_owned()),
        from: None,
        from_category: None,
        from_group: Some("Tools".to_owned()),
        command: None,
        action: None,
        icon: Some("x".to_owned()),
        icon_color: None,
        grouped: Some(true),
        empty_text: Some("No tools".to_owned()),
        items: None,
    };
    let config = load_user_config(
        None,
        vec![("tools".to_owned(), palette)],
        Some(r#"{"Find Pane":"Ctrl-P"}"#),
        Some(r#"{"Find Pane":["jump","locator"]}"#),
        Some(r#"["Split Down"]"#),
        vec!["nord".to_owned(), "dracula".to_owned(), "ayu".to_owned()],
    );
    assert!(config.commands.is_empty());
    assert_eq!(config.shortcut_overrides.get("Find Pane").map(String::as_str), Some("Ctrl-P"));
    assert_eq!(
        config.alias_overrides.get("Find Pane").map(|a| a.as_slice()),
        Some(["jump".to_owned(), "locator".to_owned()].as_slice())
    );
    assert!(config.hidden_titles.contains("Split Down"));
    assert_eq!(config.theme_names, vec!["ayu", "dracula", "nord"]);
    let tools = config.custom_palettes.get("tools").unwrap();
    assert_eq!(tools.from_category.as_deref(), Some("Tools"));
    assert_eq!(tools.grouped, Some(true));
    assert_eq!(tools.empty_text.as_deref(), Some("No tools"));
}

#[test]
fn malformed_overlays_count_as_empty() {
    let config = load_user_config(None, Vec::new(), Some("not json"), Some("[1]"), None, Vec::new());
    assert!(config.shortcut_overrides.get("anything").is_none());
    assert!(config.alias_overrides.get("anything").is_none());
    assert!(!config.hidden_titles.contains("anything"));
}

#[test]
fn overlays_from_parsed_entries_let_later_entries_win() {
    let shortcuts = shortcut_overrides_from_pairs(Some(vec![
        ("Find Pane".to_owned(), "Ctrl-F".to_owned()),
        ("Find Pane".to_owned(), "Ctrl-P".to_owned()),
    ]));
    assert_eq!(shortcuts.get("Find Pane").map(String::as_str), Some("Ctrl-P"));
    assert!(shortcut_overrides_from_pairs(None).get("Find Pane").is_none());
    let aliases = alias_overrides_from_pairs(Some(vec![("New Tab".to_owned(), vec!["nt".to_owned()])]));
    assert_eq!(aliases.get("New Tab").map(|a| a.as_slice()), Some(["nt".to_owned()].as_slice()));
    let hidden = hidden_titles_from_list(Some(vec!["Detach Session".to_owned()]));
    assert!(hidden.contains("Detach Session"));
    assert!(!hidden_titles_from_list(None).contains("Detach Session"));
}
