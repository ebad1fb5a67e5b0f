//! The entries of each palette, built from the host's report and the
//! user's configuration.
use std::path::PathBuf;
use vstd::prelude::*;
use crate::model::{
    clone_cwd, strings_view, PaletteId, ThemeAction, group_spec, leaf_spec, opt_view, PaletteAction, PaletteItem, PaletteItemView,
    PaneTarget,
};
use crate::fuzzy::items_view;
use crate::session::{
    current_index, current_session_index, panes_at, PaneSummary, SessionSummary, TabSummary,
};
use crate::pane_tree::{non_empty, opt_text, push_non_empty};
use crate::text::{append_str, decimal_spec, push_decimal};
use crate::collections::{StringMap, StringSet};
use crate::user_config::{
    by_category, filter_hidden_items, referenced_items_from_custom_palette, referenced_spec,
    visible_spec, with_command_cwd, with_cwd_spec, CustomPalette,
};

verus! {

/// An item whose command or new tab runs in `cwd`.
pub open spec fn with_default_cwd_spec(item: PaletteItemView, cwd: Option<PathBuf>) -> PaletteItemView {
    PaletteItemView { action: with_cwd_spec(item.action, cwd), ..item }
}

/// Items whose commands and new tabs run in `cwd`.
pub open spec fn all_with_cwd(items: Seq<PaletteItemView>, cwd: Option<PathBuf>) -> Seq<PaletteItemView> {
    items.map_values(|it: PaletteItemView| with_default_cwd_spec(it, cwd))
}

/// The item with its command, or new tab, run in `cwd`.
pub fn apply_default_cwd(item: PaletteItem, cwd: Option<PathBuf>) -> (out: PaletteItem)
    ensures
        out@ == with_default_cwd_spec(item@, cwd),
{
    let mut next = item;
    next.action = with_command_cwd(next.action, cwd);
    next
}

/// Appends copies of `items`, each run in `cwd`.
fn push_all_with_cwd(out: &mut Vec<PaletteItem>, items: &[PaletteItem], cwd: &Option<PathBuf>)
    ensures
        items_view(final(out)@) == items_view(old(out)@) + all_with_cwd(items_view(items@), *cwd),
{
    let ghost start = items_view(out@);
    let mut i: usize = 0;
    while i < items.len()
        invariant
            i <= items@.len(),
            items_view(out@) == start + all_with_cwd(items_view(items@.take(i as int)), *cwd),
        decreases items@.len() - i,
    {
        let ghost before = items_view(out@);
        out.push(apply_default_cwd(items[i].duplicate(), clone_cwd(cwd)));
        proof {
            assert(items@.take(i + 1) == items@.take(i as int).push(items@[i as int]));
            assert(items_view(out@) =~= before.push(out@.last()@));
            assert(all_with_cwd(items_view(items@.take(i + 1)), *cwd) =~= all_with_cwd(
                items_view(items@.take(i as int)),
                *cwd,
            ).push(with_default_cwd_spec(items@[i as int]@, *cwd)));
        }
        i = i + 1;
    }
    proof {
        assert(items@.take(items@.len() as int) == items@);
    }
}

/// Group headers inserted before each run of selectable items of one
/// category; `last` is the category of the run in progress.
pub open spec fn grouped_from(items: Seq<PaletteItemView>, last: Option<Seq<char>>) -> Seq<
    PaletteItemView,
>
    decreases items.len(),
{
    if items.len() == 0 {
        Seq::empty()
    } else {
        let item = items[0];
        let rest = items.drop_first();
        if !item.selectable {
            seq![item] + grouped_from(rest, None)
        } else {
            match item.category {
                Some(c) => if last == Some(c) {
                    seq![item] + grouped_from(rest, last)
                } else {
                    seq![group_spec(c), item] + grouped_from(rest, Some(c))
                },
                None => seq![item] + grouped_from(rest, last),
            }
        }
    }
}

/// The items with a header for their category before each run of
/// selectable items that share one; existing headers end a run.
pub fn group_items_by_category(items: Vec<PaletteItem>) -> (out: Vec<PaletteItem>)
    ensures
        items_view(out@) == grouped_from(items_view(items@), None),
{
    let mut grouped: Vec<PaletteItem> = Vec::new();
    let mut last_category: Option<String> = None;
    let ghost all = items_view(items@);
    proof {
        assert(all.skip(0) =~= all);
        assert(items_view(grouped@) =~= Seq::<PaletteItemView>::empty());
        assert(Seq::<PaletteItemView>::empty() + grouped_from(all, None) =~= grouped_from(all, None));
    }
    let mut i: usize = 0;
    while i < items.len()
        invariant
            i <= items@.len(),
            all == items_view(items@),
            items_view(grouped@) + grouped_from(all.skip(i as int), opt_view(last_category)) == grouped_from(
                all,
                None,
            ),
        decreases items@.len() - i,
    {
        let item = items[i].duplicate();
        let ghost before = items_view(grouped@);
        let ghost last = opt_view(last_category);
        proof {
            assert(all.skip(i as int).drop_first() =~= all.skip(i + 1));
            assert(all.skip(i as int)[0] == item@);
        }
        if !item.selectable {
            last_category = None;
            grouped.push(item);
            proof {
                assert(items_view(grouped@) =~= before + seq![item@]);
            }
        } else {
            match &item.category {
                Some(category) => {
                    let same = match &last_category {
                        Some(l) => crate::text::str_equal(l.as_str(), category.as_str()),
                        None => false,
                    };
                    if same {
                        grouped.push(item);
                        proof {
                            assert(items_view(grouped@) =~= before + seq![item@]);
                        }
                    } else {
                        let header = PaletteItem::group(category.as_str());
                        let next = Some(category.clone());
                        grouped.push(header);
                        grouped.push(item);
                        last_category = next;
                        proof {
                            assert(items_view(grouped@) =~= before + seq![
                                group_spec(item@.category->0),
                                item@,
                            ]);
                        }
                    }
                },
                None => {
                    grouped.push(item);
                    proof {
                        assert(items_view(grouped@) =~= before + seq![item@]);
                    }
                },
            }
        }
        proof {
            assert(items_view(grouped@) + grouped_from(all.skip(i + 1), opt_view(last_category))
                =~= before + grouped_from(all.skip(i as int), last));
        }
        i = i + 1;
    }
    proof {
        assert(all.skip(items@.len() as int) =~= Seq::<PaletteItemView>::empty());
        assert(items_view(grouped@) + Seq::<PaletteItemView>::empty() =~= items_view(grouped@));
    }
    grouped
}

/// The entry that switches to a session.
pub open spec fn session_entry(session: SessionSummary) -> PaletteItemView {
    PaletteItemView {
        title: session.name@,
        description: Some(
            decimal_spec(session.tabs@.len()) + " tabs · "@ + decimal_spec(
                session.connected_clients as nat,
            ) + " clients"@,
        ),
        category: Some("Sessions"@),
        icon: Some("󱂬"@),
        ..leaf_spec(session.name@, PaletteAction::SwitchSession { session_name: session.name })
    }
}

/// The session palette: a header, then one entry per session, in order.
pub open spec fn session_items_spec(sessions: Seq<SessionSummary>) -> Seq<PaletteItemView> {
    seq![group_spec("Sessions"@)] + sessions.map_values(|s: SessionSummary| session_entry(s))
}

/// The entries of the session palette.
pub fn session_items(sessions: &[SessionSummary]) -> (out: Vec<PaletteItem>)
    ensures
        items_view(out@) == session_items_spec(sessions@),
{
    let mut items: Vec<PaletteItem> = Vec::new();
    items.push(PaletteItem::group("Sessions"));
    let mut i: usize = 0;
    while i < sessions.len()
        invariant
            i <= sessions@.len(),
            items_view(items@) == seq![group_spec("Sessions"@)] + sessions@.take(i as int).map_values(
                |s: SessionSummary| session_entry(s),
            ),
        decreases sessions@.len() - i,
    {
        let session = &sessions[i];
        let mut description = String::new();
        push_decimal(&mut description, session.tabs.len() as u128);
        append_str(&mut description, " tabs · ");
        push_decimal(&mut description, session.connected_clients as u128);
        append_str(&mut description, " clients");
        let mut item = PaletteItem::leaf(
            session.name.as_str(),
            PaletteAction::SwitchSession { session_name: session.name.clone() },
        ).with_icon("󱂬").with_category("Sessions");
        item.description = Some(description);
        let ghost before = items_view(items@);
        items.push(item);
        proof {
            assert(item@ == session_entry(sessions@[i as int]));
            assert(sessions@.take(i + 1) == sessions@.take(i as int).push(sessions@[i as int]));
            assert(items_view(items@) =~= before.push(item@));
            assert(sessions@.take(i + 1).map_values(|s: SessionSummary| session_entry(s))
                =~= sessions@.take(i as int).map_values(|s: SessionSummary| session_entry(s)).push(
                session_entry(sessions@[i as int]),
            ));
        }
        i = i + 1;
    }
    proof {
        assert(sessions@.take(sessions@.len() as int) == sessions@);
    }
    items
}

/// The entry that moves `source` into the given tab.
pub open spec fn move_target_entry(tab: TabSummary, source: PaneTarget) -> PaletteItemView {
    PaletteItemView {
        description: Some("tab "@ + decimal_spec((tab.position + 1) as nat)),
        category: Some("Tabs"@),
        icon: Some("󰖲"@),
        ..leaf_spec(tab.name@, PaletteAction::MovePaneToTab { source, target_tab_id: tab.tab_id })
    }
}

/// One entry per tab other than the source's own, in order.
pub open spec fn move_targets(tabs: Seq<TabSummary>, source: PaneTarget) -> Seq<PaletteItemView>
    decreases tabs.len(),
{
    if tabs.len() == 0 {
        Seq::empty()
    } else {
        let rest = move_targets(tabs.drop_last(), source);
        if tabs.last().tab_id == source.tab_id {
            rest
        } else {
            rest.push(move_target_entry(tabs.last(), source))
        }
    }
}

/// The entry that moves `source` into a new tab.
pub open spec fn move_to_new_tab_entry(source: PaneTarget) -> PaletteItemView {
    PaletteItemView {
        category: Some("Tabs"@),
        icon: Some("󰝰"@),
        ..leaf_spec("New Tab"@, PaletteAction::MovePaneToNewTab(source))
    }
}

/// The move-pane palette: nothing to move without a caller pane, no target
/// without a current session; else a new tab and every other tab of the
/// current session.
pub open spec fn move_pane_spec(sessions: Seq<SessionSummary>, caller: Option<PaneTarget>) -> Seq<
    PaletteItemView,
> {
    match caller {
        None => seq![group_spec("No pane to move"@)],
        Some(source) => match current_index(sessions) {
            None => seq![group_spec("No active session"@)],
            Some(k) => seq![group_spec("Targets"@), move_to_new_tab_entry(source)] + move_targets(
                sessions[k].tabs@,
                source,
            ),
        },
    }
}

/// The entries of the move-pane palette for the pane `caller`.
pub fn move_pane_items(sessions: &[SessionSummary], caller: Option<PaneTarget>) -> (out: Vec<
    PaletteItem,
>)
    ensures
        items_view(out@) == move_pane_spec(sessions@, caller),
{
    let source = match caller {
        Some(source) => source,
        None => {
            let out = vec![PaletteItem::group("No pane to move")];
            proof {
                assert(items_view(out@) =~= seq![group_spec("No pane to move"@)]);
            }
            return out;
        },
    };
    let k = match current_session_index(sessions) {
        Some(k) => k,
        None => {
            let out = vec![PaletteItem::group("No active session")];
            proof {
                assert(items_view(out@) =~= seq![group_spec("No active session"@)]);
            }
            return out;
        },
    };
    let tabs = &sessions[k].tabs;
    let mut items: Vec<PaletteItem> = Vec::new();
    items.push(PaletteItem::group("Targets"));
    items.push(
        PaletteItem::leaf("New Tab", PaletteAction::MovePaneToNewTab(source.duplicate())).with_icon(
            "󰝰",
        ).with_category("Tabs"),
    );
    let ghost head = seq![group_spec("Targets"@), move_to_new_tab_entry(source)];
    proof {
        assert(items_view(items@) =~= head);
        assert(tabs@.take(0) =~= Seq::<TabSummary>::empty());
        assert(head + move_targets(Seq::<TabSummary>::empty(), source) =~= head);
    }
    let mut i: usize = 0;
    while i < tabs.len()
        invariant
            i <= tabs@.len(),
            items_view(items@) == head + move_targets(tabs@.take(i as int), source),
        decreases tabs@.len() - i,
    {
        let tab = &tabs[i];
        proof {
            assert(tabs@.take(i + 1).drop_last() == tabs@.take(i as int));
            assert(tabs@.take(i + 1).last() == tabs@[i as int]);
        }
        if tab.tab_id != source.tab_id {
            let mut description = String::new();
            append_str(&mut description, "tab ");
            push_decimal(&mut description, tab.position as u128 + 1);
            let item = PaletteItem::leaf(
                tab.name.as_str(),
                PaletteAction::MovePaneToTab { source: source.duplicate(), target_tab_id: tab.tab_id },
            ).with_icon("󰖲").with_category("Tabs").with_description(description.as_str());
            let ghost before = items_view(items@);
            items.push(item);
            proof {
                assert(item@ == move_target_entry(tabs@[i as int], source));
                assert(items_view(items@) =~= before.push(item@));
            }
        }
        i = i + 1;
    }
    proof {
        assert(tabs@.take(tabs@.len() as int) == tabs@);
    }
    items
}

/// The themes built into the host, by name.
pub open spec fn builtin_theme_names() -> Seq<Seq<char>> {
    seq![
        "ansi"@,
        "ao"@,
        "atelier"@,
        "ayu-dark"@,
        "ayu-light"@,
        "ayu-mirage"@,
        "blade-runner"@,
        "catppuccin-frappe"@,
        "catppuccin-latte"@,
        "catppuccin-macchiato"@,
        "catppuccin-mocha"@,
        "cyber-noir"@,
        "dayfox"@,
        "dracula"@,
        "everforest-dark"@,
        "everforest-light"@,
        "flexoki-dark"@,
        "gruber-darker"@,
        "gruvbox-dark"@,
        "gruvbox-light"@,
        "iceberg-dark"@,
        "iceberg-light"@,
        "kanagawa"@,
        "lucario"@,
        "menace"@,
        "molokai-dark"@,
        "nightfox"@,
        "night-owl"@,
        "nord"@,
        "onedark"@,
        "one-half-dark"@,
        "pencil-light"@,
        "retro-wave"@,
        "solarized-dark"@,
        "solarized-light"@,
        "terafox"@,
        "tokyo-night"@,
        "tokyo-night-dark"@,
        "tokyo-night-light"@,
        "tokyo-night-storm"@,
        "vesper"@,
    ]
}

/// The names of the themes built into the host.
pub fn builtin_themes() -> (out: Vec<&'static str>)
    ensures
        out@.map_values(|name: &str| name@) == builtin_theme_names(),
{
    let out = vec![
        "ansi",
        "ao",
        "atelier",
        "ayu-dark",
        "ayu-light",
        "ayu-mirage",
        "blade-runner",
        "catppuccin-frappe",
        "catppuccin-latte",
        "catppuccin-macchiato",
        "catppuccin-mocha",
        "cyber-noir",
        "dayfox",
        "dracula",
        "everforest-dark",
        "everforest-light",
        "flexoki-dark",
        "gruber-darker",
        "gruvbox-dark",
        "gruvbox-light",
        "iceberg-dark",
        "iceberg-light",
        "kanagawa",
        "lucario",
        "menace",
        "molokai-dark",
        "nightfox",
        "night-owl",
        "nord",
        "onedark",
        "one-half-dark",
        "pencil-light",
        "retro-wave",
        "solarized-dark",
        "solarized-light",
        "terafox",
        "tokyo-night",
        "tokyo-night-dark",
        "tokyo-night-light",
        "tokyo-night-storm",
        "vesper",
    ];
    proof {
        assert(out@.map_values(|name: &str| name@) =~= builtin_theme_names());
    }
    out
}

/// The built-in names that no user theme shadows, in order.
pub open spec fn not_shadowed(builtins: Seq<Seq<char>>, user: Seq<Seq<char>>) -> Seq<Seq<char>>
    decreases builtins.len(),
{
    if builtins.len() == 0 {
        Seq::empty()
    } else {
        let rest = not_shadowed(builtins.drop_last(), user);
        if user.contains(builtins.last()) {
            rest
        } else {
            rest.push(builtins.last())
        }
    }
}

/// The fixed head of the theme palette: the dark/light mode entries, then
/// the header of the built-in themes.
pub open spec fn theme_mode_items() -> Seq<PaletteItemView> {
    seq![
        group_spec("Theme Mode"@),
        PaletteItemView {
            category: Some("Appearance"@),
            icon: Some("◐"@),
            ..leaf_spec("Toggle Dark / Light"@, PaletteAction::Theme(ThemeAction::Toggle))
        },
        PaletteItemView {
            category: Some("Appearance"@),
            icon: Some("●"@),
            ..leaf_spec("Use Dark Theme"@, PaletteAction::Theme(ThemeAction::SetDark))
        },
        PaletteItemView {
            category: Some("Appearance"@),
            icon: Some("○"@),
            ..leaf_spec("Use Light Theme"@, PaletteAction::Theme(ThemeAction::SetLight))
        },
        group_spec("Built-in Themes"@),
    ]
}

/// An entry that switches to the theme called `name`.
pub open spec fn is_theme_entry(item: PaletteItemView, name: Seq<char>) -> bool {
    &&& item.action matches PaletteAction::Theme(ThemeAction::SetNamed(s)) && s@ == name
    &&& item == PaletteItemView {
        category: Some("Appearance"@),
        icon: Some("●"@),
        ..leaf_spec(name, item.action)
    }
}

fn contains_name(names: &[String], name: &str) -> (out: bool)
    ensures
        out == strings_view(names@).contains(name@),
{
    let mut i: usize = 0;
    while i < names.len()
        invariant
            i <= names@.len(),
            forall|j: int| 0 <= j < i ==> names@[j]@ != name@,
        decreases names@.len() - i,
    {
        if crate::text::str_equal(names[i].as_str(), name) {
            proof {
                assert(strings_view(names@)[i as int] == name@);
            }
            return true;
        }
        i = i + 1;
    }
    proof {
        if strings_view(names@).contains(name@) {
            let j = choose|j: int| 0 <= j < strings_view(names@).len() && strings_view(names@)[j] == name@;
            assert(names@[j]@ == name@);
        }
    }
    false
}

fn theme_entry(name: &str) -> (out: PaletteItem)
    ensures
        is_theme_entry(out@, name@),
{
    PaletteItem::leaf(name, PaletteAction::Theme(ThemeAction::SetNamed(name.to_owned()))).with_icon(
        "●",
    ).with_category("Appearance")
}

/// The theme palette: the mode entries; the built-in themes that no user
/// theme shadows; then, if there are user themes, a header and one entry
/// for each, in order.
pub open spec fn theme_items_shape(out: Seq<PaletteItemView>, user_themes: Seq<String>) -> bool {
    let shown = not_shadowed(builtin_theme_names(), strings_view(user_themes));
    let n = shown.len() as int;
    &&& out.len() == 5 + n + if user_themes.len() > 0 {
        1 + user_themes.len()
    } else {
        0
    }
    &&& out.take(5) == theme_mode_items()
    &&& forall|k: int| 0 <= k < n ==> is_theme_entry(#[trigger] out[5 + k], shown[k])
    &&& user_themes.len() > 0 ==> out[5 + n] == group_spec("User Themes"@)
    &&& forall|j: int|
        0 <= j < user_themes.len() ==> is_theme_entry(#[trigger] out[6 + n + j], user_themes[j]@)
}

/// The entries of the theme palette.
pub fn theme_items(user_themes: &[String]) -> (out: Vec<PaletteItem>)
    ensures
        theme_items_shape(items_view(out@), user_themes@),
{
    let mut items: Vec<PaletteItem> = Vec::new();
    items.push(PaletteItem::group("Theme Mode"));
    items.push(
        PaletteItem::leaf("Toggle Dark / Light", PaletteAction::Theme(ThemeAction::Toggle)).with_icon(
            "◐",
        ).with_category("Appearance"),
    );
    items.push(
        PaletteItem::leaf("Use Dark Theme", PaletteAction::Theme(ThemeAction::SetDark)).with_icon(
            "●",
        ).with_category("Appearance"),
    );
    items.push(
        PaletteItem::leaf("Use Light Theme", PaletteAction::Theme(ThemeAction::SetLight)).with_icon(
            "○",
        ).with_category("Appearance"),
    );
    items.push(PaletteItem::group("Built-in Themes"));
    proof {
        assert(items_view(items@) =~= theme_mode_items());
    }
    let ghost user = strings_view(user_themes@);
    let builtins = builtin_themes();
    let ghost names = builtin_theme_names();
    let mut i: usize = 0;
    proof {
        assert(names.take(0) =~= Seq::<Seq<char>>::empty());
    }
    while i < builtins.len()
        invariant
            i <= builtins@.len(),
            builtins@.map_values(|name: &str| name@) == names,
            user == strings_view(user_themes@),
            items@.len() == 5 + not_shadowed(names.take(i as int), user).len(),
            items_view(items@).take(5) == theme_mode_items(),
            forall|k: int|
                0 <= k < not_shadowed(names.take(i as int), user).len() ==> is_theme_entry(
                    #[trigger] items@[5 + k]@,
                    not_shadowed(names.take(i as int), user)[k],
                ),
        decreases builtins@.len() - i,
    {
        let name = builtins[i];
        proof {
            assert(names[i as int] == name@);
            assert(names.take(i + 1).drop_last() == names.take(i as int));
            assert(names.take(i + 1).last() == name@);
        }
        if !contains_name(user_themes, name) {
            let ghost before = items_view(items@);
            items.push(theme_entry(name));
            proof {
                assert(items_view(items@).take(5) =~= before.take(5));
            }
        }
        i = i + 1;
    }
    proof {
        assert(names.take(builtins@.len() as int) =~= names);
    }
    let ghost n = not_shadowed(names, user).len() as int;
    if user_themes.len() > 0 {
        let ghost before = items_view(items@);
        items.push(PaletteItem::group("User Themes"));
        proof {
            assert(items_view(items@).take(5) =~= before.take(5));
        }
        let mut j: usize = 0;
        while j < user_themes.len()
            invariant
                j <= user_themes@.len(),
                n == not_shadowed(names, user).len(),
                items@.len() == 6 + n + j,
                items_view(items@).take(5) == theme_mode_items(),
                forall|k: int|
                    0 <= k < n ==> is_theme_entry(#[trigger] items@[5 + k]@, not_shadowed(names, user)[k]),
                items@[5 + n]@ == group_spec("User Themes"@),
                forall|k: int|
                    0 <= k < j ==> is_theme_entry(#[trigger] items@[6 + n + k]@, user_themes@[k]@),
            decreases user_themes@.len() - j,
        {
            let ghost before = items@;
            let entry = theme_entry(user_themes[j].as_str());
            items.push(entry);
            proof {
                assert(items@[5 + n] == before[5 + n]);
                assert(items_view(items@).take(5) =~= items_view(before).take(5));
            }
            j = j + 1;
        }
    }
    proof {
        let v = items_view(items@);
        let shown = not_shadowed(builtin_theme_names(), strings_view(user_themes@));
        let n = shown.len() as int;
        assert forall|k: int| 0 <= k < n implies is_theme_entry(#[trigger] v[5 + k], shown[k]) by {
            assert(v[5 + k] == items@[5 + k]@);
        }
        assert forall|j: int| 0 <= j < user_themes@.len() implies is_theme_entry(
            #[trigger] v[6 + n + j],
            user_themes@[j]@,
        ) by {
            assert(v[6 + n + j] == items@[6 + n + j]@);
        }
    }
    items
}

/// The title of a session's header in the find-pane palette.
pub open spec fn session_header(session: SessionSummary) -> Seq<char> {
    if session.is_current_session {
        session.name@ + " (current)"@
    } else {
        session.name@
    }
}

/// The kind of a pane, in words.
pub open spec fn pane_kind(pane: PaneSummary) -> Seq<char> {
    if pane.is_plugin {
        "plugin"@
    } else {
        "terminal"@
    }
}

/// The description of a pane: `current` for the focused pane of the active
/// tab of the current session, else its kind; then its command, or its kind
/// when it runs none.
pub open spec fn pane_description(session: SessionSummary, tab: TabSummary, pane: PaneSummary) -> Seq<
    char,
> {
    let marker = if session.is_current_session && tab.active && pane.is_focused {
        "current"@
    } else {
        pane_kind(pane)
    };
    let command = match pane.terminal_command {
        Some(c) => c@,
        None => pane_kind(pane),
    };
    marker + " · "@ + command
}

/// The describing line of a pane.
pub fn description_for_pane(session: &SessionSummary, tab: &TabSummary, pane: &PaneSummary) -> (out:
    String)
    ensures
        out@ == pane_description(*session, *tab, *pane),
{
    let kind = if pane.is_plugin {
        "plugin"
    } else {
        "terminal"
    };
    let marker = if session.is_current_session && tab.active && pane.is_focused {
        "current"
    } else {
        kind
    };
    let mut out = String::new();
    append_str(&mut out, marker);
    append_str(&mut out, " · ");
    match &pane.terminal_command {
        Some(command) => append_str(&mut out, command.as_str()),
        None => append_str(&mut out, kind),
    }
    proof {
        assert(out@ =~= pane_description(*session, *tab, *pane));
    }
    out
}

/// A pane's description starts with `current` exactly when the pane is the
/// focused pane of the active tab of the current session; every other pane
/// is described by its kind first.
pub proof fn law_current_only_for_focused_pane_of_active_tab(
    session: SessionSummary,
    tab: TabSummary,
    pane: PaneSummary,
)
    ensures
        ({
            let d = pane_description(session, tab, pane);
            d.len() >= 7 && d.take(7) == "current"@
        }) <==> (session.is_current_session && tab.active && pane.is_focused),
        !(session.is_current_session && tab.active && pane.is_focused) ==> pane_description(
            session,
            tab,
            pane,
        ).take(pane_kind(pane).len() as int) == pane_kind(pane),
{
    reveal_strlit("current");
    reveal_strlit("plugin");
    reveal_strlit("terminal");
    reveal_strlit(" · ");
    let d = pane_description(session, tab, pane);
    let kind = pane_kind(pane);
    let command = match pane.terminal_command {
        Some(c) => c@,
        None => kind,
    };
    if session.is_current_session && tab.active && pane.is_focused {
        assert(d == "current"@ + " · "@ + command);
        assert(d.take(7) =~= "current"@);
    } else {
        assert(d == kind + " · "@ + command);
        assert(d.take(kind.len() as int) =~= kind);
        assert(d[0] == kind[0]);
        if d.len() >= 7 && d.take(7) == "current"@ {
            assert(d.take(7)[0] == d[0]);
            assert("current"@[0] == 'c');
        }
    }
}

/// Whether the find-pane palette lists a pane: selectable, not suppressed,
/// and not the palette's own plugin pane.
pub open spec fn listed(pane: PaneSummary, own_plugin_id: Option<u32>) -> bool {
    pane.is_selectable && !pane.is_suppressed && !(pane.is_plugin && own_plugin_id == Some(pane.id))
}

/// The entry that focuses a pane.
pub open spec fn find_pane_entry(session: SessionSummary, tab: TabSummary, pane: PaneSummary) -> PaletteItemView {
    PaletteItemView {
        description: Some(pane_description(session, tab, pane)),
        category: Some("Panes"@),
        aliases: non_empty(
            seq![session.name@, tab.name@, pane.title@, opt_text(pane.terminal_command)],
        ),
        icon: Some(
            if pane.is_plugin {
                ""@
            } else {
                "󰆍"@
            },
        ),
        ..leaf_spec(
            "["@ + tab.name@ + "] "@ + pane.title@,
            PaletteAction::FocusPane(
                PaneTarget {
                    session_name: session.name,
                    tab_position: tab.position,
                    tab_id: tab.tab_id,
                    pane_id: pane.id,
                    is_plugin: pane.is_plugin,
                },
            ),
        )
    }
}

/// The entries for the listed panes of a tab, in order.
pub open spec fn pane_entries(
    session: SessionSummary,
    tab: TabSummary,
    panes: Seq<PaneSummary>,
    own_plugin_id: Option<u32>,
) -> Seq<PaletteItemView>
    decreases panes.len(),
{
    if panes.len() == 0 {
        Seq::empty()
    } else {
        let rest = pane_entries(session, tab, panes.drop_last(), own_plugin_id);
        if listed(panes.last(), own_plugin_id) {
            rest.push(find_pane_entry(session, tab, panes.last()))
        } else {
            rest
        }
    }
}

/// The entries for the panes of the given tabs of a session, tab by tab.
pub open spec fn tab_entries(session: SessionSummary, tabs: Seq<TabSummary>, own_plugin_id: Option<u32>) -> Seq<
    PaletteItemView,
>
    decreases tabs.len(),
{
    if tabs.len() == 0 {
        Seq::empty()
    } else {
        tab_entries(session, tabs.drop_last(), own_plugin_id) + match panes_at(
            session,
            tabs.last().position,
        ) {
            Some(panes) => pane_entries(session, tabs.last(), panes, own_plugin_id),
            None => Seq::empty(),
        }
    }
}

/// The find-pane palette: for each session, a header and then the entries
/// of its tabs' listed panes.
pub open spec fn find_pane_spec(sessions: Seq<SessionSummary>, own_plugin_id: Option<u32>) -> Seq<
    PaletteItemView,
>
    decreases sessions.len(),
{
    if sessions.len() == 0 {
        Seq::empty()
    } else {
        find_pane_spec(sessions.drop_last(), own_plugin_id) + seq![
            group_spec(session_header(sessions.last())),
        ] + tab_entries(sessions.last(), sessions.last().tabs@, own_plugin_id)
    }
}

fn pane_entry(session: &SessionSummary, tab: &TabSummary, pane: &PaneSummary) -> (out: PaletteItem)
    ensures
        out@ == find_pane_entry(*session, *tab, *pane),
{
    let mut title = String::new();
    append_str(&mut title, "[");
    append_str(&mut title, tab.name.as_str());
    append_str(&mut title, "] ");
    append_str(&mut title, pane.title.as_str());
    let target = PaneTarget {
        session_name: session.name.clone(),
        tab_position: tab.position,
        tab_id: tab.tab_id,
        pane_id: pane.id,
        is_plugin: pane.is_plugin,
    };
    let icon = if pane.is_plugin {
        ""
    } else {
        "󰆍"
    };
    let description = description_for_pane(session, tab, pane);
    let mut item = PaletteItem::leaf(title.as_str(), PaletteAction::FocusPane(target)).with_icon(
        icon,
    ).with_category("Panes").with_description(description.as_str());
    let mut aliases: Vec<String> = Vec::new();
    proof {
        assert(strings_view(aliases@) =~= Seq::<Seq<char>>::empty());
    }
    let ghost a = session.name@;
    let ghost b = tab.name@;
    let ghost c = pane.title@;
    let ghost d = opt_text(pane.terminal_command);
    push_non_empty(&mut aliases, session.name.as_str());
    proof {
        assert(seq![a].drop_last() =~= Seq::<Seq<char>>::empty());
        assert(non_empty(Seq::<Seq<char>>::empty()) =~= Seq::<Seq<char>>::empty());
        assert(strings_view(aliases@) =~= non_empty(seq![a]));
    }
    push_non_empty(&mut aliases, tab.name.as_str());
    proof {
        assert(seq![a, b].drop_last() =~= seq![a]);
        assert(strings_view(aliases@) =~= non_empty(seq![a, b]));
    }
    push_non_empty(&mut aliases, pane.title.as_str());
    proof {
        assert(seq![a, b, c].drop_last() =~= seq![a, b]);
        assert(strings_view(aliases@) =~= non_empty(seq![a, b, c]));
    }
    let command: &str = match &pane.terminal_command {
        Some(c) => c.as_str(),
        None => "",
    };
    proof {
        reveal_strlit("");
        assert(command@ == d);
    }
    push_non_empty(&mut aliases, command);
    proof {
        assert(seq![a, b, c, d].drop_last() =~= seq![a, b, c]);
        assert(strings_view(aliases@) =~= non_empty(seq![a, b, c, d]));
    }
    item.aliases = aliases;
    proof {
        let four = seq![a, b, c, d];
        assert(title@ =~= "["@ + tab.name@ + "] "@ + pane.title@);
        assert(item@.aliases == non_empty(four));
        assert(item@.title == find_pane_entry(*session, *tab, *pane).title);
        assert(item@.action == find_pane_entry(*session, *tab, *pane).action);
        assert(item@ =~= find_pane_entry(*session, *tab, *pane));
    }
    item
}

fn push_pane_entries(
    out: &mut Vec<PaletteItem>,
    session: &SessionSummary,
    tab: &TabSummary,
    panes: &Vec<PaneSummary>,
    own_plugin_id: Option<u32>,
)
    ensures
        items_view(final(out)@) == items_view(old(out)@) + pane_entries(
            *session,
            *tab,
            panes@,
            own_plugin_id,
        ),
{
    let ghost start = items_view(out@);
    let mut i: usize = 0;
    proof {
        assert(panes@.take(0) =~= Seq::<PaneSummary>::empty());
        assert(start + Seq::<PaletteItemView>::empty() =~= start);
    }
    while i < panes.len()
        invariant
            i <= panes@.len(),
            items_view(out@) == start + pane_entries(
                *session,
                *tab,
                panes@.take(i as int),
                own_plugin_id,
            ),
        decreases panes@.len() - i,
    {
        let pane = &panes[i];
        proof {
            assert(panes@.take(i + 1).drop_last() == panes@.take(i as int));
            assert(panes@.take(i + 1).last() == panes@[i as int]);
        }
        if crate::focus::should_list_find_pane_item(
            pane.id,
            pane.is_plugin,
            pane.is_selectable,
            pane.is_suppressed,
            own_plugin_id,
        ) {
            let ghost before = items_view(out@);
            let entry = pane_entry(session, tab, pane);
            out.push(entry);
            proof {
                assert(items_view(out@) =~= before.push(entry@));
            }
        }
        i = i + 1;
    }
    proof {
        assert(panes@.take(panes@.len() as int) == panes@);
    }
}

fn find_panes_at(session: &SessionSummary, position: usize) -> (out: Option<usize>)
    ensures
        match out {
            Some(i) => i < session.panes@.len() && panes_at(*session, position) == Some(
                session.panes@[i as int].1@,
            ),
            None => panes_at(*session, position) is None,
        },
{
    let mut i: usize = 0;
    while i < session.panes.len()
        invariant
            i <= session.panes@.len(),
            crate::session::panes_from(session.panes@, position, 0) == crate::session::panes_from(
                session.panes@,
                position,
                i as int,
            ),
        decreases session.panes@.len() - i,
    {
        if session.panes[i].0 == position {
            return Some(i);
        }
        i = i + 1;
    }
    None
}

/// The entries of the find-pane palette: every session with a header, and
/// under it the panes that are listed, tab by tab.
pub fn find_pane_items(sessions: &[SessionSummary], own_plugin_id: Option<u32>) -> (out: Vec<
    PaletteItem,
>)
    ensures
        items_view(out@) == find_pane_spec(sessions@, own_plugin_id),
{
    let mut items: Vec<PaletteItem> = Vec::new();
    let mut s: usize = 0;
    proof {
        assert(sessions@.take(0) =~= Seq::<SessionSummary>::empty());
        assert(items_view(items@) =~= Seq::<PaletteItemView>::empty());
    }
    while s < sessions.len()
        invariant
            s <= sessions@.len(),
            items_view(items@) == find_pane_spec(sessions@.take(s as int), own_plugin_id),
        decreases sessions@.len() - s,
    {
        let session = &sessions[s];
        proof {
            assert(sessions@.take(s + 1).drop_last() == sessions@.take(s as int));
            assert(sessions@.take(s + 1).last() == sessions@[s as int]);
        }
        let ghost start = items_view(items@);
        let header = if session.is_current_session {
            let mut h = String::new();
            append_str(&mut h, session.name.as_str());
            append_str(&mut h, " (current)");
            h
        } else {
            session.name.clone()
        };
        items.push(PaletteItem::group(header.as_str()));
        let ghost with_header = items_view(items@);
        proof {
            assert(with_header =~= start + seq![group_spec(session_header(*session))]);
            assert(session.tabs@.take(0) =~= Seq::<TabSummary>::empty());
            assert(with_header + Seq::<PaletteItemView>::empty() =~= with_header);
        }
        let mut t: usize = 0;
        while t < session.tabs.len()
            invariant
                t <= session.tabs@.len(),
                items_view(items@) == with_header + tab_entries(
                    *session,
                    session.tabs@.take(t as int),
                    own_plugin_id,
                ),
            decreases session.tabs@.len() - t,
        {
            let tab = &session.tabs[t];
            proof {
                assert(session.tabs@.take(t + 1).drop_last() == session.tabs@.take(t as int));
                assert(session.tabs@.take(t + 1).last() == session.tabs@[t as int]);
            }
            let ghost mid = items_view(items@);
            match find_panes_at(session, tab.position) {
                Some(i) => {
                    push_pane_entries(&mut items, session, tab, &session.panes[i].1, own_plugin_id);
                },
                None => {
                    proof {
                        assert(mid + Seq::<PaletteItemView>::empty() =~= mid);
                    }
                },
            }
            proof {
                assert(items_view(items@) =~= with_header + tab_entries(
                    *session,
                    session.tabs@.take(t + 1),
                    own_plugin_id,
                ));
            }
            t = t + 1;
        }
        proof {
            assert(session.tabs@.take(session.tabs@.len() as int) == session.tabs@);
        }
        s = s + 1;
    }
    proof {
        assert(sessions@.take(sessions@.len() as int) == sessions@);
    }
    items
}

/// The first entries of the command palette.
pub open spec fn base_head() -> Seq<PaletteItemView> {
    seq![
        group_spec("Panes"@),
        PaletteItemView {
            description: Some("jump across sessions, tabs, and panes"@),
            category: Some("Panes"@),
            aliases: seq!["pane"@, "jump"@],
            icon: Some("󰍉"@),
            ..leaf_spec("Find Pane"@, PaletteAction::OpenPalette(PaletteId::FindPane))
        },
        PaletteItemView {
            description: Some("open a pane to the right"@),
            category: Some("Panes"@),
            aliases: seq!["split horizontal"@, "sh"@],
            icon: Some(""@),
            ..leaf_spec("Split Right"@, PaletteAction::SplitRight)
        },
        PaletteItemView {
            description: Some("open a pane below"@),
            category: Some("Panes"@),
            aliases: seq!["split vertical"@, "sv"@],
            icon: Some(""@),
            ..leaf_spec("Split Down"@, PaletteAction::SplitDown)
        },
    ]
}

/// The entries that act on the pane the palette was opened from.
pub open spec fn caller_entries(target: PaneTarget) -> Seq<PaletteItemView> {
    seq![
        PaletteItemView {
            category: Some("Panes"@),
            icon: Some("󰍉"@),
            ..leaf_spec("Toggle Fullscreen"@, PaletteAction::ToggleFocusedPaneFullscreen(target))
        },
        PaletteItemView {
            category: Some("Panes"@),
            icon: Some("◫"@),
            ..leaf_spec("Float / Embed Pane"@, PaletteAction::ToggleFocusedPaneEmbedOrFloat(target))
        },
        PaletteItemView {
            category: Some("Panes"@),
            icon: Some("󰅖"@),
            ..leaf_spec("Close Pane"@, PaletteAction::ClosePane(target))
        },
        PaletteItemView {
            category: Some("Panes"@),
            aliases: seq!["move"@, "join"@, "break"@],
            icon: Some("󰁁"@),
            ..leaf_spec("Move Pane to..."@, PaletteAction::OpenPalette(PaletteId::MovePane))
        },
    ]
}

/// The tab, session and appearance entries of the command palette.
pub open spec fn base_tail(cwd: Option<PathBuf>, tab_id: usize) -> Seq<PaletteItemView> {
    seq![
        group_spec("Tabs"@),
        PaletteItemView {
            description: Some("new tab in the caller cwd"@),
            category: Some("Tabs"@),
            aliases: seq!["tab"@, "window"@],
            icon: Some("󰝰"@),
            ..leaf_spec("New Tab"@, PaletteAction::NewTab { cwd })
        },
        PaletteItemView {
            category: Some("Tabs"@),
            icon: Some("󰁔"@),
            ..leaf_spec("Next Tab"@, PaletteAction::NextTab)
        },
        PaletteItemView {
            category: Some("Tabs"@),
            icon: Some("󰁍"@),
            ..leaf_spec("Previous Tab"@, PaletteAction::PreviousTab)
        },
        PaletteItemView {
            category: Some("Tabs"@),
            icon: Some("󰅖"@),
            ..leaf_spec("Close Tab"@, PaletteAction::CloseTab { tab_id })
        },
        group_spec("Sessions"@),
        PaletteItemView {
            category: Some("Sessions"@),
            aliases: seq!["session"@],
            icon: Some("󱂬"@),
            ..leaf_spec("Switch Session..."@, PaletteAction::OpenPalette(PaletteId::Sessions))
        },
        PaletteItemView {
            category: Some("Sessions"@),
            icon: Some("󰍃"@),
            ..leaf_spec("Detach Session"@, PaletteAction::Detach)
        },
        group_spec("Appearance"@),
        PaletteItemView {
            category: Some("Appearance"@),
            aliases: seq!["theme"@],
            icon: Some(""@),
            ..leaf_spec("Switch Theme..."@, PaletteAction::OpenPalette(PaletteId::Themes))
        },
    ]
}

/// The command palette before the user's overlays: the pane entries (with
/// those for the caller pane when there is one), the tab, session and
/// appearance entries, then the user's commands under a header, run in the
/// caller's directory.
pub open spec fn base_items_spec(
    caller: Option<PaneTarget>,
    cwd: Option<PathBuf>,
    tab_id: usize,
    commands: Seq<PaletteItemView>,
) -> Seq<PaletteItemView> {
    base_head() + match caller {
        Some(target) => caller_entries(target),
        None => Seq::empty(),
    } + base_tail(cwd, tab_id) + if commands.len() > 0 {
        seq![group_spec("Custom"@)] + all_with_cwd(commands, cwd)
    } else {
        Seq::empty()
    }
}

/// The command palette's entries before overlays, for the pane `caller`,
/// the caller's directory, the active tab, and the user's commands.
pub fn command_palette_base_items(
    caller: Option<PaneTarget>,
    caller_cwd: &Option<PathBuf>,
    active_tab_id: usize,
    commands: &[PaletteItem],
) -> (out: Vec<PaletteItem>)
    ensures
        items_view(out@) == base_items_spec(caller, *caller_cwd, active_tab_id, items_view(commands@)),
{
    let mut items: Vec<PaletteItem> = Vec::new();
    items.push(PaletteItem::group("Panes"));
    let entry = PaletteItem::leaf("Find Pane", PaletteAction::OpenPalette(PaletteId::FindPane))
        .with_icon("󰍉")
        .with_category("Panes")
        .with_description("jump across sessions, tabs, and panes")
        .with_aliases(["pane", "jump"]);
    proof {
        assert(entry@.aliases =~= seq!["pane"@, "jump"@]);
        assert(entry@ =~= PaletteItemView {
            description: Some("jump across sessions, tabs, and panes"@),
            category: Some("Panes"@),
            aliases: seq!["pane"@, "jump"@],
            icon: Some("󰍉"@),
            ..leaf_spec("Find Pane"@, PaletteAction::OpenPalette(PaletteId::FindPane))
        });
    }
    items.push(entry);
    let entry = PaletteItem::leaf("Split Right", PaletteAction::SplitRight)
        .with_icon("")
        .with_category("Panes")
        .with_description("open a pane to the right")
        .with_aliases(["split horizontal", "sh"]);
    proof {
        assert(entry@.aliases =~= seq!["split horizontal"@, "sh"@]);
        assert(entry@ =~= PaletteItemView {
            description: Some("open a pane to the right"@),
            category: Some("Panes"@),
            aliases: seq!["split horizontal"@, "sh"@],
            icon: Some(""@),
            ..leaf_spec("Split Right"@, PaletteAction::SplitRight)
        });
    }
    items.push(entry);
    let entry = PaletteItem::leaf("Split Down", PaletteAction::SplitDown)
        .with_icon("")
        .with_category("Panes")
        .with_description("open a pane below")
        .with_aliases(["split vertical", "sv"]);
    proof {
        assert(entry@.aliases =~= seq!["split vertical"@, "sv"@]);
        assert(entry@ =~= PaletteItemView {
            description: Some("open a pane below"@),
            category: Some("Panes"@),
            aliases: seq!["split vertical"@, "sv"@],
            icon: Some(""@),
            ..leaf_spec("Split Down"@, PaletteAction::SplitDown)
        });
    }
    items.push(entry);
    proof {
        assert(items_view(items@) =~= base_head());
    }
    let ghost head = items_view(items@);
    match &caller {
        Some(target) => {
            let entry = PaletteItem::leaf("Toggle Fullscreen", PaletteAction::ToggleFocusedPaneFullscreen(target.duplicate()))
                .with_icon("󰍉")
                .with_category("Panes");
            proof {
                assert(entry@ =~= PaletteItemView {
                    category: Some("Panes"@),
                    icon: Some("󰍉"@),
                    ..leaf_spec("Toggle Fullscreen"@, PaletteAction::ToggleFocusedPaneFullscreen(*target))
                });
            }
            items.push(entry);
            let entry = PaletteItem::leaf("Float / Embed Pane", PaletteAction::ToggleFocusedPaneEmbedOrFloat(target.duplicate()))
                .with_icon("◫")
                .with_category("Panes");
            proof {
                assert(entry@ =~= PaletteItemView {
                    category: Some("Panes"@),
                    icon: Some("◫"@),
                    ..leaf_spec("Float / Embed Pane"@, PaletteAction::ToggleFocusedPaneEmbedOrFloat(*target))
                });
            }
            items.push(entry);
            let entry = PaletteItem::leaf("Close Pane", PaletteAction::ClosePane(target.duplicate()))
                .with_icon("󰅖")
                .with_category("Panes");
            proof {
                assert(entry@ =~= PaletteItemView {
                    category: Some("Panes"@),
                    icon: Some("󰅖"@),
                    ..leaf_spec("Close Pane"@, PaletteAction::ClosePane(*target))
                });
            }
            items.push(entry);
            let entry = PaletteItem::leaf("Move Pane to...", PaletteAction::OpenPalette(PaletteId::MovePane))
                .with_icon("󰁁")
                .with_category("Panes")
                .with_aliases(["move", "join", "break"]);
            proof {
                assert(entry@.aliases =~= seq!["move"@, "join"@, "break"@]);
                assert(entry@ =~= PaletteItemView {
                    category: Some("Panes"@),
                    aliases: seq!["move"@, "join"@, "break"@],
                    icon: Some("󰁁"@),
                    ..leaf_spec("Move Pane to..."@, PaletteAction::OpenPalette(PaletteId::MovePane))
                });
            }
            items.push(entry);
            proof {
                assert(items_view(items@) =~= head + caller_entries(*target));
            }
        },
        None => {
            proof {
                assert(items_view(items@) =~= head + Seq::<PaletteItemView>::empty());
            }
        },
    }
    let ghost middle = items_view(items@);
    items.push(PaletteItem::group("Tabs"));
    let entry = PaletteItem::leaf("New Tab", PaletteAction::NewTab { cwd: clone_cwd(caller_cwd) })
        .with_icon("󰝰")
        .with_category("Tabs")
        .with_description("new tab in the caller cwd")
        .with_aliases(["tab", "window"]);
    proof {
        assert(entry@.aliases =~= seq!["tab"@, "window"@]);
        assert(entry@ =~= PaletteItemView {
            description: Some("new tab in the caller cwd"@),
            category: Some("Tabs"@),
            aliases: seq!["tab"@, "window"@],
            icon: Some("󰝰"@),
            ..leaf_spec("New Tab"@, PaletteAction::NewTab { cwd: *caller_cwd })
        });
    }
    items.push(entry);
    let entry = PaletteItem::leaf("Next Tab", PaletteAction::NextTab)
        .with_icon("󰁔")
        .with_category("Tabs");
    proof {
        assert(entry@ =~= PaletteItemView {
            category: Some("Tabs"@),
            icon: Some("󰁔"@),
            ..leaf_spec("Next Tab"@, PaletteAction::NextTab)
        });
    }
    items.push(entry);
    let entry = PaletteItem::leaf("Previous Tab", PaletteAction::PreviousTab)
        .with_icon("󰁍")
        .with_category("Tabs");
    proof {
        assert(entry@ =~= PaletteItemView {
            category: Some("Tabs"@),
            icon: Some("󰁍"@),
            ..leaf_spec("Previous Tab"@, PaletteAction::PreviousTab)
        });
    }
    items.push(entry);
    let entry = PaletteItem::leaf("Close Tab", PaletteAction::CloseTab { tab_id: active_tab_id })
        .with_icon("󰅖")
        .with_category("Tabs");
    proof {
        assert(entry@ =~= PaletteItemView {
            category: Some("Tabs"@),
            icon: Some("󰅖"@),
            ..leaf_spec("Close Tab"@, PaletteAction::CloseTab { tab_id: active_tab_id })
        });
    }
    items.push(entry);
    items.push(PaletteItem::group("Sessions"));
    let entry = PaletteItem::leaf("Switch Session...", PaletteAction::OpenPalette(PaletteId::Sessions))
        .with_icon("󱂬")
        .with_category("Sessions")
        .with_aliases(["session"]);
    proof {
        assert(entry@.aliases =~= seq!["session"@]);
        assert(entry@ =~= PaletteItemView {
            category: Some("Sessions"@),
            aliases: seq!["session"@],
            icon: Some("󱂬"@),
            ..leaf_spec("Switch Session..."@, PaletteAction::OpenPalette(PaletteId::Sessions))
        });
    }
    items.push(entry);
    let entry = PaletteItem::leaf("Detach Session", PaletteAction::Detach)
        .with_icon("󰍃")
        .with_category("Sessions");
    proof {
        assert(entry@ =~= PaletteItemView {
            category: Some("Sessions"@),
            icon: Some("󰍃"@),
            ..leaf_spec("Detach Session"@, PaletteAction::Detach)
        });
    }
    items.push(entry);
    items.push(PaletteItem::group("Appearance"));
    let entry = PaletteItem::leaf("Switch Theme...", PaletteAction::OpenPalette(PaletteId::Themes))
        .with_icon("")
        .with_category("Appearance")
        .with_aliases(["theme"]);
    proof {
        assert(entry@.aliases =~= seq!["theme"@]);
        assert(entry@ =~= PaletteItemView {
            category: Some("Appearance"@),
            aliases: seq!["theme"@],
            icon: Some(""@),
            ..leaf_spec("Switch Theme..."@, PaletteAction::OpenPalette(PaletteId::Themes))
        });
    }
    items.push(entry);
    proof {
        assert(items_view(items@) =~= middle + base_tail(*caller_cwd, active_tab_id));
    }
    let ghost fixed = items_view(items@);
    if commands.len() > 0 {
        items.push(PaletteItem::group("Custom"));
        push_all_with_cwd(&mut items, commands, caller_cwd);
        proof {
            assert(items_view(items@) =~= fixed + (seq![group_spec("Custom"@)] + all_with_cwd(
                items_view(commands@),
                *caller_cwd,
            )));
        }
    } else {
        proof {
            assert(items_view(items@) =~= fixed + Seq::<PaletteItemView>::empty());
        }
    }
    items
}

/// The command palette: the base entries without the hidden ones; under a
/// root category, a header and the entries of that category only.
pub open spec fn command_items_spec(
    base: Seq<PaletteItemView>,
    hidden: Set<Seq<char>>,
    root_category: Option<Seq<char>>,
) -> Seq<PaletteItemView> {
    let visible = visible_spec(base, hidden);
    match root_category {
        Some(c) => seq![group_spec(c)] + by_category(visible, c),
        None => visible,
    }
}

/// The entries of the command palette from its base entries.
pub fn command_palette_items(
    base: Vec<PaletteItem>,
    hidden_titles: &StringSet,
    root_category: Option<&str>,
) -> (out: Vec<PaletteItem>)
    ensures
        items_view(out@) == command_items_spec(items_view(base@), hidden_titles@, match root_category {
            Some(c) => Some(c@),
            None => None,
        }),
{
    let items = filter_hidden_items(base, hidden_titles);
    let category = match root_category {
        Some(c) => c,
        None => {
            return items;
        },
    };
    let ghost visible = items_view(items@);
    let mut filtered: Vec<PaletteItem> = Vec::new();
    filtered.push(PaletteItem::group(category));
    let ghost head = seq![group_spec(category@)];
    proof {
        assert(items_view(filtered@) =~= head);
        assert(visible.take(0) =~= Seq::<PaletteItemView>::empty());
        assert(head + by_category(Seq::<PaletteItemView>::empty(), category@) =~= head);
    }
    let mut i: usize = 0;
    while i < items.len()
        invariant
            i <= items@.len(),
            visible == items_view(items@),
            items_view(filtered@) == head + by_category(visible.take(i as int), category@),
        decreases items@.len() - i,
    {
        proof {
            assert(visible.take(i + 1).drop_last() == visible.take(i as int));
            assert(visible.take(i + 1).last() == items@[i as int]@);
        }
        let same = match &items[i].category {
            Some(c) => crate::text::str_equal(c.as_str(), category),
            None => false,
        };
        if same {
            let ghost before = items_view(filtered@);
            filtered.push(items[i].duplicate());
            proof {
                assert(items_view(filtered@) =~= before.push(items@[i as int]@));
            }
        }
        i = i + 1;
    }
    proof {
        assert(visible.take(items@.len() as int) == visible);
    }
    filtered
}

/// The header of a custom palette: its title, or its name when untitled.
pub open spec fn custom_title(palette: CustomPalette, name: Seq<char>) -> Seq<char> {
    match palette.title {
        Some(t) => t@,
        None => name,
    }
}

/// The entries of a custom palette before its placeholders and grouping: a
/// header when it refers to base entries, the referenced base entries, its
/// own entries, then those its command produced, all run in `cwd`.
pub open spec fn custom_collected(
    name: Seq<char>,
    palette: CustomPalette,
    results: Map<Seq<char>, Vec<PaletteItem>>,
    base: Seq<PaletteItemView>,
    cwd: Option<PathBuf>,
) -> Seq<PaletteItemView> {
    let header = if palette.from@.len() > 0 || palette.from_category is Some {
        seq![group_spec(custom_title(palette, name))]
    } else {
        Seq::empty()
    };
    let produced = if results.contains_key(name) {
        all_with_cwd(items_view(results[name]@), cwd)
    } else {
        Seq::empty()
    };
    header + all_with_cwd(referenced_spec(base, palette), cwd) + all_with_cwd(
        items_view(palette.items@),
        cwd,
    ) + produced
}

/// A custom palette's entries: a placeholder for an unknown palette; the
/// collected entries, grouped by category when the palette asks for it;
/// when there are none, a placeholder that says whether its command is
/// still to answer.
pub open spec fn custom_items_spec(
    name: Seq<char>,
    palettes: Map<Seq<char>, CustomPalette>,
    results: Map<Seq<char>, Vec<PaletteItem>>,
    base: Seq<PaletteItemView>,
    cwd: Option<PathBuf>,
) -> Seq<PaletteItemView> {
    if !palettes.contains_key(name) {
        seq![group_spec("Unknown custom palette"@)]
    } else {
        let palette = palettes[name];
        let items = custom_collected(name, palette, results, base, cwd);
        if items.len() == 0 {
            if palette.command is Some {
                seq![group_spec("Loading custom palette..."@)]
            } else {
                seq![group_spec("Empty custom palette"@)]
            }
        } else if palette.grouped == Some(true) {
            grouped_from(items, None)
        } else {
            items
        }
    }
}

/// The entries of the custom palette called `name`.
pub fn custom_palette_items(
    name: &str,
    palettes: &StringMap<CustomPalette>,
    command_results: &StringMap<Vec<PaletteItem>>,
    base_commands: &[PaletteItem],
    caller_cwd: &Option<PathBuf>,
) -> (out: Vec<PaletteItem>)
    ensures
        items_view(out@) == custom_items_spec(
            name@,
            palettes@,
            command_results@,
            items_view(base_commands@),
            *caller_cwd,
        ),
{
    let custom_palette = match palettes.get(name) {
        Some(p) => p,
        None => {
            let out = vec![PaletteItem::group("Unknown custom palette")];
            proof {
                assert(items_view(out@) =~= seq![group_spec("Unknown custom palette"@)]);
            }
            return out;
        },
    };
    let mut items: Vec<PaletteItem> = Vec::new();
    if custom_palette.from.len() > 0 || custom_palette.from_category.is_some() {
        let title = match &custom_palette.title {
            Some(t) => t.clone(),
            None => name.to_owned(),
        };
        items.push(PaletteItem::group(title.as_str()));
    }
    let ghost header = items_view(items@);
    let referenced = referenced_items_from_custom_palette(base_commands, custom_palette);
    push_all_with_cwd(&mut items, referenced.as_slice(), caller_cwd);
    push_all_with_cwd(&mut items, custom_palette.items.as_slice(), caller_cwd);
    let ghost own = items_view(items@);
    match command_results.get(name) {
        Some(produced) => {
            push_all_with_cwd(&mut items, produced.as_slice(), caller_cwd);
        },
        None => {
            proof {
                assert(own + Seq::<PaletteItemView>::empty() =~= own);
            }
        },
    }
    proof {
        assert(items_view(referenced@) == referenced_spec(items_view(base_commands@), *custom_palette));
        assert(items_view(items@) =~= custom_collected(
            name@,
            *custom_palette,
            command_results@,
            items_view(base_commands@),
            *caller_cwd,
        ));
    }
    if items.len() == 0 {
        if custom_palette.command.is_some() {
            let out = vec![PaletteItem::group("Loading custom palette...")];
            proof {
                assert(items_view(out@) =~= seq![group_spec("Loading custom palette..."@)]);
            }
            return out;
        }
        let out = vec![PaletteItem::group("Empty custom palette")];
        proof {
            assert(items_view(out@) =~= seq![group_spec("Empty custom palette"@)]);
        }
        return out;
    }
    let grouped = match custom_palette.grouped {
        Some(g) => g,
        None => false,
    };
    if grouped {
        group_items_by_category(items)
    } else {
        items
    }
}

/// The selectable entries, in order.
pub open spec fn entries_of(items: Seq<PaletteItemView>) -> Seq<PaletteItemView>
    decreases items.len(),
{
    if items.len() == 0 {
        Seq::empty()
    } else if items[0].selectable {
        seq![items[0]] + entries_of(items.drop_first())
    } else {
        entries_of(items.drop_first())
    }
}

/// Grouping by category only adds headers: the selectable entries stay the
/// same, in the same order.
pub proof fn law_grouping_keeps_entries(items: Seq<PaletteItemView>, last: Option<Seq<char>>)
    ensures
        entries_of(grouped_from(items, last)) == entries_of(items),
    decreases items.len(),
{
    if items.len() == 0 {
        assert(grouped_from(items, last) =~= Seq::<PaletteItemView>::empty());
    } else {
        let item = items[0];
        let rest = items.drop_first();
        let next = if !item.selectable {
            None
        } else {
            match item.category {
                Some(c) => Some(c),
                None => last,
            }
        };
        law_grouping_keeps_entries(rest, next);
        let tail = grouped_from(rest, next);
        if item.selectable && item.category is Some && last != item.category {
            let g = seq![group_spec(item.category->0), item] + tail;
            assert(grouped_from(items, last) == g);
            assert(g.drop_first() =~= seq![item] + tail);
            assert((seq![item] + tail).drop_first() =~= tail);
            assert(entries_of(seq![item] + tail) == seq![item] + entries_of(tail));
            assert(entries_of(g) == entries_of(g.drop_first()));
        } else {
            let g = seq![item] + tail;
            assert(grouped_from(items, last) == g);
            assert(g.drop_first() =~= tail);
        }
    }
}

proof fn lemma_by_category_only(items: Seq<PaletteItemView>, c: Seq<char>)
    ensures
        forall|k: int| 0 <= k < by_category(items, c).len() ==> #[trigger] by_category(items, c)[k].category
            == Some(c),
    decreases items.len(),
{
    if items.len() > 0 {
        lemma_by_category_only(items.drop_last(), c);
    }
}

/// A command palette opened on a root category lists its header and then
/// entries of that category only.
pub proof fn law_root_category_only(
    base: Seq<PaletteItemView>,
    hidden: Set<Seq<char>>,
    category: Seq<char>,
)
    ensures
        ({
            let out = command_items_spec(base, hidden, Some(category));
            &&& out.len() >= 1
            &&& out[0] == group_spec(category)
            &&& forall|k: int| 1 <= k < out.len() ==> #[trigger] out[k].category == Some(category)
        }),
{
    let v = visible_spec(base, hidden);
    lemma_by_category_only(v, category);
    let out = command_items_spec(base, hidden, Some(category));
    assert forall|k: int| 1 <= k < out.len() implies #[trigger] out[k].category == Some(category) by {
        assert(out[k] == by_category(v, category)[k - 1]);
    }
}

} // verus!
