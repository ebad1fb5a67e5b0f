use zellij_palette::focus::{plan_focus_pane, should_list_find_pane_item, FocusPanePlan};
use zellij_palette::fuzzy::{
    exact_match_score, filter_items, items_fit, score_item, subsequence_score, try_filter_items,
    try_score_item,
};
use zellij_palette::model::{PaletteAction, PaletteItem, PaneTarget};

fn item(title: &str) -> PaletteItem {
    PaletteItem::leaf(title, PaletteAction::Noop)
}

#[test]
fn filter_matches_title_initials() {
    let items = vec![item("Split Horizontal"), item("New Tab")];
    let filtered = filter_items(&items, "sh");
    let titles: Vec<_> = filtered.iter().map(|item| item.title.as_str()).collect();
    assert_eq!(titles, vec!["Split Horizontal"]);
}

#[test]
fn filter_matches_explicit_aliases() {
    let items = vec![
        PaletteItem::leaf("Find Pane", PaletteAction::Noop).with_aliases(["locator", "jump"]),
        item("New Tab"),
    ];
    let filtered = filter_items(&items, "jump");
    let titles: Vec<_> = filtered.iter().map(|item| item.title.as_str()).collect();
    assert_eq!(titles, vec!["Find Pane"]);
}

#[test]
fn filter_requires_every_query_part() {
    let items = vec![item("Split Horizontal Pane"), item("Switch Session")];
    let filtered = filter_items(&items, "split pane");
    let titles: Vec<_> = filtered.iter().map(|item| item.title.as_str()).collect();
    assert_eq!(titles, vec!["Split Horizontal Pane"]);
}

#[test]
fn filter_matches_category_and_shortcut_text() {
    let items = vec![
        PaletteItem::leaf("Open Logs", PaletteAction::Noop)
            .with_category("Tools")
            .with_shortcut("Ctrl-L"),
        item("Split Right"),
    ];

    let by_category = filter_items(&items, "tools");
    let by_shortcut = filter_items(&items, "ctrl");

    assert_eq!(by_category[0].title, "Open Logs");
    assert_eq!(by_shortcut[0].title, "Open Logs");
}

#[test]
fn empty_query_preserves_original_order() {
    let items = vec![item("Themes"), item("Find Pane"), item("Split Right")];
    let filtered = filter_items(&items, "");
    let titles: Vec<_> = filtered.iter().map(|item| item.title.as_str()).collect();
    assert_eq!(titles, vec!["Themes", "Find Pane", "Split Right"]);
}

#[test]
fn focus_plan_uses_direct_focus_for_current_session() {
    let target = PaneTarget {
        session_name: "work".to_owned(),
        tab_position: 2,
        tab_id: 17,
        pane_id: 42,
        is_plugin: false,
    };

    let plan = plan_focus_pane(Some("work"), &target);

    assert_eq!(
        plan,
        FocusPanePlan::CurrentSession {
            pane_id: 42,
            is_plugin: false,
        }
    );
}

#[test]
fn focus_plan_switches_session_for_other_session_targets() {
    let target = PaneTarget {
        session_name: "ops".to_owned(),
        tab_position: 3,
        tab_id: 21,
        pane_id: 9,
        is_plugin: true,
    };

    let plan = plan_focus_pane(Some("work"), &target);

    assert_eq!(
        plan,
        FocusPanePlan::OtherSession {
            session_name: "ops".to_owned(),
            tab_position: 3,
            pane_id: 9,
            is_plugin: true,
        }
    );
}

#[test]
fn find_pane_items_exclude_the_palette_plugin_itself() {
    assert!(!should_list_find_pane_item(7, true, true, false, Some(7)));
}

#[test]
fn find_pane_items_keep_other_selectable_panes() {
    assert!(should_list_find_pane_item(8, true, true, false, Some(7)));
    assert!(should_list_find_pane_item(7, false, true, false, Some(7)));
}

#[test]
fn focus_plan_without_a_current_session_switches() {
    let target = PaneTarget {
        session_name: "work".to_owned(),
        tab_position: 0,
        tab_id: 1,
        pane_id: 2,
        is_plugin: false,
    };
    assert_eq!(
        plan_focus_pane(None, &target),
        FocusPanePlan::OtherSession {
            session_name: "work".to_owned(),
            tab_position: 0,
            pane_id: 2,
            is_plugin: false,
        }
    );
}

#[test]
fn suppressed_or_unselectable_panes_are_not_listed() {
    assert!(!should_list_find_pane_item(1, false, false, false, None));
    assert!(!should_list_find_pane_item(1, false, true, true, None));
    assert!(should_list_find_pane_item(1, true, true, false, None));
}

#[test]
fn word_start_matches_rank_above_inner_matches() {
    // "pane" starts a word of "Find Pane" (15000 - 5) but sits inside "Sidepane"
    // (10000 - 4), so the first ranks higher despite the original order.
    let items = vec![item("Sidepane"), item("Find Pane")];
    let filtered = filter_items(&items, "pane");
    let titles: Vec<_> = filtered.iter().map(|item| item.title.as_str()).collect();
    assert_eq!(titles, vec!["Find Pane", "Sidepane"]);
}

#[test]
fn equal_scores_are_ordered_by_title_then_position() {
    // "eta" sits at byte 1 of every title, so all three score 10000 - 1.
    let items = vec![item("zeta"), item("beta"), item("beta").with_description("second")];
    let filtered = filter_items(&items, "eta");
    let ranked: Vec<_> = filtered
        .iter()
        .map(|item| (item.title.as_str(), item.description.clone()))
        .collect();
    assert_eq!(
        ranked,
        vec![("beta", None), ("beta", Some("second".to_owned())), ("zeta", None)]
    );
}

#[test]
fn score_item_reports_exact_substring_scores() {
    // title "Open Logs", auto alias "ol": "logs" starts a word at byte 5.
    let logs = item("Open Logs");
    assert_eq!(score_item(&logs, "logs"), Some(15_000 - 5));
    // "pen" is inside "open" at byte 1.
    assert_eq!(score_item(&logs, "pen"), Some(10_000 - 1));
    // Two parts add up.
    assert_eq!(score_item(&logs, "open logs"), Some(15_000 + 15_000 - 5));
    assert_eq!(score_item(&logs, "zzz"), None);
}

#[test]
fn score_item_falls_back_to_subsequence_bonuses() {
    // "olg": no substring; o (word start, 50), l (word start, 50), g (inside, 5).
    let logs = item("Open Logs");
    assert_eq!(score_item(&logs, "olg"), Some(105));
    // "pn": p inside (5), n not adjacent (5).
    assert_eq!(score_item(&logs, "pn"), Some(10));
    // "gs" is a substring: byte 7.
    assert_eq!(score_item(&logs, "gs"), Some(10_000 - 7));
}

#[test]
fn matching_is_case_insensitive() {
    let items = vec![item("Switch Theme...")];
    assert_eq!(filter_items(&items, "THEME").len(), 1);
}

#[test]
fn checked_scoring_agrees_where_scores_fit() {
    let logs = item("Open Logs");
    assert_eq!(try_score_item(&logs, "logs"), Some(Some(15_000 - 5)));
    assert_eq!(try_score_item(&logs, "zzz"), Some(None));
    let items = vec![item("Open Logs"), item("New Tab")];
    assert!(items_fit(&items, "lo"));
    let checked = try_filter_items(&items, "lo").expect("scores fit");
    let plain = filter_items(&items, "lo");
    assert_eq!(checked, plain);
}

#[test]
fn checked_scoring_refuses_a_match_past_the_offset_budget() {
    let far = item(&format!("{}abc", "x".repeat(20_000)));
    assert!(!items_fit(&[far.clone()], "abc"));
    assert_eq!(try_score_item(&far, "abc"), None);
    assert_eq!(try_filter_items(&[far.clone()], "abc"), None);
    assert_eq!(try_score_item(&far, ""), Some(Some(1)));
}

#[test]
fn query_parts_commute_and_extra_parts_only_narrow() {
    let items = vec![item("New Tab"), item("Next Tab"), item("Close Tab"), item("Split Down")];
    let titles = |v: Vec<PaletteItem>| v.into_iter().map(|i| i.title).collect::<Vec<_>>();
    assert_eq!(titles(filter_items(&items, "tab n")), titles(filter_items(&items, "  n   tab ")));
    let wider = titles(filter_items(&items, "tab"));
    let narrower = titles(filter_items(&items, "tab cl"));
    assert!(!narrower.is_empty());
    assert!(narrower.iter().all(|t| wider.contains(t)));
    assert!(narrower.len() < wider.len());
}

#[test]
fn scoring_steps_take_lowercased_characters() {
    let hay: Vec<char> = "open logs".chars().collect();
    let logs: Vec<char> = "logs".chars().collect();
    assert_eq!(exact_match_score(&hay, &logs), 15_000 - 5);
    let none: Vec<char> = "zz".chars().collect();
    assert_eq!(exact_match_score(&hay, &none), 0);
    let olg: Vec<char> = "olg".chars().collect();
    assert_eq!(subsequence_score(&hay, &olg), 105);
    assert_eq!(subsequence_score(&hay, &none), 0);
}

#[test]
fn ascii_recased_queries_rank_alike() {
    let items = vec![item("New Tab"), item("Next Tab"), item("Close Tab"), item("Split Down")];
    let titles = |v: Vec<PaletteItem>| v.into_iter().map(|i| i.title).collect::<Vec<_>>();
    let upper = titles(filter_items(&items, "NEW tab"));
    let lower = titles(filter_items(&items, "new TAB"));
    assert_eq!(upper, lower);
    assert_eq!(upper, vec!["New Tab".to_string()]);
    assert_eq!(score_item(&items[0], "TAB"), score_item(&items[0], "tab"));
}
