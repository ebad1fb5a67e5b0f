//! The session → tab → pane tree of the find-pane palette: filtering it by a
//! query and flattening it into palette rows.
use vstd::prelude::*;
use crate::fuzzy::{item_fits, item_score, items_fit, score_item};
use crate::model::{
    clone_opt_string, group_spec, opt_view, PaletteAction, PaletteItem, PaletteItemView, PaneTarget, strings_view,
};
use crate::text::{append_str, split_words, words};

verus! {

/// One pane of a tab.
#[derive(Clone, Debug, Eq, PartialEq)]
pub struct PaneRow {
    pub id: u32,
    pub tab_position: usize,
    pub tab_id: usize,
    pub title: String,
    pub is_plugin: bool,
    pub is_focused: bool,
    pub terminal_command: Option<String>,
    pub description: String,
}

impl PaneRow {
    /// A copy of this row.
    pub fn duplicate(&self) -> (out: Self)
        ensures
            out == *self,
    {
        PaneRow {
            id: self.id,
            tab_position: self.tab_position,
            tab_id: self.tab_id,
            title: self.title.clone(),
            is_plugin: self.is_plugin,
            is_focused: self.is_focused,
            terminal_command: clone_opt_string(&self.terminal_command),
            description: self.description.clone(),
        }
    }
}

/// One tab of a session, with its panes.
#[derive(Clone, Debug, Eq, PartialEq)]
pub struct TabGroup {
    pub name: String,
    pub is_active: bool,
    pub panes: Vec<PaneRow>,
}

/// One session, with its tabs.
#[derive(Clone, Debug, Eq, PartialEq)]
pub struct SessionGroup {
    pub name: String,
    pub is_current: bool,
    pub tabs: Vec<TabGroup>,
}

/// A tab with its panes as a sequence.
#[verifier::ext_equal]
pub struct TabGroupView {
    pub name: String,
    pub is_active: bool,
    pub panes: Seq<PaneRow>,
}

/// A session with its tabs as a sequence of tab views.
#[verifier::ext_equal]
pub struct SessionGroupView {
    pub name: String,
    pub is_current: bool,
    pub tabs: Seq<TabGroupView>,
}

impl View for TabGroup {
    type V = TabGroupView;

    open spec fn view(&self) -> TabGroupView {
        TabGroupView { name: self.name, is_active: self.is_active, panes: self.panes@ }
    }
}

impl View for SessionGroup {
    type V = SessionGroupView;

    open spec fn view(&self) -> SessionGroupView {
        SessionGroupView {
            name: self.name,
            is_current: self.is_current,
            tabs: self.tabs@.map_values(|t: TabGroup| t@),
        }
    }
}

/// The aliases of a pane row: session name, tab name, pane title and
/// terminal command, leaving out the empty ones.
pub open spec fn pane_aliases(session_name: Seq<char>, tab_name: Seq<char>, pane: PaneRow) -> Seq<
    Seq<char>,
> {
    let command = opt_text(pane.terminal_command);
    non_empty(seq![session_name, tab_name, pane.title@, command])
}

/// An optional text, empty when absent.
pub open spec fn opt_text(value: Option<String>) -> Seq<char> {
    match value {
        Some(c) => c@,
        None => Seq::empty(),
    }
}

/// The texts of `s` that are not empty, in order.
pub open spec fn non_empty(s: Seq<Seq<char>>) -> Seq<Seq<char>>
    decreases s.len(),
{
    if s.len() == 0 {
        Seq::empty()
    } else {
        let rest = non_empty(s.drop_last());
        if s.last().len() == 0 {
            rest
        } else {
            rest.push(s.last())
        }
    }
}

/// The item a pane is matched as: its title, its description, and its aliases.
pub open spec fn synthetic_view(session_name: Seq<char>, tab_name: Seq<char>, pane: PaneRow) -> PaletteItemView {
    PaletteItemView {
        title: pane.title@,
        description: Some(pane.description@),
        category: None,
        aliases: pane_aliases(session_name, tab_name, pane),
        shortcut: None,
        icon: None,
        icon_color: None,
        tree_prefix: None,
        selectable: true,
        action: PaletteAction::Noop,
    }
}

/// A pane matches the query parts.
pub open spec fn pane_matches_spec(
    session_name: Seq<char>,
    tab_name: Seq<char>,
    pane: PaneRow,
    parts: Seq<Seq<char>>,
) -> bool {
    item_score(synthetic_view(session_name, tab_name, pane), parts) is Some
}

/// The panes of a tab that match, in order.
pub open spec fn kept_panes(
    session_name: Seq<char>,
    tab_name: Seq<char>,
    panes: Seq<PaneRow>,
    parts: Seq<Seq<char>>,
) -> Seq<PaneRow>
    decreases panes.len(),
{
    if panes.len() == 0 {
        Seq::empty()
    } else {
        let rest = kept_panes(session_name, tab_name, panes.drop_last(), parts);
        if pane_matches_spec(session_name, tab_name, panes.last(), parts) {
            rest.push(panes.last())
        } else {
            rest
        }
    }
}

/// The tabs of a session that keep at least one pane, each with its kept panes.
pub open spec fn kept_tabs(session_name: Seq<char>, tabs: Seq<TabGroupView>, parts: Seq<Seq<char>>) -> Seq<
    TabGroupView,
>
    decreases tabs.len(),
{
    if tabs.len() == 0 {
        Seq::empty()
    } else {
        let rest = kept_tabs(session_name, tabs.drop_last(), parts);
        let tab = tabs.last();
        let panes = kept_panes(session_name, tab.name@, tab.panes, parts);
        if panes.len() == 0 {
            rest
        } else {
            rest.push(TabGroupView { name: tab.name, is_active: tab.is_active, panes })
        }
    }
}

/// The sessions that keep at least one tab, each with its kept tabs.
pub open spec fn kept_sessions(tree: Seq<SessionGroupView>, parts: Seq<Seq<char>>) -> Seq<
    SessionGroupView,
>
    decreases tree.len(),
{
    if tree.len() == 0 {
        Seq::empty()
    } else {
        let rest = kept_sessions(tree.drop_last(), parts);
        let session = tree.last();
        let tabs = kept_tabs(session.name@, session.tabs, parts);
        if tabs.len() == 0 {
            rest
        } else {
            rest.push(SessionGroupView { name: session.name, is_current: session.is_current, tabs })
        }
    }
}

/// Matching every pane of the tree against the query stays within `usize`.
pub open spec fn tree_fits(tree: Seq<SessionGroup>, parts: Seq<Seq<char>>) -> bool {
    forall|s: int, t: int, p: int|
        0 <= s < tree.len() && 0 <= t < tree[s].tabs@.len() && 0 <= p
            < tree[s].tabs@[t].panes@.len() ==> item_fits(
            #[trigger] synthetic_view(
                tree[s].name@,
                tree[s].tabs@[t].name@,
                tree[s].tabs@[t].panes@[p],
            ),
            parts,
        )
}

/// The sessions as views.
pub open spec fn tree_view(tree: Seq<SessionGroup>) -> Seq<SessionGroupView> {
    tree.map_values(|s: SessionGroup| s@)
}

pub(crate) fn push_non_empty(out: &mut Vec<String>, value: &str)
    ensures
        strings_view(final(out)@) == if value@.len() == 0 {
            strings_view(old(out)@)
        } else {
            strings_view(old(out)@).push(value@)
        },
{
    let ghost before = out@;
    if !value.is_empty() {
        out.push(value.to_owned());
        proof {
            assert(strings_view(out@) =~= strings_view(before).push(value@));
        }
    }
}

fn pane_alias_list(session_name: &str, tab_name: &str, pane: &PaneRow) -> (out: Vec<String>)
    ensures
        strings_view(out@) == pane_aliases(session_name@, tab_name@, *pane),
{
    let mut out: Vec<String> = Vec::new();
    proof {
        assert(strings_view(out@) =~= Seq::<Seq<char>>::empty());
    }
    push_non_empty(&mut out, session_name);
    push_non_empty(&mut out, tab_name);
    push_non_empty(&mut out, pane.title.as_str());
    let empty = String::new();
    let command: &str = match &pane.terminal_command {
        Some(c) => c.as_str(),
        None => empty.as_str(),
    };
    proof {
        if pane.terminal_command is None {
            assert(command@.len() == 0);
        }
    }
    push_non_empty(&mut out, command);
    proof {
        let command_view = opt_text(pane.terminal_command);
        let s = seq![session_name@, tab_name@, pane.title@, command_view];
        assert(s.drop_last().drop_last().drop_last().drop_last() =~= Seq::<Seq<char>>::empty());
        assert(s.drop_last().drop_last().drop_last() =~= seq![session_name@]);
        assert(s.drop_last().drop_last() =~= seq![session_name@, tab_name@]);
        assert(s.drop_last() =~= seq![session_name@, tab_name@, pane.title@]);
        reveal_with_fuel(non_empty, 5);
        if command_view.len() == 0 {
            assert(command@.len() == 0);
        } else {
            assert(command@ == command_view);
        }
    }
    out
}

fn synthetic_item(session_name: &str, tab_name: &str, pane: &PaneRow) -> (out: PaletteItem)
    ensures
        out@ == synthetic_view(session_name@, tab_name@, *pane),
{
    let mut item = PaletteItem::leaf(pane.title.as_str(), PaletteAction::Noop);
    item.description = Some(pane.description.clone());
    item.aliases = pane_alias_list(session_name, tab_name, pane);
    item
}

fn pane_matches(session_name: &str, tab_name: &str, pane: &PaneRow, query: &str) -> (out: bool)
    requires
        item_fits(synthetic_view(session_name@, tab_name@, *pane), words(query@)),
    ensures
        out == pane_matches_spec(session_name@, tab_name@, *pane, words(query@)),
{
    let item = synthetic_item(session_name, tab_name, pane);
    score_item(&item, query).is_some()
}

/// The tree cut down to the panes that match `query`, keeping each match's
/// tab and session in their given order; tabs and sessions left without
/// panes are dropped. A query with no word keeps the tree as it is.
pub fn filter(tree: Vec<SessionGroup>, query: &str) -> (out: Vec<SessionGroup>)
    requires
        tree_fits(tree@, words(query@)),
    ensures
        words(query@).len() == 0 ==> out@ == tree@,
        words(query@).len() > 0 ==> tree_view(out@) == kept_sessions(tree_view(tree@), words(query@)),
{
    let parts = split_words(query);
    if parts.len() == 0 {
        return tree;
    }
    let ghost ps = words(query@);
    let ghost tv = tree_view(tree@);
    let mut out: Vec<SessionGroup> = Vec::new();
    let mut s: usize = 0;
    while s < tree.len()
        invariant
            ps == words(query@),
            tv == tree_view(tree@),
            tree_fits(tree@, ps),
            s <= tree@.len(),
            tree_view(out@) == kept_sessions(tv.take(s as int), ps),
        decreases tree@.len() - s,
    {
        let session = &tree[s];
        let mut tabs: Vec<TabGroup> = Vec::new();
        let ghost sv = tv[s as int];
        proof {
            assert(sv == session@);
        }
        let mut t: usize = 0;
        while t < session.tabs.len()
            invariant
                ps == words(query@),
                tv == tree_view(tree@),
                tree_fits(tree@, ps),
                s < tree@.len(),
                *session == tree@[s as int],
                sv == session@,
                t <= session.tabs@.len(),
                tabs@.map_values(|x: TabGroup| x@) == kept_tabs(session.name@, sv.tabs.take(t as int), ps),
            decreases session.tabs@.len() - t,
        {
            let tab = &session.tabs[t];
            let mut panes: Vec<PaneRow> = Vec::new();
            let mut p: usize = 0;
            while p < tab.panes.len()
                invariant
                    ps == words(query@),
                    tree_fits(tree@, ps),
                    s < tree@.len(),
                    *session == tree@[s as int],
                    t < session.tabs@.len(),
                    *tab == session.tabs@[t as int],
                    p <= tab.panes@.len(),
                    panes@ == kept_panes(session.name@, tab.name@, tab.panes@.take(p as int), ps),
                decreases tab.panes@.len() - p,
            {
                proof {
                    assert(tab.panes@.take(p + 1).drop_last() == tab.panes@.take(p as int));
                    assert(item_fits(
                        synthetic_view(tree@[s as int].name@, tree@[s as int].tabs@[t as int].name@, tree@[s as int].tabs@[t as int].panes@[p as int]),
                        ps,
                    ));
                }
                if pane_matches(session.name.as_str(), tab.name.as_str(), &tab.panes[p], query) {
                    panes.push(tab.panes[p].duplicate());
                }
                p = p + 1;
            }
            proof {
                assert(tab.panes@.take(tab.panes@.len() as int) == tab.panes@);
                assert(sv.tabs.take(t + 1).drop_last() == sv.tabs.take(t as int));
                assert(sv.tabs[t as int] == tab@);
            }
            let ghost prev = tabs@;
            if panes.len() > 0 {
                tabs.push(TabGroup { name: tab.name.clone(), is_active: tab.is_active, panes });
                proof {
                    assert(tabs@.map_values(|x: TabGroup| x@) =~= prev.map_values(|x: TabGroup| x@).push(
                        tabs@.last()@,
                    ));
                }
            }
            t = t + 1;
        }
        proof {
            assert(sv.tabs.take(session.tabs@.len() as int) =~= sv.tabs);
            assert(tv.take(s + 1).drop_last() == tv.take(s as int));
        }
        let ghost prev = out@;
        if tabs.len() > 0 {
            out.push(SessionGroup { name: session.name.clone(), is_current: session.is_current, tabs });
            proof {
                assert(tree_view(out@) =~= tree_view(prev).push(out@.last()@));
            }
        }
        s = s + 1;
    }
    proof {
        assert(tv.take(tree@.len() as int) == tv);
    }
    out
}

/// The header title of a session row: its name, marked when it is the current session.
pub open spec fn session_header_title(session: SessionGroup) -> Seq<char> {
    if session.is_current {
        session.name@ + " (current)"@
    } else {
        session.name@
    }
}

/// The marker of a pane row: the focused pane of the active tab of the
/// current session, another focused pane, or an unfocused pane.
pub open spec fn marker_spec(session: SessionGroup, tab: TabGroup, pane: PaneRow) -> Seq<char> {
    if session.is_current && tab.is_active && pane.is_focused {
        "▶"@
    } else if pane.is_focused {
        "●"@
    } else {
        "○"@
    }
}

/// The tree glyph of a row: the last sibling closes the branch.
pub open spec fn glyph_spec(is_last: bool) -> Seq<char> {
    if is_last {
        "└─ "@
    } else {
        "├─ "@
    }
}

/// The continuation of a tab's branch in front of its pane rows.
pub open spec fn continuation_spec(is_last: bool) -> Seq<char> {
    if is_last {
        "    "@
    } else {
        "│   "@
    }
}

/// The selectable row of a pane, focusing it when chosen.
pub open spec fn pane_leaf_spec(pane: PaneRow, session: SessionGroup, tab: TabGroup, prefix: Seq<char>) -> PaletteItemView {
    PaletteItemView {
        title: marker_spec(session, tab, pane) + " "@ + pane.title@,
        description: Some(pane.description@),
        category: Some("Panes"@),
        aliases: pane_aliases(session.name@, tab.name@, pane),
        shortcut: None,
        icon: None,
        icon_color: None,
        tree_prefix: Some(prefix),
        selectable: true,
        action: PaletteAction::FocusPane(
            PaneTarget {
                session_name: session.name,
                tab_position: pane.tab_position,
                tab_id: pane.tab_id,
                pane_id: pane.id,
                is_plugin: pane.is_plugin,
            },
        ),
    }
}

/// The rows of the first `n` panes of a tab with several panes.
pub open spec fn pane_rows(session: SessionGroup, tab: TabGroup, cont: Seq<char>, n: int) -> Seq<
    PaletteItemView,
>
    decreases n,
{
    if n <= 0 {
        Seq::empty()
    } else {
        pane_rows(session, tab, cont, n - 1).push(
            pane_leaf_spec(
                tab.panes@[n - 1],
                session,
                tab,
                cont + glyph_spec(n == tab.panes@.len()),
            ),
        )
    }
}

/// The rows of one tab: a single pane is hoisted to the tab's place;
/// otherwise a tab header followed by its pane rows.
pub open spec fn tab_rows(session: SessionGroup, tab: TabGroup, is_last: bool) -> Seq<PaletteItemView> {
    if tab.panes@.len() == 1 {
        seq![pane_leaf_spec(tab.panes@[0], session, tab, glyph_spec(is_last))]
    } else {
        seq![PaletteItemView { tree_prefix: Some(glyph_spec(is_last)), ..group_spec(tab.name@) }]
            + pane_rows(session, tab, continuation_spec(is_last), tab.panes@.len() as int)
    }
}

/// The rows of the first `n` tabs of a session.
pub open spec fn tabs_rows(session: SessionGroup, n: int) -> Seq<PaletteItemView>
    decreases n,
{
    if n <= 0 {
        Seq::empty()
    } else {
        tabs_rows(session, n - 1) + tab_rows(
            session,
            session.tabs@[n - 1],
            n == session.tabs@.len(),
        )
    }
}

/// The rows of one session: its header, then its tabs.
pub open spec fn session_rows(session: SessionGroup) -> Seq<PaletteItemView> {
    seq![group_spec(session_header_title(session))] + tabs_rows(
        session,
        session.tabs@.len() as int,
    )
}

/// The rows of the whole tree, session after session.
pub open spec fn flatten_spec(tree: Seq<SessionGroup>) -> Seq<PaletteItemView>
    decreases tree.len(),
{
    if tree.len() == 0 {
        Seq::empty()
    } else {
        flatten_spec(tree.drop_last()) + session_rows(tree.last())
    }
}

/// The actions of the selectable rows, in order.
pub open spec fn selectable_actions(rows: Seq<PaletteItemView>) -> Seq<PaletteAction>
    decreases rows.len(),
{
    if rows.len() == 0 {
        Seq::empty()
    } else if rows.last().selectable {
        selectable_actions(rows.drop_last()).push(rows.last().action)
    } else {
        selectable_actions(rows.drop_last())
    }
}

/// Focusing `pane` of `session`: its tab, its id, and whether it is a plugin.
pub open spec fn focus_of(session: SessionGroup, pane: PaneRow) -> PaletteAction {
    PaletteAction::FocusPane(
        PaneTarget {
            session_name: session.name,
            tab_position: pane.tab_position,
            tab_id: pane.tab_id,
            pane_id: pane.id,
            is_plugin: pane.is_plugin,
        },
    )
}

/// Focusing each pane of the first `n` tabs of `session`, in order.
pub open spec fn session_focus_list(session: SessionGroup, n: int) -> Seq<PaletteAction>
    decreases n,
{
    if n <= 0 {
        Seq::empty()
    } else {
        session_focus_list(session, n - 1) + session.tabs@[n - 1].panes@.map_values(
            |p: PaneRow| focus_of(session, p),
        )
    }
}

/// Focusing each pane of the tree, session after session, in order.
pub open spec fn tree_focus_list(tree: Seq<SessionGroup>) -> Seq<PaletteAction>
    decreases tree.len(),
{
    if tree.len() == 0 {
        Seq::empty()
    } else {
        tree_focus_list(tree.drop_last()) + session_focus_list(
            tree.last(),
            tree.last().tabs@.len() as int,
        )
    }
}

proof fn lemma_selectable_actions_add(a: Seq<PaletteItemView>, b: Seq<PaletteItemView>)
    ensures
        selectable_actions(a + b) == selectable_actions(a) + selectable_actions(b),
    decreases b.len(),
{
    if b.len() == 0 {
        assert(a + b =~= a);
        assert(selectable_actions(a) + selectable_actions(b) =~= selectable_actions(a));
    } else {
        assert((a + b).drop_last() =~= a + b.drop_last());
        assert((a + b).last() == b.last());
        lemma_selectable_actions_add(a, b.drop_last());
        if b.last().selectable {
            assert(selectable_actions(a) + selectable_actions(b) =~= (selectable_actions(a)
                + selectable_actions(b.drop_last())).push(b.last().action));
        }
    }
}

proof fn lemma_single_row(row: PaletteItemView)
    ensures
        selectable_actions(seq![row]) == (if row.selectable {
            seq![row.action]
        } else {
            Seq::<PaletteAction>::empty()
        }),
{
    let rows = seq![row];
    assert(rows.drop_last() =~= Seq::<PaletteItemView>::empty());
    assert(rows.last() == row);
    assert(selectable_actions(rows.drop_last()) == Seq::<PaletteAction>::empty());
    if row.selectable {
        assert(Seq::<PaletteAction>::empty().push(row.action) =~= seq![row.action]);
    }
}

proof fn lemma_pane_rows_focus(session: SessionGroup, tab: TabGroup, cont: Seq<char>, n: int)
    requires
        0 <= n <= tab.panes@.len(),
    ensures
        selectable_actions(pane_rows(session, tab, cont, n)) == tab.panes@.take(n).map_values(
            |p: PaneRow| focus_of(session, p),
        ),
    decreases n,
{
    if n == 0 {
        assert(tab.panes@.take(0).map_values(|p: PaneRow| focus_of(session, p)) =~= Seq::<
            PaletteAction,
        >::empty());
    } else {
        lemma_pane_rows_focus(session, tab, cont, n - 1);
        let rows = pane_rows(session, tab, cont, n);
        assert(rows.drop_last() == pane_rows(session, tab, cont, n - 1));
        assert(tab.panes@.take(n).map_values(|p: PaneRow| focus_of(session, p)) =~= tab.panes@.take(
            n - 1,
        ).map_values(|p: PaneRow| focus_of(session, p)).push(focus_of(session, tab.panes@[n - 1])));
    }
}

proof fn lemma_tab_rows_focus(session: SessionGroup, tab: TabGroup, is_last: bool)
    ensures
        selectable_actions(tab_rows(session, tab, is_last)) == tab.panes@.map_values(
            |p: PaneRow| focus_of(session, p),
        ),
{
    let all = tab.panes@.map_values(|p: PaneRow| focus_of(session, p));
    if tab.panes@.len() == 1 {
        lemma_single_row(pane_leaf_spec(tab.panes@[0], session, tab, glyph_spec(is_last)));
        assert(all =~= seq![focus_of(session, tab.panes@[0])]);
    } else {
        let header = seq![PaletteItemView { tree_prefix: Some(glyph_spec(is_last)), ..group_spec(tab.name@) }];
        let n = tab.panes@.len() as int;
        lemma_selectable_actions_add(header, pane_rows(session, tab, continuation_spec(is_last), n));
        lemma_single_row(header[0]);
        assert(header =~= seq![header[0]]);
        lemma_pane_rows_focus(session, tab, continuation_spec(is_last), n);
        assert(tab.panes@.take(n) =~= tab.panes@);
        assert(selectable_actions(header) =~= Seq::<PaletteAction>::empty());
        assert(Seq::<PaletteAction>::empty() + all =~= all);
    }
}

proof fn lemma_tabs_rows_focus(session: SessionGroup, n: int)
    requires
        0 <= n <= session.tabs@.len(),
    ensures
        selectable_actions(tabs_rows(session, n)) == session_focus_list(session, n),
    decreases n,
{
    if n > 0 {
        lemma_tabs_rows_focus(session, n - 1);
        lemma_selectable_actions_add(
            tabs_rows(session, n - 1),
            tab_rows(session, session.tabs@[n - 1], n == session.tabs@.len()),
        );
        lemma_tab_rows_focus(session, session.tabs@[n - 1], n == session.tabs@.len());
    }
}

/// The selectable rows of the flattened tree are the panes of the tree, one
/// row per pane in session, tab and pane order, and the row of a pane
/// focuses exactly that pane: its session, its tab, its id, and whether it
/// is a plugin or a terminal.
pub proof fn law_rows_focus_their_panes(tree: Seq<SessionGroup>)
    ensures
        selectable_actions(flatten_spec(tree)) == tree_focus_list(tree),
    decreases tree.len(),
{
    if tree.len() > 0 {
        let session = tree.last();
        law_rows_focus_their_panes(tree.drop_last());
        let header = seq![group_spec(session_header_title(session))];
        let tabs = tabs_rows(session, session.tabs@.len() as int);
        lemma_selectable_actions_add(flatten_spec(tree.drop_last()), session_rows(session));
        lemma_selectable_actions_add(header, tabs);
        lemma_single_row(group_spec(session_header_title(session)));
        assert(selectable_actions(header) =~= Seq::<PaletteAction>::empty());
        lemma_tabs_rows_focus(session, session.tabs@.len() as int);
        assert(selectable_actions(session_rows(session)) =~= session_focus_list(
            session,
            session.tabs@.len() as int,
        ));
    }
}

fn pane_leaf(pane: &PaneRow, session: &SessionGroup, tab: &TabGroup, prefix: &str) -> (out: PaletteItem)
    ensures
        out@ == pane_leaf_spec(*pane, *session, *tab, prefix@),
{
    let marker = if session.is_current && tab.is_active && pane.is_focused {
        "▶"
    } else if pane.is_focused {
        "●"
    } else {
        "○"
    };
    let mut title = String::new();
    append_str(&mut title, marker);
    append_str(&mut title, " ");
    append_str(&mut title, pane.title.as_str());
    let target = PaneTarget {
        session_name: session.name.clone(),
        tab_position: pane.tab_position,
        tab_id: pane.tab_id,
        pane_id: pane.id,
        is_plugin: pane.is_plugin,
    };
    let mut item = PaletteItem::leaf(title.as_str(), PaletteAction::FocusPane(target)).with_category(
        "Panes",
    ).with_description(pane.description.as_str()).with_tree_prefix(prefix);
    item.aliases = pane_alias_list(session.name.as_str(), tab.name.as_str(), pane);
    proof {
        assert(title@ =~= marker_spec(*session, *tab, *pane) + " "@ + pane.title@);
    }
    item
}

fn glyph(is_last: bool) -> (out: &'static str)
    ensures
        out@ == glyph_spec(is_last),
{
    if is_last {
        "└─ "
    } else {
        "├─ "
    }
}

/// The palette rows of the tree: a header per session, a header per tab
/// with more than one pane, and a selectable row per pane, each row prefixed
/// with the branch glyphs that draw the tree.
pub fn flatten(tree: &[SessionGroup]) -> (out: Vec<PaletteItem>)
    ensures
        out@.map_values(|it: PaletteItem| it@) == flatten_spec(tree@),
{
    let mut out: Vec<PaletteItem> = Vec::new();
    let mut s: usize = 0;
    while s < tree.len()
        invariant
            s <= tree@.len(),
            out@.map_values(|it: PaletteItem| it@) == flatten_spec(tree@.take(s as int)),
        decreases tree@.len() - s,
    {
        let session = &tree[s];
        let ghost start = out@.map_values(|it: PaletteItem| it@);
        let mut header = String::new();
        append_str(&mut header, session.name.as_str());
        if session.is_current {
            append_str(&mut header, " (current)");
        }
        out.push(PaletteItem::group(header.as_str()));
        proof {
            assert(out@.map_values(|it: PaletteItem| it@) =~= start.push(
                group_spec(session_header_title(*session)),
            ));
        }
        let tab_count = session.tabs.len();
        let mut ti: usize = 0;
        while ti < tab_count
            invariant
                tab_count == session.tabs@.len(),
                ti <= tab_count,
                out@.map_values(|it: PaletteItem| it@) == start + seq![
                    group_spec(session_header_title(*session)),
                ] + tabs_rows(*session, ti as int),
            decreases tab_count - ti,
        {
            let tab = &session.tabs[ti];
            let is_last_tab = ti + 1 == tab_count;
            let tab_glyph = glyph(is_last_tab);
            let tab_cont = if is_last_tab {
                "    "
            } else {
                "│   "
            };
            let ghost before = out@.map_values(|it: PaletteItem| it@);
            if tab.panes.len() == 1 {
                let pane = &tab.panes[0];
                out.push(pane_leaf(pane, session, tab, tab_glyph));
                proof {
                    assert(out@.map_values(|it: PaletteItem| it@) =~= before + tab_rows(
                        *session,
                        *tab,
                        is_last_tab,
                    ));
                }
            } else {
                let mut tab_header = PaletteItem::group(tab.name.as_str());
                tab_header.tree_prefix = Some(tab_glyph.to_owned());
                out.push(tab_header);
                let ghost after_header = out@.map_values(|it: PaletteItem| it@);
                proof {
                    assert(after_header =~= before.push(
                        PaletteItemView {
                            tree_prefix: Some(glyph_spec(is_last_tab)),
                            ..group_spec(tab.name@)
                        },
                    ));
                }
                let pane_count = tab.panes.len();
                let mut pi: usize = 0;
                while pi < pane_count
                    invariant
                        pane_count == tab.panes@.len(),
                        pi <= pane_count,
                        tab_cont@ == continuation_spec(is_last_tab),
                        out@.map_values(|it: PaletteItem| it@) == after_header + pane_rows(
                            *session,
                            *tab,
                            continuation_spec(is_last_tab),
                            pi as int,
                        ),
                    decreases pane_count - pi,
                {
                    let is_last_pane = pi + 1 == pane_count;
                    let mut prefix = String::new();
                    append_str(&mut prefix, tab_cont);
                    append_str(&mut prefix, glyph(is_last_pane));
                    let ghost prev = out@.map_values(|it: PaletteItem| it@);
                    out.push(pane_leaf(&tab.panes[pi], session, tab, prefix.as_str()));
                    proof {
                        assert(out@.map_values(|it: PaletteItem| it@) =~= prev.push(out@.last()@));
                    }
                    pi = pi + 1;
                }
                proof {
                    assert(out@.map_values(|it: PaletteItem| it@) =~= before + tab_rows(
                        *session,
                        *tab,
                        is_last_tab,
                    ));
                }
            }
            ti = ti + 1;
        }
        proof {
            assert(tree@.take(s + 1).drop_last() == tree@.take(s as int));
            assert(out@.map_values(|it: PaletteItem| it@) =~= flatten_spec(tree@.take(s + 1)));
        }
        s = s + 1;
    }
    proof {
        assert(tree@.take(tree@.len() as int) == tree@);
    }
    out
}

/// Whether matching every pane of the tree against `query` stays within
/// `usize`.
pub fn tree_fits_query(tree: &[SessionGroup], query: &str) -> (out: bool)
    ensures
        out == tree_fits(tree@, words(query@)),
{
    let ghost ps = words(query@);
    let mut s: usize = 0;
    while s < tree.len()
        invariant
            s <= tree@.len(),
            ps == words(query@),
            forall|a: int, t: int, p: int|
                0 <= a < s && 0 <= t < tree@[a].tabs@.len() && 0 <= p < tree@[a].tabs@[t].panes@.len()
                    ==> item_fits(
                    #[trigger] synthetic_view(
                        tree@[a].name@,
                        tree@[a].tabs@[t].name@,
                        tree@[a].tabs@[t].panes@[p],
                    ),
                    ps,
                ),
        decreases tree@.len() - s,
    {
        let session = &tree[s];
        let mut t: usize = 0;
        while t < session.tabs.len()
            invariant
                s < tree@.len(),
                *session == tree@[s as int],
                t <= session.tabs@.len(),
                ps == words(query@),
                forall|b: int, p: int|
                    0 <= b < t && 0 <= p < session.tabs@[b].panes@.len() ==> item_fits(
                        #[trigger] synthetic_view(
                            session.name@,
                            session.tabs@[b].name@,
                            session.tabs@[b].panes@[p],
                        ),
                        ps,
                    ),
            decreases session.tabs@.len() - t,
        {
            let tab = &session.tabs[t];
            let mut p: usize = 0;
            while p < tab.panes.len()
                invariant
                    s < tree@.len(),
                    *session == tree@[s as int],
                    t < session.tabs@.len(),
                    *tab == session.tabs@[t as int],
                    p <= tab.panes@.len(),
                    ps == words(query@),
                    forall|c: int|
                        0 <= c < p ==> item_fits(
                            #[trigger] synthetic_view(session.name@, tab.name@, tab.panes@[c]),
                            ps,
                        ),
                decreases tab.panes@.len() - p,
            {
                let item = synthetic_item(session.name.as_str(), tab.name.as_str(), &tab.panes[p]);
                let one = vec![item];
                if !items_fit(one.as_slice(), query) {
                    proof {
                        assert(one@[0]@ == synthetic_view(session.name@, tab.name@, tab.panes@[p as int]));
                        if tree_fits(tree@, ps) {
                            assert(item_fits(
                                synthetic_view(
                                    tree@[s as int].name@,
                                    tree@[s as int].tabs@[t as int].name@,
                                    tree@[s as int].tabs@[t as int].panes@[p as int],
                                ),
                                ps,
                            ));
                        }
                    }
                    return false;
                }
                proof {
                    assert(one@[0]@ == synthetic_view(session.name@, tab.name@, tab.panes@[p as int]));
                }
                p = p + 1;
            }
            t = t + 1;
        }
        s = s + 1;
    }
    true
}

/// `filter` where matching stays within `usize`; `None` where it would not.
pub fn try_filter(tree: Vec<SessionGroup>, query: &str) -> (out: Option<Vec<SessionGroup>>)
    ensures
        out is None <==> !tree_fits(tree@, words(query@)),
        out matches Some(v) ==> {
            &&& words(query@).len() == 0 ==> v@ == tree@
            &&& words(query@).len() > 0 ==> tree_view(v@) == kept_sessions(
                tree_view(tree@),
                words(query@),
            )
        },
{
    if tree_fits_query(tree.as_slice(), query) {
        Some(filter(tree, query))
    } else {
        None
    }
}

} // verus!
