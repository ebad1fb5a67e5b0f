//! What the host reports about sessions, tabs and panes, held as plain
//! values, and the lookups the palette makes in it.
use vstd::prelude::*;
use crate::model::PaneTarget;

verus! {

/// A pane, addressed as the host addresses it: a terminal or a plugin id.
#[derive(Clone, Copy, Debug, PartialEq, Eq, Structural)]
pub enum PaneRef {
    Terminal(u32),
    Plugin(u32),
}

/// One pane of a tab.
#[derive(Clone, Debug)]
pub struct PaneSummary {
    pub id: u32,
    pub is_plugin: bool,
    pub is_selectable: bool,
    pub is_suppressed: bool,
    pub is_focused: bool,
    pub title: String,
    pub terminal_command: Option<String>,
}

/// One tab of a session.
#[derive(Clone, Debug)]
pub struct TabSummary {
    pub position: usize,
    pub name: String,
    pub active: bool,
    pub tab_id: usize,
}

/// One session, with its tabs, the panes of each tab position, and each
/// client's history of focused panes (most recent last).
#[derive(Clone, Debug)]
pub struct SessionSummary {
    pub name: String,
    pub is_current_session: bool,
    pub connected_clients: usize,
    pub tabs: Vec<TabSummary>,
    pub panes: Vec<(usize, Vec<PaneSummary>)>,
    pub pane_history: Vec<(u16, Vec<PaneRef>)>,
}

/// The index of the first session, from `i` on, that is the current one.
pub open spec fn current_from(sessions: Seq<SessionSummary>, i: int) -> Option<int>
    decreases sessions.len() - i,
{
    if i < 0 || i >= sessions.len() {
        None
    } else if sessions[i].is_current_session {
        Some(i)
    } else {
        current_from(sessions, i + 1)
    }
}

/// The index of the first session marked current.
pub open spec fn current_index(sessions: Seq<SessionSummary>) -> Option<int> {
    current_from(sessions, 0)
}

proof fn lemma_current_from(sessions: Seq<SessionSummary>, i: int)
    requires
        0 <= i <= sessions.len(),
    ensures
        current_from(sessions, i) matches Some(k) ==> i <= k < sessions.len()
            && sessions[k].is_current_session,
    decreases sessions.len() - i,
{
    if i < sessions.len() {
        lemma_current_from(sessions, i + 1);
    }
}

/// The index of the current session: the first one marked current.
pub fn current_session_index(sessions: &[SessionSummary]) -> (out: Option<usize>)
    ensures
        match out {
            Some(k) => current_index(sessions@) == Some(k as int),
            None => current_index(sessions@) is None,
        },
        out matches Some(k) ==> k < sessions@.len() && sessions@[k as int].is_current_session,
{
    proof {
        lemma_current_from(sessions@, 0);
    }
    let mut i: usize = 0;
    while i < sessions.len()
        invariant
            i <= sessions@.len(),
            current_index(sessions@) == current_from(sessions@, i as int),
        decreases sessions@.len() - i,
    {
        if sessions[i].is_current_session {
            return Some(i);
        }
        i = i + 1;
    }
    None
}

/// The id of the active tab of the current session, when both exist.
pub open spec fn current_tab_id_spec(sessions: Seq<SessionSummary>) -> Option<usize> {
    match current_index(sessions) {
        Some(k) => match active_from(sessions[k].tabs@, 0) {
            Some(t) => Some(sessions[k].tabs@[t].tab_id),
            None => None,
        },
        None => None,
    }
}

/// The index of the first tab, from `i` on, that is active.
pub open spec fn active_from(tabs: Seq<TabSummary>, i: int) -> Option<int>
    decreases tabs.len() - i,
{
    if i < 0 || i >= tabs.len() {
        None
    } else if tabs[i].active {
        Some(i)
    } else {
        active_from(tabs, i + 1)
    }
}

proof fn lemma_active_from(tabs: Seq<TabSummary>, i: int)
    requires
        0 <= i <= tabs.len(),
    ensures
        active_from(tabs, i) matches Some(k) ==> i <= k < tabs.len(),
    decreases tabs.len() - i,
{
    if i < tabs.len() {
        lemma_active_from(tabs, i + 1);
    }
}

/// The id of the focused tab of the current session.
#[verifier::loop_isolation(false)]
pub fn current_tab_id(sessions: &[SessionSummary]) -> (out: Option<usize>)
    ensures
        out == current_tab_id_spec(sessions@),
{
    match current_session_index(sessions) {
        None => None,
        Some(k) => {
            let tabs = &sessions[k].tabs;
            proof {
                lemma_active_from(tabs@, 0);
            }
            let mut i: usize = 0;
            while i < tabs.len()
                invariant
                    i <= tabs@.len(),
                    active_from(tabs@, 0) == active_from(tabs@, i as int),
                decreases tabs@.len() - i,
            {
                if tabs[i].active {
                    proof {
                        assert(active_from(tabs@, i as int) == Some(i as int));
                        assert(sessions@[k as int].tabs@ == tabs@);
                    }
                    return Some(tabs[i].tab_id);
                }
                i = i + 1;
            }
            None
        },
    }
}

/// The name of the current session.
pub fn current_session_name(sessions: &[SessionSummary]) -> (out: Option<&str>)
    ensures
        match current_index(sessions@) {
            Some(k) => out matches Some(name) && name@ == sessions@[k].name@,
            None => out is None,
        },
{
    match current_session_index(sessions) {
        Some(k) => Some(sessions[k].name.as_str()),
        None => None,
    }
}

/// The most recent pane of a history that is not the given plugin.
pub open spec fn last_other_pane(history: Seq<PaneRef>, own_plugin_id: u32) -> Option<PaneRef>
    decreases history.len(),
{
    if history.len() == 0 {
        None
    } else if history.last() == PaneRef::Plugin(own_plugin_id) {
        last_other_pane(history.drop_last(), own_plugin_id)
    } else {
        Some(history.last())
    }
}

/// Whether a pane is the one a reference names.
pub open spec fn pane_is(pane: PaneSummary, target: PaneRef) -> bool {
    match target {
        PaneRef::Terminal(id) => !pane.is_plugin && pane.id == id,
        PaneRef::Plugin(id) => pane.is_plugin && pane.id == id,
    }
}

/// The index of the first entry, from `i` on, of a history list for `client`.
pub open spec fn history_from(histories: Seq<(u16, Vec<PaneRef>)>, client: u16, i: int) -> Option<int>
    decreases histories.len() - i,
{
    if i < 0 || i >= histories.len() {
        None
    } else if histories[i].0 == client {
        Some(i)
    } else {
        history_from(histories, client, i + 1)
    }
}

/// The index of the first entry, from `i` on, of the pane list for tab position `position`.
pub open spec fn panes_from(manifest: Seq<(usize, Vec<PaneSummary>)>, position: usize, i: int) -> Option<
    int,
>
    decreases manifest.len() - i,
{
    if i < 0 || i >= manifest.len() {
        None
    } else if manifest[i].0 == position {
        Some(i)
    } else {
        panes_from(manifest, position, i + 1)
    }
}

/// The panes listed for a tab position, if any list is.
pub open spec fn panes_at(session: SessionSummary, position: usize) -> Option<Seq<PaneSummary>> {
    match panes_from(session.panes@, position, 0) {
        Some(i) => Some(session.panes@[i].1@),
        None => None,
    }
}

/// The index of the first pane, from `j` on, that `target` names.
pub open spec fn match_from(panes: Seq<PaneSummary>, target: PaneRef, j: int) -> Option<int>
    decreases panes.len() - j,
{
    if j < 0 || j >= panes.len() {
        None
    } else if pane_is(panes[j], target) {
        Some(j)
    } else {
        match_from(panes, target, j + 1)
    }
}

/// The first (tab, pane) position, tabs from `t` on in order and the panes
/// of each in order, of a pane that `target` names.
pub open spec fn locate_from(session: SessionSummary, target: PaneRef, t: int) -> Option<(int, int)>
    decreases session.tabs@.len() - t,
{
    if t < 0 || t >= session.tabs@.len() {
        None
    } else {
        match panes_at(session, session.tabs@[t].position) {
            Some(panes) => match match_from(panes, target, 0) {
                Some(p) => Some((t, p)),
                None => locate_from(session, target, t + 1),
            },
            None => locate_from(session, target, t + 1),
        }
    }
}

/// The target for a located pane of a session.
pub open spec fn target_at(session: SessionSummary, t: int, p: int) -> PaneTarget {
    let tab = session.tabs@[t];
    let pane = panes_at(session, tab.position)->0[p];
    PaneTarget {
        session_name: session.name,
        tab_position: tab.position,
        tab_id: tab.tab_id,
        pane_id: pane.id,
        is_plugin: pane.is_plugin,
    }
}

/// The pane the palette was opened from: in the current session, the most
/// recent pane of this client's history that is not the palette itself,
/// found among the panes of the session's tabs.
pub open spec fn caller_spec(
    sessions: Seq<SessionSummary>,
    own_client_id: Option<u16>,
    own_plugin_id: Option<u32>,
) -> Option<PaneTarget> {
    match (own_client_id, own_plugin_id, current_index(sessions)) {
        (Some(client), Some(plugin), Some(k)) => {
            let session = sessions[k];
            match history_from(session.pane_history@, client, 0) {
                Some(h) => match last_other_pane(session.pane_history@[h].1@, plugin) {
                    Some(target) => match locate_from(session, target, 0) {
                        Some((t, p)) => Some(target_at(session, t, p)),
                        None => None,
                    },
                    None => None,
                },
                None => None,
            }
        },
        _ => None,
    }
}

fn find_history(histories: &Vec<(u16, Vec<PaneRef>)>, client: u16) -> (out: Option<usize>)
    ensures
        match out {
            Some(i) => history_from(histories@, client, 0) == Some(i as int) && i < histories@.len(),
            None => history_from(histories@, client, 0) is None,
        },
{
    let mut i: usize = 0;
    while i < histories.len()
        invariant
            i <= histories@.len(),
            history_from(histories@, client, 0) == history_from(histories@, client, i as int),
        decreases histories@.len() - i,
    {
        if histories[i].0 == client {
            return Some(i);
        }
        i = i + 1;
    }
    None
}

fn find_panes(manifest: &Vec<(usize, Vec<PaneSummary>)>, position: usize) -> (out: Option<usize>)
    ensures
        match out {
            Some(i) => panes_from(manifest@, position, 0) == Some(i as int) && i < manifest@.len(),
            None => panes_from(manifest@, position, 0) is None,
        },
{
    let mut i: usize = 0;
    while i < manifest.len()
        invariant
            i <= manifest@.len(),
            panes_from(manifest@, position, 0) == panes_from(manifest@, position, i as int),
        decreases manifest@.len() - i,
    {
        if manifest[i].0 == position {
            return Some(i);
        }
        i = i + 1;
    }
    None
}

fn last_other(history: &Vec<PaneRef>, own_plugin_id: u32) -> (out: Option<PaneRef>)
    ensures
        out == last_other_pane(history@, own_plugin_id),
{
    let mut i: usize = history.len();
    proof {
        assert(history@.take(i as int) =~= history@);
    }
    while i > 0
        invariant
            i <= history@.len(),
            last_other_pane(history@, own_plugin_id) == last_other_pane(
                history@.take(i as int),
                own_plugin_id,
            ),
        decreases i,
    {
        let pane = history[i - 1];
        proof {
            assert(history@.take(i as int).drop_last() == history@.take(i - 1));
            assert(history@.take(i as int).last() == history@[i - 1]);
        }
        let is_own = match pane {
            PaneRef::Plugin(id) => id == own_plugin_id,
            PaneRef::Terminal(_) => false,
        };
        if !is_own {
            return Some(pane);
        }
        i = i - 1;
    }
    proof {
        assert(history@.take(0) =~= Seq::<PaneRef>::empty());
    }
    None
}

fn find_match(panes: &Vec<PaneSummary>, target: PaneRef) -> (out: Option<usize>)
    ensures
        match out {
            Some(j) => match_from(panes@, target, 0) == Some(j as int) && j < panes@.len(),
            None => match_from(panes@, target, 0) is None,
        },
{
    let mut j: usize = 0;
    while j < panes.len()
        invariant
            j <= panes@.len(),
            match_from(panes@, target, 0) == match_from(panes@, target, j as int),
        decreases panes@.len() - j,
    {
        let pane = &panes[j];
        let matches = match target {
            PaneRef::Terminal(id) => !pane.is_plugin && pane.id == id,
            PaneRef::Plugin(id) => pane.is_plugin && pane.id == id,
        };
        if matches {
            return Some(j);
        }
        j = j + 1;
    }
    None
}

/// The pane the palette was opened from, as a target, when the host's
/// report names one.
#[verifier::loop_isolation(false)]
pub fn caller_pane_target(
    sessions: &[SessionSummary],
    own_client_id: Option<u16>,
    own_plugin_id: Option<u32>,
) -> (out: Option<PaneTarget>)
    ensures
        out == caller_spec(sessions@, own_client_id, own_plugin_id),
{
    let client = match own_client_id {
        Some(c) => c,
        None => return None,
    };
    let plugin = match own_plugin_id {
        Some(p) => p,
        None => return None,
    };
    let k = match current_session_index(sessions) {
        Some(k) => k,
        None => return None,
    };
    let session = &sessions[k];
    let h = match find_history(&session.pane_history, client) {
        Some(h) => h,
        None => return None,
    };
    let target = match last_other(&session.pane_history[h].1, plugin) {
        Some(t) => t,
        None => return None,
    };
    let mut t: usize = 0;
    while t < session.tabs.len()
        invariant
            t <= session.tabs@.len(),
            locate_from(*session, target, 0) == locate_from(*session, target, t as int),
        decreases session.tabs@.len() - t,
    {
        let tab = &session.tabs[t];
        match find_panes(&session.panes, tab.position) {
            Some(i) => {
                let panes = &session.panes[i].1;
                match find_match(panes, target) {
                    Some(p) => {
                        let pane = &panes[p];
                        proof {
                            assert(panes_at(*session, tab.position) == Some(panes@));
                            assert(locate_from(*session, target, t as int) == Some(
                                (t as int, p as int),
                            ));
                            assert(sessions@[k as int] == *session);
                        }
                        return Some(
                            PaneTarget {
                                session_name: session.name.clone(),
                                tab_position: tab.position,
                                tab_id: tab.tab_id,
                                pane_id: pane.id,
                                is_plugin: pane.is_plugin,
                            },
                        );
                    },
                    None => {},
                }
            },
            None => {},
        }
        t = t + 1;
    }
    None
}

/// The host's reference to a target pane.
pub fn pane_ref(target: &PaneTarget) -> (out: PaneRef)
    ensures
        out == (if target.is_plugin {
            PaneRef::Plugin(target.pane_id)
        } else {
            PaneRef::Terminal(target.pane_id)
        }),
{
    if target.is_plugin {
        PaneRef::Plugin(target.pane_id)
    } else {
        PaneRef::Terminal(target.pane_id)
    }
}

} // verus!
