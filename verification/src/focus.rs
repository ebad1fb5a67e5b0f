//! Deciding how to focus a pane chosen in the find-pane palette.
use vstd::prelude::*;
use crate::model::PaneTarget;
use crate::text::str_equal;

verus! {

/// How to bring a pane into focus.
#[derive(Clone, Debug, Eq, PartialEq)]
pub enum FocusPanePlan {
    /// The pane is in the current session: focus it directly.
    CurrentSession { pane_id: u32, is_plugin: bool },
    /// The pane is in another session: switch to it, then focus the pane.
    OtherSession { session_name: String, tab_position: usize, pane_id: u32, is_plugin: bool },
}

/// The target lives in the session named `current_session_name`.
pub open spec fn in_session(current_session_name: Option<&str>, target: &PaneTarget) -> bool {
    match current_session_name {
        Some(name) => name@ == target.session_name@,
        None => false,
    }
}

/// Direct focus when the target lives in the current session, a session
/// switch otherwise.
pub fn plan_focus_pane(current_session_name: Option<&str>, target: &PaneTarget) -> (out:
    FocusPanePlan)
    ensures
        in_session(current_session_name, target) ==> out == (FocusPanePlan::CurrentSession {
            pane_id: target.pane_id,
            is_plugin: target.is_plugin,
        }),
        !in_session(current_session_name, target) ==> out == (FocusPanePlan::OtherSession {
            session_name: target.session_name,
            tab_position: target.tab_position,
            pane_id: target.pane_id,
            is_plugin: target.is_plugin,
        }),
{
    let same = match current_session_name {
        Some(name) => str_equal(name, target.session_name.as_str()),
        None => false,
    };
    if same {
        FocusPanePlan::CurrentSession { pane_id: target.pane_id, is_plugin: target.is_plugin }
    } else {
        FocusPanePlan::OtherSession {
            session_name: target.session_name.clone(),
            tab_position: target.tab_position,
            pane_id: target.pane_id,
            is_plugin: target.is_plugin,
        }
    }
}

/// A pane is listed in the find-pane palette when it is selectable, not
/// suppressed, and not this palette's own plugin pane.
pub fn should_list_find_pane_item(
    pane_id: u32,
    is_plugin: bool,
    is_selectable: bool,
    is_suppressed: bool,
    own_plugin_id: Option<u32>,
) -> (out: bool)
    ensures
        out == (is_selectable && !is_suppressed && !(is_plugin && own_plugin_id == Some(pane_id))),
{
    let is_own = match own_plugin_id {
        Some(id) => id == pane_id,
        None => false,
    };
    is_selectable && !is_suppressed && !(is_plugin && is_own)
}

} // verus!
