//! The plugin's permission state and what the palette shows before access is granted.
use vstd::prelude::*;
use crate::model::{group_spec, PaletteItem};

verus! {

/// Where the permission request stands.
#[derive(Clone, Copy, Debug, Default, Eq, PartialEq, Structural)]
pub enum PermissionState {
    #[default]
    Pending,
    Granted,
    Denied,
}

/// The placeholder rows shown instead of a palette: a waiting note while
/// the request is pending, a refusal note when denied, none once granted.
pub fn permission_placeholder_items(permission_state: PermissionState) -> (out: Vec<PaletteItem>)
    ensures
        permission_state == PermissionState::Pending ==> out@.len() == 1 && out@[0]@ == group_spec(
            "Waiting for plugin permissions"@,
        ),
        permission_state == PermissionState::Denied ==> out@.len() == 1 && out@[0]@ == group_spec(
            "Permissions denied"@,
        ),
        permission_state == PermissionState::Granted ==> out@.len() == 0,
{
    match permission_state {
        PermissionState::Pending => vec![PaletteItem::group("Waiting for plugin permissions")],
        PermissionState::Denied => vec![PaletteItem::group("Permissions denied")],
        PermissionState::Granted => Vec::new(),
    }
}

} // verus!
