//! The palette's state machine: which palette is open, what is typed and
//! selected, and what each key, click and host event does to them. The host
//! performs the commands it hands back.
use std::path::PathBuf;
use vstd::prelude::*;
use crate::collections::StringMap;
use crate::fuzzy::{is_ranking, item_fits, items_view, try_filter_items};
use crate::focus::{plan_focus_pane, FocusPanePlan};
use crate::kdl::{escape_kdl_string, escape_seq};
use crate::model::{
    group_spec, opt_view, CommandAction, PaletteAction, PaletteId, PaletteItem, PaletteItemView,
    PaneTarget, PopupCoordinates, ThemeAction,
};
use crate::palettes::{
    base_items_spec, command_items_spec, command_palette_base_items, command_palette_items,
    custom_items_spec, custom_palette_items, find_pane_items, find_pane_spec, move_pane_items,
    move_pane_spec, session_items, session_items_spec, theme_items, theme_items_shape,
};
use crate::selection::{
    lemma_position_of_bound, lemma_selectable_len, list_offset, list_offset_spec, next_selectable,
    next_selectable_spec, normalize_selection, normalize_selection_spec, position_of,
    selectable_positions,
};
use crate::session::{
    caller_pane_target, caller_spec, current_index, current_session_name, current_tab_id,
    current_tab_id_spec, pane_ref, PaneRef, SessionSummary,
};
use crate::state::{permission_placeholder_items, PermissionState};
use crate::text::{append_str, push_char, split_words, str_equal, without_last_char, words};
use crate::user_config::{
    apply_item_overrides, opt_str, overridden_spec, parse_command_palette_output, parsed_as, RawPaletteItem,
    UserConfig,
};

verus! {

/// The palette on screen: a built-in one, or a custom one by name.
#[derive(Clone, Debug, PartialEq, Eq)]
pub enum ActivePalette {
    BuiltIn(PaletteId),
    Custom(String),
}

impl ActivePalette {
    /// A copy of this palette.
    pub fn duplicate(&self) -> (out: Self)
        ensures
            out == *self,
    {
        match self {
            ActivePalette::BuiltIn(id) => ActivePalette::BuiltIn(*id),
            ActivePalette::Custom(name) => ActivePalette::Custom(name.clone()),
        }
    }
}

/// What is restored when going back to an earlier palette.
#[derive(Clone, Debug)]
pub struct PaletteSnapshot {
    pub active_palette: ActivePalette,
    pub query: String,
    pub selected: usize,
}

/// Whether `out` is the palette that the configured name `name` asks for.
pub open spec fn palette_named(out: ActivePalette, name: Seq<char>) -> bool {
    if name == "commands"@ {
        out == ActivePalette::BuiltIn(PaletteId::Commands)
    } else if name == "find-pane"@ {
        out == ActivePalette::BuiltIn(PaletteId::FindPane)
    } else if name == "sessions"@ {
        out == ActivePalette::BuiltIn(PaletteId::Sessions)
    } else if name == "move-pane"@ {
        out == ActivePalette::BuiltIn(PaletteId::MovePane)
    } else if name == "themes"@ {
        out == ActivePalette::BuiltIn(PaletteId::Themes)
    } else {
        out matches ActivePalette::Custom(s) && s@ == name
    }
}

/// The palette the plugin configuration names, the command palette when it
/// names none; any other name is a custom palette.
pub fn active_palette_from_config(palette: Option<&str>) -> (out: ActivePalette)
    ensures
        palette_named(
            out,
            match palette {
                Some(p) => p@,
                None => "commands"@,
            },
        ),
{
    let name = match palette {
        Some(p) => p,
        None => "commands",
    };
    if str_equal(name, "commands") {
        ActivePalette::BuiltIn(PaletteId::Commands)
    } else if str_equal(name, "find-pane") {
        ActivePalette::BuiltIn(PaletteId::FindPane)
    } else if str_equal(name, "sessions") {
        ActivePalette::BuiltIn(PaletteId::Sessions)
    } else if str_equal(name, "move-pane") {
        ActivePalette::BuiltIn(PaletteId::MovePane)
    } else if str_equal(name, "themes") {
        ActivePalette::BuiltIn(PaletteId::Themes)
    } else {
        ActivePalette::Custom(name.to_owned())
    }
}

/// Which way a new pane opens.
#[derive(Clone, Copy, Debug, PartialEq, Eq, Structural)]
pub enum SplitDirection {
    Right,
    Down,
}

/// A request to the host.
#[derive(Clone, Debug, PartialEq, Eq)]
pub enum HostCommand {
    /// Focus a pane of the current session.
    FocusPane(PaneRef),
    /// Switch to another session, focusing a pane of a tab there.
    SwitchSessionWithFocus { session_name: String, tab_position: usize, pane_id: u32, is_plugin: bool },
    /// Move a pane into a new tab.
    BreakPaneToNewTab(PaneRef),
    /// Move a pane into the tab with the given id.
    BreakPaneToTab { pane: PaneRef, tab_id: usize },
    /// Open a tiled pane in the given tab, or in the focused one.
    NewTiledPane { direction: SplitDirection, tab_id: Option<usize> },
    ToggleFullscreen(PaneRef),
    ToggleEmbedOrFloat(PaneRef),
    ClosePane(PaneRef),
    NewTab { cwd: Option<PathBuf> },
    NextTab,
    PreviousTab,
    CloseTab { tab_id: usize },
    SwitchSession { session_name: String },
    Detach,
    ToggleTheme,
    SetDarkTheme,
    SetLightTheme,
    /// Apply a fragment of KDL configuration.
    Reconfigure { config: String },
    /// Run `sh -lc command` in the background, in `cwd` (the plugin's own
    /// directory when unset).
    RunInBackground { command: String, cwd: Option<PathBuf> },
    /// Run `sh -lc command` in a floating pane.
    OpenFloatingCommand { command: String, cwd: Option<PathBuf>, coordinates: Option<PopupCoordinates> },
    /// Run a custom palette's command, whose output becomes its entries.
    RunPaletteCommand { palette: String, command: String },
    /// Finish starting up once permissions are granted: read the user's
    /// configuration, refresh the sessions, ask for the data of the custom
    /// palette opened on, and name the palette's pane.
    StartUp,
    /// Ask the host for the current sessions.
    RefreshSessions,
    /// Close the palette.
    Close,
}

/// Whether `cmd` runs `command` to fill the custom palette called `name`.
pub open spec fn is_palette_request(cmd: HostCommand, name: Seq<char>, command: String) -> bool {
    match cmd {
        HostCommand::RunPaletteCommand { palette, command: c } => palette@ == name && c == command,
        _ => false,
    }
}

/// Everything the palette decides on.
#[derive(Debug)]
pub struct PaletteState {
    pub own_plugin_id: Option<u32>,
    pub own_client_id: Option<u16>,
    pub query: String,
    pub selected: usize,
    pub active_palette: Option<ActivePalette>,
    pub stack: Vec<PaletteSnapshot>,
    pub sessions: Vec<SessionSummary>,
    pub user_config: UserConfig,
    pub command_results: StringMap<Vec<PaletteItem>>,
    pub caller_cwd: Option<PathBuf>,
    pub root_category: Option<String>,
    pub permission_state: PermissionState,
    pub message: Option<String>,
    pub last_rows: usize,
}

/// The palette on screen, the command palette when none is set.
pub open spec fn current_palette(state: PaletteState) -> ActivePalette {
    match state.active_palette {
        Some(p) => p,
        None => ActivePalette::BuiltIn(PaletteId::Commands),
    }
}

/// Everything but the palette, the query, the selection and the stack of
/// earlier palettes is the same in both states.
pub open spec fn others_same(a: PaletteState, b: PaletteState) -> bool {
    &&& a.own_plugin_id == b.own_plugin_id
    &&& a.own_client_id == b.own_client_id
    &&& a.sessions == b.sessions
    &&& a.user_config == b.user_config
    &&& a.command_results == b.command_results
    &&& a.caller_cwd == b.caller_cwd
    &&& a.root_category == b.root_category
    &&& a.permission_state == b.permission_state
    &&& a.message == b.message
    &&& a.last_rows == b.last_rows
}

/// `after` is `before` with `palette` opened on top of it: the palette,
/// query and selection of `before` saved on the stack, an empty query and
/// the first row.
pub open spec fn pushed(before: PaletteState, palette: ActivePalette, after: PaletteState) -> bool {
    &&& others_same(before, after)
    &&& after.stack@ == before.stack@.push(
        PaletteSnapshot {
            active_palette: current_palette(before),
            query: before.query,
            selected: before.selected,
        },
    )
    &&& after.active_palette == Some(palette)
    &&& after.query@ == Seq::<char>::empty()
    &&& after.selected == 0
}

/// `after` is `before` after a step back: a typed query is cleared first;
/// with no query the previous palette comes back with its query and
/// selection; with no previous palette the state stays and the palette
/// closes (`closes`).
pub open spec fn went_back(before: PaletteState, after: PaletteState, closes: bool) -> bool {
    &&& others_same(before, after)
    &&& if before.query@.len() > 0 {
        &&& after.query@ == Seq::<char>::empty()
        &&& after.selected == 0
        &&& after.active_palette == before.active_palette
        &&& after.stack@ == before.stack@
        &&& !closes
    } else if before.stack@.len() > 0 {
        let top = before.stack@.last();
        &&& after.active_palette == Some(top.active_palette)
        &&& after.query == top.query
        &&& after.selected == top.selected
        &&& after.stack@ == before.stack@.drop_last()
        &&& !closes
    } else {
        &&& after.query == before.query
        &&& after.selected == before.selected
        &&& after.active_palette == before.active_palette
        &&& after.stack@ == before.stack@
        &&& closes
    }
}

impl PaletteState {
    /// The state of a palette just opened: the configured palette, nothing
    /// typed, no session known yet, and a note to approve the permission
    /// request.
    pub fn new(
        own_plugin_id: u32,
        own_client_id: u16,
        palette: Option<&str>,
        caller_cwd: Option<PathBuf>,
        root_category: Option<String>,
    ) -> (out: Self)
        ensures
            out.own_plugin_id == Some(own_plugin_id),
            out.own_client_id == Some(own_client_id),
            out.query@ == Seq::<char>::empty(),
            out.selected == 0,
            out.active_palette matches Some(p) && palette_named(
                p,
                match palette {
                    Some(p) => p@,
                    None => "commands"@,
                },
            ),
            out.stack@.len() == 0,
            out.sessions@.len() == 0,
            out.user_config.commands@.len() == 0,
            out.user_config.custom_palettes@ == Map::<Seq<char>, crate::user_config::CustomPalette>::empty(),
            out.user_config.theme_names@.len() == 0,
            out.user_config.shortcut_overrides@ == Map::<Seq<char>, String>::empty(),
            out.user_config.alias_overrides@ == Map::<Seq<char>, Vec<String>>::empty(),
            out.user_config.hidden_titles@ == Set::<Seq<char>>::empty(),
            out.command_results@ == Map::<Seq<char>, Vec<PaletteItem>>::empty(),
            out.caller_cwd == caller_cwd,
            out.root_category == root_category,
            out.permission_state == PermissionState::Pending,
            out.message matches Some(m) && m@
                == "Approve the Zellij permission prompt to enable palette actions"@,
            out.last_rows == 0,
    {
        PaletteState {
            own_plugin_id: Some(own_plugin_id),
            own_client_id: Some(own_client_id),
            query: String::new(),
            selected: 0,
            active_palette: Some(active_palette_from_config(palette)),
            stack: Vec::new(),
            sessions: Vec::new(),
            user_config: UserConfig::default(),
            command_results: StringMap::new(),
            caller_cwd,
            root_category,
            permission_state: PermissionState::Pending,
            message: Some("Approve the Zellij permission prompt to enable palette actions".to_owned()),
            last_rows: 0,
        }
    }

    /// Steps back: clears a typed query, else returns to the previous
    /// palette, else asks the host to close the palette.
    pub fn go_back_or_close(&mut self) -> (out: Vec<HostCommand>)
        ensures
            went_back(*old(self), *final(self), out@.len() > 0),
            out@.len() > 0 ==> out@ == seq![HostCommand::Close],
    {
        if !self.query.as_str().is_empty() {
            self.query = String::new();
            self.selected = 0;
            return Vec::new();
        }
        match self.stack.pop() {
            Some(previous) => {
                self.active_palette = Some(previous.active_palette);
                self.query = previous.query;
                self.selected = previous.selected;
                Vec::new()
            },
            None => vec![HostCommand::Close],
        }
    }

    /// The command that fills the custom palette `palette_name` with its
    /// command's output, when it has a command.
    pub fn custom_palette_request(&self, palette_name: &str) -> (out: Option<HostCommand>)
        ensures
            self.user_config.custom_palettes@.contains_key(palette_name@)
                && self.user_config.custom_palettes@[palette_name@].command is Some ==> (out is Some
                && is_palette_request(
                out->0,
                palette_name@,
                self.user_config.custom_palettes@[palette_name@].command->0,
            )),
            !(self.user_config.custom_palettes@.contains_key(palette_name@)
                && self.user_config.custom_palettes@[palette_name@].command is Some) ==> out is None,
    {
        let custom_palette = match self.user_config.custom_palettes.get(palette_name) {
            Some(p) => p,
            None => return None,
        };
        match &custom_palette.command {
            Some(command) => Some(
                HostCommand::RunPaletteCommand {
                    palette: palette_name.to_owned(),
                    command: command.clone(),
                },
            ),
            None => None,
        }
    }

    /// Opens `palette` on top of the current one; a custom palette also asks
    /// for its command's output.
    pub fn push_palette(&mut self, palette: ActivePalette) -> (out: Vec<HostCommand>)
        ensures
            pushed(*old(self), palette, *final(self)),
            match palette {
                ActivePalette::Custom(name) => match (
                    old(self).user_config.custom_palettes@.contains_key(name@),
                    out@,
                ) {
                    (true, cmds) => match old(self).user_config.custom_palettes@[name@].command {
                        Some(c) => cmds.len() == 1 && is_palette_request(cmds[0], name@, c),
                        None => cmds.len() == 0,
                    },
                    (false, cmds) => cmds.len() == 0,
                },
                ActivePalette::BuiltIn(_) => out@.len() == 0,
            },
    {
        let previous_palette = match &self.active_palette {
            Some(p) => p.duplicate(),
            None => ActivePalette::BuiltIn(PaletteId::Commands),
        };
        let previous = PaletteSnapshot {
            active_palette: previous_palette,
            query: self.query.clone(),
            selected: self.selected,
        };
        self.stack.push(previous);
        let request = match &palette {
            ActivePalette::Custom(name) => self.custom_palette_request(name.as_str()),
            ActivePalette::BuiltIn(_) => None,
        };
        self.active_palette = Some(palette);
        self.query = String::new();
        self.selected = 0;
        match request {
            Some(cmd) => vec![cmd],
            None => Vec::new(),
        }
    }
}

/// Opening a palette and then stepping back returns to the palette, query
/// and selection one came from, with the same stack of earlier palettes.
pub proof fn law_back_undoes_open(
    start: PaletteState,
    palette: ActivePalette,
    opened: PaletteState,
    back: PaletteState,
    closes: bool,
)
    requires
        pushed(start, palette, opened),
        went_back(opened, back, closes),
    ensures
        !closes,
        back.active_palette == Some(current_palette(start)),
        back.query == start.query,
        back.selected == start.selected,
        back.stack@ == start.stack@,
        others_same(start, back),
{
    assert(opened.stack@.drop_last() =~= start.stack@);
}

/// Stepping back never closes the palette while a query is typed or an
/// earlier palette is open; with neither, it closes and changes nothing.
pub proof fn law_back_closes_only_at_root(before: PaletteState, after: PaletteState, closes: bool)
    requires
        went_back(before, after, closes),
    ensures
        closes <==> (before.query@.len() == 0 && before.stack@.len() == 0),
        closes ==> after.query == before.query && after.selected == before.selected
            && after.active_palette == before.active_palette && after.stack@ == before.stack@,
{
}

/// The pane the palette was opened from.
pub open spec fn caller_of(state: PaletteState) -> Option<PaneTarget> {
    caller_spec(state.sessions@, state.own_client_id, state.own_plugin_id)
}

/// The command palette's base entries for this state.
pub open spec fn base_of(state: PaletteState) -> Seq<PaletteItemView> {
    base_items_spec(
        caller_of(state),
        state.caller_cwd,
        match current_tab_id_spec(state.sessions@) {
            Some(t) => t,
            None => 0,
        },
        items_view(state.user_config.commands@),
    )
}

/// `pre` are the entries of the palette on screen, before the overlays.
pub open spec fn palette_base(state: PaletteState, pre: Seq<PaletteItemView>) -> bool {
    match current_palette(state) {
        ActivePalette::BuiltIn(PaletteId::Commands) => pre == command_items_spec(
            base_of(state),
            state.user_config.hidden_titles@,
            opt_view(state.root_category),
        ),
        ActivePalette::BuiltIn(PaletteId::FindPane) => pre == find_pane_spec(
            state.sessions@,
            state.own_plugin_id,
        ),
        ActivePalette::BuiltIn(PaletteId::Sessions) => pre == session_items_spec(state.sessions@),
        ActivePalette::BuiltIn(PaletteId::MovePane) => pre == move_pane_spec(
            state.sessions@,
            caller_of(state),
        ),
        ActivePalette::BuiltIn(PaletteId::Themes) => theme_items_shape(
            pre,
            state.user_config.theme_names@,
        ),
        ActivePalette::BuiltIn(PaletteId::Custom) => pre.len() == 0,
        ActivePalette::Custom(name) => pre == custom_items_spec(
            name@,
            state.user_config.custom_palettes@,
            state.command_results@,
            base_of(state),
            state.caller_cwd,
        ),
    }
}

/// The rows shown while permissions are not granted.
pub open spec fn placeholder_views(permission: PermissionState) -> Seq<PaletteItemView> {
    match permission {
        PermissionState::Pending => seq![group_spec("Waiting for plugin permissions"@)],
        PermissionState::Denied => seq![group_spec("Permissions denied"@)],
        PermissionState::Granted => Seq::empty(),
    }
}

/// Items with the user's shortcut and alias overlays applied.
pub open spec fn overlaid(
    items: Seq<PaletteItemView>,
    shortcuts: Map<Seq<char>, String>,
    aliases: Map<Seq<char>, Vec<String>>,
) -> Seq<PaletteItemView> {
    items.map_values(|it: PaletteItemView| overridden_spec(it, shortcuts, aliases))
}

/// `out` is what the palette on screen lists before any query: the
/// placeholder while permissions are not granted; else its entries with the
/// user's overlays.
pub open spec fn shows(state: PaletteState, out: Seq<PaletteItemView>) -> bool {
    if state.permission_state != PermissionState::Granted {
        out == placeholder_views(state.permission_state)
    } else {
        exists|pre: Seq<PaletteItemView>|
            palette_base(state, pre) && out == overlaid(
                pre,
                state.user_config.shortcut_overrides@,
                state.user_config.alias_overrides@,
            )
    }
}

/// The selectable items, in order.
pub open spec fn selectable_only(items: Seq<PaletteItem>) -> Seq<PaletteItem>
    decreases items.len(),
{
    if items.len() == 0 {
        Seq::empty()
    } else {
        let rest = selectable_only(items.drop_last());
        if items.last().selectable {
            rest.push(items.last())
        } else {
            rest
        }
    }
}

/// `out` is the list left of `all` by `query`: everything while the query
/// has no word; else the selectable items that match every word, best first
/// (`None` where scoring them would not stay within `usize`).
pub open spec fn filtered(all: Seq<PaletteItem>, query: Seq<char>, out: Option<Seq<PaletteItem>>) -> bool {
    if words(query).len() == 0 {
        out == Some(all)
    } else {
        let sel = selectable_only(all);
        let fits = forall|k: int| 0 <= k < sel.len() ==> item_fits(#[trigger] sel[k]@, words(query));
        match out {
            None => !fits,
            Some(v) => fits && exists|order: Seq<int>|
                {
                    &&& is_ranking(items_view(sel), words(query), order)
                    &&& order.len() == v.len()
                    &&& forall|k: int| 0 <= k < order.len() ==> #[trigger] v[k]@ == sel[order[k]]@
                },
        }
    }
}

/// `out` is the visible list of the state.
pub open spec fn visible_of(state: PaletteState, out: Option<Seq<PaletteItem>>) -> bool {
    exists|all: Seq<PaletteItem>| shows(state, items_view(all)) && filtered(all, state.query@, out)
}

/// `after` is `before` with the selection repaired for the visible list:
/// kept when it names a selectable row, else the first selectable row.
pub open spec fn selection_repaired(before: PaletteState, after: PaletteState) -> bool {
    &&& others_same(before, after)
    &&& after.query == before.query
    &&& after.active_palette == before.active_palette
    &&& after.stack == before.stack
    &&& exists|v: Option<Seq<PaletteItem>>|
        visible_of(before, v) && after.selected == match v {
            Some(items) => normalize_selection_spec(items, before.selected as int),
            None => before.selected as int,
        }
}

/// An optional list taken as a sequence.
pub open spec fn opt_seq(v: Option<Vec<PaletteItem>>) -> Option<Seq<PaletteItem>> {
    match v {
        Some(v) => Some(v@),
        None => None,
    }
}

/// Number of rows above the list.
pub const LIST_START_ROW: usize = 3;

/// Number of rows below the list.
pub const FOOTER_ROWS: usize = 2;

/// The number of list rows in a pane of `rows` rows: what the header and
/// footer leave, and at least one.
pub open spec fn list_rows_spec(rows: int) -> int {
    let left = rows - (LIST_START_ROW + FOOTER_ROWS);
    if left >= 1 {
        left
    } else {
        1
    }
}

/// The number of list rows in a pane of `rows` rows.
pub fn list_rows(rows: usize) -> (out: usize)
    ensures
        out == list_rows_spec(rows as int),
{
    let left = rows.saturating_sub(LIST_START_ROW + FOOTER_ROWS);
    if left >= 1 {
        left
    } else {
        1
    }
}

fn keep_selectable(items: &Vec<PaletteItem>) -> (out: Vec<PaletteItem>)
    ensures
        items_view(out@) == items_view(selectable_only(items@)),
{
    let mut out: Vec<PaletteItem> = Vec::new();
    let mut i: usize = 0;
    while i < items.len()
        invariant
            i <= items@.len(),
            items_view(out@) == items_view(selectable_only(items@.take(i as int))),
        decreases items@.len() - i,
    {
        proof {
            assert(items@.take(i + 1).drop_last() == items@.take(i as int));
            assert(items@.take(i + 1).last() == items@[i as int]);
        }
        if items[i].selectable {
            let ghost before = out@;
            out.push(items[i].duplicate());
            proof {
                assert(items_view(out@) =~= items_view(before).push(items@[i as int]@));
                assert(items_view(selectable_only(items@.take(i + 1))) =~= items_view(
                    selectable_only(items@.take(i as int)),
                ).push(items@[i as int]@));
            }
        }
        i = i + 1;
    }
    proof {
        assert(items@.take(items@.len() as int) == items@);
    }
    out
}

impl PaletteState {
    fn base_commands(&self) -> (out: Vec<PaletteItem>)
        ensures
            items_view(out@) == base_of(*self),
    {
        let caller = caller_pane_target(self.sessions.as_slice(), self.own_client_id, self.own_plugin_id);
        let tab_id = match current_tab_id(self.sessions.as_slice()) {
            Some(t) => t,
            None => 0,
        };
        command_palette_base_items(caller, &self.caller_cwd, tab_id, self.user_config.commands.as_slice())
    }

    /// What the palette on screen lists before any query.
    pub fn palette_items(&self) -> (out: Vec<PaletteItem>)
        ensures
            shows(*self, items_view(out@)),
    {
        if self.permission_state != PermissionState::Granted {
            let out = permission_placeholder_items(self.permission_state);
            proof {
                assert(items_view(out@) =~= placeholder_views(self.permission_state));
            }
            return out;
        }
        let palette = match &self.active_palette {
            Some(p) => p.duplicate(),
            None => ActivePalette::BuiltIn(PaletteId::Commands),
        };
        let items = match palette {
            ActivePalette::BuiltIn(PaletteId::Commands) => {
                let root: Option<&str> = match &self.root_category {
                    Some(c) => Some(c.as_str()),
                    None => None,
                };
                command_palette_items(self.base_commands(), &self.user_config.hidden_titles, root)
            },
            ActivePalette::BuiltIn(PaletteId::FindPane) => find_pane_items(
                self.sessions.as_slice(),
                self.own_plugin_id,
            ),
            ActivePalette::BuiltIn(PaletteId::Sessions) => session_items(self.sessions.as_slice()),
            ActivePalette::BuiltIn(PaletteId::MovePane) => move_pane_items(
                self.sessions.as_slice(),
                caller_pane_target(self.sessions.as_slice(), self.own_client_id, self.own_plugin_id),
            ),
            ActivePalette::BuiltIn(PaletteId::Themes) => theme_items(
                self.user_config.theme_names.as_slice(),
            ),
            ActivePalette::BuiltIn(PaletteId::Custom) => Vec::new(),
            ActivePalette::Custom(name) => {
                let base = self.base_commands();
                custom_palette_items(
                    name.as_str(),
                    &self.user_config.custom_palettes,
                    &self.command_results,
                    base.as_slice(),
                    &self.caller_cwd,
                )
            },
        };
        let ghost pre = items_view(items@);
        let out = apply_item_overrides(
            items,
            &self.user_config.shortcut_overrides,
            &self.user_config.alias_overrides,
        );
        proof {
            assert(palette_base(*self, pre));
            assert(items_view(out@) =~= overlaid(
                pre,
                self.user_config.shortcut_overrides@,
                self.user_config.alias_overrides@,
            ));
        }
        out
    }

    /// The list on screen: the palette's items, narrowed and ranked by the
    /// query; `None` where ranking them would not stay within `usize`.
    pub fn visible_items(&self) -> (out: Option<Vec<PaletteItem>>)
        ensures
            visible_of(*self, opt_seq(out)),
    {
        let items = self.palette_items();
        let parts = split_words(self.query.as_str());
        if parts.len() == 0 {
            proof {
                assert(filtered(items@, self.query@, Some(items@)));
            }
            return Some(items);
        }
        let selectable = keep_selectable(&items);
        let out = try_filter_items(selectable.as_slice(), self.query.as_str());
        proof {
            let sel = selectable_only(items@);
            assert(items_view(selectable@) == items_view(sel));
            assert forall|k: int| 0 <= k < sel.len() implies #[trigger] sel[k]@ == selectable@[k]@ by {
                assert(items_view(selectable@)[k] == items_view(sel)[k]);
            }
            assert(words(self.query@).len() > 0);
            let fits_sel = forall|k: int|
                0 <= k < sel.len() ==> item_fits(#[trigger] sel[k]@, words(self.query@));
            let fits_exec = forall|k: int|
                0 <= k < selectable@.len() ==> item_fits(#[trigger] selectable@[k]@, words(self.query@));
            assert(fits_sel == fits_exec) by {
                if fits_exec {
                    assert forall|k: int| 0 <= k < sel.len() implies item_fits(
                        #[trigger] sel[k]@,
                        words(self.query@),
                    ) by {
                        assert(sel[k]@ == selectable@[k]@);
                    }
                }
                if fits_sel {
                    assert forall|k: int| 0 <= k < selectable@.len() implies item_fits(
                        #[trigger] selectable@[k]@,
                        words(self.query@),
                    ) by {
                        assert(sel[k]@ == selectable@[k]@);
                    }
                }
            }
            if out is Some {
                let v = out->0@;
                let order = choose|order: Seq<int>|
                    {
                        &&& is_ranking(items_view(selectable@), words(self.query@), order)
                        &&& order.len() == v.len()
                        &&& forall|k: int|
                            0 <= k < order.len() ==> #[trigger] v[k]@ == selectable@[order[k]]@
                    };
                assert(forall|k: int| 0 <= k < order.len() ==> #[trigger] v[k]@ == sel[order[k]]@);
            }
            assert(filtered(items@, self.query@, opt_seq(out)));
        }
        out
    }

    /// Repairs the selection so that it names a selectable visible row.
    pub fn ensure_selection(&mut self)
        ensures
            selection_repaired(*old(self), *final(self)),
    {
        let visible = self.visible_items();
        match visible {
            Some(items) => {
                self.selected = normalize_selection(items.as_slice(), self.selected);
            },
            None => {},
        }
    }
}

/// `after` differs from `before` in the selection alone.
pub open spec fn only_selection_changed(before: PaletteState, after: PaletteState) -> bool {
    &&& others_same(before, after)
    &&& after.query == before.query
    &&& after.active_palette == before.active_palette
    &&& after.stack == before.stack
}

/// The selection after a move by `delta` over the visible list `visible`:
/// unchanged when there is no list (or one too long to index with `isize`).
pub open spec fn moved_selection(visible: Option<Seq<PaletteItem>>, selected: usize, delta: int) -> int {
    match visible {
        Some(items) => if items.len() <= isize::MAX {
            next_selectable_spec(items, selected as int, delta)
        } else {
            selected as int
        },
        None => selected as int,
    }
}

/// The row a click on screen line `line` lands on: the row shown there, if
/// it is selectable.
pub open spec fn clicked_row(items: Seq<PaletteItem>, selected: usize, last_rows: usize, line: int) -> Option<
    int,
> {
    if items.len() == 0 || line < LIST_START_ROW || last_rows == 0 {
        None
    } else {
        let start = list_offset_spec(
            selected as int,
            items.len() as int,
            list_rows_spec(last_rows as int),
        );
        let index = start + (line - LIST_START_ROW);
        if index < items.len() && items[index].selectable {
            Some(index)
        } else {
            None
        }
    }
}

/// The host's reference to a target pane.
pub open spec fn pane_ref_spec(target: PaneTarget) -> PaneRef {
    if target.is_plugin {
        PaneRef::Plugin(target.pane_id)
    } else {
        PaneRef::Terminal(target.pane_id)
    }
}

/// The target lives in the current session.
pub open spec fn in_current_session(sessions: Seq<SessionSummary>, target: PaneTarget) -> bool {
    match current_index(sessions) {
        Some(k) => sessions[k].name@ == target.session_name@,
        None => false,
    }
}

/// The KDL fragment that selects the theme called `name`.
pub open spec fn theme_config(name: Seq<char>) -> Seq<char> {
    "theme \""@ + escape_seq(name) + "\""@
}

/// The command that runs a shell command: in a floating pane, or in the
/// background.
pub open spec fn shell_command(
    command: CommandAction,
    floating: bool,
    coordinates: Option<PopupCoordinates>,
) -> HostCommand {
    if floating {
        HostCommand::OpenFloatingCommand { command: command.command, cwd: command.cwd, coordinates }
    } else {
        HostCommand::RunInBackground { command: command.command, cwd: command.cwd }
    }
}

/// One command, then closing the palette.
pub open spec fn then_close(cmd: HostCommand) -> Seq<HostCommand> {
    seq![cmd, HostCommand::Close]
}

/// `cmds` are what an action that does not open a palette asks of the host
/// in `state`: nothing for `Noop`; otherwise its request, then closing.
pub open spec fn host_commands(state: PaletteState, action: PaletteAction, cmds: Seq<HostCommand>) -> bool {
    match action {
        PaletteAction::FocusPane(t) => if in_current_session(state.sessions@, t) {
            cmds == then_close(HostCommand::FocusPane(pane_ref_spec(t)))
        } else {
            cmds == then_close(
                HostCommand::SwitchSessionWithFocus {
                    session_name: t.session_name,
                    tab_position: t.tab_position,
                    pane_id: t.pane_id,
                    is_plugin: t.is_plugin,
                },
            )
        },
        PaletteAction::MovePaneToNewTab(t) => cmds == then_close(
            HostCommand::BreakPaneToNewTab(pane_ref_spec(t)),
        ),
        PaletteAction::MovePaneToTab { source, target_tab_id } => cmds == then_close(
            HostCommand::BreakPaneToTab { pane: pane_ref_spec(source), tab_id: target_tab_id },
        ),
        PaletteAction::SplitRight => cmds == then_close(
            HostCommand::NewTiledPane {
                direction: SplitDirection::Right,
                tab_id: current_tab_id_spec(state.sessions@),
            },
        ),
        PaletteAction::SplitDown => cmds == then_close(
            HostCommand::NewTiledPane {
                direction: SplitDirection::Down,
                tab_id: current_tab_id_spec(state.sessions@),
            },
        ),
        PaletteAction::ToggleFocusedPaneFullscreen(t) => cmds == then_close(
            HostCommand::ToggleFullscreen(pane_ref_spec(t)),
        ),
        PaletteAction::ToggleFocusedPaneEmbedOrFloat(t) => cmds == then_close(
            HostCommand::ToggleEmbedOrFloat(pane_ref_spec(t)),
        ),
        PaletteAction::ClosePane(t) => cmds == then_close(HostCommand::ClosePane(pane_ref_spec(t))),
        PaletteAction::NewTab { cwd } => cmds == then_close(HostCommand::NewTab { cwd }),
        PaletteAction::NextTab => cmds == then_close(HostCommand::NextTab),
        PaletteAction::PreviousTab => cmds == then_close(HostCommand::PreviousTab),
        PaletteAction::CloseTab { tab_id } => cmds == then_close(HostCommand::CloseTab { tab_id }),
        PaletteAction::SwitchSession { session_name } => cmds == then_close(
            HostCommand::SwitchSession { session_name },
        ),
        PaletteAction::Detach => cmds == then_close(HostCommand::Detach),
        PaletteAction::Theme(ThemeAction::Toggle) => cmds == then_close(HostCommand::ToggleTheme),
        PaletteAction::Theme(ThemeAction::SetDark) => cmds == then_close(HostCommand::SetDarkTheme),
        PaletteAction::Theme(ThemeAction::SetLight) => cmds == then_close(HostCommand::SetLightTheme),
        PaletteAction::Theme(ThemeAction::SetNamed(name)) => {
            &&& cmds.len() == 2
            &&& cmds[1] == HostCommand::Close
            &&& match cmds[0] {
                HostCommand::Reconfigure { config } => config@ == theme_config(name@),
                _ => false,
            }
        },
        PaletteAction::RunShell(command) => cmds == then_close(shell_command(command, false, None)),
        PaletteAction::OpenCommandPane { command, coordinates, floating } => cmds == then_close(
            shell_command(command, floating, coordinates),
        ),
        _ => cmds.len() == 0,
    }
}

/// `after` and `cmds` are what performing `action` in `before` gives: a
/// palette opened on top (asking for a custom palette's command output), or
/// the state unchanged and the action's requests to the host.
pub open spec fn executes(
    before: PaletteState,
    action: PaletteAction,
    after: PaletteState,
    cmds: Seq<HostCommand>,
) -> bool {
    match action {
        PaletteAction::OpenPalette(id) => pushed(before, ActivePalette::BuiltIn(id), after)
            && cmds.len() == 0,
        PaletteAction::OpenCustomPalette(name) => {
            &&& pushed(before, ActivePalette::Custom(name), after)
            &&& if before.user_config.custom_palettes@.contains_key(name@)
                && before.user_config.custom_palettes@[name@].command is Some {
                cmds.len() == 1 && is_palette_request(
                    cmds[0],
                    name@,
                    before.user_config.custom_palettes@[name@].command->0,
                )
            } else {
                cmds.len() == 0
            }
        },
        _ => after == before && host_commands(before, action, cmds),
    }
}

/// `after` and `cmds` are what activating the selected row of `before`
/// gives.
pub open spec fn activated(before: PaletteState, after: PaletteState, cmds: Seq<HostCommand>) -> bool {
    exists|v: Option<Seq<PaletteItem>>|
        visible_of(before, v) && match v {
            Some(items) => if before.selected < items.len() {
                executes(before, items[before.selected as int].action, after, cmds)
            } else {
                after == before && cmds.len() == 0
            },
            None => after == before && cmds.len() == 0,
        }
}

/// `after` is `before` with the selection moved by `delta`.
pub open spec fn selection_moved(before: PaletteState, delta: int, after: PaletteState) -> bool {
    &&& only_selection_changed(before, after)
    &&& exists|v: Option<Seq<PaletteItem>>|
        visible_of(before, v) && after.selected == moved_selection(v, before.selected, delta)
}

/// `after` is `before` with a click on screen line `line` selecting the
/// row shown there, if it is selectable.
pub open spec fn line_selected(before: PaletteState, line: int, after: PaletteState) -> bool {
    &&& only_selection_changed(before, after)
    &&& exists|v: Option<Seq<PaletteItem>>|
        visible_of(before, v) && after.selected == match v {
            Some(items) => match clicked_row(items, before.selected, before.last_rows, line) {
                Some(i) => i,
                None => before.selected as int,
            },
            None => before.selected as int,
        }
}

impl PaletteState {
    /// Moves the selection one selectable row up (`-1`) or down (`1`),
    /// wrapping around.
    pub(crate) fn move_selection(&mut self, delta: isize)
        requires
            delta == 1 || delta == -1,
        ensures
            selection_moved(*old(self), delta as int, *final(self)),
    {
        let visible = self.visible_items();
        match visible {
            Some(items) => {
                if items.len() <= isize::MAX as usize {
                    proof {
                        lemma_selectable_len(items@);
                        lemma_position_of_bound(selectable_positions(items@), self.selected as int);
                    }
                    self.selected = next_selectable(items.as_slice(), self.selected, delta);
                }
            },
            None => {},
        }
    }

    /// Selects the row shown on screen line `line`, if it is selectable.
    pub fn select_line(&mut self, line: isize)
        ensures
            line_selected(*old(self), line as int, *final(self)),
    {
        let visible = match self.visible_items() {
            Some(v) => v,
            None => {
                return;
            },
        };
        if visible.len() == 0 || line < LIST_START_ROW as isize || self.last_rows == 0 {
            return;
        }
        let max_rows = list_rows(self.last_rows);
        let start = list_offset(self.selected, visible.len(), max_rows);
        let relative = (line as usize) - LIST_START_ROW;
        match start.checked_add(relative) {
            Some(index) => {
                if index < visible.len() && visible[index].selectable {
                    self.selected = index;
                }
            },
            None => {},
        }
    }

    /// Performs a palette action: opens a palette, or hands the host the
    /// requests that carry the action out, closing the palette after them.
    pub fn execute_action(&mut self, action: PaletteAction) -> (out: Vec<HostCommand>)
        ensures
            executes(*old(self), action, *final(self), out@),
    {
        match action {
            PaletteAction::Noop => Vec::new(),
            PaletteAction::OpenPalette(palette_id) => self.push_palette(
                ActivePalette::BuiltIn(palette_id),
            ),
            PaletteAction::OpenCustomPalette(name) => self.push_palette(ActivePalette::Custom(name)),
            PaletteAction::FocusPane(target) => {
                let plan = plan_focus_pane(current_session_name(self.sessions.as_slice()), &target);
                let cmd = match plan {
                    FocusPanePlan::CurrentSession { .. } => HostCommand::FocusPane(pane_ref(&target)),
                    FocusPanePlan::OtherSession { session_name, tab_position, pane_id, is_plugin } => {
                        HostCommand::SwitchSessionWithFocus {
                            session_name,
                            tab_position,
                            pane_id,
                            is_plugin,
                        }
                    },
                };
                vec![cmd, HostCommand::Close]
            },
            PaletteAction::MovePaneToNewTab(source) => vec![
                HostCommand::BreakPaneToNewTab(pane_ref(&source)),
                HostCommand::Close,
            ],
            PaletteAction::MovePaneToTab { source, target_tab_id } => vec![
                HostCommand::BreakPaneToTab { pane: pane_ref(&source), tab_id: target_tab_id },
                HostCommand::Close,
            ],
            PaletteAction::SplitRight => vec![
                HostCommand::NewTiledPane {
                    direction: SplitDirection::Right,
                    tab_id: current_tab_id(self.sessions.as_slice()),
                },
                HostCommand::Close,
            ],
            PaletteAction::SplitDown => vec![
                HostCommand::NewTiledPane {
                    direction: SplitDirection::Down,
                    tab_id: current_tab_id(self.sessions.as_slice()),
                },
                HostCommand::Close,
            ],
            PaletteAction::ToggleFocusedPaneFullscreen(target) => vec![
                HostCommand::ToggleFullscreen(pane_ref(&target)),
                HostCommand::Close,
            ],
            PaletteAction::ToggleFocusedPaneEmbedOrFloat(target) => vec![
                HostCommand::ToggleEmbedOrFloat(pane_ref(&target)),
                HostCommand::Close,
            ],
            PaletteAction::ClosePane(target) => vec![
                HostCommand::ClosePane(pane_ref(&target)),
                HostCommand::Close,
            ],
            PaletteAction::NewTab { cwd } => vec![HostCommand::NewTab { cwd }, HostCommand::Close],
            PaletteAction::NextTab => vec![HostCommand::NextTab, HostCommand::Close],
            PaletteAction::PreviousTab => vec![HostCommand::PreviousTab, HostCommand::Close],
            PaletteAction::CloseTab { tab_id } => vec![
                HostCommand::CloseTab { tab_id },
                HostCommand::Close,
            ],
            PaletteAction::SwitchSession { session_name } => vec![
                HostCommand::SwitchSession { session_name },
                HostCommand::Close,
            ],
            PaletteAction::Detach => vec![HostCommand::Detach, HostCommand::Close],
            PaletteAction::Theme(theme_action) => {
                let cmd = match theme_action {
                    ThemeAction::Toggle => HostCommand::ToggleTheme,
                    ThemeAction::SetDark => HostCommand::SetDarkTheme,
                    ThemeAction::SetLight => HostCommand::SetLightTheme,
                    ThemeAction::SetNamed(name) => {
                        let mut config = String::new();
                        append_str(&mut config, "theme \"");
                        let escaped = escape_kdl_string(name.as_str());
                        append_str(&mut config, escaped.as_str());
                        append_str(&mut config, "\"");
                        proof {
                            assert(config@ =~= theme_config(name@));
                        }
                        HostCommand::Reconfigure { config }
                    },
                };
                vec![cmd, HostCommand::Close]
            },
            PaletteAction::RunShell(command) => vec![
                HostCommand::RunInBackground { command: command.command, cwd: command.cwd },
                HostCommand::Close,
            ],
            PaletteAction::OpenCommandPane { command, coordinates, floating } => {
                let cmd = if floating {
                    HostCommand::OpenFloatingCommand {
                        command: command.command,
                        cwd: command.cwd,
                        coordinates,
                    }
                } else {
                    HostCommand::RunInBackground { command: command.command, cwd: command.cwd }
                };
                vec![cmd, HostCommand::Close]
            },
        }
    }

    /// Performs the action of the selected visible row, if there is one.
    pub fn activate_selected(&mut self) -> (out: Vec<HostCommand>)
        ensures
            activated(*old(self), *final(self), out@),
    {
        let visible = self.visible_items();
        let item = match &visible {
            Some(items) => {
                if self.selected < items.len() {
                    items[self.selected].duplicate()
                } else {
                    return Vec::new();
                }
            },
            None => {
                return Vec::new();
            },
        };
        self.execute_action(item.action)
    }
}

/// A key as the palette tells keys apart.
#[derive(Clone, Copy, Debug, PartialEq, Eq, Structural)]
pub enum KeyName {
    Char(char),
    Backspace,
    Esc,
    Up,
    Down,
    Enter,
    Other,
}

/// A key press: the key, whether no modifier was held, and whether Ctrl was.
#[derive(Clone, Copy, Debug, PartialEq, Eq, Structural)]
pub struct KeyInput {
    pub key: KeyName,
    pub no_modifiers: bool,
    pub ctrl: bool,
}

/// A mouse event, with the screen line it happened on.
#[derive(Clone, Copy, Debug, PartialEq, Eq, Structural)]
pub enum MouseInput {
    ScrollUp,
    ScrollDown,
    LeftClick(isize),
    Hover(isize),
    Other,
}

/// `after` is `before` with `c` typed: the query grows by `c` and the
/// selection goes back to the first row.
pub open spec fn typed(before: PaletteState, c: char, after: PaletteState) -> bool {
    &&& others_same(before, after)
    &&& after.active_palette == before.active_palette
    &&& after.stack == before.stack
    &&& after.query@ == before.query@.push(c)
    &&& after.selected == 0
}

/// `after` is `before` with the last typed character erased, if any, and
/// the selection back to the first row.
pub open spec fn erased(before: PaletteState, after: PaletteState) -> bool {
    &&& others_same(before, after)
    &&& after.active_palette == before.active_palette
    &&& after.stack == before.stack
    &&& after.query@ == if before.query@.len() > 0 {
        before.query@.drop_last()
    } else {
        before.query@
    }
    &&& after.selected == 0
}

/// Whether a key asks to step back: Esc, or Ctrl-C.
pub open spec fn is_back_key(key: KeyInput) -> bool {
    (key.no_modifiers && key.key == KeyName::Esc) || (key.ctrl && key.key == KeyName::Char('c'))
}

/// Whether a key moves the selection up: the Up arrow, or Ctrl-P.
pub open spec fn is_up_key(key: KeyInput) -> bool {
    (key.no_modifiers && key.key == KeyName::Up) || (key.ctrl && key.key == KeyName::Char('p'))
}

/// Whether a key moves the selection down: the Down arrow, or Ctrl-N.
pub open spec fn is_down_key(key: KeyInput) -> bool {
    (key.no_modifiers && key.key == KeyName::Down) || (key.ctrl && key.key == KeyName::Char('n'))
}

/// `after`, `handled` and `cmds` are what pressing `key` in `before` gives.
/// A plain character is typed; Backspace erases; Esc or Ctrl-C step back;
/// Up/Ctrl-P and Down/Ctrl-N move the selection; Enter activates the
/// selected row; any other key is not handled and changes nothing.
pub open spec fn key_handled(
    before: PaletteState,
    key: KeyInput,
    after: PaletteState,
    handled: bool,
    cmds: Seq<HostCommand>,
) -> bool {
    if key.no_modifiers && key.key is Char {
        handled && cmds.len() == 0 && typed(before, key.key->0, after)
    } else if key.no_modifiers && key.key == KeyName::Backspace {
        handled && cmds.len() == 0 && erased(before, after)
    } else if is_back_key(key) {
        &&& handled
        &&& went_back(before, after, cmds.len() > 0)
        &&& cmds.len() > 0 ==> cmds == seq![HostCommand::Close]
    } else if is_up_key(key) {
        handled && cmds.len() == 0 && selection_moved(before, -1, after)
    } else if is_down_key(key) {
        handled && cmds.len() == 0 && selection_moved(before, 1, after)
    } else if key.no_modifiers && key.key == KeyName::Enter {
        handled && activated(before, after, cmds)
    } else {
        !handled && after == before && cmds.len() == 0
    }
}

/// `after`, `handled` and `cmds` are what mouse event `mouse` in `before`
/// gives: scrolling moves the selection; a click selects the row under it
/// and activates the selection; hovering over the list selects the row
/// under the pointer.
pub open spec fn mouse_handled(
    before: PaletteState,
    mouse: MouseInput,
    after: PaletteState,
    handled: bool,
    cmds: Seq<HostCommand>,
) -> bool {
    match mouse {
        MouseInput::ScrollUp => handled && cmds.len() == 0 && selection_moved(before, -1, after),
        MouseInput::ScrollDown => handled && cmds.len() == 0 && selection_moved(before, 1, after),
        MouseInput::LeftClick(line) => handled && exists|mid: PaletteState|
            line_selected(before, line as int, mid) && activated(mid, after, cmds),
        MouseInput::Hover(line) => if line >= LIST_START_ROW {
            handled && cmds.len() == 0 && line_selected(before, line as int, after)
        } else {
            !handled && after == before && cmds.len() == 0
        },
        MouseInput::Other => !handled && after == before && cmds.len() == 0,
    }
}

impl PaletteState {
    /// Handles a key press; the flag says whether the key was handled.
    pub fn handle_key(&mut self, key: KeyInput) -> (out: (bool, Vec<HostCommand>))
        ensures
            key_handled(*old(self), key, *final(self), out.0, out.1@),
    {
        let plain = key.no_modifiers;
        let ctrl = key.ctrl;
        if let KeyName::Char(c) = key.key {
            if plain {
                push_char(&mut self.query, c);
                self.selected = 0;
                return (true, Vec::new());
            }
        }
        if plain && key.key == KeyName::Backspace {
            self.query = without_last_char(self.query.as_str());
            self.selected = 0;
            return (true, Vec::new());
        }
        if (plain && key.key == KeyName::Esc) || (ctrl && key.key == KeyName::Char('c')) {
            return (true, self.go_back_or_close());
        }
        if (plain && key.key == KeyName::Up) || (ctrl && key.key == KeyName::Char('p')) {
            self.move_selection(-1);
            return (true, Vec::new());
        }
        if (plain && key.key == KeyName::Down) || (ctrl && key.key == KeyName::Char('n')) {
            self.move_selection(1);
            return (true, Vec::new());
        }
        if plain && key.key == KeyName::Enter {
            return (true, self.activate_selected());
        }
        (false, Vec::new())
    }

    /// Handles a mouse event; the flag says whether it was handled.
    pub fn handle_mouse(&mut self, mouse: MouseInput) -> (out: (bool, Vec<HostCommand>))
        ensures
            mouse_handled(*old(self), mouse, *final(self), out.0, out.1@),
    {
        match mouse {
            MouseInput::ScrollUp => {
                self.move_selection(-1);
                (true, Vec::new())
            },
            MouseInput::ScrollDown => {
                self.move_selection(1);
                (true, Vec::new())
            },
            MouseInput::LeftClick(line) => {
                self.select_line(line);
                let ghost mid = *self;
                let cmds = self.activate_selected();
                proof {
                    assert(line_selected(*old(self), line as int, mid));
                    assert(activated(mid, *self, cmds@));
                }
                (true, cmds)
            },
            MouseInput::Hover(line) => {
                if line >= LIST_START_ROW as isize {
                    self.select_line(line);
                    (true, Vec::new())
                } else {
                    (false, Vec::new())
                }
            },
            MouseInput::Other => (false, Vec::new()),
        }
    }
}

/// The title of the palette on screen.
pub open spec fn title_of(state: PaletteState) -> Seq<char> {
    match current_palette(state) {
        ActivePalette::BuiltIn(PaletteId::Commands) => match state.root_category {
            Some(c) => c@,
            None => "Commands"@,
        },
        ActivePalette::BuiltIn(PaletteId::FindPane) => "Find Pane"@,
        ActivePalette::BuiltIn(PaletteId::Sessions) => "Sessions"@,
        ActivePalette::BuiltIn(PaletteId::MovePane) => "Move Pane"@,
        ActivePalette::BuiltIn(PaletteId::Themes) => "Themes"@,
        ActivePalette::BuiltIn(PaletteId::Custom) => "Custom"@,
        ActivePalette::Custom(name) => name@,
    }
}

/// The text shown when the list is empty: a custom palette's own text, or
/// "No results".
pub open spec fn empty_text_of(state: PaletteState) -> Seq<char> {
    match current_palette(state) {
        ActivePalette::Custom(name) => if state.user_config.custom_palettes@.contains_key(name@)
            && state.user_config.custom_palettes@[name@].empty_text is Some {
            state.user_config.custom_palettes@[name@].empty_text->0@
        } else {
            "No results"@
        },
        _ => "No results"@,
    }
}

/// The text up to the first line feed.
pub open spec fn up_to_newline(s: Seq<char>) -> Seq<char>
    decreases s.len(),
{
    if s.len() == 0 || s[0] == '\n' {
        Seq::empty()
    } else {
        seq![s[0]] + up_to_newline(s.drop_first())
    }
}

/// The first line of `s` (`str::lines`): `None` for an empty text; else
/// the text up to the first line feed, without a carriage return that ends
/// it before that line feed.
pub open spec fn first_line(s: Seq<char>) -> Option<Seq<char>> {
    if s.len() == 0 {
        None
    } else {
        let l = up_to_newline(s);
        if l.len() < s.len() && l.len() > 0 && l.last() == '\r' {
            Some(l.drop_last())
        } else {
            Some(l)
        }
    }
}

proof fn lemma_up_to_newline(s: Seq<char>, k: int)
    requires
        0 <= k <= s.len(),
        forall|j: int| 0 <= j < k ==> s[j] != '\n',
        k == s.len() || s[k] == '\n',
    ensures
        up_to_newline(s) == s.take(k),
    decreases s.len(),
{
    if s.len() == 0 || s[0] == '\n' {
        assert(s.take(k) =~= Seq::<char>::empty());
    } else {
        lemma_up_to_newline(s.drop_first(), k - 1);
        assert(s.take(k) =~= seq![s[0]] + s.drop_first().take(k - 1));
    }
}

/// The first line of `text`.
pub fn first_line_of(text: &str) -> (out: Option<String>)
    ensures
        match out {
            Some(l) => first_line(text@) == Some(l@),
            None => first_line(text@) is None,
        },
{
    let chars = crate::text::chars_of(text);
    if chars.len() == 0 {
        return None;
    }
    let mut k: usize = 0;
    while k < chars.len() && chars[k] != '\n'
        invariant
            k <= chars@.len(),
            chars@ == text@,
            forall|j: int| 0 <= j < k ==> chars@[j] != '\n',
        decreases chars@.len() - k,
    {
        k = k + 1;
    }
    proof {
        lemma_up_to_newline(text@, k as int);
    }
    let end = if k < chars.len() && k > 0 && chars[k - 1] == '\r' {
        k - 1
    } else {
        k
    };
    let line = crate::text::slice_range(&chars, 0, end);
    proof {
        assert(chars@.subrange(0, end as int) =~= if end < k {
            text@.take(k as int).drop_last()
        } else {
            text@.take(k as int)
        });
    }
    Some(crate::text::string_from_chars(line.as_slice()))
}

/// Everything but the command outputs and the message is the same.
pub open spec fn same_but_output(a: PaletteState, b: PaletteState) -> bool {
    &&& a.own_plugin_id == b.own_plugin_id
    &&& a.own_client_id == b.own_client_id
    &&& a.query == b.query
    &&& a.selected == b.selected
    &&& a.active_palette == b.active_palette
    &&& a.stack == b.stack
    &&& a.sessions == b.sessions
    &&& a.user_config == b.user_config
    &&& a.caller_cwd == b.caller_cwd
    &&& a.root_category == b.root_category
    &&& a.permission_state == b.permission_state
    &&& a.last_rows == b.last_rows
}

/// `after` is `before` once a command has finished with `exit_code`,
/// `stdout` and `stderr`, run for the purpose `kind` on behalf of the
/// custom palette `palette`: a custom palette's successful output becomes
/// its entries and clears the message; a failure puts the first line of
/// its error output in the message; anything else changes nothing.
pub open spec fn command_result_applied(
    before: PaletteState,
    exit_code: Option<i32>,
    stdout: Seq<char>,
    stderr: Seq<char>,
    kind: Option<Seq<char>>,
    palette: Option<Seq<char>>,
    parsed_json: Option<Vec<RawPaletteItem>>,
    after: PaletteState,
) -> bool {
    if kind == Some("custom_palette"@) && palette is Some
        && before.user_config.custom_palettes@.contains_key(palette->0) {
        let name = palette->0;
        let p = before.user_config.custom_palettes@[name];
        &&& same_but_output(before, after)
        &&& if exit_code == Some(0i32) {
            &&& after.message is None
            &&& after.command_results@.dom() == before.command_results@.dom().insert(name)
            &&& forall|other: Seq<char>|
                other != name && #[trigger] before.command_results@.contains_key(other)
                    ==> after.command_results@[other] == before.command_results@[other]
            &&& parsed_as(
                after.command_results@[name]@,
                stdout,
                parsed_json,
                p.template_action,
                opt_view(p.default_icon),
                opt_view(p.default_icon_color),
            )
        } else {
            &&& after.command_results == before.command_results
            &&& after.message matches Some(m) && m@ == "Palette command failed: "@ + match first_line(
                stderr,
            ) {
                Some(l) => l,
                None => "unknown error"@,
            }
        }
    } else {
        after == before
    }
}

impl PaletteState {
    /// The title of the palette on screen.
    pub fn palette_title(&self) -> (out: String)
        ensures
            out@ == title_of(*self),
    {
        let palette = match &self.active_palette {
            Some(p) => p.duplicate(),
            None => ActivePalette::BuiltIn(PaletteId::Commands),
        };
        match palette {
            ActivePalette::BuiltIn(PaletteId::Commands) => match &self.root_category {
                Some(c) => c.clone(),
                None => "Commands".to_owned(),
            },
            ActivePalette::BuiltIn(PaletteId::FindPane) => "Find Pane".to_owned(),
            ActivePalette::BuiltIn(PaletteId::Sessions) => "Sessions".to_owned(),
            ActivePalette::BuiltIn(PaletteId::MovePane) => "Move Pane".to_owned(),
            ActivePalette::BuiltIn(PaletteId::Themes) => "Themes".to_owned(),
            ActivePalette::BuiltIn(PaletteId::Custom) => "Custom".to_owned(),
            ActivePalette::Custom(name) => name,
        }
    }

    /// The header line: the product name and the palette's title.
    pub fn header_line(&self) -> (out: String)
        ensures
            out@ == " Zellij Palette · "@ + title_of(*self) + " "@,
    {
        let mut out = String::new();
        append_str(&mut out, " Zellij Palette · ");
        let title = self.palette_title();
        append_str(&mut out, title.as_str());
        append_str(&mut out, " ");
        out
    }

    /// The search line: a prompt, the query, and a cursor.
    pub fn search_line(&self) -> (out: String)
        ensures
            out@ == "> "@ + self.query@ + "_"@,
    {
        let mut out = String::new();
        append_str(&mut out, "> ");
        append_str(&mut out, self.query.as_str());
        append_str(&mut out, "_");
        out
    }

    /// The footer's location line: the custom palette's name, or the title.
    pub fn footer_path(&self) -> (out: String)
        ensures
            out@ == match self.active_palette {
                Some(ActivePalette::Custom(name)) => "Custom palette · "@ + name@,
                _ => title_of(*self),
            },
    {
        match &self.active_palette {
            Some(ActivePalette::Custom(name)) => {
                let mut out = String::new();
                append_str(&mut out, "Custom palette · ");
                append_str(&mut out, name.as_str());
                out
            },
            _ => self.palette_title(),
        }
    }

    /// The text shown when the list is empty.
    pub fn empty_state_text(&self) -> (out: String)
        ensures
            out@ == empty_text_of(*self),
    {
        match &self.active_palette {
            Some(ActivePalette::Custom(name)) => match self.user_config.custom_palettes.get(
                name.as_str(),
            ) {
                Some(palette) => match &palette.empty_text {
                    Some(text) => text.clone(),
                    None => "No results".to_owned(),
                },
                None => "No results".to_owned(),
            },
            _ => "No results".to_owned(),
        }
    }

    /// Takes the host's new report of sessions, then repairs the selection.
    pub fn set_sessions(&mut self, sessions: Vec<SessionSummary>)
        ensures
            final(self).sessions == sessions,
            selection_repaired(PaletteState { sessions, ..*old(self) }, *final(self)),
    {
        self.sessions = sessions;
        self.ensure_selection();
    }

    /// Records that the permissions were granted; whether this is the first
    /// grant, after which the palette finishes starting up.
    pub fn grant_permissions(&mut self) -> (first: bool)
        ensures
            first == (old(self).permission_state != PermissionState::Granted),
            *final(self) == (PaletteState {
                permission_state: PermissionState::Granted,
                message: None,
                ..*old(self)
            }),
    {
        let first = self.permission_state != PermissionState::Granted;
        self.permission_state = PermissionState::Granted;
        self.message = None;
        first
    }

    /// Records that the permissions were denied.
    pub fn deny_permissions(&mut self)
        ensures
            final(self).permission_state == PermissionState::Denied,
            final(self).message matches Some(m) && m@
                == "Permissions denied; reopen the palette and allow access"@,
            *final(self) == (PaletteState {
                permission_state: PermissionState::Denied,
                message: final(self).message,
                ..*old(self)
            }),
    {
        self.permission_state = PermissionState::Denied;
        self.message = Some("Permissions denied; reopen the palette and allow access".to_owned());
    }

    /// The request that fills the custom palette the palette opened on, if
    /// it opened on one that has a command.
    pub fn startup_request(&self) -> (out: Option<HostCommand>)
        ensures
            match self.active_palette {
                Some(ActivePalette::Custom(name)) => if self.user_config.custom_palettes@.contains_key(
                    name@,
                ) && self.user_config.custom_palettes@[name@].command is Some {
                    out is Some && is_palette_request(
                        out->0,
                        name@,
                        self.user_config.custom_palettes@[name@].command->0,
                    )
                } else {
                    out is None
                },
                _ => out is None,
            },
    {
        match &self.active_palette {
            Some(ActivePalette::Custom(name)) => self.custom_palette_request(name.as_str()),
            _ => None,
        }
    }

    /// Takes the result of a command run for the palette.
    pub fn handle_run_command_result(
        &mut self,
        exit_code: Option<i32>,
        stdout: &str,
        stderr: &str,
        kind: Option<&str>,
        palette: Option<&str>,
        parsed_json: Option<Vec<RawPaletteItem>>,
    )
        ensures
            command_result_applied(
                *old(self),
                exit_code,
                stdout@,
                stderr@,
                opt_str(kind),
                opt_str(palette),
                parsed_json,
                *final(self),
            ),
    {
        let is_palette_kind = match kind {
            Some(k) => str_equal(k, "custom_palette"),
            None => false,
        };
        if !is_palette_kind {
            return;
        }
        let palette_name = match palette {
            Some(p) => p,
            None => {
                return;
            },
        };
        let custom_palette = match self.user_config.custom_palettes.get(palette_name) {
            Some(p) => p,
            None => {
                return;
            },
        };
        if exit_code == Some(0i32) {
            let template: Option<&crate::user_config::ConfigAction> = match &custom_palette.template_action {
                Some(t) => Some(t),
                None => None,
            };
            let icon: Option<&str> = match &custom_palette.default_icon {
                Some(i) => Some(i.as_str()),
                None => None,
            };
            let color: Option<&str> = match &custom_palette.default_icon_color {
                Some(c) => Some(c.as_str()),
                None => None,
            };
            let items = parse_command_palette_output(stdout, parsed_json, template, icon, color);
            let ghost parsed = items@;
            self.command_results.insert(palette_name.to_owned(), items);
            self.message = None;
            proof {
                assert(self.command_results@[palette_name@]@ == parsed);
            }
        } else {
            let mut message = String::new();
            append_str(&mut message, "Palette command failed: ");
            match first_line_of(stderr) {
                Some(line) => append_str(&mut message, line.as_str()),
                None => append_str(&mut message, "unknown error"),
            }
            self.message = Some(message);
        }
    }
}

/// Ctrl-C does what Esc does: clear the query, else go back a palette,
/// else close.
pub proof fn law_ctrl_c_is_esc(
    before: PaletteState,
    after: PaletteState,
    handled: bool,
    cmds: Seq<HostCommand>,
)
    ensures
        key_handled(
            before,
            KeyInput { key: KeyName::Esc, no_modifiers: true, ctrl: false },
            after,
            handled,
            cmds,
        ) == key_handled(
            before,
            KeyInput { key: KeyName::Char('c'), no_modifiers: false, ctrl: true },
            after,
            handled,
            cmds,
        ),
{
}

/// Ctrl-P moves the selection as Up does, and Ctrl-N as Down does.
pub proof fn law_ctrl_p_n_are_up_down(
    before: PaletteState,
    after: PaletteState,
    handled: bool,
    cmds: Seq<HostCommand>,
)
    ensures
        key_handled(
            before,
            KeyInput { key: KeyName::Up, no_modifiers: true, ctrl: false },
            after,
            handled,
            cmds,
        ) == key_handled(
            before,
            KeyInput { key: KeyName::Char('p'), no_modifiers: false, ctrl: true },
            after,
            handled,
            cmds,
        ),
        key_handled(
            before,
            KeyInput { key: KeyName::Down, no_modifiers: true, ctrl: false },
            after,
            handled,
            cmds,
        ) == key_handled(
            before,
            KeyInput { key: KeyName::Char('n'), no_modifiers: false, ctrl: true },
            after,
            handled,
            cmds,
        ),
{
}

/// Every action but `Noop` and opening a palette leaves the palette's state
/// as it was and ends by closing the palette.
pub proof fn law_actions_end_by_closing(
    before: PaletteState,
    action: PaletteAction,
    after: PaletteState,
    cmds: Seq<HostCommand>,
)
    requires
        executes(before, action, after, cmds),
        !(action is Noop),
        !(action is OpenPalette),
        !(action is OpenCustomPalette),
    ensures
        after == before,
        cmds.len() > 0,
        cmds.last() == HostCommand::Close,
{
    match action {
        PaletteAction::Theme(t) => {
            match t {
                ThemeAction::SetNamed(_) => {},
                _ => {},
            }
        },
        PaletteAction::FocusPane(t) => {
            if in_current_session(before.sessions@, t) {
            } else {
            }
        },
        _ => {},
    }
}

/// Opening a palette never closes the palette and asks the host for
/// nothing but a custom palette's command output.
pub proof fn law_opening_keeps_palette_open(
    before: PaletteState,
    action: PaletteAction,
    after: PaletteState,
    cmds: Seq<HostCommand>,
)
    requires
        executes(before, action, after, cmds),
        action is OpenPalette || action is OpenCustomPalette,
    ensures
        cmds.len() <= 1,
        forall|k: int| 0 <= k < cmds.len() ==> #[trigger] cmds[k] is RunPaletteCommand,
        after.stack@.len() == before.stack@.len() + 1,
        after.query@.len() == 0,
        after.selected == 0,
{
}

/// A command's result, as the host reports it.
#[derive(Clone, Debug)]
pub struct CommandOutcome {
    pub exit_code: Option<i32>,
    pub stdout: String,
    pub stderr: String,
    /// The purpose the command was run for.
    pub kind: Option<String>,
    /// The custom palette it was run for.
    pub palette: Option<String>,
    /// `stdout` read as a JSON array of items, when it is one.
    pub parsed_json: Option<Vec<RawPaletteItem>>,
}

/// What the host tells the palette.
#[derive(Clone, Debug)]
pub enum PaletteEvent {
    ModeUpdate,
    SessionUpdate(Vec<SessionSummary>),
    PermissionGranted,
    PermissionDenied,
    CommandResult(CommandOutcome),
    Key(KeyInput),
    Mouse(MouseInput),
    Visible(bool),
    Other,
}

/// `after`, `redraw` and `cmds` are what event `event` in `before` gives:
/// a session report is taken and the selection repaired; the first grant
/// of permissions starts the palette up; a denial is noted; a command's
/// result is taken; keys and mouse events are handled; becoming visible
/// refreshes the sessions once permissions are granted.
pub open spec fn event_handled(
    before: PaletteState,
    event: PaletteEvent,
    after: PaletteState,
    redraw: bool,
    cmds: Seq<HostCommand>,
) -> bool {
    match event {
        PaletteEvent::ModeUpdate => redraw && after == before && cmds.len() == 0,
        PaletteEvent::SessionUpdate(sessions) => {
            &&& redraw
            &&& cmds.len() == 0
            &&& after.sessions == sessions
            &&& selection_repaired(PaletteState { sessions, ..before }, after)
        },
        PaletteEvent::PermissionGranted => {
            &&& redraw
            &&& after == (PaletteState {
                permission_state: PermissionState::Granted,
                message: None,
                ..before
            })
            &&& cmds == if before.permission_state != PermissionState::Granted {
                seq![HostCommand::StartUp]
            } else {
                Seq::empty()
            }
        },
        PaletteEvent::PermissionDenied => {
            &&& redraw
            &&& cmds.len() == 0
            &&& after.permission_state == PermissionState::Denied
            &&& after.message matches Some(m) && m@
                == "Permissions denied; reopen the palette and allow access"@
            &&& after == (PaletteState {
                permission_state: PermissionState::Denied,
                message: after.message,
                ..before
            })
        },
        PaletteEvent::CommandResult(r) => {
            &&& redraw
            &&& cmds.len() == 0
            &&& command_result_applied(
                before,
                r.exit_code,
                r.stdout@,
                r.stderr@,
                opt_view(r.kind),
                opt_view(r.palette),
                r.parsed_json,
                after,
            )
        },
        PaletteEvent::Key(key) => key_handled(before, key, after, redraw, cmds),
        PaletteEvent::Mouse(mouse) => mouse_handled(before, mouse, after, redraw, cmds),
        PaletteEvent::Visible(true) => {
            &&& redraw
            &&& after == before
            &&& cmds == if before.permission_state == PermissionState::Granted {
                seq![HostCommand::RefreshSessions]
            } else {
                Seq::empty()
            }
        },
        _ => !redraw && after == before && cmds.len() == 0,
    }
}

impl PaletteState {
    /// Handles an event from the host; the flag says whether to redraw.
    pub fn update(&mut self, event: PaletteEvent) -> (out: (bool, Vec<HostCommand>))
        ensures
            event_handled(*old(self), event, *final(self), out.0, out.1@),
    {
        if let PaletteEvent::SessionUpdate(sessions) = event {
            self.set_sessions(sessions);
            return (true, Vec::new());
        }
        if let PaletteEvent::PermissionGranted = event {
            if self.grant_permissions() {
                let cmds = vec![HostCommand::StartUp];
                proof {
                    assert(cmds@ =~= seq![HostCommand::StartUp]);
                }
                return (true, cmds);
            }
            return (true, Vec::new());
        }
        if let PaletteEvent::PermissionDenied = event {
            self.deny_permissions();
            return (true, Vec::new());
        }
        if let PaletteEvent::CommandResult(r) = event {
            let kind: Option<&str> = match &r.kind {
                Some(k) => Some(k.as_str()),
                None => None,
            };
            let palette: Option<&str> = match &r.palette {
                Some(p) => Some(p.as_str()),
                None => None,
            };
            self.handle_run_command_result(
                r.exit_code,
                r.stdout.as_str(),
                r.stderr.as_str(),
                kind,
                palette,
                r.parsed_json,
            );
            return (true, Vec::new());
        }
        if let PaletteEvent::Key(key) = event {
            return self.handle_key(key);
        }
        if let PaletteEvent::Mouse(mouse) = event {
            return self.handle_mouse(mouse);
        }
        if let PaletteEvent::Visible(true) = event {
            if self.permission_state == PermissionState::Granted {
                let cmds = vec![HostCommand::RefreshSessions];
                proof {
                    assert(cmds@ =~= seq![HostCommand::RefreshSessions]);
                }
                return (true, cmds);
            }
            return (true, Vec::new());
        }
        if let PaletteEvent::ModeUpdate = event {
            return (true, Vec::new());
        }
        (false, Vec::new())
    }
}

/// Backspace takes back the character just typed: the query is as it was,
/// and the selection is on the first row.
pub proof fn law_backspace_undoes_typing(
    start: PaletteState,
    c: char,
    typed_state: PaletteState,
    back: PaletteState,
)
    requires
        typed(start, c, typed_state),
        erased(typed_state, back),
    ensures
        back.query@ == start.query@,
        back.selected == 0,
        back.active_palette == start.active_palette,
        back.stack == start.stack,
        others_same(start, back),
{
    assert(start.query@.push(c).drop_last() =~= start.query@);
}

/// The pane actions of the command palette, and the move-pane palette,
/// act on the pane the palette was opened from: the latest pane of this
/// client's history that is not the palette itself.
pub proof fn law_pane_actions_target_the_caller(state: PaletteState, target: PaneTarget)
    requires
        caller_of(state) == Some(target),
    ensures
        base_of(state)[4].action == PaletteAction::ToggleFocusedPaneFullscreen(target),
        base_of(state)[5].action == PaletteAction::ToggleFocusedPaneEmbedOrFloat(target),
        base_of(state)[6].action == PaletteAction::ClosePane(target),
        crate::session::current_index(state.sessions@) is Some ==> move_pane_spec(
            state.sessions@,
            caller_of(state),
        )[1].action == PaletteAction::MovePaneToNewTab(target),
{
    let head = crate::palettes::base_head();
    let mid = crate::palettes::caller_entries(target);
    assert(head.len() == 4);
    assert((head + mid)[4] == mid[0]);
    assert((head + mid)[5] == mid[1]);
    assert((head + mid)[6] == mid[2]);
}

} // verus!
