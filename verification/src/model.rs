//! The palette's data model: palettes, actions, and the items a palette lists.
use std::path::PathBuf;
use vstd::prelude::*;

verus! {

/// `std::path::PathBuf`, carried through the library without being inspected.
#[verifier::external_type_specification]
#[verifier::external_body]
pub struct ExPathBuf(PathBuf);

/// Calls `PathBuf::clone`; the contract claims that the copy is the same path.
#[verifier::external_body]
pub(crate) fn clone_path(path: &PathBuf) -> (out: PathBuf)
    ensures
        out == *path,
{
    path.clone()
}

/// An optional working directory, copied.
pub fn clone_cwd(cwd: &Option<PathBuf>) -> (out: Option<PathBuf>)
    ensures
        out == *cwd,
{
    match cwd {
        Some(path) => Some(clone_path(path)),
        None => None,
    }
}

/// A copy of an optional string.
pub fn clone_opt_string(value: &Option<String>) -> (out: Option<String>)
    ensures
        out == *value,
{
    match value {
        Some(s) => Some(s.clone()),
        None => None,
    }
}

/// A copy of a list of strings.
pub fn clone_strings(values: &Vec<String>) -> (out: Vec<String>)
    ensures
        out@ == values@,
{
    let mut out: Vec<String> = Vec::new();
    let mut i: usize = 0;
    while i < values.len()
        invariant
            i <= values@.len(),
            out@ == values@.take(i as int),
        decreases values@.len() - i,
    {
        out.push(values[i].clone());
        proof {
            assert(values@.take(i + 1) == values@.take(i as int).push(values@[i as int]));
        }
        i = i + 1;
    }
    proof {
        assert(values@.take(values@.len() as int) == values@);
    }
    out
}

/// The built-in palettes.
#[derive(Clone, Copy, Debug, PartialEq, Eq, Structural)]
pub enum PaletteId {
    Commands,
    FindPane,
    Sessions,
    MovePane,
    Themes,
    Custom,
}

/// What a theme entry does.
#[derive(Clone, Debug, PartialEq, Eq)]
pub enum ThemeAction {
    Toggle,
    SetDark,
    SetLight,
    SetNamed(String),
}

impl ThemeAction {
    /// A copy of this theme action.
    pub fn duplicate(&self) -> (out: Self)
        ensures
            out == *self,
    {
        match self {
            ThemeAction::Toggle => ThemeAction::Toggle,
            ThemeAction::SetDark => ThemeAction::SetDark,
            ThemeAction::SetLight => ThemeAction::SetLight,
            ThemeAction::SetNamed(name) => ThemeAction::SetNamed(name.clone()),
        }
    }
}

/// A pane addressed by session, tab and pane id.
#[derive(Clone, Debug, PartialEq, Eq)]
pub struct PaneTarget {
    pub session_name: String,
    pub tab_position: usize,
    pub tab_id: usize,
    pub pane_id: u32,
    pub is_plugin: bool,
}

impl PaneTarget {
    /// A copy of this target.
    pub fn duplicate(&self) -> (out: Self)
        ensures
            out == *self,
    {
        PaneTarget {
            session_name: self.session_name.clone(),
            tab_position: self.tab_position,
            tab_id: self.tab_id,
            pane_id: self.pane_id,
            is_plugin: self.is_plugin,
        }
    }
}

/// A shell command, with the directory it runs in.
#[derive(Clone, Debug, PartialEq, Eq)]
pub struct CommandAction {
    pub command: String,
    pub cwd: Option<PathBuf>,
}

impl CommandAction {
    /// A copy of this command.
    pub fn duplicate(&self) -> (out: Self)
        ensures
            out == *self,
    {
        CommandAction { command: self.command.clone(), cwd: clone_cwd(&self.cwd) }
    }
}

/// Placement of a floating command pane; every field is optional.
#[derive(Clone, Debug, PartialEq, Eq)]
pub struct PopupCoordinates {
    pub x: Option<String>,
    pub y: Option<String>,
    pub width: Option<String>,
    pub height: Option<String>,
    pub pinned: Option<bool>,
    pub borderless: Option<bool>,
}

impl PopupCoordinates {
    /// Coordinates from the given fields; `None` when no field is set.
    pub fn new(
        x: Option<String>,
        y: Option<String>,
        width: Option<String>,
        height: Option<String>,
        pinned: Option<bool>,
        borderless: Option<bool>,
    ) -> (out: Option<Self>)
        ensures
            out is None <==> (x is None && y is None && width is None && height is None
                && pinned is None && borderless is None),
            out matches Some(c) ==> c == (PopupCoordinates { x, y, width, height, pinned, borderless }),
    {
        if x.is_none() && y.is_none() && width.is_none() && height.is_none() && pinned.is_none()
            && borderless.is_none() {
            None
        } else {
            Some(PopupCoordinates { x, y, width, height, pinned, borderless })
        }
    }

    /// A copy of these coordinates.
    pub fn duplicate(&self) -> (out: Self)
        ensures
            out == *self,
    {
        PopupCoordinates {
            x: clone_opt_string(&self.x),
            y: clone_opt_string(&self.y),
            width: clone_opt_string(&self.width),
            height: clone_opt_string(&self.height),
            pinned: self.pinned,
            borderless: self.borderless,
        }
    }
}

/// What selecting a palette entry does.
#[derive(Clone, Debug, PartialEq, Eq)]
pub enum PaletteAction {
    Noop,
    OpenPalette(PaletteId),
    OpenCustomPalette(String),
    FocusPane(PaneTarget),
    MovePaneToNewTab(PaneTarget),
    MovePaneToTab { source: PaneTarget, target_tab_id: usize },
    SplitRight,
    SplitDown,
    ToggleFocusedPaneFullscreen(PaneTarget),
    ToggleFocusedPaneEmbedOrFloat(PaneTarget),
    ClosePane(PaneTarget),
    NewTab { cwd: Option<PathBuf> },
    NextTab,
    PreviousTab,
    CloseTab { tab_id: usize },
    SwitchSession { session_name: String },
    Detach,
    Theme(ThemeAction),
    RunShell(CommandAction),
    OpenCommandPane {
        command: CommandAction,
        coordinates: Option<PopupCoordinates>,
        floating: bool,
    },
}

impl PaletteAction {
    /// A copy of this action.
    pub fn duplicate(&self) -> (out: Self)
        ensures
            out == *self,
    {
        match self {
            PaletteAction::Noop => PaletteAction::Noop,
            PaletteAction::OpenPalette(id) => PaletteAction::OpenPalette(*id),
            PaletteAction::OpenCustomPalette(name) => PaletteAction::OpenCustomPalette(name.clone()),
            PaletteAction::FocusPane(t) => PaletteAction::FocusPane(t.duplicate()),
            PaletteAction::MovePaneToNewTab(t) => PaletteAction::MovePaneToNewTab(t.duplicate()),
            PaletteAction::MovePaneToTab { source, target_tab_id } => PaletteAction::MovePaneToTab {
                source: source.duplicate(),
                target_tab_id: *target_tab_id,
            },
            PaletteAction::SplitRight => PaletteAction::SplitRight,
            PaletteAction::SplitDown => PaletteAction::SplitDown,
            PaletteAction::ToggleFocusedPaneFullscreen(t) => PaletteAction::ToggleFocusedPaneFullscreen(
                t.duplicate(),
            ),
            PaletteAction::ToggleFocusedPaneEmbedOrFloat(t) => PaletteAction::ToggleFocusedPaneEmbedOrFloat(
                t.duplicate(),
            ),
            PaletteAction::ClosePane(t) => PaletteAction::ClosePane(t.duplicate()),
            PaletteAction::NewTab { cwd } => PaletteAction::NewTab { cwd: clone_cwd(cwd) },
            PaletteAction::NextTab => PaletteAction::NextTab,
            PaletteAction::PreviousTab => PaletteAction::PreviousTab,
            PaletteAction::CloseTab { tab_id } => PaletteAction::CloseTab { tab_id: *tab_id },
            PaletteAction::SwitchSession { session_name } => PaletteAction::SwitchSession {
                session_name: session_name.clone(),
            },
            PaletteAction::Detach => PaletteAction::Detach,
            PaletteAction::Theme(t) => PaletteAction::Theme(t.duplicate()),
            PaletteAction::RunShell(c) => PaletteAction::RunShell(c.duplicate()),
            PaletteAction::OpenCommandPane { command, coordinates, floating } => {
                let coordinates = match coordinates {
                    Some(c) => Some(c.duplicate()),
                    None => None,
                };
                PaletteAction::OpenCommandPane {
                    command: command.duplicate(),
                    coordinates,
                    floating: *floating,
                }
            },
        }
    }
}

/// One line of a palette: a selectable entry, or a group header when
/// `selectable` is false.
#[derive(Clone, Debug, PartialEq, Eq)]
pub struct PaletteItem {
    pub title: String,
    pub description: Option<String>,
    pub category: Option<String>,
    pub aliases: Vec<String>,
    pub shortcut: Option<String>,
    pub icon: Option<String>,
    pub icon_color: Option<String>,
    pub tree_prefix: Option<String>,
    pub selectable: bool,
    pub action: PaletteAction,
}

/// A selectable entry with the given title and action and no other field set.
pub open spec fn leaf_spec(title: Seq<char>, action: PaletteAction) -> (PaletteItemView) {
    PaletteItemView {
        title,
        description: None,
        category: None,
        aliases: Seq::empty(),
        shortcut: None,
        icon: None,
        icon_color: None,
        tree_prefix: None,
        selectable: true,
        action,
    }
}

/// A group header with the given title.
pub open spec fn group_spec(title: Seq<char>) -> (PaletteItemView) {
    PaletteItemView {
        title,
        description: None,
        category: None,
        aliases: Seq::empty(),
        shortcut: None,
        icon: None,
        icon_color: None,
        tree_prefix: None,
        selectable: false,
        action: PaletteAction::Noop,
    }
}

/// The mathematical value of an optional string.
pub open spec fn opt_view(value: Option<String>) -> Option<Seq<char>> {
    match value {
        Some(s) => Some(s@),
        None => None,
    }
}

/// The mathematical value of a list of strings.
pub open spec fn strings_view(values: Seq<String>) -> Seq<Seq<char>> {
    values.map_values(|s: String| s@)
}

/// A palette item with its text fields taken as character sequences.
#[verifier::ext_equal]
pub struct PaletteItemView {
    pub title: Seq<char>,
    pub description: Option<Seq<char>>,
    pub category: Option<Seq<char>>,
    pub aliases: Seq<Seq<char>>,
    pub shortcut: Option<Seq<char>>,
    pub icon: Option<Seq<char>>,
    pub icon_color: Option<Seq<char>>,
    pub tree_prefix: Option<Seq<char>>,
    pub selectable: bool,
    pub action: PaletteAction,
}

impl View for PaletteItem {
    type V = PaletteItemView;

    open spec fn view(&self) -> PaletteItemView {
        PaletteItemView {
            title: self.title@,
            description: opt_view(self.description),
            category: opt_view(self.category),
            aliases: strings_view(self.aliases@),
            shortcut: opt_view(self.shortcut),
            icon: opt_view(self.icon),
            icon_color: opt_view(self.icon_color),
            tree_prefix: opt_view(self.tree_prefix),
            selectable: self.selectable,
            action: self.action,
        }
    }
}

impl PaletteItem {
    /// A selectable entry.
    pub fn leaf(title: &str, action: PaletteAction) -> (out: Self)
        ensures
            out@ == leaf_spec(title@, action),
    {
        let empty: Vec<String> = Vec::new();
        proof {
            assert(strings_view(empty@) =~= Seq::empty());
        }
        PaletteItem {
            title: title.to_owned(),
            description: None,
            category: None,
            aliases: empty,
            shortcut: None,
            icon: None,
            icon_color: None,
            tree_prefix: None,
            selectable: true,
            action,
        }
    }

    /// A group header: not selectable, with no action.
    pub fn group(title: &str) -> (out: Self)
        ensures
            out@ == group_spec(title@),
    {
        let empty: Vec<String> = Vec::new();
        proof {
            assert(strings_view(empty@) =~= Seq::empty());
        }
        PaletteItem {
            title: title.to_owned(),
            description: None,
            category: None,
            aliases: empty,
            shortcut: None,
            icon: None,
            icon_color: None,
            tree_prefix: None,
            selectable: false,
            action: PaletteAction::Noop,
        }
    }

    /// This item with the given description.
    pub fn with_description(self, description: &str) -> (out: Self)
        ensures
            out@ == (PaletteItemView { description: Some(description@), ..self@ }),
    {
        let mut item = self;
        item.description = Some(description.to_owned());
        item
    }

    /// This item with exactly the given aliases, in order.
    pub fn with_aliases<const N: usize>(self, aliases: [&str; N]) -> (out: Self)
        ensures
            out@ == (PaletteItemView {
                aliases: aliases@.map_values(|a: &str| a@),
                ..self@
            }),
    {
        let mut item = self;
        let mut owned: Vec<String> = Vec::new();
        let mut i: usize = 0;
        while i < N
            invariant
                i <= N,
                aliases@.len() == N,
                strings_view(owned@) == aliases@.take(i as int).map_values(|a: &str| a@),
            decreases N - i,
        {
            let ghost before = owned@;
            owned.push(aliases[i].to_owned());
            proof {
                assert(aliases@.take(i + 1) == aliases@.take(i as int).push(aliases@[i as int]));
                assert(strings_view(owned@) =~= strings_view(before).push(owned@.last()@));
                assert(aliases@.take(i + 1).map_values(|a: &str| a@) =~= aliases@.take(
                    i as int,
                ).map_values(|a: &str| a@).push(aliases@[i as int]@));
            }
            i = i + 1;
        }
        proof {
            assert(aliases@.take(N as int) == aliases@);
        }
        item.aliases = owned;
        item
    }

    /// This item with the given category.
    pub fn with_category(self, category: &str) -> (out: Self)
        ensures
            out@ == (PaletteItemView { category: Some(category@), ..self@ }),
    {
        let mut item = self;
        item.category = Some(category.to_owned());
        item
    }

    /// This item with the given shortcut label.
    pub fn with_shortcut(self, shortcut: &str) -> (out: Self)
        ensures
            out@ == (PaletteItemView { shortcut: Some(shortcut@), ..self@ }),
    {
        let mut item = self;
        item.shortcut = Some(shortcut.to_owned());
        item
    }

    /// This item with the given icon.
    pub fn with_icon(self, icon: &str) -> (out: Self)
        ensures
            out@ == (PaletteItemView { icon: Some(icon@), ..self@ }),
    {
        let mut item = self;
        item.icon = Some(icon.to_owned());
        item
    }

    /// This item with the given icon colour.
    pub fn with_icon_color(self, icon_color: &str) -> (out: Self)
        ensures
            out@ == (PaletteItemView { icon_color: Some(icon_color@), ..self@ }),
    {
        let mut item = self;
        item.icon_color = Some(icon_color.to_owned());
        item
    }

    /// This item with the given tree prefix.
    pub fn with_tree_prefix(self, tree_prefix: &str) -> (out: Self)
        ensures
            out@ == (PaletteItemView { tree_prefix: Some(tree_prefix@), ..self@ }),
    {
        let mut item = self;
        item.tree_prefix = Some(tree_prefix.to_owned());
        item
    }

    /// A copy of this item.
    pub fn duplicate(&self) -> (out: Self)
        ensures
            out@ == self@,
    {
        PaletteItem {
            title: self.title.clone(),
            description: clone_opt_string(&self.description),
            category: clone_opt_string(&self.category),
            aliases: clone_strings(&self.aliases),
            shortcut: clone_opt_string(&self.shortcut),
            icon: clone_opt_string(&self.icon),
            icon_color: clone_opt_string(&self.icon_color),
            tree_prefix: clone_opt_string(&self.tree_prefix),
            selectable: self.selectable,
            action: self.action.duplicate(),
        }
    }
}

} // verus!
