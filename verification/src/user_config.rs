//! User configuration: extra commands, custom palettes, and the overlays
//! (shortcut labels, extra aliases, hidden titles) applied to palette items.
use std::path::PathBuf;
use vstd::prelude::*;
use crate::collections::{StringMap, StringSet};
use crate::model::{
    clone_opt_string, clone_strings, opt_view, strings_view, CommandAction, PaletteAction,
    PaletteId, PaletteItem, PaletteItemView, PopupCoordinates, ThemeAction,
};
use crate::collections::entry_keys;
use crate::fuzzy::{
    chars_lt, lemma_chars_lt_irreflexive, lemma_chars_lt_total, lemma_chars_lt_transitive, next_match,
    title_less,
};
use crate::text::{
    chars_of, lemma_split_on_len, slice_range, split_on, str_equal, string_from_chars, trim, trim_chars,
};

verus! {

/// An action as written in the user's JSON files.
#[derive(Clone, Debug, PartialEq, Eq)]
pub enum ConfigAction {
    Palette { palette: String },
    Shell { shell: String },
    Popup {
        popup: String,
        x: Option<String>,
        y: Option<String>,
        width: Option<String>,
        height: Option<String>,
        pinned: Option<bool>,
        borderless: Option<bool>,
    },
    Theme { theme: String },
}

impl ConfigAction {
    /// A copy of this action.
    pub fn duplicate(&self) -> (out: Self)
        ensures
            out == *self,
    {
        match self {
            ConfigAction::Palette { palette } => ConfigAction::Palette { palette: palette.clone() },
            ConfigAction::Shell { shell } => ConfigAction::Shell { shell: shell.clone() },
            ConfigAction::Popup { popup, x, y, width, height, pinned, borderless } => {
                ConfigAction::Popup {
                    popup: popup.clone(),
                    x: clone_opt_string(x),
                    y: clone_opt_string(y),
                    width: clone_opt_string(width),
                    height: clone_opt_string(height),
                    pinned: *pinned,
                    borderless: *borderless,
                }
            },
            ConfigAction::Theme { theme } => ConfigAction::Theme { theme: theme.clone() },
        }
    }
}

/// One item of `commands.json`, of a custom palette, or of a palette command's JSON output.
#[derive(Clone, Debug, PartialEq, Eq)]
pub struct RawPaletteItem {
    pub title: String,
    pub description: Option<String>,
    pub category: Option<String>,
    pub group: Option<String>,
    pub aliases: Option<Vec<String>>,
    pub shortcut: Option<String>,
    pub icon: Option<String>,
    pub icon_color: Option<String>,
    pub action: ConfigAction,
}

/// One file of the `palettes` directory, as written.
#[derive(Clone, Debug, PartialEq, Eq)]
pub struct RawCustomPalette {
    pub title: Option<String>,
    pub from: Option<Vec<String>>,
    pub from_category: Option<String>,
    pub from_group: Option<String>,
    pub command: Option<String>,
    pub action: Option<ConfigAction>,
    pub icon: Option<String>,
    pub icon_color: Option<String>,
    pub grouped: Option<bool>,
    pub empty_text: Option<String>,
    pub items: Option<Vec<RawPaletteItem>>,
}

/// A user-defined palette.
#[derive(Clone, Debug)]
pub struct CustomPalette {
    pub title: Option<String>,
    pub from: Vec<String>,
    pub from_category: Option<String>,
    pub command: Option<String>,
    pub template_action: Option<ConfigAction>,
    pub default_icon: Option<String>,
    pub default_icon_color: Option<String>,
    pub grouped: Option<bool>,
    pub empty_text: Option<String>,
    pub items: Vec<PaletteItem>,
}

impl Default for CustomPalette {
    /// A palette with no field set.
    fn default() -> (out: Self)
        ensures
            out.title is None,
            out.from@.len() == 0,
            out.from_category is None,
            out.command is None,
            out.template_action is None,
            out.default_icon is None,
            out.default_icon_color is None,
            out.grouped is None,
            out.empty_text is None,
            out.items@.len() == 0,
    {
        CustomPalette {
            title: None,
            from: Vec::new(),
            from_category: None,
            command: None,
            template_action: None,
            default_icon: None,
            default_icon_color: None,
            grouped: None,
            empty_text: None,
            items: Vec::new(),
        }
    }
}

/// Everything read from the user's configuration directories.
#[derive(Debug)]
pub struct UserConfig {
    pub commands: Vec<PaletteItem>,
    pub custom_palettes: StringMap<CustomPalette>,
    pub theme_names: Vec<String>,
    pub shortcut_overrides: StringMap<String>,
    pub alias_overrides: StringMap<Vec<String>>,
    pub hidden_titles: StringSet,
}

impl Default for UserConfig {
    /// An empty configuration.
    fn default() -> (out: Self)
        ensures
            out.commands@.len() == 0,
            out.custom_palettes@ == Map::<Seq<char>, CustomPalette>::empty(),
            out.theme_names@.len() == 0,
            out.shortcut_overrides@ == Map::<Seq<char>, String>::empty(),
            out.alias_overrides@ == Map::<Seq<char>, Vec<String>>::empty(),
            out.hidden_titles@ == Set::<Seq<char>>::empty(),
    {
        UserConfig {
            commands: Vec::new(),
            custom_palettes: StringMap::new(),
            theme_names: Vec::new(),
            shortcut_overrides: StringMap::new(),
            alias_overrides: StringMap::new(),
            hidden_titles: StringSet::new(),
        }
    }
}

/// Popup coordinates from the optional fields, `None` when none is set.
pub open spec fn coordinates_spec(
    x: Option<String>,
    y: Option<String>,
    width: Option<String>,
    height: Option<String>,
    pinned: Option<bool>,
    borderless: Option<bool>,
) -> Option<PopupCoordinates> {
    if x is None && y is None && width is None && height is None && pinned is None && borderless is None {
        None
    } else {
        Some(PopupCoordinates { x, y, width, height, pinned, borderless })
    }
}

/// The palette action a configured action stands for: a palette name opens
/// the built-in palette of that name or else the custom palette; a shell
/// command runs; a popup opens a floating command pane; a theme name switches
/// mode for `dark`, `light` and `toggle` and names a theme otherwise.
pub open spec fn palette_action_spec(action: ConfigAction) -> PaletteAction {
    match action {
        ConfigAction::Palette { palette } => if palette@ == "commands"@ {
            PaletteAction::OpenPalette(PaletteId::Commands)
        } else if palette@ == "find-pane"@ {
            PaletteAction::OpenPalette(PaletteId::FindPane)
        } else if palette@ == "move-pane"@ {
            PaletteAction::OpenPalette(PaletteId::MovePane)
        } else if palette@ == "sessions"@ {
            PaletteAction::OpenPalette(PaletteId::Sessions)
        } else if palette@ == "themes"@ {
            PaletteAction::OpenPalette(PaletteId::Themes)
        } else {
            PaletteAction::OpenCustomPalette(palette)
        },
        ConfigAction::Shell { shell } => PaletteAction::RunShell(
            CommandAction { command: shell, cwd: None },
        ),
        ConfigAction::Popup { popup, x, y, width, height, pinned, borderless } => {
            PaletteAction::OpenCommandPane {
                command: CommandAction { command: popup, cwd: None },
                coordinates: coordinates_spec(x, y, width, height, pinned, borderless),
                floating: true,
            }
        },
        ConfigAction::Theme { theme } => if theme@ == "dark"@ {
            PaletteAction::Theme(ThemeAction::SetDark)
        } else if theme@ == "light"@ {
            PaletteAction::Theme(ThemeAction::SetLight)
        } else if theme@ == "toggle"@ {
            PaletteAction::Theme(ThemeAction::Toggle)
        } else {
            PaletteAction::Theme(ThemeAction::SetNamed(theme))
        },
    }
}

/// The palette action for a configured action.
pub fn config_action_to_palette_action(action: ConfigAction) -> (out: PaletteAction)
    ensures
        out == palette_action_spec(action),
{
    match action {
        ConfigAction::Palette { palette } => {
            if str_equal(palette.as_str(), "commands") {
                PaletteAction::OpenPalette(PaletteId::Commands)
            } else if str_equal(palette.as_str(), "find-pane") {
                PaletteAction::OpenPalette(PaletteId::FindPane)
            } else if str_equal(palette.as_str(), "move-pane") {
                PaletteAction::OpenPalette(PaletteId::MovePane)
            } else if str_equal(palette.as_str(), "sessions") {
                PaletteAction::OpenPalette(PaletteId::Sessions)
            } else if str_equal(palette.as_str(), "themes") {
                PaletteAction::OpenPalette(PaletteId::Themes)
            } else {
                PaletteAction::OpenCustomPalette(palette)
            }
        },
        ConfigAction::Shell { shell } => PaletteAction::RunShell(
            CommandAction { command: shell, cwd: None },
        ),
        ConfigAction::Popup { popup, x, y, width, height, pinned, borderless } => {
            PaletteAction::OpenCommandPane {
                command: CommandAction { command: popup, cwd: None },
                coordinates: PopupCoordinates::new(x, y, width, height, pinned, borderless),
                floating: true,
            }
        },
        ConfigAction::Theme { theme } => {
            if str_equal(theme.as_str(), "dark") {
                PaletteAction::Theme(ThemeAction::SetDark)
            } else if str_equal(theme.as_str(), "light") {
                PaletteAction::Theme(ThemeAction::SetLight)
            } else if str_equal(theme.as_str(), "toggle") {
                PaletteAction::Theme(ThemeAction::Toggle)
            } else {
                PaletteAction::Theme(ThemeAction::SetNamed(theme))
            }
        },
    }
}

/// The action with its working directory set to `cwd`, for the actions that
/// run a command or open a tab; any other action unchanged.
pub open spec fn with_cwd_spec(action: PaletteAction, cwd: Option<PathBuf>) -> PaletteAction {
    match action {
        PaletteAction::RunShell(command) => PaletteAction::RunShell(
            CommandAction { command: command.command, cwd },
        ),
        PaletteAction::OpenCommandPane { command, coordinates, floating } => {
            PaletteAction::OpenCommandPane {
                command: CommandAction { command: command.command, cwd },
                coordinates,
                floating,
            }
        },
        PaletteAction::NewTab { cwd: _ } => PaletteAction::NewTab { cwd },
        other => other,
    }
}

/// The action run in `cwd`.
pub fn with_command_cwd(action: PaletteAction, cwd: Option<PathBuf>) -> (out: PaletteAction)
    ensures
        out == with_cwd_spec(action, cwd),
{
    match action {
        PaletteAction::RunShell(command) => PaletteAction::RunShell(
            CommandAction { command: command.command, cwd },
        ),
        PaletteAction::OpenCommandPane { command, coordinates, floating } => {
            PaletteAction::OpenCommandPane {
                command: CommandAction { command: command.command, cwd },
                coordinates,
                floating,
            }
        },
        PaletteAction::NewTab { cwd: _ } => PaletteAction::NewTab { cwd },
        other => other,
    }
}

/// The first of two optional texts that is present.
pub open spec fn or_spec(first: Option<String>, second: Option<String>) -> Option<String> {
    match first {
        Some(v) => Some(v),
        None => second,
    }
}

/// The palette item for a configured item: its fields carried over, `group`
/// standing in for a missing `category`, and its action converted.
pub open spec fn raw_item_spec(item: RawPaletteItem) -> PaletteItemView {
    PaletteItemView {
        title: item.title@,
        description: opt_view(item.description),
        category: opt_view(or_spec(item.category, item.group)),
        aliases: match item.aliases {
            Some(a) => strings_view(a@),
            None => Seq::empty(),
        },
        shortcut: opt_view(item.shortcut),
        icon: opt_view(item.icon),
        icon_color: opt_view(item.icon_color),
        tree_prefix: None,
        selectable: true,
        action: palette_action_spec(item.action),
    }
}

/// The palette item for a configured item.
pub fn raw_item_to_palette_item(item: RawPaletteItem) -> (out: PaletteItem)
    ensures
        out@ == raw_item_spec(item),
{
    let ghost spec_item = item;
    let RawPaletteItem {
        title,
        description,
        category,
        group,
        aliases,
        shortcut,
        icon,
        icon_color,
        action,
    } = item;
    let mut palette_item = PaletteItem::leaf(title.as_str(), config_action_to_palette_action(action));
    palette_item.title = title;
    palette_item.description = description;
    palette_item.category = match category {
        Some(c) => Some(c),
        None => group,
    };
    if let Some(a) = aliases {
        palette_item.aliases = a;
    }
    palette_item.shortcut = shortcut;
    palette_item.icon = icon;
    palette_item.icon_color = icon_color;
    proof {
        if spec_item.aliases is None {
            assert(strings_view(palette_item.aliases@) =~= Seq::<Seq<char>>::empty());
        }
    }
    palette_item
}

/// An item with the overlays applied: a missing shortcut taken from
/// `shortcuts` by title, and the aliases listed for the title in `aliases`
/// appended to its own.
pub open spec fn overridden_spec(
    item: PaletteItemView,
    shortcuts: Map<Seq<char>, String>,
    aliases: Map<Seq<char>, Vec<String>>,
) -> PaletteItemView {
    PaletteItemView {
        shortcut: if item.shortcut is None {
            if shortcuts.contains_key(item.title) {
                Some(shortcuts[item.title]@)
            } else {
                None
            }
        } else {
            item.shortcut
        },
        aliases: if aliases.contains_key(item.title) {
            item.aliases + strings_view(aliases[item.title]@)
        } else {
            item.aliases
        },
        ..item
    }
}

/// Applies the shortcut and alias overlays to every item, keeping the order.
pub fn apply_item_overrides(
    items: Vec<PaletteItem>,
    shortcuts: &StringMap<String>,
    aliases: &StringMap<Vec<String>>,
) -> (out: Vec<PaletteItem>)
    ensures
        out@.len() == items@.len(),
        forall|k: int|
            0 <= k < items@.len() ==> #[trigger] out@[k]@ == overridden_spec(
                items@[k]@,
                shortcuts@,
                aliases@,
            ),
{
    let mut out: Vec<PaletteItem> = Vec::new();
    let mut rest = items;
    let ghost all = rest@;
    let mut i: usize = 0;
    let n = rest.len();
    while i < n
        invariant
            n == all.len(),
            i <= n,
            out@.len() == i,
            forall|k: int|
                0 <= k < i ==> #[trigger] out@[k]@ == overridden_spec(all[k]@, shortcuts@, aliases@),
            rest@.len() == n,
            forall|k: int| i <= k < n ==> #[trigger] rest@[k] == all[k],
        decreases n - i,
    {
        let mut item = PaletteItem::group("");
        std::mem::swap(&mut item, &mut rest[i]);
        let ghost given = item@;
        proof {
            assert(given == all[i as int]@);
        }
        if item.shortcut.is_none() {
            item.shortcut = match shortcuts.get(item.title.as_str()) {
                Some(s) => Some(s.clone()),
                None => None,
            };
        }
        match aliases.get(item.title.as_str()) {
            Some(extra) => {
                let mut merged: Vec<String> = Vec::new();
                std::mem::swap(&mut merged, &mut item.aliases);
                let ghost before = merged@;
                let mut j: usize = 0;
                while j < extra.len()
                    invariant
                        j <= extra@.len(),
                        strings_view(merged@) == strings_view(before) + strings_view(
                            extra@.take(j as int),
                        ),
                    decreases extra@.len() - j,
                {
                    let ghost prev = merged@;
                    merged.push(extra[j].clone());
                    proof {
                        assert(extra@.take(j + 1) == extra@.take(j as int).push(extra@[j as int]));
                        assert(strings_view(extra@.take(j + 1)) =~= strings_view(
                            extra@.take(j as int),
                        ).push(extra@[j as int]@));
                        assert(strings_view(merged@) =~= strings_view(prev).push(
                            extra@[j as int]@,
                        ));
                    }
                    j = j + 1;
                }
                proof {
                    assert(extra@.take(extra@.len() as int) == extra@);
                }
                item.aliases = merged;
            },
            None => {},
        }
        proof {
            let expected = overridden_spec(given, shortcuts@, aliases@);
            assert(item@.title == given.title);
            assert(item@.shortcut == expected.shortcut);
            assert(item@.aliases =~= expected.aliases);
            assert(item@ =~= expected);
        }
        out.push(item);
        i = i + 1;
    }
    out
}

/// The items whose title is not in `hidden`, in order.
pub open spec fn visible_spec(items: Seq<PaletteItemView>, hidden: Set<Seq<char>>) -> Seq<
    PaletteItemView,
>
    decreases items.len(),
{
    if items.len() == 0 {
        Seq::empty()
    } else {
        let rest = visible_spec(items.drop_last(), hidden);
        if hidden.contains(items.last().title) {
            rest
        } else {
            rest.push(items.last())
        }
    }
}

/// Drops the items whose title is hidden, keeping the order of the others.
pub fn filter_hidden_items(items: Vec<PaletteItem>, hidden_titles: &StringSet) -> (out: Vec<
    PaletteItem,
>)
    ensures
        out@.map_values(|it: PaletteItem| it@) == visible_spec(
            items@.map_values(|it: PaletteItem| it@),
            hidden_titles@,
        ),
{
    let ghost all = items@.map_values(|it: PaletteItem| it@);
    let mut out: Vec<PaletteItem> = Vec::new();
    let mut rest = items;
    let n = rest.len();
    let mut i: usize = 0;
    while i < n
        invariant
            n == all.len(),
            i <= n,
            rest@.len() == n,
            forall|k: int| i <= k < n ==> #[trigger] rest@[k]@ == all[k],
            out@.map_values(|it: PaletteItem| it@) == visible_spec(all.take(i as int), hidden_titles@),
        decreases n - i,
    {
        let mut item = PaletteItem::group("");
        std::mem::swap(&mut item, &mut rest[i]);
        proof {
            assert(all.take(i + 1).drop_last() == all.take(i as int));
            assert(item@ == all[i as int]);
            assert(all.take(i + 1).last() == all[i as int]);
        }
        let ghost prev = out@;
        if !hidden_titles.contains(item.title.as_str()) {
            out.push(item);
            proof {
                assert(out@.map_values(|it: PaletteItem| it@) =~= prev.map_values(
                    |it: PaletteItem| it@,
                ).push(all[i as int]));
            }
        }
        i = i + 1;
    }
    proof {
        assert(all.take(n as int) == all);
    }
    out
}

/// The position of the first item titled `title`.
pub open spec fn first_titled(base: Seq<PaletteItemView>, title: Seq<char>) -> Option<int>
    decreases base.len(),
{
    if base.len() == 0 {
        None
    } else {
        match first_titled(base.drop_last(), title) {
            Some(k) => Some(k),
            None => if base.last().title == title {
                Some(base.len() - 1)
            } else {
                None
            },
        }
    }
}

/// For each listed title, the first item with that title, skipping titles
/// that no item has.
pub open spec fn by_titles(base: Seq<PaletteItemView>, titles: Seq<Seq<char>>) -> Seq<PaletteItemView>
    decreases titles.len(),
{
    if titles.len() == 0 {
        Seq::empty()
    } else {
        let rest = by_titles(base, titles.drop_last());
        match first_titled(base, titles.last()) {
            Some(k) => rest.push(base[k]),
            None => rest,
        }
    }
}

/// The items of the given category, in order.
pub open spec fn by_category(base: Seq<PaletteItemView>, category: Seq<char>) -> Seq<PaletteItemView>
    decreases base.len(),
{
    if base.len() == 0 {
        Seq::empty()
    } else {
        let rest = by_category(base.drop_last(), category);
        if base.last().category == Some(category) {
            rest.push(base.last())
        } else {
            rest
        }
    }
}

proof fn lemma_first_titled(base: Seq<PaletteItemView>, title: Seq<char>)
    ensures
        first_titled(base, title) matches Some(k) ==> 0 <= k < base.len(),
    decreases base.len(),
{
    if base.len() > 0 {
        lemma_first_titled(base.drop_last(), title);
    }
}

fn find_titled(base: &[PaletteItem], title: &str) -> (out: Option<usize>)
    ensures
        opt_index(out) == first_titled(base@.map_values(|it: PaletteItem| it@), title@),
        out matches Some(k) ==> k < base@.len(),
{
    let ghost b = base@.map_values(|it: PaletteItem| it@);
    let mut k: usize = 0;
    while k < base.len()
        invariant
            b == base@.map_values(|it: PaletteItem| it@),
            k <= base@.len(),
            first_titled(b.take(k as int), title@) is None,
        decreases base@.len() - k,
    {
        proof {
            assert(b.take(k + 1).drop_last() == b.take(k as int));
        }
        if str_equal(base[k].title.as_str(), title) {
            proof {
                lemma_first_titled_prefix(b, k as int + 1, title@);
            }
            return Some(k);
        }
        k = k + 1;
    }
    proof {
        assert(b.take(base@.len() as int) == b);
    }
    None
}

proof fn lemma_first_titled_prefix(b: Seq<PaletteItemView>, k: int, title: Seq<char>)
    requires
        0 < k <= b.len(),
        b[k - 1].title == title,
        first_titled(b.take(k - 1), title) is None,
    ensures
        first_titled(b, title) == Some(k - 1),
    decreases b.len(),
{
    assert(b.take(k).drop_last() == b.take(k - 1));
    if k < b.len() {
        assert(b.drop_last().take(k) == b.take(k));
        assert(b.drop_last().take(k - 1) == b.take(k - 1));
        lemma_first_titled_prefix(b.drop_last(), k, title);
    } else {
        assert(b.take(k) == b);
        assert(b.drop_last() == b.take(k - 1));
    }
}

/// An optional index as an optional integer.
pub open spec fn opt_index(value: Option<usize>) -> Option<int> {
    match value {
        Some(v) => Some(v as int),
        None => None,
    }
}

/// The base items a custom palette refers to: the items named in `from`,
/// then those of its `from_category`.
pub open spec fn referenced_spec(base: Seq<PaletteItemView>, palette: CustomPalette) -> Seq<
    PaletteItemView,
> {
    by_titles(base, strings_view(palette.from@)) + match palette.from_category {
        Some(c) => by_category(base, c@),
        None => Seq::empty(),
    }
}

/// The items a custom palette takes from the base command list.
pub fn referenced_items_from_custom_palette(base_items: &[PaletteItem], custom_palette: &CustomPalette) -> (out:
    Vec<PaletteItem>)
    ensures
        out@.map_values(|it: PaletteItem| it@) == referenced_spec(
            base_items@.map_values(|it: PaletteItem| it@),
            *custom_palette,
        ),
{
    let ghost b = base_items@.map_values(|it: PaletteItem| it@);
    let ghost titles = strings_view(custom_palette.from@);
    let mut items: Vec<PaletteItem> = Vec::new();
    let mut t: usize = 0;
    while t < custom_palette.from.len()
        invariant
            b == base_items@.map_values(|it: PaletteItem| it@),
            titles == strings_view(custom_palette.from@),
            t <= custom_palette.from@.len(),
            items@.map_values(|it: PaletteItem| it@) == by_titles(b, titles.take(t as int)),
        decreases custom_palette.from@.len() - t,
    {
        proof {
            assert(titles.take(t + 1).drop_last() =~= titles.take(t as int));
            assert(titles.take(t + 1).last() == custom_palette.from@[t as int]@);
        }
        let ghost prev = items@;
        match find_titled(base_items, custom_palette.from[t].as_str()) {
            Some(k) => {
                items.push(base_items[k].duplicate());
                proof {
                    assert(items@.map_values(|it: PaletteItem| it@) =~= prev.map_values(
                        |it: PaletteItem| it@,
                    ).push(b[k as int]));
                }
            },
            None => {},
        }
        t = t + 1;
    }
    proof {
        assert(titles.take(custom_palette.from@.len() as int) =~= titles);
    }
    let ghost head = items@.map_values(|it: PaletteItem| it@);
    if let Some(category) = &custom_palette.from_category {
        let mut k: usize = 0;
        while k < base_items.len()
            invariant
                b == base_items@.map_values(|it: PaletteItem| it@),
                k <= base_items@.len(),
                items@.map_values(|it: PaletteItem| it@) == head + by_category(
                    b.take(k as int),
                    category@,
                ),
            decreases base_items@.len() - k,
        {
            proof {
                assert(b.take(k + 1).drop_last() == b.take(k as int));
            }
            let ghost prev = items@;
            let matches = match &base_items[k].category {
                Some(c) => str_equal(c.as_str(), category.as_str()),
                None => false,
            };
            if matches {
                items.push(base_items[k].duplicate());
                proof {
                    assert(items@.map_values(|it: PaletteItem| it@) =~= prev.map_values(
                        |it: PaletteItem| it@,
                    ).push(b[k as int]));
                }
            }
            k = k + 1;
        }
        proof {
            assert(b.take(base_items@.len() as int) == b);
        }
    } else {
        proof {
            assert(items@.map_values(|it: PaletteItem| it@) =~= head + Seq::<PaletteItemView>::empty());
        }
    }
    items
}

/// `s` with every `{}`, read left to right, replaced by `value` (`str::replace`).
pub open spec fn replace_braces(s: Seq<char>, value: Seq<char>) -> Seq<char>
    decreases s.len(),
{
    if s.len() == 0 {
        Seq::empty()
    } else if s.len() >= 2 && s[0] == '{' && s[1] == '}' {
        value + replace_braces(s.skip(2), value)
    } else {
        seq![s[0]] + replace_braces(s.drop_first(), value)
    }
}

fn replace_placeholder(s: &String, value: &str) -> (out: String)
    ensures
        out@ == replace_braces(s@, value@),
{
    let chars = chars_of(s.as_str());
    let vchars = chars_of(value);
    let n = chars.len();
    let mut out: Vec<char> = Vec::new();
    let mut i: usize = 0;
    proof {
        assert(s@.skip(0) == s@);
    }
    while i < n
        invariant
            chars@ == s@,
            vchars@ == value@,
            n == s@.len(),
            i <= n,
            replace_braces(s@, value@) == out@ + replace_braces(s@.skip(i as int), value@),
        decreases n - i,
    {
        if i + 1 < n && chars[i] == '{' && chars[i + 1] == '}' {
            let mut k: usize = 0;
            let ghost before = out@;
            while k < vchars.len()
                invariant
                    k <= vchars@.len(),
                    out@ == before + vchars@.take(k as int),
                decreases vchars@.len() - k,
            {
                out.push(vchars[k]);
                proof {
                    assert(vchars@.take(k + 1) == vchars@.take(k as int).push(vchars@[k as int]));
                }
                k = k + 1;
            }
            proof {
                assert(vchars@.take(vchars@.len() as int) == vchars@);
                assert(s@.skip(i as int).skip(2) == s@.skip(i + 2));
                assert(out@ + replace_braces(s@.skip(i + 2), value@) == before + (value@
                    + replace_braces(s@.skip(i + 2), value@)));
            }
            i = i + 2;
        } else {
            let ghost before = out@;
            out.push(chars[i]);
            proof {
                assert(s@.skip(i as int).drop_first() == s@.skip(i + 1));
                assert(out@ + replace_braces(s@.skip(i + 1), value@) == before + (seq![s@[i as int]]
                    + replace_braces(s@.skip(i + 1), value@)));
            }
            i = i + 1;
        }
    }
    proof {
        assert(s@.skip(n as int) =~= Seq::<char>::empty());
        assert(out@ =~= replace_braces(s@, value@));
    }
    string_from_chars(out.as_slice())
}

/// The text of an action: the palette name, shell command, popup command or theme name.
pub open spec fn action_text(action: ConfigAction) -> Seq<char> {
    match action {
        ConfigAction::Palette { palette } => palette@,
        ConfigAction::Shell { shell } => shell@,
        ConfigAction::Popup { popup, .. } => popup@,
        ConfigAction::Theme { theme } => theme@,
    }
}

/// The two actions are of the same kind and agree on everything but their text.
pub open spec fn same_shape(a: ConfigAction, b: ConfigAction) -> bool {
    match (a, b) {
        (ConfigAction::Palette { .. }, ConfigAction::Palette { .. }) => true,
        (ConfigAction::Shell { .. }, ConfigAction::Shell { .. }) => true,
        (
            ConfigAction::Popup { x, y, width, height, pinned, borderless, .. },
            ConfigAction::Popup {
                x: x2,
                y: y2,
                width: w2,
                height: h2,
                pinned: p2,
                borderless: b2,
                ..
            },
        ) => x == x2 && y == y2 && width == w2 && height == h2 && pinned == p2 && borderless == b2,
        (ConfigAction::Theme { .. }, ConfigAction::Theme { .. }) => true,
        _ => false,
    }
}

/// `out` is `action` with `{}` in its text replaced by `value`.
pub open spec fn interpolates(out: ConfigAction, action: ConfigAction, value: Seq<char>) -> bool {
    same_shape(out, action) && action_text(out) == replace_braces(action_text(action), value)
}

/// The action with `{}` in its text replaced by `value`.
pub fn interpolate_action(action: ConfigAction, value: &str) -> (out: ConfigAction)
    ensures
        interpolates(out, action, value@),
{
    match action {
        ConfigAction::Palette { palette } => ConfigAction::Palette {
            palette: replace_placeholder(&palette, value),
        },
        ConfigAction::Shell { shell } => ConfigAction::Shell { shell: replace_placeholder(&shell, value) },
        ConfigAction::Popup { popup, x, y, width, height, pinned, borderless } => {
            ConfigAction::Popup {
                popup: replace_placeholder(&popup, value),
                x,
                y,
                width,
                height,
                pinned,
                borderless,
            }
        },
        ConfigAction::Theme { theme } => ConfigAction::Theme { theme: replace_placeholder(&theme, value) },
    }
}

/// An optional string slice taken as an optional text.
pub open spec fn opt_str(value: Option<&str>) -> Option<Seq<char>> {
    match value {
        Some(s) => Some(s@),
        None => None,
    }
}

/// An optional text, dropped when empty.
pub open spec fn non_empty_opt(value: Option<Seq<char>>) -> Option<Seq<char>> {
    match value {
        Some(s) => if s.len() > 0 {
            Some(s)
        } else {
            None
        },
        None => None,
    }
}

/// The title of a plain output line: what follows the second tab, or the
/// first when there is only one, or the whole line.
pub open spec fn plain_title(line: Seq<char>) -> Seq<char> {
    match next_match(line, '\t', 0) {
        None => line,
        Some(i) => match next_match(line, '\t', i + 1) {
            None => line.skip(i + 1),
            Some(j) => line.skip(j + 1),
        },
    }
}

/// The icon of a plain output line: the field before the first tab, or the default.
pub open spec fn plain_icon(line: Seq<char>, default_icon: Option<Seq<char>>) -> Option<Seq<char>> {
    match next_match(line, '\t', 0) {
        None => default_icon,
        Some(i) => Some(line.take(i)),
    }
}

/// The icon colour of a plain output line: the field between the first two
/// tabs, or the default.
pub open spec fn plain_icon_color(line: Seq<char>, default_color: Option<Seq<char>>) -> Option<
    Seq<char>,
> {
    match next_match(line, '\t', 0) {
        None => default_color,
        Some(i) => match next_match(line, '\t', i + 1) {
            None => default_color,
            Some(j) => Some(line.subrange(i + 1, j)),
        },
    }
}

/// `item` is the entry for a plain output line: titled by the line, with
/// icon and colour from the line or the defaults (empty ones dropped), and
/// the template action with `{}` replaced by the title.
pub open spec fn is_plain_line_item(
    item: PaletteItemView,
    line: Seq<char>,
    template: ConfigAction,
    default_icon: Option<Seq<char>>,
    default_color: Option<Seq<char>>,
) -> bool {
    &&& item.title == plain_title(line)
    &&& item.description is None
    &&& item.category is None
    &&& item.aliases.len() == 0
    &&& item.shortcut is None
    &&& item.icon == non_empty_opt(plain_icon(line, default_icon))
    &&& item.icon_color == non_empty_opt(plain_icon_color(line, default_color))
    &&& item.tree_prefix is None
    &&& item.selectable
    &&& exists|a: ConfigAction|
        interpolates(a, template, plain_title(line)) && item.action == palette_action_spec(a)
}

proof fn lemma_next_match_bounds(hay: Seq<char>, c: char, start: int)
    requires
        0 <= start,
    ensures
        next_match(hay, c, start) matches Some(j) ==> start <= j < hay.len() && hay[j] == c,
        next_match(hay, c, start) is None ==> forall|k: int| start <= k < hay.len() ==> hay[k] != c,
    decreases hay.len() - start,
{
    if start < 0 {
    } else if start >= hay.len() {
    } else if hay[start] == c {
    } else {
        lemma_next_match_bounds(hay, c, start + 1);
    }
}

fn find_char(chars: &Vec<char>, c: char, start: usize) -> (out: Option<usize>)
    requires
        start <= chars@.len(),
    ensures
        opt_index(out) == next_match(chars@, c, start as int),
{
    let mut k = start;
    while k < chars.len()
        invariant
            start <= k <= chars@.len(),
            next_match(chars@, c, start as int) == next_match(chars@, c, k as int),
        decreases chars@.len() - k,
    {
        if chars[k] == c {
            return Some(k);
        }
        k = k + 1;
    }
    None
}

fn opt_string(value: Option<&str>) -> (out: Option<String>)
    ensures
        opt_view(out) == opt_str(value),
{
    match value {
        Some(s) => Some(s.to_owned()),
        None => None,
    }
}

fn drop_empty(value: Option<String>) -> (out: Option<String>)
    ensures
        opt_view(out) == non_empty_opt(opt_view(value)),
{
    match value {
        Some(s) => if s.as_str().is_empty() {
            None
        } else {
            Some(s)
        },
        None => None,
    }
}

/// The entry for one plain line of a palette command's output.
pub fn plain_line_to_palette_item(
    line: &str,
    template_action: ConfigAction,
    default_icon: Option<&str>,
    default_icon_color: Option<&str>,
) -> (out: PaletteItem)
    ensures
        is_plain_line_item(
            out@,
            line@,
            template_action,
            opt_str(default_icon),
            opt_str(default_icon_color),
        ),
{
    let chars = chars_of(line);
    let n = chars.len();
    let first = find_char(&chars, '\t', 0);
    proof {
        lemma_next_match_bounds(line@, '\t', 0);
    }
    let (icon, icon_color, title) = match first {
        None => (opt_string(default_icon), opt_string(default_icon_color), line.to_owned()),
        Some(i) => {
            let icon_text = string_from_chars(slice_range(&chars, 0, i).as_slice());
            proof {
                assert(chars@.subrange(0, i as int) == line@.take(i as int));
                lemma_next_match_bounds(line@, '\t', i + 1);
            }
            match find_char(&chars, '\t', i + 1) {
                None => {
                    let title = string_from_chars(slice_range(&chars, i + 1, chars.len()).as_slice());
                    proof {
                        assert(chars@.subrange(i + 1, chars@.len() as int) == line@.skip(i + 1));
                    }
                    (Some(icon_text), opt_string(default_icon_color), title)
                },
                Some(j) => {
                    let color = string_from_chars(slice_range(&chars, i + 1, j).as_slice());
                    let title = string_from_chars(slice_range(&chars, j + 1, chars.len()).as_slice());
                    proof {
                        assert(chars@.subrange(j + 1, chars@.len() as int) == line@.skip(j + 1));
                    }
                    (Some(icon_text), Some(color), title)
                },
            }
        },
    };
    let ghost template = template_action;
    let interpolated = interpolate_action(template_action, title.as_str());
    let ghost chosen = interpolated;
    let mut item = PaletteItem::leaf(title.as_str(), config_action_to_palette_action(interpolated));
    item.icon = drop_empty(icon);
    item.icon_color = drop_empty(icon_color);
    proof {
        assert(interpolates(chosen, template, plain_title(line@)));
    }
    item
}

/// The palette items for configured items, in order.
pub fn raw_items_to_palette_items(items: Vec<RawPaletteItem>) -> (out: Vec<PaletteItem>)
    ensures
        out@.len() == items@.len(),
        forall|k: int| 0 <= k < items@.len() ==> #[trigger] out@[k]@ == raw_item_spec(items@[k]),
{
    broadcast use vstd::std_specs::vec::axiom_spec_into_iter;
    let ghost all = items@;
    let mut out: Vec<PaletteItem> = Vec::new();
    for item in it: items.into_iter()
        invariant
            it.seq() == all,
            out@.len() == it.index(),
            forall|k: int| 0 <= k < it.index() ==> #[trigger] out@[k]@ == raw_item_spec(all[k]),
    {
        out.push(raw_item_to_palette_item(item));
    }
    out
}

/// The non-empty trimmed pieces, in order.
pub open spec fn kept_lines(pieces: Seq<Seq<char>>) -> Seq<Seq<char>>
    decreases pieces.len(),
{
    if pieces.len() == 0 {
        Seq::empty()
    } else {
        let rest = kept_lines(pieces.drop_last());
        let t = trim(pieces.last());
        if t.len() == 0 {
            rest
        } else {
            rest.push(t)
        }
    }
}

/// The lines of `output`, trimmed, without the empty ones.
pub open spec fn output_lines(output: Seq<char>) -> Seq<Seq<char>> {
    kept_lines(split_on(output, '\n'))
}

/// `out` are the entries of a palette command's output: the items of
/// `parsed_json`, the output read as a JSON array of items, when it is one;
/// failing that, one entry per non-blank line built from the template
/// action, and none without a template.
pub open spec fn parsed_as(
    out: Seq<PaletteItem>,
    output: Seq<char>,
    parsed_json: Option<Vec<RawPaletteItem>>,
    template: Option<ConfigAction>,
    default_icon: Option<Seq<char>>,
    default_icon_color: Option<Seq<char>>,
) -> bool {
    match parsed_json {
        Some(items) => out.len() == items@.len() && forall|k: int|
            0 <= k < items@.len() ==> #[trigger] out[k]@ == raw_item_spec(items@[k]),
        None => match template {
            None => out.len() == 0,
            Some(t) => out.len() == output_lines(output).len() && forall|k: int|
                0 <= k < out.len() ==> is_plain_line_item(
                    #[trigger] out[k]@,
                    output_lines(output)[k],
                    t,
                    default_icon,
                    default_icon_color,
                ),
        },
    }
}

/// The entries of a palette command's output.
pub fn parse_command_palette_output(
    output: &str,
    parsed_json: Option<Vec<RawPaletteItem>>,
    template_action: Option<&ConfigAction>,
    default_icon: Option<&str>,
    default_icon_color: Option<&str>,
) -> (out: Vec<PaletteItem>)
    ensures
        parsed_as(
            out@,
            output@,
            parsed_json,
            match template_action {
                Some(t) => Some(*t),
                None => None,
            },
            opt_str(default_icon),
            opt_str(default_icon_color),
        ),
{
    if let Some(items) = parsed_json {
        return raw_items_to_palette_items(items);
    }
    let template = match template_action {
        Some(t) => t,
        None => {
            return Vec::new();
        },
    };
    let chars = chars_of(output);
    let n = chars.len();
    let mut out: Vec<PaletteItem> = Vec::new();
    let mut current: Vec<char> = Vec::new();
    let mut i: usize = 0;
    proof {
        assert(output@.take(0) =~= Seq::<char>::empty());
        assert(split_on(Seq::<char>::empty(), '\n') =~= seq![Seq::<char>::empty()]);
        assert(split_on(output@.take(0), '\n').drop_last() =~= Seq::<Seq<char>>::empty());
    }
    while i < n
        invariant
            chars@ == output@,
            n == output@.len(),
            i <= n,
            split_on(output@.take(i as int), '\n').len() >= 1,
            current@ == split_on(output@.take(i as int), '\n').last(),
            out@.len() == kept_lines(split_on(output@.take(i as int), '\n').drop_last()).len(),
            forall|k: int|
                0 <= k < out@.len() ==> is_plain_line_item(
                    #[trigger] out@[k]@,
                    kept_lines(split_on(output@.take(i as int), '\n').drop_last())[k],
                    *template,
                    opt_str(default_icon),
                    opt_str(default_icon_color),
                ),
        decreases n - i,
    {
        let ghost pieces = split_on(output@.take(i as int), '\n');
        proof {
            assert(output@.take(i + 1).drop_last() == output@.take(i as int));
            assert(output@.take(i + 1).last() == chars@[i as int]);
        }
        if chars[i] == '\n' {
            let trimmed = trim_chars(&current);
            let ghost prev = out@;
            if trimmed.len() > 0 {
                let line = string_from_chars(trimmed.as_slice());
                let item = plain_line_to_palette_item(
                    line.as_str(),
                    template.duplicate(),
                    default_icon,
                    default_icon_color,
                );
                out.push(item);
            }
            proof {
                let next = split_on(output@.take(i + 1), '\n');
                assert(next == pieces.push(Seq::empty()));
                assert(next.drop_last() == pieces);
                assert(pieces == pieces.drop_last().push(pieces.last()));
                assert(kept_lines(pieces) == if trim(pieces.last()).len() == 0 {
                    kept_lines(pieces.drop_last())
                } else {
                    kept_lines(pieces.drop_last()).push(trim(pieces.last()))
                });
            }
            current = Vec::new();
        } else {
            current.push(chars[i]);
            proof {
                let next = split_on(output@.take(i + 1), '\n');
                assert(next == pieces.update(pieces.len() - 1, pieces.last().push(chars@[i as int])));
                assert(next.drop_last() =~= pieces.drop_last());
            }
        }
        i = i + 1;
    }
    proof {
        assert(output@.take(n as int) == output@);
    }
    let ghost pieces = split_on(output@, '\n');
    let trimmed = trim_chars(&current);
    if trimmed.len() > 0 {
        let line = string_from_chars(trimmed.as_slice());
        let item = plain_line_to_palette_item(
            line.as_str(),
            template.duplicate(),
            default_icon,
            default_icon_color,
        );
        out.push(item);
    }
    proof {
        assert(pieces == pieces.drop_last().push(pieces.last()));
    }
    out
}

/// `palette` is the custom palette a palette file describes: its fields
/// carried over, `from` empty when absent, `from_group` standing in for a
/// missing `from_category`, and its items converted.
pub open spec fn is_custom_palette_of(palette: CustomPalette, raw: RawCustomPalette) -> bool {
    &&& palette.title == raw.title
    &&& palette.from@ == match raw.from {
        Some(f) => f@,
        None => Seq::<String>::empty(),
    }
    &&& palette.from_category == or_spec(raw.from_category, raw.from_group)
    &&& palette.command == raw.command
    &&& palette.template_action == raw.action
    &&& palette.default_icon == raw.icon
    &&& palette.default_icon_color == raw.icon_color
    &&& palette.grouped == raw.grouped
    &&& palette.empty_text == raw.empty_text
    &&& palette.items@.len() == match raw.items {
        Some(v) => v@.len(),
        None => 0,
    }
    &&& forall|k: int|
        0 <= k < palette.items@.len() ==> #[trigger] palette.items@[k]@ == raw_item_spec(
            raw.items->0@[k],
        )
}

/// The custom palette a palette file describes.
pub fn custom_palette_from_raw(raw: RawCustomPalette) -> (out: CustomPalette)
    ensures
        is_custom_palette_of(out, raw),
{
    let ghost r = raw;
    let RawCustomPalette {
        title,
        from,
        from_category,
        from_group,
        command,
        action,
        icon,
        icon_color,
        grouped,
        empty_text,
        items,
    } = raw;
    let items = match items {
        Some(v) => raw_items_to_palette_items(v),
        None => Vec::new(),
    };
    CustomPalette {
        title,
        from: match from {
            Some(f) => f,
            None => Vec::new(),
        },
        from_category: match from_category {
            Some(c) => Some(c),
            None => from_group,
        },
        command,
        template_action: action,
        default_icon: icon,
        default_icon_color: icon_color,
        grouped,
        empty_text,
        items,
    }
}

/// The map a list of named entries stands for; later entries replace earlier ones.
pub open spec fn pairs_map<V>(pairs: Seq<(String, V)>) -> Map<Seq<char>, V>
    decreases pairs.len(),
{
    if pairs.len() == 0 {
        Map::empty()
    } else {
        pairs_map(pairs.drop_last()).insert(pairs.last().0@, pairs.last().1)
    }
}

/// The custom palettes of the palette files, each under its name; a later
/// file of the same name replaces an earlier one.
pub fn custom_palettes_from_raw(files: Vec<(String, RawCustomPalette)>) -> (out: StringMap<
    CustomPalette,
>)
    ensures
        out@.dom() == pairs_map(files@).dom(),
        forall|name: Seq<char>|
            #[trigger] out@.contains_key(name) ==> is_custom_palette_of(
                out@[name],
                pairs_map(files@)[name],
            ),
{
    broadcast use vstd::std_specs::vec::axiom_spec_into_iter;
    let ghost all = files@;
    let mut out: StringMap<CustomPalette> = StringMap::new();
    proof {
        assert(all.take(0) =~= Seq::<(String, RawCustomPalette)>::empty());
        assert(out@.dom() =~= pairs_map(all.take(0)).dom());
    }
    for entry in it: files.into_iter()
        invariant
            it.seq() == all,
            out@.dom() == pairs_map(all.take(it.index())).dom(),
            forall|name: Seq<char>|
                #[trigger] out@.contains_key(name) ==> is_custom_palette_of(
                    out@[name],
                    pairs_map(all.take(it.index()))[name],
                ),
    {
        let (name, raw) = entry;
        proof {
            assert(all.take(it.index() + 1).drop_last() == all.take(it.index()));
            assert(all.take(it.index() + 1).last() == (name, raw));
        }
        let palette = custom_palette_from_raw(raw);
        out.insert(name, palette);
        proof {
            assert(out@.dom() =~= pairs_map(all.take(it.index() + 1)).dom());
        }
    }
    proof {
        assert(all.take(all.len() as int) == all);
    }
    out
}

/// The text read as a JSON object of strings (`serde_json::from_str` into a
/// `HashMap<String, String>`): its entries, or `None` when it is not one.
pub uninterp spec fn json_string_map(text: Seq<char>) -> Option<Map<Seq<char>, Seq<char>>>;

/// The text read as a JSON object of string arrays (`serde_json::from_str`
/// into a `HashMap<String, Vec<String>>`): its entries, or `None` when it is
/// not one.
pub uninterp spec fn json_string_list_map(text: Seq<char>) -> Option<Map<Seq<char>, Seq<Seq<char>>>>;

/// The text read as a JSON array of strings (`serde_json::from_str` into a
/// `Vec<String>`): its strings in order, or `None` when it is not one.
pub uninterp spec fn json_string_list(text: Seq<char>) -> Option<Seq<Seq<char>>>;

/// The texts of the entries of a map given as pairs.
pub open spec fn text_pairs_view(pairs: Seq<(String, String)>) -> Map<Seq<char>, Seq<char>> {
    pairs_map(pairs).map_values(|v: String| v@)
}

/// The texts of the entries of a map of string lists given as pairs.
pub open spec fn list_pairs_view(pairs: Seq<(String, Vec<String>)>) -> Map<Seq<char>, Seq<Seq<char>>> {
    pairs_map(pairs).map_values(|v: Vec<String>| strings_view(v@))
}

/// Calls `serde_json::from_str::<HashMap<String, String>>`. The contract
/// names the parsed map and claims the keys come out once each, as a
/// `HashMap` holds them; the order of the pairs is left open.
#[verifier::external_body]
fn parse_json_string_map(text: &str) -> (out: Option<Vec<(String, String)>>)
    ensures
        out is None <==> json_string_map(text@) is None,
        out matches Some(pairs) ==> json_string_map(text@) == Some(text_pairs_view(pairs@))
            && entry_keys(pairs@).no_duplicates(),
{
    serde_json::from_str::<std::collections::HashMap<String, String>>(text).ok().map(
        |m| m.into_iter().collect(),
    )
}

/// Calls `serde_json::from_str::<HashMap<String, Vec<String>>>`. The
/// contract names the parsed map and claims the keys come out once each; the
/// order of the pairs is left open.
#[verifier::external_body]
fn parse_json_string_list_map(text: &str) -> (out: Option<Vec<(String, Vec<String>)>>)
    ensures
        out is None <==> json_string_list_map(text@) is None,
        out matches Some(pairs) ==> json_string_list_map(text@) == Some(list_pairs_view(pairs@))
            && entry_keys(pairs@).no_duplicates(),
{
    serde_json::from_str::<std::collections::HashMap<String, Vec<String>>>(text).ok().map(
        |m| m.into_iter().collect(),
    )
}

/// Calls `serde_json::from_str::<Vec<String>>`. The contract names the
/// parsed list.
#[verifier::external_body]
fn parse_json_string_list(text: &str) -> (out: Option<Vec<String>>)
    ensures
        out is None <==> json_string_list(text@) is None,
        out matches Some(list) ==> json_string_list(text@) == Some(strings_view(list@)),
{
    serde_json::from_str::<Vec<String>>(text).ok()
}

proof fn lemma_list_map_insert(
    m1: Map<Seq<char>, Vec<String>>,
    m2: Map<Seq<char>, Vec<String>>,
    k: Seq<char>,
    v1: Vec<String>,
    v2: Vec<String>,
)
    requires
        m1.map_values(|v: Vec<String>| strings_view(v@)) == m2.map_values(
            |v: Vec<String>| strings_view(v@),
        ),
        strings_view(v1@) == strings_view(v2@),
    ensures
        m1.insert(k, v1).map_values(|v: Vec<String>| strings_view(v@)) == m2.insert(k, v2).map_values(
            |v: Vec<String>| strings_view(v@),
        ),
{
    let f1 = m1.map_values(|v: Vec<String>| strings_view(v@));
    let f2 = m2.map_values(|v: Vec<String>| strings_view(v@));
    assert(m1.dom() =~= f1.dom());
    assert(m2.dom() =~= f2.dom());
    assert forall|key: Seq<char>| #[trigger] m1.dom().contains(key) implies strings_view(m1[key]@)
        == strings_view(m2[key]@) by {
        assert(f1[key] == strings_view(m1[key]@));
        assert(f2[key] == strings_view(m2[key]@));
    }
    assert(m1.insert(k, v1).map_values(|v: Vec<String>| strings_view(v@)) =~= m2.insert(
        k,
        v2,
    ).map_values(|v: Vec<String>| strings_view(v@)));
}

/// The shortcut labels read from `shortcuts.json`, given as its entries:
/// each title with its label, a later entry for a title replacing an earlier
/// one; none when the file gave no object of strings.
pub fn shortcut_overrides_from_pairs(parsed: Option<Vec<(String, String)>>) -> (out: StringMap<
    String,
>)
    ensures
        out@ == match parsed {
            Some(pairs) => pairs_map(pairs@),
            None => Map::empty(),
        },
{
    let mut out: StringMap<String> = StringMap::new();
    match parsed {
        None => {},
        Some(pairs) => {
            let ghost all = pairs@;
            let n = pairs.len();
            let mut i: usize = 0;
            proof {
                assert(all.take(0) =~= Seq::<(String, String)>::empty());
                assert(out@ =~= pairs_map(all.take(0)));
            }
            while i < n
                invariant
                    n == all.len(),
                    all == pairs@,
                    i <= n,
                    out@ == pairs_map(all.take(i as int)),
                decreases n - i,
            {
                proof {
                    assert(all.take(i + 1).drop_last() == all.take(i as int));
                }
                out.insert(pairs[i].0.clone(), pairs[i].1.clone());
                i = i + 1;
            }
            proof {
                assert(all.take(n as int) == all);
            }
        },
    }
    out
}

/// The shortcut labels of `shortcuts.json`: its entries, or none when the
/// file is missing or is not a JSON object of strings.
pub fn shortcut_overrides_from_json(text: Option<&str>) -> (out: StringMap<String>)
    ensures
        out@.map_values(|v: String| v@) == match text {
            Some(t) => match json_string_map(t@) {
                Some(m) => m,
                None => Map::empty(),
            },
            None => Map::empty(),
        },
{
    let parsed = match text {
        Some(t) => parse_json_string_map(t),
        None => None,
    };
    let out = shortcut_overrides_from_pairs(parsed);
    proof {
        if parsed is None {
            assert(out@.map_values(|v: String| v@) =~= Map::<Seq<char>, Seq<char>>::empty());
        } else {
            assert(out@.map_values(|v: String| v@) =~= text_pairs_view(parsed->0@));
        }
    }
    out
}

/// The extra aliases read from `aliases.json`, given as its entries: each
/// title with its aliases, a later entry for a title replacing an earlier
/// one; none when the file gave no object of string arrays.
pub fn alias_overrides_from_pairs(parsed: Option<Vec<(String, Vec<String>)>>) -> (out: StringMap<
    Vec<String>,
>)
    ensures
        out@.map_values(|v: Vec<String>| strings_view(v@)) == match parsed {
            Some(pairs) => list_pairs_view(pairs@),
            None => Map::empty(),
        },
{
    let mut out: StringMap<Vec<String>> = StringMap::new();
    match parsed {
        None => {
            proof {
                assert(out@.map_values(|v: Vec<String>| strings_view(v@)) =~= Map::<
                    Seq<char>,
                    Seq<Seq<char>>,
                >::empty());
            }
        },
        Some(pairs) => {
            let ghost all = pairs@;
            let n = pairs.len();
            let mut i: usize = 0;
            proof {
                assert(all.take(0) =~= Seq::<(String, Vec<String>)>::empty());
                assert(out@.map_values(|v: Vec<String>| strings_view(v@)) =~= pairs_map(
                    all.take(0),
                ).map_values(|v: Vec<String>| strings_view(v@)));
            }
            while i < n
                invariant
                    n == all.len(),
                    all == pairs@,
                    i <= n,
                    out@.map_values(|v: Vec<String>| strings_view(v@)) == pairs_map(
                        all.take(i as int),
                    ).map_values(|v: Vec<String>| strings_view(v@)),
                decreases n - i,
            {
                proof {
                    assert(all.take(i + 1).drop_last() == all.take(i as int));
                }
                let ghost before = out@;
                let copy = clone_strings(&pairs[i].1);
                let key = pairs[i].0.clone();
                out.insert(key, copy);
                proof {
                    let m = pairs_map(all.take(i as int));
                    let target = pairs_map(all.take(i + 1));
                    assert(target == m.insert(all[i as int].0@, all[i as int].1));
                    assert(strings_view(copy@) == strings_view(all[i as int].1@));
                    lemma_list_map_insert(before, m, all[i as int].0@, copy, all[i as int].1);
                }
                i = i + 1;
            }
            proof {
                assert(all.take(n as int) == all);
            }
        },
    }
    out
}

/// The extra aliases of `aliases.json`: its entries, or none when the file
/// is missing or is not a JSON object of string arrays.
pub fn alias_overrides_from_json(text: Option<&str>) -> (out: StringMap<Vec<String>>)
    ensures
        out@.map_values(|v: Vec<String>| strings_view(v@)) == match text {
            Some(t) => match json_string_list_map(t@) {
                Some(m) => m,
                None => Map::empty(),
            },
            None => Map::empty(),
        },
{
    let parsed = match text {
        Some(t) => parse_json_string_list_map(t),
        None => None,
    };
    alias_overrides_from_pairs(parsed)
}

/// The hidden titles read from `hidden.json`, given as its strings; none
/// when the file gave no array of strings.
pub fn hidden_titles_from_list(parsed: Option<Vec<String>>) -> (out: StringSet)
    ensures
        out@ == match parsed {
            Some(list) => strings_view(list@).to_set(),
            None => Set::empty(),
        },
{
    let mut out = StringSet::new();
    match parsed {
        None => {},
        Some(list) => {
            let ghost all = strings_view(list@);
            let n = list.len();
            let mut i: usize = 0;
            proof {
                assert(all.take(0).to_set() =~= Set::<Seq<char>>::empty());
            }
            while i < n
                invariant
                    n == list@.len(),
                    all == strings_view(list@),
                    i <= n,
                    out@ == all.take(i as int).to_set(),
                decreases n - i,
            {
                out.insert(list[i].clone());
                proof {
                    assert(all.take(i + 1) == all.take(i as int).push(all[i as int]));
                    all.take(i as int).lemma_push_to_set_commute(all[i as int]);
                }
                i = i + 1;
            }
            proof {
                assert(all.take(n as int) == all);
            }
        },
    }
    out
}

/// The hidden titles of `hidden.json`: its strings, or none when the file
/// is missing or is not a JSON array of strings.
pub fn hidden_titles_from_json(text: Option<&str>) -> (out: StringSet)
    ensures
        out@ == match text {
            Some(t) => match json_string_list(t@) {
                Some(list) => list.to_set(),
                None => Set::empty(),
            },
            None => Set::empty(),
        },
{
    let parsed = match text {
        Some(t) => parse_json_string_list(t),
        None => None,
    };
    hidden_titles_from_list(parsed)
}

/// The names sorted by code point, each kept as often as it occurs.
pub fn sort_names(names: Vec<String>) -> (out: Vec<String>)
    ensures
        out@.to_multiset() == names@.to_multiset(),
        forall|a: int, b: int|
            0 <= a < b < out@.len() ==> !chars_lt(#[trigger] out@[b]@, #[trigger] out@[a]@),
{
    broadcast use vstd::std_specs::vec::axiom_spec_into_iter;
    broadcast use vstd::seq_lib::group_to_multiset_ensures;
    let ghost all = names@;
    let mut out: Vec<String> = Vec::new();
    proof {
        assert(all.take(0) =~= Seq::<String>::empty());
    }
    for name in it: names.into_iter()
        invariant
            it.seq() == all,
            out@.to_multiset() == all.take(it.index()).to_multiset(),
            forall|a: int, b: int|
                0 <= a < b < out@.len() ==> !chars_lt(#[trigger] out@[b]@, #[trigger] out@[a]@),
    {
        let mut pos: usize = 0;
        while pos < out.len() && !title_less(&name, &out[pos])
            invariant
                pos <= out@.len(),
                forall|k: int| 0 <= k < pos ==> !chars_lt(name@, #[trigger] out@[k]@),
            decreases out@.len() - pos,
        {
            pos = pos + 1;
        }
        let ghost old_out = out@;
        out.insert(pos, name);
        proof {
            assert(all.take(it.index() + 1) == all.take(it.index()).push(name));
            assert(out@ == old_out.insert(pos as int, name));
            vstd::seq_lib::to_multiset_insert(old_out, pos as int, name);
            vstd::seq_lib::to_multiset_build(all.take(it.index()), name);
            assert(out@.to_multiset() == all.take(it.index() + 1).to_multiset());
            assert forall|a: int, b: int|
                0 <= a < b < out@.len() implies !chars_lt(#[trigger] out@[b]@, #[trigger] out@[a]@) by {
                if b < pos {
                } else if b == pos {
                    lemma_chars_lt_total(out@[a]@, name@);
                } else if a < pos {
                    assert(out@[b] == old_out[b - 1]);
                    assert(out@[a] == old_out[a]);
                } else if a == pos {
                    assert(out@[b] == old_out[b - 1]);
                    assert(chars_lt(name@, old_out[pos as int]@));
                    if chars_lt(old_out[b - 1]@, name@) {
                        lemma_chars_lt_transitive(old_out[b - 1]@, name@, old_out[pos as int]@);
                        if b - 1 == pos {
                            lemma_chars_lt_irreflexive(old_out[pos as int]@);
                        }
                    }
                } else {
                    assert(out@[b] == old_out[b - 1]);
                    assert(out@[a] == old_out[a - 1]);
                }
            }
        }
    }
    proof {
        assert(all.take(all.len() as int) == all);
    }
    out
}

/// The configuration assembled from what was read: the extra commands, the
/// custom palette files, the three overlay files' texts, and the theme file
/// names. Missing or malformed overlays count as empty; theme names are sorted.
pub fn load_user_config(
    commands: Option<Vec<RawPaletteItem>>,
    palette_files: Vec<(String, RawCustomPalette)>,
    shortcuts_json: Option<&str>,
    aliases_json: Option<&str>,
    hidden_json: Option<&str>,
    theme_names: Vec<String>,
) -> (out: UserConfig)
    ensures
        out.commands@.len() == match commands {
            Some(v) => v@.len(),
            None => 0,
        },
        forall|k: int|
            0 <= k < out.commands@.len() ==> #[trigger] out.commands@[k]@ == raw_item_spec(
                commands->0@[k],
            ),
        out.custom_palettes@.dom() == pairs_map(palette_files@).dom(),
        forall|name: Seq<char>|
            #[trigger] out.custom_palettes@.contains_key(name) ==> is_custom_palette_of(
                out.custom_palettes@[name],
                pairs_map(palette_files@)[name],
            ),
        out.shortcut_overrides@.map_values(|v: String| v@) == match shortcuts_json {
            Some(t) => match json_string_map(t@) {
                Some(m) => m,
                None => Map::empty(),
            },
            None => Map::empty(),
        },
        out.alias_overrides@.map_values(|v: Vec<String>| strings_view(v@)) == match aliases_json {
            Some(t) => match json_string_list_map(t@) {
                Some(m) => m,
                None => Map::empty(),
            },
            None => Map::empty(),
        },
        out.hidden_titles@ == match hidden_json {
            Some(t) => match json_string_list(t@) {
                Some(list) => list.to_set(),
                None => Set::empty(),
            },
            None => Set::empty(),
        },
        out.theme_names@.to_multiset() == theme_names@.to_multiset(),
        forall|a: int, b: int|
            0 <= a < b < out.theme_names@.len() ==> !chars_lt(
                #[trigger] out.theme_names@[b]@,
                #[trigger] out.theme_names@[a]@,
            ),
{
    let commands = match commands {
        Some(v) => raw_items_to_palette_items(v),
        None => Vec::new(),
    };
    UserConfig {
        commands,
        custom_palettes: custom_palettes_from_raw(palette_files),
        theme_names: sort_names(theme_names),
        shortcut_overrides: shortcut_overrides_from_json(shortcuts_json),
        alias_overrides: alias_overrides_from_json(aliases_json),
        hidden_titles: hidden_titles_from_json(hidden_json),
    }
}

/// Hiding drops exactly the items whose title is hidden: none of them is
/// left, and every other item stays.
pub proof fn law_hidden_items_removed(items: Seq<PaletteItemView>, hidden: Set<Seq<char>>)
    ensures
        forall|k: int|
            0 <= k < visible_spec(items, hidden).len() ==> !hidden.contains(
                #[trigger] visible_spec(items, hidden)[k].title,
            ),
        forall|j: int|
            0 <= j < items.len() && !hidden.contains(#[trigger] items[j].title) ==> visible_spec(
                items,
                hidden,
            ).contains(items[j]),
    decreases items.len(),
{
    if items.len() > 0 {
        let rest = items.drop_last();
        law_hidden_items_removed(rest, hidden);
        let v = visible_spec(items, hidden);
        let vr = visible_spec(rest, hidden);
        assert forall|j: int| 0 <= j < items.len() && !hidden.contains(#[trigger] items[j].title) implies v.contains(
            items[j],
        ) by {
            if j < items.len() - 1 {
                assert(rest[j] == items[j]);
                assert(vr.contains(rest[j]));
                let k = choose|k: int| 0 <= k < vr.len() && vr[k] == rest[j];
                assert(v[k] == items[j]);
            } else {
                assert(v[v.len() - 1] == items[j]);
            }
        }
    }
}

/// The overlays only add to an item: its title, description, category,
/// action and the rest stay; a shortcut it has stays; its own aliases stay
/// first, followed by exactly the aliases the overlay lists for its title,
/// and with no entry for the title its aliases are left as they were.
pub proof fn law_overrides_only_add(
    item: PaletteItemView,
    shortcuts: Map<Seq<char>, String>,
    aliases: Map<Seq<char>, Vec<String>>,
)
    ensures
        ({
            let out = overridden_spec(item, shortcuts, aliases);
            &&& out.title == item.title
            &&& out.description == item.description
            &&& out.category == item.category
            &&& out.icon == item.icon
            &&& out.icon_color == item.icon_color
            &&& out.tree_prefix == item.tree_prefix
            &&& out.selectable == item.selectable
            &&& out.action == item.action
            &&& item.shortcut is Some ==> out.shortcut == item.shortcut
            &&& out.aliases.len() >= item.aliases.len()
            &&& out.aliases.take(item.aliases.len() as int) == item.aliases
            &&& !aliases.contains_key(item.title) ==> out.aliases == item.aliases
            &&& aliases.contains_key(item.title) ==> out.aliases.skip(item.aliases.len() as int)
                == aliases[item.title]@.map_values(|a: String| a@)
        }),
{
    let out = overridden_spec(item, shortcuts, aliases);
    if aliases.contains_key(item.title) {
        let extra = strings_view(aliases[item.title]@);
        assert((item.aliases + extra).take(item.aliases.len() as int) =~= item.aliases);
        assert((item.aliases + extra).skip(item.aliases.len() as int) =~= extra);
        assert(extra =~= aliases[item.title]@.map_values(|a: String| a@));
    } else {
        assert(item.aliases.take(item.aliases.len() as int) =~= item.aliases);
    }
}

proof fn lemma_next_match_first(hay: Seq<char>, c: char, start: int, k: int)
    requires
        0 <= start <= k < hay.len(),
        hay[k] == c,
        forall|m: int| start <= m < k ==> hay[m] != c,
    ensures
        next_match(hay, c, start) == Some(k),
    decreases k - start,
{
    if start < k {
        lemma_next_match_first(hay, c, start + 1, k);
    }
}

proof fn lemma_next_match_none(hay: Seq<char>, c: char, start: int)
    requires
        0 <= start,
        forall|m: int| start <= m < hay.len() ==> hay[m] != c,
    ensures
        next_match(hay, c, start) is None,
    decreases hay.len() - start,
{
    if start < hay.len() {
        lemma_next_match_none(hay, c, start + 1);
    }
}

/// A plain output line `icon<TAB>title`, with no other tab, gives an entry
/// titled exactly `title` (so its title holds no tab), with `icon` as its
/// icon when it is not empty, the default colour, and the template action
/// with `{}` replaced by `title`.
pub proof fn law_icon_tab_title_line(
    item: PaletteItemView,
    icon: Seq<char>,
    title: Seq<char>,
    template: ConfigAction,
    default_icon: Option<Seq<char>>,
    default_color: Option<Seq<char>>,
)
    requires
        !icon.contains('\t'),
        !title.contains('\t'),
        is_plain_line_item(item, icon + seq!['\t'] + title, template, default_icon, default_color),
    ensures
        item.title == title,
        !item.title.contains('\t'),
        item.icon == (if icon.len() > 0 { Some(icon) } else { None::<Seq<char>> }),
        item.icon_color == non_empty_opt(default_color),
        exists|a: ConfigAction| interpolates(a, template, title) && item.action == palette_action_spec(a),
{
    let line = icon + seq!['\t'] + title;
    let i = icon.len() as int;
    assert forall|m: int| 0 <= m < i implies line[m] != '\t' by {
        assert(line[m] == icon[m]);
    }
    lemma_next_match_first(line, '\t', 0, i);
    assert forall|m: int| i + 1 <= m < line.len() implies line[m] != '\t' by {
        assert(line[m] == title[m - i - 1]);
    }
    lemma_next_match_none(line, '\t', i + 1);
    assert(line.skip(i + 1) =~= title);
    assert(line.take(i) =~= icon);
}

/// A plain output line `icon<TAB>colour<TAB>title`, where neither `icon`
/// nor `colour` holds a tab, gives an entry titled exactly `title`, with
/// `icon` and `colour` when they are not empty, and the template action with
/// `{}` replaced by `title`.
pub proof fn law_icon_color_title_line(
    item: PaletteItemView,
    icon: Seq<char>,
    color: Seq<char>,
    title: Seq<char>,
    template: ConfigAction,
    default_icon: Option<Seq<char>>,
    default_color: Option<Seq<char>>,
)
    requires
        !icon.contains('\t'),
        !color.contains('\t'),
        is_plain_line_item(
            item,
            icon + seq!['\t'] + color + seq!['\t'] + title,
            template,
            default_icon,
            default_color,
        ),
    ensures
        item.title == title,
        item.icon == (if icon.len() > 0 { Some(icon) } else { None::<Seq<char>> }),
        item.icon_color == (if color.len() > 0 { Some(color) } else { None::<Seq<char>> }),
        exists|a: ConfigAction| interpolates(a, template, title) && item.action == palette_action_spec(a),
{
    let line = icon + seq!['\t'] + color + seq!['\t'] + title;
    let i = icon.len() as int;
    let j = i + 1 + color.len();
    assert forall|m: int| 0 <= m < i implies line[m] != '\t' by {
        assert(line[m] == icon[m]);
    }
    lemma_next_match_first(line, '\t', 0, i);
    assert forall|m: int| i + 1 <= m < j implies line[m] != '\t' by {
        assert(line[m] == color[m - i - 1]);
    }
    assert(line[j] == '\t');
    lemma_next_match_first(line, '\t', i + 1, j);
    assert(line.skip(j + 1) =~= title);
    assert(line.take(i) =~= icon);
    assert(line.subrange(i + 1, j) =~= color);
}

/// A plain output line with no tab is the entry's title as a whole, with
/// the default icon and colour.
pub proof fn law_line_without_tab(
    item: PaletteItemView,
    line: Seq<char>,
    template: ConfigAction,
    default_icon: Option<Seq<char>>,
    default_color: Option<Seq<char>>,
)
    requires
        !line.contains('\t'),
        is_plain_line_item(item, line, template, default_icon, default_color),
    ensures
        item.title == line,
        item.icon == non_empty_opt(default_icon),
        item.icon_color == non_empty_opt(default_color),
        exists|a: ConfigAction| interpolates(a, template, line) && item.action == palette_action_spec(a),
{
    assert forall|m: int| 0 <= m < line.len() implies line[m] != '\t' by {
        if line[m] == '\t' {
            assert(line.contains('\t'));
        }
    }
    lemma_next_match_none(line, '\t', 0);
}

} // verus!
