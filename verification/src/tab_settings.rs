//! Tab settings: where three vertical-tab switches live in the settings file, and which
//! chips the header toolbar shows.
//!
//! A setting is stored under its key inside its hierarchy, a dotted path of tables; its
//! full path is the hierarchy, a dot, and the key. The three vertical-tab switches all
//! live under `appearance.vertical_tabs` and are off by default.

use vstd::prelude::*;
use crate::settings_value::{
    field, find_field, lemma_object_model, lemma_vec_round_trips, object_model, round_trips,
    FileModel, FileValue, SettingsValue,
};
use crate::text::str_eq;

verus! {

/// The full settings-file path of the setting `key` stored under `hierarchy`.
pub open spec fn setting_path(hierarchy: Seq<char>, key: Seq<char>) -> Seq<char> {
    hierarchy + seq!['.'] + key
}

/// The hierarchy of the vertical-tab settings.
pub open spec fn vertical_tabs_hierarchy() -> Seq<char> {
    "appearance.vertical_tabs"@
}

/// Whether the latest user prompt titles a conversation in tab names.
pub struct UseLatestUserPromptAsConversationTitleInTabNames;

impl UseLatestUserPromptAsConversationTitleInTabNames {
    /// The setting's key.
    pub fn toml_key() -> (r: &'static str)
        ensures
            r@ == "use_latest_prompt_as_title"@,
    {
        "use_latest_prompt_as_title"
    }

    /// The setting's hierarchy.
    pub fn hierarchy() -> (r: Option<&'static str>)
        ensures
            r matches Some(h) && h@ == vertical_tabs_hierarchy(),
    {
        Some("appearance.vertical_tabs")
    }

    /// The setting's full path: its hierarchy, then its key.
    pub fn toml_path() -> (r: Option<&'static str>)
        ensures
            r matches Some(p) && p@ == setting_path(
                vertical_tabs_hierarchy(),
                "use_latest_prompt_as_title"@,
            ),
    {
        proof {
            reveal_strlit("appearance.vertical_tabs.use_latest_prompt_as_title");
            reveal_strlit("appearance.vertical_tabs");
            reveal_strlit("use_latest_prompt_as_title");
            assert("appearance.vertical_tabs.use_latest_prompt_as_title"@ =~= setting_path(
                vertical_tabs_hierarchy(),
                "use_latest_prompt_as_title"@,
            ));
        }
        Some("appearance.vertical_tabs.use_latest_prompt_as_title")
    }

    /// Off unless the user turns it on.
    pub fn default_value() -> (r: bool)
        ensures
            !r,
    {
        false
    }
}

/// Whether restored windows show the vertical tab panel.
pub struct ShowVerticalTabPanelInRestoredWindows;

impl ShowVerticalTabPanelInRestoredWindows {
    /// The setting's key.
    pub fn toml_key() -> (r: &'static str)
        ensures
            r@ == "show_panel_in_restored_windows"@,
    {
        "show_panel_in_restored_windows"
    }

    /// The setting's hierarchy.
    pub fn hierarchy() -> (r: Option<&'static str>)
        ensures
            r matches Some(h) && h@ == vertical_tabs_hierarchy(),
    {
        Some("appearance.vertical_tabs")
    }

    /// The setting's full path: its hierarchy, then its key.
    pub fn toml_path() -> (r: Option<&'static str>)
        ensures
            r matches Some(p) && p@ == setting_path(
                vertical_tabs_hierarchy(),
                "show_panel_in_restored_windows"@,
            ),
    {
        proof {
            reveal_strlit("appearance.vertical_tabs.show_panel_in_restored_windows");
            reveal_strlit("appearance.vertical_tabs");
            reveal_strlit("show_panel_in_restored_windows");
            assert("appearance.vertical_tabs.show_panel_in_restored_windows"@ =~= setting_path(
                vertical_tabs_hierarchy(),
                "show_panel_in_restored_windows"@,
            ));
        }
        Some("appearance.vertical_tabs.show_panel_in_restored_windows")
    }

    /// Off unless the user turns it on.
    pub fn default_value() -> (r: bool)
        ensures
            !r,
    {
        false
    }
}

/// Whether the title bar's search bar is hidden while vertical tabs are shown.
pub struct HideTitleBarSearchBarInVerticalTabs;

impl HideTitleBarSearchBarInVerticalTabs {
    /// The setting's key.
    pub fn toml_key() -> (r: &'static str)
        ensures
            r@ == "hide_title_bar_search_bar"@,
    {
        "hide_title_bar_search_bar"
    }

    /// The setting's hierarchy.
    pub fn hierarchy() -> (r: Option<&'static str>)
        ensures
            r matches Some(h) && h@ == vertical_tabs_hierarchy(),
    {
        Some("appearance.vertical_tabs")
    }

    /// The setting's full path: its hierarchy, then its key.
    pub fn toml_path() -> (r: Option<&'static str>)
        ensures
            r matches Some(p) && p@ == setting_path(
                vertical_tabs_hierarchy(),
                "hide_title_bar_search_bar"@,
            ),
    {
        proof {
            reveal_strlit("appearance.vertical_tabs.hide_title_bar_search_bar");
            reveal_strlit("appearance.vertical_tabs");
            reveal_strlit("hide_title_bar_search_bar");
            assert("appearance.vertical_tabs.hide_title_bar_search_bar"@ =~= setting_path(
                vertical_tabs_hierarchy(),
                "hide_title_bar_search_bar"@,
            ));
        }
        Some("appearance.vertical_tabs.hide_title_bar_search_bar")
    }

    /// Off unless the user turns it on.
    pub fn default_value() -> (r: bool)
        ensures
            !r,
    {
        false
    }
}

/// A chip the header toolbar can show.
#[derive(Debug, Clone, Copy, PartialEq, Eq, Structural)]
pub enum HeaderToolbarItemKind {
    TabsPanel,
    ToolsPanel,
    CodeReview,
    NotificationsMailbox,
}

/// Every chip, in the order the default arrangement shows them.
pub open spec fn all_items_spec() -> Seq<HeaderToolbarItemKind> {
    seq![
        HeaderToolbarItemKind::TabsPanel,
        HeaderToolbarItemKind::ToolsPanel,
        HeaderToolbarItemKind::CodeReview,
        HeaderToolbarItemKind::NotificationsMailbox,
    ]
}

impl HeaderToolbarItemKind {
    /// Every chip.
    pub fn all_items() -> (r: Vec<HeaderToolbarItemKind>)
        ensures
            r@ == all_items_spec(),
    {
        let mut items: Vec<HeaderToolbarItemKind> = Vec::new();
        items.push(HeaderToolbarItemKind::TabsPanel);
        items.push(HeaderToolbarItemKind::ToolsPanel);
        items.push(HeaderToolbarItemKind::CodeReview);
        items.push(HeaderToolbarItemKind::NotificationsMailbox);
        assert(items@ =~= all_items_spec());
        items
    }
}

/// Which chips the header toolbar shows: the default arrangement, which shows every chip,
/// or the user's own, split between the left and the right of the toolbar.
#[derive(Debug, Clone, PartialEq, Eq)]
pub enum HeaderToolbarChipSelection {
    Default,
    Custom { left: Vec<HeaderToolbarItemKind>, right: Vec<HeaderToolbarItemKind> },
}

/// Whether `selection` shows `item`.
pub open spec fn shows_item(selection: HeaderToolbarChipSelection, item: HeaderToolbarItemKind) -> bool {
    match selection {
        HeaderToolbarChipSelection::Default => all_items_spec().contains(item),
        HeaderToolbarChipSelection::Custom { left, right } => left@.contains(item) || right@.contains(
            item,
        ),
    }
}

/// Whether `items` holds `item`.
fn holds_item(items: &Vec<HeaderToolbarItemKind>, item: HeaderToolbarItemKind) -> (r: bool)
    ensures
        r == items@.contains(item),
{
    let mut i: usize = 0;
    while i < items.len()
        invariant
            i <= items@.len(),
            forall|j: int| 0 <= j < i ==> items@[j] != item,
        decreases items.len() - i,
    {
        if items[i] == item {
            assert(items@[i as int] == item);
            return true;
        }
        i = i + 1;
    }
    false
}

impl HeaderToolbarChipSelection {
    /// Whether the toolbar shows `item`.
    pub fn contains_item(&self, item: &HeaderToolbarItemKind) -> (r: bool)
        ensures
            r == shows_item(*self, *item),
    {
        match self {
            HeaderToolbarChipSelection::Default => {
                assert(all_items_spec()[match *item {
                    HeaderToolbarItemKind::TabsPanel => 0int,
                    HeaderToolbarItemKind::ToolsPanel => 1int,
                    HeaderToolbarItemKind::CodeReview => 2int,
                    HeaderToolbarItemKind::NotificationsMailbox => 3int,
                }] == *item);
                true
            },
            HeaderToolbarChipSelection::Custom { left, right } => holds_item(left, *item)
                || holds_item(right, *item),
        }
    }
}

/// The name a chip is stored under.
pub open spec fn item_name(item: HeaderToolbarItemKind) -> Seq<char> {
    match item {
        HeaderToolbarItemKind::TabsPanel => "tabs_panel"@,
        HeaderToolbarItemKind::ToolsPanel => "tools_panel"@,
        HeaderToolbarItemKind::CodeReview => "code_review"@,
        HeaderToolbarItemKind::NotificationsMailbox => "notifications_mailbox"@,
    }
}

/// The chip a stored name stands for, if any.
pub open spec fn item_from_name(s: Seq<char>) -> Option<HeaderToolbarItemKind> {
    if s == "tabs_panel"@ {
        Some(HeaderToolbarItemKind::TabsPanel)
    } else if s == "tools_panel"@ {
        Some(HeaderToolbarItemKind::ToolsPanel)
    } else if s == "code_review"@ {
        Some(HeaderToolbarItemKind::CodeReview)
    } else if s == "notifications_mailbox"@ {
        Some(HeaderToolbarItemKind::NotificationsMailbox)
    } else {
        None
    }
}

impl HeaderToolbarItemKind {
    /// The name this chip is stored under.
    pub fn name(&self) -> (r: &'static str)
        ensures
            r@ == item_name(*self),
    {
        match self {
            HeaderToolbarItemKind::TabsPanel => "tabs_panel",
            HeaderToolbarItemKind::ToolsPanel => "tools_panel",
            HeaderToolbarItemKind::CodeReview => "code_review",
            HeaderToolbarItemKind::NotificationsMailbox => "notifications_mailbox",
        }
    }

    /// The chip stored under `name`, if any.
    pub fn from_name(name: &str) -> (r: Option<HeaderToolbarItemKind>)
        ensures
            r == item_from_name(name@),
    {
        if str_eq(name, "tabs_panel") {
            Some(HeaderToolbarItemKind::TabsPanel)
        } else if str_eq(name, "tools_panel") {
            Some(HeaderToolbarItemKind::ToolsPanel)
        } else if str_eq(name, "code_review") {
            Some(HeaderToolbarItemKind::CodeReview)
        } else if str_eq(name, "notifications_mailbox") {
            Some(HeaderToolbarItemKind::NotificationsMailbox)
        } else {
            None
        }
    }
}

impl SettingsValue for HeaderToolbarItemKind {
    open spec fn encode(&self) -> FileModel {
        FileModel::Str(item_name(*self))
    }

    open spec fn decodable(m: FileModel) -> bool {
        m matches FileModel::Str(s) && item_from_name(s) is Some
    }

    open spec fn decodes_to(m: FileModel, x: HeaderToolbarItemKind) -> bool {
        m matches FileModel::Str(s) && item_from_name(s) == Some(x)
    }

    /// The chip's name.
    fn to_file_value(&self) -> (r: FileValue) {
        FileValue::String(self.name().to_owned())
    }

    /// A string holding a chip's name; anything else, such as a chip this build no longer
    /// has, reads as nothing.
    fn from_file_value(value: &FileValue) -> (r: Option<HeaderToolbarItemKind>) {
        match value {
            FileValue::String(s) => HeaderToolbarItemKind::from_name(s.as_str()),
            _ => None,
        }
    }
}

/// How the default arrangement is stored.
pub open spec fn default_selection_model() -> FileModel {
    FileModel::Str("default"@)
}

/// How a custom arrangement is stored: an object whose `custom` entry holds the `left`
/// and `right` lists.
pub open spec fn custom_selection_model(left: FileModel, right: FileModel) -> FileModel {
    FileModel::Object(seq![("custom"@, FileModel::Object(seq![("left"@, left), ("right"@, right)]))])
}

/// The `left` and `right` values of a stored custom arrangement, if it is one.
pub open spec fn custom_sides(m: FileModel) -> Option<(FileModel, FileModel)> {
    match m {
        FileModel::Object(o) => match field(o, "custom"@) {
            Some(FileModel::Object(c)) => match (field(c, "left"@), field(c, "right"@)) {
                (Some(l), Some(r)) => Some((l, r)),
                _ => None,
            },
            _ => None,
        },
        _ => None,
    }
}

impl SettingsValue for HeaderToolbarChipSelection {
    open spec fn encode(&self) -> FileModel {
        match self {
            HeaderToolbarChipSelection::Default => default_selection_model(),
            HeaderToolbarChipSelection::Custom { left, right } => custom_selection_model(
                left.encode(),
                right.encode(),
            ),
        }
    }

    open spec fn decodable(m: FileModel) -> bool {
        ||| m == default_selection_model()
        ||| custom_sides(m) matches Some((l, r)) && l is Array && r is Array
    }

    open spec fn decodes_to(m: FileModel, x: HeaderToolbarChipSelection) -> bool {
        match x {
            HeaderToolbarChipSelection::Default => m == default_selection_model(),
            HeaderToolbarChipSelection::Custom { left, right } => custom_sides(m) matches Some(
                (l, r),
            ) && Vec::<HeaderToolbarItemKind>::decodes_to(l, left)
                && Vec::<HeaderToolbarItemKind>::decodes_to(r, right),
        }
    }

    /// `"default"`, or `{"custom": {"left": [...], "right": [...]}}`.
    fn to_file_value(&self) -> (r: FileValue) {
        match self {
            HeaderToolbarChipSelection::Default => FileValue::String("default".to_owned()),
            HeaderToolbarChipSelection::Custom { left, right } => {
                let mut sides: Vec<(String, FileValue)> = Vec::new();
                sides.push(("left".to_owned(), left.to_file_value()));
                sides.push(("right".to_owned(), right.to_file_value()));
                let ghost sm = object_model(sides@);
                assert(sm =~= seq![("left"@, left.encode()), ("right"@, right.encode())]) by {
                    lemma_object_model(sides@);
                }
                let mut outer: Vec<(String, FileValue)> = Vec::new();
                outer.push(("custom".to_owned(), FileValue::Object(sides)));
                assert(object_model(outer@) =~= seq![("custom"@, FileModel::Object(sm))]) by {
                    lemma_object_model(outer@);
                }
                FileValue::Object(outer)
            },
        }
    }

    /// Reads either form. A custom arrangement keeps the chips this build knows and drops
    /// the others, rather than falling back to the default.
    fn from_file_value(value: &FileValue) -> (r: Option<HeaderToolbarChipSelection>) {
        proof {
            reveal_strlit("default");
            reveal_strlit("custom");
        }
        match value {
            FileValue::String(s) => {
                if str_eq(s.as_str(), "default") {
                    Some(HeaderToolbarChipSelection::Default)
                } else {
                    assert(s@ != "default"@);
                    None
                }
            },
            FileValue::Object(o) => {
                let custom = match find_field(o, "custom") {
                    Some(FileValue::Object(c)) => c,
                    _ => return None,
                };
                let (l, r) = match (find_field(custom, "left"), find_field(custom, "right")) {
                    (Some(l), Some(r)) => (l, r),
                    _ => return None,
                };
                match (
                    Vec::<HeaderToolbarItemKind>::from_file_value(l),
                    Vec::<HeaderToolbarItemKind>::from_file_value(r),
                ) {
                    (Some(left), Some(right)) => Some(HeaderToolbarChipSelection::Custom { left, right }),
                    _ => None,
                }
            },
            _ => None,
        }
    }
}

/// Law: every chip reads back as itself from its stored name.
pub proof fn lemma_item_round_trips(item: HeaderToolbarItemKind)
    ensures
        item_from_name(item_name(item)) == Some(item),
        round_trips(item),
{
    reveal_strlit("tabs_panel");
    reveal_strlit("tools_panel");
    reveal_strlit("code_review");
    reveal_strlit("notifications_mailbox");
    assert("tabs_panel"@[1] != "tools_panel"@[1]);
    assert("tabs_panel"@[0] != "code_review"@[0]);
    assert("tabs_panel"@[0] != "notifications_mailbox"@[0]);
    assert("tools_panel"@[0] != "code_review"@[0]);
    assert("tools_panel"@[0] != "notifications_mailbox"@[0]);
    assert("code_review"@[0] != "notifications_mailbox"@[0]);
}

/// Law: every arrangement of the header toolbar reads back as itself from what it is
/// stored as.
pub proof fn lemma_toolbar_selection_round_trips(x: HeaderToolbarChipSelection)
    ensures
        round_trips(x),
{
    match x {
        HeaderToolbarChipSelection::Default => {},
        HeaderToolbarChipSelection::Custom { left, right } => {
            assert forall|i: int| 0 <= i < left@.len() implies round_trips(#[trigger] left@[i]) by {
                lemma_item_round_trips(left@[i]);
            }
            assert forall|i: int| 0 <= i < right@.len() implies round_trips(
                #[trigger] right@[i],
            ) by {
                lemma_item_round_trips(right@[i]);
            }
            lemma_vec_round_trips(left);
            lemma_vec_round_trips(right);
            let c = seq![("left"@, left.encode()), ("right"@, right.encode())];
            let o = seq![("custom"@, FileModel::Object(c))];
            reveal_strlit("left");
            reveal_strlit("right");
            reveal_strlit("custom");
            assert(field(o, "custom"@) == Some(FileModel::Object(c)));
            assert(field(c, "left"@) == Some(left.encode()));
            assert(c.drop_first()[0] == ("right"@, right.encode()));
            assert(c.drop_first().len() == 1);
            assert(field(c.drop_first(), "right"@) == Some(right.encode()));
            assert("left"@[0] != "right"@[0]);
            assert(c[0].0 != "right"@);
            assert(field(c, "right"@) == Some(right.encode()));
            assert(custom_sides(x.encode()) == Some((left.encode(), right.encode())));
        },
    }
}

} // verus!
