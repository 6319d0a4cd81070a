//! The uniform item model: every candidate entry a launcher list can show,
//! together with the cross-cutting accessors (name, priority, section, ...)
//! that the filter engine and the list controllers read.

use vstd::prelude::*;

verus! {

/// A desktop application entry, as handed in by the application scanner.
/// The icon and desktop-file locations are carried as plain path strings.
pub struct ApplicationItem {
    /// Unique identifier of the application.
    pub id: String,
    /// Display name.
    pub name: String,
    /// Optional subtitle (typically the desktop file's comment).
    pub description: Option<String>,
    /// Optional path to the application icon.
    pub icon_path: Option<String>,
    /// Command line used to launch the application.
    pub exec_cmd: String,
    /// Whether the application wants a terminal.
    pub terminal: bool,
    /// Optional path of the desktop file the entry came from.
    pub desktop_path: Option<String>,
}

/// An open window, for window switching.
pub struct WindowItem {
    /// Unique identifier of the window entry.
    pub id: String,
    /// Window title, used as the display name.
    pub title: String,
    /// Subtitle, typically the application owning the window.
    pub description: String,
    /// Optional path to the window's application icon.
    pub icon_path: Option<String>,
    /// Compositor address used to focus the window.
    pub address: String,
}

/// A functional action (shutdown, reboot, ...). The command it runs is
/// carried as a plain string; executing it is the host's job.
pub struct ActionItem {
    /// Unique identifier of the action.
    pub id: String,
    /// Display name.
    pub name: String,
    /// Optional subtitle.
    pub description: Option<String>,
    /// Command the host executes when the action is confirmed.
    pub command: String,
}

/// A submenu entry that opens a nested view (emoji grid, clipboard history).
pub struct SubmenuItem {
    /// Unique identifier; the mode controller recognizes specific ids.
    pub id: String,
    /// Display name.
    pub name: String,
    /// Optional subtitle.
    pub description: Option<String>,
}

/// A calculator result row.
pub struct CalculatorItem {
    /// Unique identifier of the result row.
    pub id: String,
    /// The expression as typed, used as the display name.
    pub expression: String,
    /// The evaluated result, shown as the subtitle.
    pub display_result: String,
}

impl CalculatorItem {
    /// The text placed on the clipboard when the result is confirmed:
    /// the displayed result string.
    pub fn text_for_clipboard(&self) -> (r: &str)
        ensures
            r@ == self.display_result@,
    {
        self.display_result.as_str()
    }
}

impl Clone for ApplicationItem {
    fn clone(&self) -> (r: Self)
        ensures
            r == *self,
    {
        ApplicationItem {
            id: self.id.clone(),
            name: self.name.clone(),
            description: clone_opt_string(&self.description),
            icon_path: clone_opt_string(&self.icon_path),
            exec_cmd: self.exec_cmd.clone(),
            terminal: self.terminal,
            desktop_path: clone_opt_string(&self.desktop_path),
        }
    }
}

impl Clone for WindowItem {
    fn clone(&self) -> (r: Self)
        ensures
            r == *self,
    {
        WindowItem {
            id: self.id.clone(),
            title: self.title.clone(),
            description: self.description.clone(),
            icon_path: clone_opt_string(&self.icon_path),
            address: self.address.clone(),
        }
    }
}

impl Clone for ActionItem {
    fn clone(&self) -> (r: Self)
        ensures
            r == *self,
    {
        ActionItem {
            id: self.id.clone(),
            name: self.name.clone(),
            description: clone_opt_string(&self.description),
            command: self.command.clone(),
        }
    }
}

impl Clone for SubmenuItem {
    fn clone(&self) -> (r: Self)
        ensures
            r == *self,
    {
        SubmenuItem {
            id: self.id.clone(),
            name: self.name.clone(),
            description: clone_opt_string(&self.description),
        }
    }
}

impl Clone for CalculatorItem {
    fn clone(&self) -> (r: Self)
        ensures
            r == *self,
    {
        CalculatorItem {
            id: self.id.clone(),
            expression: self.expression.clone(),
            display_result: self.display_result.clone(),
        }
    }
}

/// Clone an optional string, field for field.
fn clone_opt_string(s: &Option<String>) -> (r: Option<String>)
    ensures
        r == *s,
{
    match s {
        Some(t) => Some(t.clone()),
        None => None,
    }
}

/// A list item that can be displayed in the launcher.
/// This enum abstracts over the different kinds of entry that can appear.
pub enum ListItem {
    /// A desktop application.
    Application(ApplicationItem),
    /// An open window (for window switching).
    Window(WindowItem),
    /// A functional action (shutdown, reboot, etc.).
    Action(ActionItem),
    /// A submenu that opens a nested view.
    Submenu(SubmenuItem),
    /// A calculator result.
    Calculator(CalculatorItem),
    /// A web search item.
    Search(crate::search::SearchItem),
}

impl Clone for ListItem {
    fn clone(&self) -> (r: Self)
        ensures
            r == *self,
    {
        match self {
            ListItem::Application(app) => ListItem::Application(app.clone()),
            ListItem::Window(win) => ListItem::Window(win.clone()),
            ListItem::Action(act) => ListItem::Action(act.clone()),
            ListItem::Submenu(sub) => ListItem::Submenu(sub.clone()),
            ListItem::Calculator(calc) => ListItem::Calculator(calc.clone()),
            ListItem::Search(search) => ListItem::Search(search.clone()),
        }
    }
}

impl ListItem {
    /// The unique identifier of this item, as a sequence of characters.
    pub open spec fn spec_id(&self) -> Seq<char> {
        match self {
            ListItem::Application(app) => app.id@,
            ListItem::Window(win) => win.id@,
            ListItem::Action(act) => act.id@,
            ListItem::Submenu(sub) => sub.id@,
            ListItem::Calculator(calc) => calc.id@,
            ListItem::Search(search) => search.id@,
        }
    }

    /// The display name of this item, as a sequence of characters.
    pub open spec fn spec_name(&self) -> Seq<char> {
        match self {
            ListItem::Application(app) => app.name@,
            ListItem::Window(win) => win.title@,
            ListItem::Action(act) => act.name@,
            ListItem::Submenu(sub) => sub.name@,
            ListItem::Calculator(calc) => calc.expression@,
            ListItem::Search(search) => search.name@,
        }
    }

    /// The subtitle of this item, when it has one.
    pub open spec fn spec_description(&self) -> Option<Seq<char>> {
        match self {
            ListItem::Application(app) => match app.description {
                Some(d) => Some(d@),
                None => None,
            },
            ListItem::Window(win) => Some(win.description@),
            ListItem::Action(act) => match act.description {
                Some(d) => Some(d@),
                None => None,
            },
            ListItem::Submenu(sub) => match sub.description {
                Some(d) => Some(d@),
                None => None,
            },
            ListItem::Calculator(calc) => Some(calc.display_result@),
            ListItem::Search(_) => None,
        }
    }

    /// The icon path of this item, when it carries one.
    pub open spec fn spec_icon_path(&self) -> Option<Seq<char>> {
        match self {
            ListItem::Application(app) => match app.icon_path {
                Some(p) => Some(p@),
                None => None,
            },
            ListItem::Window(win) => match win.icon_path {
                Some(p) => Some(p@),
                None => None,
            },
            ListItem::Action(_) => None,
            ListItem::Submenu(_) => None,
            ListItem::Calculator(_) => None,
            ListItem::Search(_) => None,
        }
    }

    /// The action-verb label shown next to a selected item.
    pub open spec fn spec_action_label(&self) -> Seq<char> {
        match self {
            ListItem::Application(_) => "Open"@,
            ListItem::Window(_) => "Switch"@,
            ListItem::Action(_) => "Run"@,
            ListItem::Submenu(_) => "Open"@,
            ListItem::Calculator(_) => "Copy"@,
            ListItem::Search(_) => "Open"@,
        }
    }

    /// The fixed sort priority of this item's kind; lower sorts earlier.
    pub open spec fn spec_sort_priority(&self) -> u8 {
        match self {
            ListItem::Calculator(_) => 0u8,
            ListItem::Search(_) => 1u8,
            ListItem::Window(_) => 2u8,
            ListItem::Submenu(_) => 3u8,
            ListItem::Action(_) => 3u8,
            ListItem::Application(_) => 4u8,
        }
    }

    /// The section label of this item's kind.
    pub open spec fn spec_section_name(&self) -> Seq<char> {
        match self {
            ListItem::Calculator(_) => "Calculator"@,
            ListItem::Search(_) => "Search"@,
            ListItem::Window(_) => "Windows"@,
            ListItem::Submenu(_) => "Commands"@,
            ListItem::Action(_) => "Commands"@,
            ListItem::Application(_) => "Applications"@,
        }
    }

    /// Get the unique identifier for this item.
    pub fn id(&self) -> (r: &str)
        ensures
            r@ == self.spec_id(),
    {
        match self {
            ListItem::Application(app) => app.id.as_str(),
            ListItem::Window(win) => win.id.as_str(),
            ListItem::Action(act) => act.id.as_str(),
            ListItem::Submenu(sub) => sub.id.as_str(),
            ListItem::Calculator(calc) => calc.id.as_str(),
            ListItem::Search(search) => search.id.as_str(),
        }
    }

    /// Get the display name for this item.
    pub fn name(&self) -> (r: &str)
        ensures
            r@ == self.spec_name(),
    {
        match self {
            ListItem::Application(app) => app.name.as_str(),
            ListItem::Window(win) => win.title.as_str(),
            ListItem::Action(act) => act.name.as_str(),
            ListItem::Submenu(sub) => sub.name.as_str(),
            ListItem::Calculator(calc) => calc.expression.as_str(),
            ListItem::Search(search) => search.name.as_str(),
        }
    }

    /// Get the description/subtitle for this item.
    pub fn description(&self) -> (r: Option<&str>)
        ensures
            r.deep_view() == self.spec_description(),
    {
        match self {
            ListItem::Application(app) => match &app.description {
                Some(d) => Some(d.as_str()),
                None => None,
            },
            ListItem::Window(win) => Some(win.description.as_str()),
            ListItem::Action(act) => match &act.description {
                Some(d) => Some(d.as_str()),
                None => None,
            },
            ListItem::Submenu(sub) => match &sub.description {
                Some(d) => Some(d.as_str()),
                None => None,
            },
            ListItem::Calculator(calc) => Some(calc.display_result.as_str()),
            ListItem::Search(_) => None,
        }
    }

    /// Get the icon path for this item. Actions, submenus, calculator and
    /// search entries use named icons rather than paths.
    pub fn icon_path(&self) -> (r: Option<&String>)
        ensures
            r.deep_view() == self.spec_icon_path(),
    {
        match self {
            ListItem::Application(app) => app.icon_path.as_ref(),
            ListItem::Window(win) => win.icon_path.as_ref(),
            ListItem::Action(_) => None,
            ListItem::Submenu(_) => None,
            ListItem::Calculator(_) => None,
            ListItem::Search(_) => None,
        }
    }

    /// Check if this item is a submenu.
    pub fn is_submenu(&self) -> (r: bool)
        ensures
            r == (self is Submenu),
    {
        matches!(self, ListItem::Submenu(_))
    }

    /// Check if this item is an application.
    pub fn is_application(&self) -> (r: bool)
        ensures
            r == (self is Application),
    {
        matches!(self, ListItem::Application(_))
    }

    /// Check if this item is a window.
    pub fn is_window(&self) -> (r: bool)
        ensures
            r == (self is Window),
    {
        matches!(self, ListItem::Window(_))
    }

    /// Check if this item is an action.
    pub fn is_action(&self) -> (r: bool)
        ensures
            r == (self is Action),
    {
        matches!(self, ListItem::Action(_))
    }

    /// Check if this item is a calculator result.
    pub fn is_calculator(&self) -> (r: bool)
        ensures
            r == (self is Calculator),
    {
        matches!(self, ListItem::Calculator(_))
    }

    /// Get the action label to display (e.g., "Open", "Switch", "Run").
    pub fn action_label(&self) -> (r: &'static str)
        ensures
            r@ == self.spec_action_label(),
    {
        match self {
            ListItem::Application(_) => "Open",
            ListItem::Window(_) => "Switch",
            ListItem::Action(_) => "Run",
            ListItem::Submenu(_) => "Open",
            ListItem::Calculator(_) => "Copy",
            ListItem::Search(_) => "Open",
        }
    }

    /// Get the sort priority for this item's kind. Lower values appear
    /// first: Calculator < Search < Windows < Commands < Applications.
    pub fn sort_priority(&self) -> (r: u8)
        ensures
            r == self.spec_sort_priority(),
    {
        match self {
            ListItem::Calculator(_) => 0,
            ListItem::Search(_) => 1,
            ListItem::Window(_) => 2,
            ListItem::Submenu(_) => 3,
            ListItem::Action(_) => 3,
            ListItem::Application(_) => 4,
        }
    }

    /// Get the section name for this item's kind.
    pub fn section_name(&self) -> (r: &'static str)
        ensures
            r@ == self.spec_section_name(),
    {
        match self {
            ListItem::Calculator(_) => "Calculator",
            ListItem::Search(_) => "Search",
            ListItem::Window(_) => "Windows",
            ListItem::Submenu(_) => "Commands",
            ListItem::Action(_) => "Commands",
            ListItem::Application(_) => "Applications",
        }
    }
}

impl From<ApplicationItem> for ListItem {
    fn from(item: ApplicationItem) -> (r: Self)
        ensures
            r == ListItem::Application(item),
    {
        ListItem::Application(item)
    }
}

impl vstd::std_specs::convert::FromSpecImpl<ApplicationItem> for ListItem {
    open spec fn obeys_from_spec() -> bool {
        true
    }

    open spec fn from_spec(item: ApplicationItem) -> ListItem {
        ListItem::Application(item)
    }
}

impl From<WindowItem> for ListItem {
    fn from(item: WindowItem) -> (r: Self)
        ensures
            r == ListItem::Window(item),
    {
        ListItem::Window(item)
    }
}

impl vstd::std_specs::convert::FromSpecImpl<WindowItem> for ListItem {
    open spec fn obeys_from_spec() -> bool {
        true
    }

    open spec fn from_spec(item: WindowItem) -> ListItem {
        ListItem::Window(item)
    }
}

impl From<ActionItem> for ListItem {
    fn from(item: ActionItem) -> (r: Self)
        ensures
            r == ListItem::Action(item),
    {
        ListItem::Action(item)
    }
}

impl vstd::std_specs::convert::FromSpecImpl<ActionItem> for ListItem {
    open spec fn obeys_from_spec() -> bool {
        true
    }

    open spec fn from_spec(item: ActionItem) -> ListItem {
        ListItem::Action(item)
    }
}

impl From<SubmenuItem> for ListItem {
    fn from(item: SubmenuItem) -> (r: Self)
        ensures
            r == ListItem::Submenu(item),
    {
        ListItem::Submenu(item)
    }
}

impl vstd::std_specs::convert::FromSpecImpl<SubmenuItem> for ListItem {
    open spec fn obeys_from_spec() -> bool {
        true
    }

    open spec fn from_spec(item: SubmenuItem) -> ListItem {
        ListItem::Submenu(item)
    }
}

impl From<CalculatorItem> for ListItem {
    fn from(item: CalculatorItem) -> (r: Self)
        ensures
            r == ListItem::Calculator(item),
    {
        ListItem::Calculator(item)
    }
}

impl vstd::std_specs::convert::FromSpecImpl<CalculatorItem> for ListItem {
    open spec fn obeys_from_spec() -> bool {
        true
    }

    open spec fn from_spec(item: CalculatorItem) -> ListItem {
        ListItem::Calculator(item)
    }
}

impl From<crate::search::SearchItem> for ListItem {
    fn from(item: crate::search::SearchItem) -> (r: Self)
        ensures
            r == ListItem::Search(item),
    {
        ListItem::Search(item)
    }
}

impl vstd::std_specs::convert::FromSpecImpl<crate::search::SearchItem> for ListItem {
    open spec fn obeys_from_spec() -> bool {
        true
    }

    open spec fn from_spec(item: crate::search::SearchItem) -> ListItem {
        ListItem::Search(item)
    }
}

} // verus!
