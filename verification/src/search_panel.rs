//! The panel that searches the project.

use vstd::prelude::*;

verus! {

/// What the panel is stored under.
pub const PROJECT_SEARCH_PANEL_KEY: &'static str = "ProjectSearchPanel";

/// What the panel's icon says.
pub const ICON_TOOLTIP: &'static str = "Project Search Panel";

/// The panel's rank among the panels of its dock.
pub const ACTIVATION_PRIORITY: u32 = 4;

/// The side of the window that the user chose for the panel.
#[derive(Clone, Copy, Debug, PartialEq, Eq, Structural)]
pub enum DockSide {
    Left,
    Right,
}

/// A side of the window that a panel can be at.
#[derive(Clone, Copy, Debug, PartialEq, Eq, Structural)]
pub enum DockPosition {
    Left,
    Bottom,
    Right,
}

/// Whether the user wants to search the project in the panel.
#[derive(Clone, Copy, Debug, PartialEq, Eq, Structural)]
pub enum ProjectSearchMode {
    Panel,
    Elsewhere,
}

/// What the panel's pane can hold.
#[derive(Clone, Copy, Debug, PartialEq, Eq, Structural)]
pub enum PaneItem {
    /// A search of the project, whose results are opened outside the panel.
    Search,
    Other,
}

/// Something that happens in a pane.
#[derive(Clone, Copy, Debug, PartialEq, Eq, Structural)]
pub enum PaneEvent {
    Remove,
    Other,
}

/// What the user can do with the panel wherever they are.
#[derive(Clone, Copy, Debug, PartialEq, Eq, Structural)]
pub enum PanelAction {
    ToggleFocus,
    Toggle,
}

/// The panel that searches the project.
#[derive(Debug)]
pub struct ProjectSearchPanel {
    pub items: Vec<PaneItem>,
}

/// The side to store when the panel is moved. A move to a side where it cannot be is ignored.
pub open spec fn stored_side(position: DockPosition) -> Option<DockSide> {
    match position {
        DockPosition::Left => Some(DockSide::Left),
        DockPosition::Right => Some(DockSide::Right),
        DockPosition::Bottom => None,
    }
}

/// Where a panel is whose side was stored.
pub open spec fn shown_at(side: DockSide) -> DockPosition {
    match side {
        DockSide::Left => DockPosition::Left,
        DockSide::Right => DockPosition::Right,
    }
}

impl ProjectSearchPanel {
    /// A panel with one search in it.
    pub fn new() -> (panel: Self)
        ensures
            panel.items@ == seq![PaneItem::Search],
    {
        let mut panel = ProjectSearchPanel { items: Vec::new() };
        panel.ensure_view();
        panel
    }

    /// Puts a search into the panel, unless there is one.
    pub fn ensure_view(&mut self)
        ensures
            final(self).items@ == (if old(self).items@.contains(PaneItem::Search) {
                old(self).items@
            } else {
                old(self).items@.push(PaneItem::Search)
            }),
    {
        let mut at: usize = 0;
        while at < self.items.len()
            invariant
                at <= self.items@.len(),
                self.items@ == old(self).items@,
                forall|i: int| 0 <= i < at ==> #[trigger] self.items@[i] != PaneItem::Search,
            decreases self.items@.len() - at,
        {
            if self.items[at] == PaneItem::Search {
                assert(self.items@[at as int] == PaneItem::Search);
                return ;
            }
            at = at + 1;
        }
        self.items.push(PaneItem::Search);
    }

    /// The panel of a workspace, as long as it is open.
    pub fn load(workspace_is_open: bool) -> (panel: Option<Self>)
        ensures
            panel is Some == workspace_is_open,
            panel matches Some(panel) ==> panel.items@ == seq![PaneItem::Search],
    {
        if workspace_is_open {
            Some(ProjectSearchPanel::new())
        } else {
            None
        }
    }

    /// Where the panel is.
    pub fn position(side: DockSide) -> (position: DockPosition)
        ensures
            position == shown_at(side),
    {
        match side {
            DockSide::Left => DockPosition::Left,
            DockSide::Right => DockPosition::Right,
        }
    }

    /// Whether the panel can be at the given side.
    pub fn position_is_valid(position: DockPosition) -> (valid: bool)
        ensures
            valid == stored_side(position) is Some,
    {
        match position {
            DockPosition::Left => true,
            DockPosition::Right => true,
            DockPosition::Bottom => false,
        }
    }

    /// The side to store when the panel is moved.
    pub fn set_position(position: DockPosition) -> (side: Option<DockSide>)
        ensures
            side == stored_side(position),
    {
        match position {
            DockPosition::Left => Some(DockSide::Left),
            DockPosition::Right => Some(DockSide::Right),
            DockPosition::Bottom => None,
        }
    }

    /// Whether the panel has an icon: only where the user wants buttons for searching, and wants
    /// to search in the panel.
    pub fn shows_icon(search_button: bool, mode: ProjectSearchMode) -> (shows: bool)
        ensures
            shows == (search_button && mode is Panel),
    {
        match mode {
            ProjectSearchMode::Panel => search_button,
            ProjectSearchMode::Elsewhere => false,
        }
    }

    /// Makes the panel active or not. An active one has a search in it.
    pub fn set_active(&mut self, active: bool)
        ensures
            final(self).items@ == (if active && !old(self).items@.contains(PaneItem::Search) {
                old(self).items@.push(PaneItem::Search)
            } else {
                old(self).items@
            }),
    {
        if active {
            self.ensure_view();
        }
    }

    /// Whether the panel closes: it does when its pane is to go.
    pub fn handle_pane_event(event: PaneEvent) -> (closes: bool)
        ensures
            closes == (event is Remove),
    {
        match event {
            PaneEvent::Remove => true,
            PaneEvent::Other => false,
        }
    }

    /// Whether the panel closes on something the user did. Both actions first move the focus to
    /// the panel or away from it, and `got_focus` says which; toggling the panel then closes one
    /// that lost the focus.
    pub fn handle_action(action: PanelAction, got_focus: bool) -> (closes: bool)
        ensures
            closes == (action is Toggle && !got_focus),
    {
        match action {
            PanelAction::ToggleFocus => false,
            PanelAction::Toggle => !got_focus,
        }
    }
}

/// The panel is where it was moved to, and nowhere else.
pub proof fn moves_are_kept(position: DockPosition, side: DockSide)
    ensures
        stored_side(position) matches Some(stored) ==> shown_at(stored) == position,
        stored_side(shown_at(side)) == Some(side),
{
}

/// The panel can be at the left and at the right, but not at the bottom, and is at the side that
/// was chosen for it.
pub proof fn panel_is_at_a_side(position: DockPosition, side: DockSide)
    ensures
        stored_side(position) is None <==> position is Bottom,
        shown_at(side) is Left <==> side is Left,
        shown_at(side) is Right <==> side is Right,
{
}

} // verus!
