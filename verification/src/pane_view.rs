//! The frame of a pane (header, content, dimming) and its drag state: what
//! the header's events do to it and what the pane group hears of them.

use vstd::prelude::*;

verus! {

/// Events a pane view sends to its pane group. The pane ids, directions,
/// action origins and tab-bar positions are the pane group's own types.
#[derive(Debug, Clone, Copy)]
pub enum PaneViewEvent<PaneId, Direction, ActionOrigin, TabBarHoverIndex> {
    MovePaneWithinPaneGroup { target_id: PaneId, direction: Direction },
    DroppedOnTabBar { origin: ActionOrigin },
    DraggedOntoTabBar {
        origin: ActionOrigin,
        tab_hover_index: TabBarHoverIndex,
        hidden_pane_preview_direction: Direction,
    },
    PaneDraggedOutsideTabBarOrPaneGroup,
    PaneDragEnded,
    PaneHeaderClicked,
    /// The header's close button, for hosts that hold the pane without a
    /// pane group.
    CloseRequested,
}

/// What a pane leaves for drops onto it.
#[derive(Debug, Clone, Copy, PartialEq, Eq)]
pub struct PaneDropTargetData<PaneId> {
    pub id: PaneId,
}

/// The drag-related events of the pane header; `from_pane` says whether the
/// drag started at a pane (rather than at a tab).
#[derive(Debug, Clone, Copy, PartialEq, Eq, Structural)]
pub enum HeaderDragEvent {
    MovePaneWithinPaneGroup,
    PaneDroppedWithinPaneGroup,
    DroppedOnTabBar { from_pane: bool },
    DraggedOverTabBar { from_pane: bool },
    PaneDraggedOutsideTabBarOrPaneGroup,
    PaneDroppedOutsideOfTabBarOrPaneGroup,
}

/// The pane event that a header drag event becomes (the payloads are passed
/// on unchanged by the caller).
#[derive(Debug, Clone, Copy, PartialEq, Eq, Structural)]
pub enum DragEventKind {
    MovePaneWithinPaneGroup,
    DroppedOnTabBar,
    DraggedOntoTabBar,
    PaneDraggedOutsideTabBarOrPaneGroup,
    PaneDragEnded,
}

/// The frame state of a pane view.
#[derive(Debug, Clone, Copy)]
pub struct PaneFrameState {
    /// The pane is being dragged: it keeps rendering its header (which takes
    /// the drag events) and gets a neutral background.
    pub is_being_dragged: bool,
    /// The pane is held by a host without a pane group (the floating editor).
    pub detached_from_pane_group: bool,
}

/// Whether the dragging flag stays, is set or is cleared by `event`.
pub open spec fn dragged_after(before: bool, event: HeaderDragEvent) -> bool {
    match event {
        HeaderDragEvent::MovePaneWithinPaneGroup => true,
        HeaderDragEvent::PaneDroppedWithinPaneGroup => false,
        HeaderDragEvent::DroppedOnTabBar { from_pane } => if from_pane {
            false
        } else {
            before
        },
        HeaderDragEvent::DraggedOverTabBar { from_pane } => if from_pane {
            true
        } else {
            before
        },
        HeaderDragEvent::PaneDraggedOutsideTabBarOrPaneGroup => true,
        HeaderDragEvent::PaneDroppedOutsideOfTabBarOrPaneGroup => false,
    }
}

impl PaneFrameState {
    /// A pane in a pane group, not dragged.
    pub fn new() -> (r: PaneFrameState)
        ensures
            !r.is_being_dragged,
            !r.detached_from_pane_group,
    {
        PaneFrameState { is_being_dragged: false, detached_from_pane_group: false }
    }

    /// Marks the pane as held by a host without a pane group.
    pub fn set_detached_from_pane_group(&mut self)
        ensures
            final(self).detached_from_pane_group,
            final(self).is_being_dragged == old(self).is_being_dragged,
    {
        self.detached_from_pane_group = true;
    }

    /// A drag event of the header: updates the dragging flag and tells which
    /// pane event to send. Drops end the drag; a pane dragged over the tab bar
    /// or out of the group is being dragged.
    pub fn handle_drag_event(&mut self, event: HeaderDragEvent) -> (r: DragEventKind)
        ensures
            final(self).is_being_dragged == dragged_after(old(self).is_being_dragged, event),
            final(self).detached_from_pane_group == old(self).detached_from_pane_group,
            r == (match event {
                HeaderDragEvent::MovePaneWithinPaneGroup => DragEventKind::MovePaneWithinPaneGroup,
                HeaderDragEvent::PaneDroppedWithinPaneGroup => DragEventKind::PaneDragEnded,
                HeaderDragEvent::DroppedOnTabBar { .. } => DragEventKind::DroppedOnTabBar,
                HeaderDragEvent::DraggedOverTabBar { .. } => DragEventKind::DraggedOntoTabBar,
                HeaderDragEvent::PaneDraggedOutsideTabBarOrPaneGroup => DragEventKind::PaneDraggedOutsideTabBarOrPaneGroup,
                HeaderDragEvent::PaneDroppedOutsideOfTabBarOrPaneGroup => DragEventKind::PaneDragEnded,
            }),
    {
        match event {
            HeaderDragEvent::MovePaneWithinPaneGroup => {
                self.is_being_dragged = true;
                DragEventKind::MovePaneWithinPaneGroup
            },
            HeaderDragEvent::PaneDroppedWithinPaneGroup => {
                self.is_being_dragged = false;
                DragEventKind::PaneDragEnded
            },
            HeaderDragEvent::DroppedOnTabBar { from_pane } => {
                if from_pane {
                    self.is_being_dragged = false;
                }
                DragEventKind::DroppedOnTabBar
            },
            HeaderDragEvent::DraggedOverTabBar { from_pane } => {
                if from_pane {
                    self.is_being_dragged = true;
                }
                DragEventKind::DraggedOntoTabBar
            },
            HeaderDragEvent::PaneDraggedOutsideTabBarOrPaneGroup => {
                self.is_being_dragged = true;
                DragEventKind::PaneDraggedOutsideTabBarOrPaneGroup
            },
            HeaderDragEvent::PaneDroppedOutsideOfTabBarOrPaneGroup => {
                self.is_being_dragged = false;
                DragEventKind::PaneDragEnded
            },
        }
    }

    /// On the header's close button, whether the pane closes its views
    /// itself: inside a pane group yes; a host without one closes the pane
    /// (and asks about unsaved changes) on its own.
    pub fn closes_children_on_close(&self) -> (r: bool)
        ensures
            r == !self.detached_from_pane_group,
    {
        !self.detached_from_pane_group
    }

    /// Whether the header is rendered: when the content wants it, and always
    /// during a drag (the header receives the drag events).
    pub fn renders_header(&self, child_wants_header: bool) -> (r: bool)
        ensures
            r == (child_wants_header || self.is_being_dragged),
    {
        child_wants_header || self.is_being_dragged
    }
}

/// Every drag ends in a not-dragged pane, whichever way it is dropped.
pub proof fn law_drop_ends_drag(before: bool)
    ensures
        !dragged_after(before, HeaderDragEvent::PaneDroppedWithinPaneGroup),
        !dragged_after(before, HeaderDragEvent::PaneDroppedOutsideOfTabBarOrPaneGroup),
        !dragged_after(before, HeaderDragEvent::DroppedOnTabBar { from_pane: true }),
{
}

/// Whether a pane is dimmed: with dimming of inactive panes on, a pane is
/// dimmed when focus is in a side panel, or when it is an unfocused pane of a
/// split.
pub fn should_dim(
    dim_inactive_panes: bool,
    dim_even_if_focused: bool,
    in_split_pane: bool,
    is_focused: bool,
) -> (r: bool)
    ensures
        r == (dim_inactive_panes && (dim_even_if_focused || (in_split_pane && !is_focused))),
{
    if dim_inactive_panes {
        if dim_even_if_focused {
            true
        } else {
            in_split_pane && !is_focused
        }
    } else {
        false
    }
}

} // verus!
