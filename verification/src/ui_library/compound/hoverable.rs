//! A stateful node that switches its subtree when the pointer passes
//! over it.

use vstd::prelude::*;

use super::super::{CompoundWidgetData, StatefulWidgetEventHandlerInfo, Widget};
use crate::event_handlers::HandledEventInfo;
use crate::state::State;

verus! {

/// The persistent state of a `Hoverable`: whether the pointer has been
/// seen over it.
#[derive(Clone, Copy, Debug, PartialEq, Eq, Structural)]
pub struct HoverableState {
    pub is_hovered: bool,
}

impl HoverableState {
    pub fn new() -> (r: Self)
        ensures
            !r.is_hovered,
    {
        HoverableState { is_hovered: false }
    }
}

impl State for HoverableState {

}

/// A compound node that builds one of two subtree descriptions depending
/// on its persistent hover state, and captures pointer movement over its
/// bounds, flipping that state and requesting rebuild, relayout and
/// redraw.
#[derive(Debug)]
pub struct Hoverable {
    pub data: CompoundWidgetData,
    pub normal_child: Box<Widget>,
    pub hovered_child: Box<Widget>,
}

impl Hoverable {
    pub fn new(normal_child: Widget, hovered_child: Widget) -> (r: Widget)
        ensures
            (r matches Widget::Hoverable(h) && {
                &&& h.data == CompoundWidgetData::spec_new()
                &&& *h.normal_child == normal_child
                &&& *h.hovered_child == hovered_child
            }),
    {
        Widget::Hoverable(Hoverable {
            data: CompoundWidgetData::new(),
            normal_child: Box::new(normal_child),
            hovered_child: Box::new(hovered_child),
        })
    }

    /// The subtree description this node builds for a given state: the
    /// hovered or the normal child template.
    pub open spec fn spec_build(self, state: HoverableState) -> Widget {
        if state.is_hovered {
            *self.hovered_child
        } else {
            *self.normal_child
        }
    }

    /// The hover handler, run when the pointer is inside this node's
    /// rectangle and no child claimed the event: note the hover in the
    /// persistent state, request relayout and redraw, and report the
    /// event captured and the subtree in need of a rebuild.
    pub fn on_mouse_move(
        state: &mut HoverableState,
        handled_event_info: &mut HandledEventInfo,
    ) -> (r: StatefulWidgetEventHandlerInfo)
        ensures
            final(state).is_hovered,
            *final(handled_event_info) == (HandledEventInfo {
                needs_relayout: true,
                needs_redraw: true,
            }),
            r.was_captured,
            r.needs_rebuild,
    {
        state.is_hovered = true;
        handled_event_info.needs_relayout = true;
        handled_event_info.needs_redraw = true;
        StatefulWidgetEventHandlerInfo { was_captured: true, needs_rebuild: true }
    }
}

} // verus!
