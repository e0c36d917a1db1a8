//! Event handling: what handlers report back to the frame driver, and
//! the driver's responses to platform events.

use vstd::prelude::*;

use crate::graphics::{DrawCommand, Position, Size};
use crate::ui_library::{KeySeg, Widget};
use crate::state::StateValue;
use crate::ui_library::compound::hoverable::HoverableState;
use crate::AppRunner;

verus! {

/// Set by handlers during one dispatch: whether the tree must be laid
/// out again, and whether the next frame must be drawn.
#[derive(Clone, Copy, Debug, PartialEq, Eq, Structural)]
pub struct HandledEventInfo {
    pub needs_relayout: bool,
    pub needs_redraw: bool,
}

impl HandledEventInfo {
    pub fn new() -> (r: Self)
        ensures
            !r.needs_relayout,
            !r.needs_redraw,
    {
        HandledEventInfo { needs_relayout: false, needs_redraw: false }
    }
}

impl AppRunner {
    /// The window changed size: lay the whole tree out again against the
    /// new screen size and draw a frame.
    pub fn on_window_resize(&mut self, screen_dimensions: Size) -> (r: Vec<DrawCommand>)
        requires
            old(self).wf(),
        ensures
            final(self).wf(),
            Widget::same_skeleton(final(self).app, old(self).app),
            final(self).state_manager == old(self).state_manager,
            final(self).app.pos() == Position::spec_origin(),
            final(self).app.avail() == screen_dimensions,
            final(self).app.laid_out(),
            r@ == final(self).app.spec_draw(Position::spec_origin()).push(
                DrawCommand::UpdateDisplay,
            ),
    {
        let ghost before = self.app;
        self.app.set_layout(Position::origin(), screen_dimensions);
        proof {
            crate::ui_library::laws::lemma_skeleton_measures(self.app, before);
        }
        self.draw_frame()
    }

    /// A pointer moved: dispatch the event into the tree; if a node
    /// captured it, its state changed, so lay the tree out again against
    /// the current screen size and draw a frame. A declined event leaves
    /// everything untouched and paints nothing.
    pub fn on_mouse_move(&mut self, position: Position, screen_dimensions: Size) -> (r: Vec<
        DrawCommand,
    >)
        requires
            old(self).wf(),
        ensures
            final(self).wf(),
            !old(self).app.can_capture(Position::spec_origin(), position) ==> {
                &&& Widget::weq(final(self).app, old(self).app)
                &&& final(self).state_manager@ == old(self).state_manager@
                &&& r@ == Seq::<DrawCommand>::empty()
            },
            old(self).app.can_capture(Position::spec_origin(), position) ==> {
                let ck = old(self).app.capture_key(Position::spec_origin(), position);
                &&& final(self).state_manager@.contains_key(ck)
                &&& final(self).state_manager@[ck] == StateValue::Hoverable(
                    HoverableState { is_hovered: true },
                )
                &&& forall|k: Seq<KeySeg>|
                    (#[trigger] old(self).state_manager@.contains_key(k)) && k != ck
                        ==> final(self).state_manager@.contains_key(k)
                        && final(self).state_manager@[k] == old(self).state_manager@[k]
                &&& exists|mid: Widget|
                    {
                        &&& #[trigger] old(self).app.dispatched(
                            mid,
                            Position::spec_origin(),
                            position,
                            final(self).state_manager@,
                        )
                        &&& Widget::same_skeleton(final(self).app, mid)
                    }
                &&& final(self).app.pos() == Position::spec_origin()
                &&& final(self).app.avail() == screen_dimensions
                &&& final(self).app.laid_out()
                &&& r@ == final(self).app.spec_draw(Position::spec_origin()).push(
                    DrawCommand::UpdateDisplay,
                )
            },
    {
        let mut handled_event_info = HandledEventInfo::new();
        let captured = self.app.on_mouse_move_anywhere(
            Position::origin(),
            &position,
            &mut self.state_manager,
            &mut handled_event_info,
        );
        let ghost mid = self.app;
        if handled_event_info.needs_relayout {
            self.app.set_layout(Position::origin(), screen_dimensions);
            proof {
                crate::ui_library::laws::lemma_skeleton_measures(self.app, mid);
            }
        }
        if handled_event_info.needs_redraw {
            self.draw_frame()
        } else {
            Vec::new()
        }
    }
}

} // verus!
