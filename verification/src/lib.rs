//! A small retained-mode declarative UI toolkit.
//!
//! Applications describe a tree of widgets; the toolkit assigns each node a
//! path-based identity key, keeps widget-local state alive across rebuilds
//! under that key, computes a flex-style layout, produces a display list for
//! a pluggable graphics backend, and routes pointer events back into the
//! tree. The platform layer (windowing, input polling, rendering) stays
//! outside; it talks to the core through plain values: screen sizes in,
//! display lists out.

pub mod event_handlers;
pub mod graphics;
pub mod state;
pub mod ui_library;

use vstd::prelude::*;

use crate::graphics::{Color, DrawCommand, Position, Size};
use crate::ui_library::compound::button::Button;
use crate::ui_library::container::Container;
use crate::ui_library::expanded::Expanded;
use crate::ui_library::list::{
    CrossAxisAlignment, CrossAxisSize, List, ListDirection, MainAxisAlignment, MainAxisSize,
};
use crate::ui_library::padding::{Inset, Padding};
use crate::ui_library::sized_box::SizedBox;
use crate::state::StateManager;
use crate::ui_library::{CompoundWidgetData, Key, Widget, WidgetData};

verus! {

/// The demonstration application: a compound root node whose build
/// describes the whole demo interface.
#[derive(Debug)]
pub struct App {
    pub data: CompoundWidgetData,
}

impl App {
    pub fn new() -> (r: Self)
        ensures
            r.data == CompoundWidgetData::spec_new(),
    {
        App { data: CompoundWidgetData::new() }
    }

    /// The backdrop of the demo interface: a green surface that claims
    /// the remaining space.
    pub open spec fn spec_backdrop() -> Widget {
        Widget::Container(Container {
            data: WidgetData::spec_new(),
            background: Color { r: 0, g: 255, b: 0 },
            child: Box::new(Widget::Expanded(Expanded { data: WidgetData::spec_new() })),
        })
    }

    /// The fixed blue cell at the left of the demo banner.
    pub open spec fn spec_cell() -> Widget {
        Widget::SizedBox(SizedBox {
            data: WidgetData::spec_new(),
            size: Size { width: 100, height: 20 },
            child: Box::new(Widget::Container(Container {
                data: WidgetData::spec_new(),
                background: Color { r: 0, g: 0, b: 255 },
                child: Box::new(Widget::Expanded(Expanded { data: WidgetData::spec_new() })),
            })),
        })
    }

    /// The banner row: the fixed cell and a button, spread apart and
    /// centred across the row.
    pub open spec fn row_desc(t: Widget) -> bool {
        &&& t matches Widget::List(l)
        &&& l.data == WidgetData::spec_new()
        &&& l.direction == ListDirection::Row
        &&& l.main_axis_alignment == MainAxisAlignment::SpaceBetween
        &&& l.cross_axis_alignment == CrossAxisAlignment::Center
        &&& l.main_axis_size == MainAxisSize::Max
        &&& l.cross_axis_size == CrossAxisSize::Min
        &&& l.children@.len() == 2
        &&& l.children@[0] == App::spec_cell()
        &&& l.children@[1] == Button::spec_default()
    }

    /// The banner: a red surface holding the padded banner row.
    pub open spec fn banner_desc(t: Widget) -> bool {
        &&& t matches Widget::Container(c)
        &&& c.data == WidgetData::spec_new()
        &&& c.background == (Color { r: 255, g: 0, b: 0 })
        &&& (*c.child matches Widget::Padding(p) && {
            &&& p.data == WidgetData::spec_new()
            &&& p.padding == (Inset { left: 20, top: 5, right: 20, bottom: 5 })
            &&& (p.child matches Some(row) && App::row_desc(*row))
        })
    }

    /// The subtree description the application root builds: a greedy
    /// column holding the banner above the backdrop.
    pub open spec fn build_desc(t: Widget) -> bool {
        &&& t matches Widget::List(l)
        &&& l.data == WidgetData::spec_new()
        &&& l.direction == ListDirection::Column
        &&& l.main_axis_alignment == MainAxisAlignment::Start
        &&& l.cross_axis_alignment == CrossAxisAlignment::Start
        &&& l.main_axis_size == MainAxisSize::Max
        &&& l.cross_axis_size == CrossAxisSize::Max
        &&& l.children@.len() == 2
        &&& App::banner_desc(l.children@[0])
        &&& l.children@[1] == App::spec_backdrop()
    }

    /// Materialise the subtree the application root describes.
    pub fn build(&self) -> (r: Widget)
        ensures
            App::build_desc(r),
            Widget::crank(r) == 2,
    {
        let cell = SizedBox::new(
            Size { width: 100, height: 20 },
            Container::new(Color { r: 0, g: 0, b: 255 }, Expanded::new()),
        );
        let button = Button::new();
        proof {
            assert(cell == App::spec_cell());
            assert(Widget::crank(cell) == 0) by {
                reveal_with_fuel(Widget::crank, 5);
            }
            assert(Widget::crank(button) == 2);
        }
        let mut row_children: Vec<Widget> = Vec::new();
        row_children.push(cell);
        row_children.push(button);
        let row = List::new(
            ListDirection::Row,
            MainAxisAlignment::SpaceBetween,
            CrossAxisAlignment::Center,
            MainAxisSize::Max,
            CrossAxisSize::Min,
            row_children,
        );
        proof {
            let cs = row_children@;
            assert(cs.last() == button);
            assert(cs.drop_last() =~= seq![cell]);
            assert(seq![cell].last() == cell);
            assert(seq![cell].drop_last() =~= Seq::<Widget>::empty());
            assert(Widget::crank_seq(Seq::<Widget>::empty()) == 0);
            assert(Widget::crank_seq(seq![cell]) == 0);
            assert(Widget::crank_seq(cs) == 2);
            assert(Widget::crank(row) == 2);
        }
        let banner = Container::new(
            Color { r: 255, g: 0, b: 0 },
            Padding::new(Inset::symmetric(5, 20), Some(row)),
        );
        let backdrop = Container::new(Color { r: 0, g: 255, b: 0 }, Expanded::new());
        proof {
            assert(App::banner_desc(banner));
            assert(Widget::crank(banner) == 2) by {
                reveal_with_fuel(Widget::crank, 5);
            }
            assert(backdrop == App::spec_backdrop());
            assert(Widget::crank(backdrop) == 0) by {
                reveal_with_fuel(Widget::crank, 4);
            }
        }
        let mut children: Vec<Widget> = Vec::new();
        children.push(banner);
        children.push(backdrop);
        let r = List::new(
            ListDirection::Column,
            MainAxisAlignment::Start,
            CrossAxisAlignment::Start,
            MainAxisSize::Max,
            CrossAxisSize::Max,
            children,
        );
        proof {
            let cs = children@;
            assert(cs.last() == backdrop);
            assert(cs.drop_last() =~= seq![banner]);
            assert(seq![banner].last() == banner);
            assert(seq![banner].drop_last() =~= Seq::<Widget>::empty());
            assert(Widget::crank_seq(Seq::<Widget>::empty()) == 0);
            assert(Widget::crank_seq(seq![banner]) == 2);
            assert(Widget::crank_seq(cs) == 2);
            assert(Widget::crank(r) == 2);
            assert(App::build_desc(r));
        }
        r
    }
}

/// The running application: the root widget tree and the state store it
/// reads and writes. The platform layer drives it by handing in screen
/// sizes and pointer positions and forwarding the display lists it
/// returns.
#[derive(Debug)]
pub struct AppRunner {
    pub app: Widget,
    pub state_manager: StateManager,
}

impl AppRunner {
    /// The runner's standing invariant: the tree is built and keyed (a
    /// rebuild has visited it) and the state store is consistent.
    pub open spec fn wf(self) -> bool {
        &&& self.app.ready()
        &&& self.state_manager.wf()
    }

    /// The display list of one frame: the whole tree drawn from the
    /// origin, then a flush.
    pub fn draw_frame(&self) -> (r: Vec<DrawCommand>)
        requires
            self.wf(),
        ensures
            r@ == self.app.spec_draw(Position::spec_origin()).push(DrawCommand::UpdateDisplay),
    {
        let mut out: Vec<DrawCommand> = Vec::new();
        self.app.draw(Position::origin(), &mut out);
        out.push(DrawCommand::UpdateDisplay);
        proof {
            assert(out@ =~= self.app.spec_draw(Position::spec_origin()).push(
                DrawCommand::UpdateDisplay,
            ));
        }
        out
    }
}

/// Build the initial tree, lay it out against the current screen size,
/// and hand back the running application: what the platform layer calls
/// once at startup, and the frame driver thereafter.
pub fn entry_point(screen_dimensions: Size) -> (r: AppRunner)
    ensures
        r.wf(),
        exists|mid: Widget|
            {
                &&& #[trigger] Widget::rebuilt_from(
                    mid,
                    Widget::App(App { data: CompoundWidgetData::spec_new() }),
                    Seq::<ui_library::KeySeg>::empty(),
                    r.state_manager@,
                )
                &&& Widget::same_skeleton(r.app, mid)
            },
        r.app.pos() == Position::spec_origin(),
        r.app.avail() == screen_dimensions,
        r.app.laid_out(),
{
    let mut state_manager = StateManager::new();
    let mut app = Widget::App(App::new());
    let root_key = Key::new();
    app.rebuild_with_key(&root_key, &mut state_manager);
    let ghost mid = app;
    app.set_layout(Position::origin(), screen_dimensions);
    proof {
        ui_library::laws::lemma_skeleton_measures(app, mid);
        assert(root_key@ =~= Seq::<ui_library::KeySeg>::empty());
    }
    AppRunner { app, state_manager }
}

} // verus!
