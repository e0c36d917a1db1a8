//! A box that paints a solid background behind its child.

use vstd::prelude::*;

use super::{Widget, WidgetData};
use crate::graphics::Color;

verus! {

/// Reports its child's size as its own; on draw, paints a solid rectangle
/// sized to the child's measured size, then draws the child on top.
#[derive(Debug)]
pub struct Container {
    pub data: WidgetData,
    pub background: Color,
    pub child: Box<Widget>,
}

impl Container {
    pub fn new(background: Color, child: Widget) -> (r: Widget)
        ensures
            (r matches Widget::Container(c) && {
                &&& c.data == WidgetData::spec_new()
                &&& c.background == background
                &&& *c.child == child
            }),
    {
        Widget::Container(Container { data: WidgetData::new(), background, child: Box::new(child) })
    }
}

} // verus!
