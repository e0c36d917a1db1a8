//! A box with a fixed size.

use vstd::prelude::*;

use super::{Widget, WidgetData};
use crate::graphics::Size;

verus! {

/// Reports its fixed size upward regardless of the incoming constraint,
/// offers that fixed size to its child as the child's constraint, and
/// never expands.
#[derive(Debug)]
pub struct SizedBox {
    pub data: WidgetData,
    pub size: Size,
    pub child: Box<Widget>,
}

impl SizedBox {
    pub fn new(size: Size, child: Widget) -> (r: Widget)
        ensures
            (r matches Widget::SizedBox(b) && {
                &&& b.data == WidgetData::spec_new()
                &&& b.size == size
                &&& *b.child == child
            }),
    {
        Widget::SizedBox(SizedBox { data: WidgetData::new(), size, child: Box::new(child) })
    }
}

} // verus!
