//! A box that claims all the space its parent offers.

use vstd::prelude::*;

use super::{Widget, WidgetData};

verus! {

/// Reports the full incoming space constraint as its own size and always
/// reports that it expands, so an enclosing list grants it the remaining
/// main-axis slack.
#[derive(Debug)]
pub struct Expanded {
    pub data: WidgetData,
}

impl Expanded {
    pub fn new() -> (r: Widget)
        ensures
            (r matches Widget::Expanded(e) && e.data == WidgetData::spec_new()),
    {
        Widget::Expanded(Expanded { data: WidgetData::new() })
    }
}

} // verus!
