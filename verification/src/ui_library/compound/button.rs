//! A push-button: a fixed-size coloured box that highlights under the
//! pointer.

use vstd::prelude::*;

use super::super::container::Container;
use super::super::expanded::Expanded;
use super::super::sized_box::SizedBox;
use super::super::{CompoundWidgetData, Widget, WidgetData};
use super::hoverable::Hoverable;
use crate::graphics::{Color, Position, Size};

verus! {

/// A compound node that builds a hoverable, fixed-size coloured box: its
/// background colour switches to the highlight colour while hovered.
#[derive(Debug)]
pub struct Button {
    pub data: CompoundWidgetData,
    pub background_color: Color,
    pub hovered_background_color: Color,
}

impl Button {
    /// A freshly described button: blue, highlighted yellow.
    pub open spec fn spec_default() -> Widget {
        Widget::Button(Button {
            data: CompoundWidgetData::spec_new(),
            background_color: Color { r: 0, g: 0, b: 255 },
            hovered_background_color: Color { r: 255, g: 255, b: 0 },
        })
    }

    pub fn new() -> (r: Widget)
        ensures
            r == Button::spec_default(),
            (r matches Widget::Button(b) && {
                &&& b.data == CompoundWidgetData::spec_new()
                &&& b.background_color == (Color { r: 0, g: 0, b: 255 })
                &&& b.hovered_background_color == (Color { r: 255, g: 255, b: 0 })
            }),
    {
        Widget::Button(Button {
            data: CompoundWidgetData::new(),
            background_color: Color { r: 0, g: 0, b: 255 },
            hovered_background_color: Color { r: 255, g: 255, b: 0 },
        })
    }

    /// The face the button shows in one colour: a fixed 100 by 40 box
    /// filled edge to edge with that colour.
    pub open spec fn spec_face(color: Color) -> Widget {
        Widget::SizedBox(SizedBox {
            data: WidgetData::spec_new(),
            size: Size { width: 100, height: 40 },
            child: Box::new(Widget::Container(Container {
                data: WidgetData::spec_new(),
                background: color,
                child: Box::new(Widget::Expanded(Expanded { data: WidgetData::spec_new() })),
            })),
        })
    }

    /// The subtree description this node builds: a hoverable that shows
    /// the plain face normally and the highlighted face under the
    /// pointer.
    pub open spec fn spec_build(self) -> Widget {
        Widget::Hoverable(Hoverable {
            data: CompoundWidgetData::spec_new(),
            normal_child: Box::new(Button::spec_face(self.background_color)),
            hovered_child: Box::new(Button::spec_face(self.hovered_background_color)),
        })
    }

    fn face(color: Color) -> (r: Widget)
        ensures
            r == Button::spec_face(color),
    {
        SizedBox::new(
            Size { width: 100, height: 40 },
            Container::new(color, Expanded::new()),
        )
    }

    /// Materialise the subtree this button describes.
    pub fn build(&self) -> (r: Widget)
        ensures
            r == self.spec_build(),
    {
        Hoverable::new(Button::face(self.background_color), Button::face(self.hovered_background_color))
    }
}

} // verus!
