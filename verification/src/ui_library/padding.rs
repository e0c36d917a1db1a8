//! A box that surrounds its child with empty space.

use vstd::prelude::*;

use super::sized_box::SizedBox;
use super::{Widget, WidgetData};
use crate::graphics::{cadd, csub, sat_add, sat_sub, Position, Size};

verus! {

/// The four edge widths of a padding box.
#[derive(Clone, Copy, Debug, PartialEq, Eq, Structural)]
pub struct Inset {
    pub left: u32,
    pub top: u32,
    pub right: u32,
    pub bottom: u32,
}

impl Inset {
    /// The same width on every edge.
    pub fn every(size: u32) -> (r: Self)
        ensures
            r == (Inset { left: size, top: size, right: size, bottom: size }),
    {
        Inset { left: size, top: size, right: size, bottom: size }
    }

    /// One width for the two horizontal edges and one for the two
    /// vertical ones.
    pub fn symmetric(vertical: u32, horizontal: u32) -> (r: Self)
        ensures
            r == (Inset { left: horizontal, top: vertical, right: horizontal, bottom: vertical }),
    {
        Inset { left: horizontal, top: vertical, right: horizontal, bottom: vertical }
    }
}

/// Subtracts its inset from the incoming constraint before offering it to
/// the child, adds the inset back when reporting its size, offsets the
/// child's origin by the left and top inset, and tolerates an absent
/// child (which contributes nothing).
#[derive(Debug)]
pub struct Padding {
    pub data: WidgetData,
    pub padding: Inset,
    pub child: Option<Box<Widget>>,
}

impl Padding {
    pub fn new(padding: Inset, child: Option<Widget>) -> (r: Widget)
        ensures
            (r matches Widget::Padding(p) && {
                &&& p.data == WidgetData::spec_new()
                &&& p.padding == padding
                &&& (match child {
                    Some(c) => p.child matches Some(b) && *b == c,
                    None => p.child is None,
                })
            }),
    {
        let boxed: Option<Box<Widget>> = match child {
            Some(c) => Some(Box::new(c)),
            None => None,
        };
        Widget::Padding(Padding { data: WidgetData::new(), padding, child: boxed })
    }

    /// The constraint left over for the child once the inset is taken
    /// from `available_space`, clamped at zero.
    pub open spec fn spec_child_constraint(inset: Inset, available_space: Size) -> Size {
        Size {
            width: csub(available_space.width as int, cadd(inset.left as int, inset.right as int)) as u32,
            height: csub(available_space.height as int, cadd(inset.top as int, inset.bottom as int)) as u32,
        }
    }

    /// The child's origin within the padding box.
    pub open spec fn spec_child_origin(inset: Inset) -> Position {
        Position { x: inset.left, y: inset.top }
    }

    pub fn get_available_space_for_child(&self, available_space: &Size) -> (r: Size)
        ensures
            r == Padding::spec_child_constraint(self.padding, *available_space),
    {
        Size {
            width: sat_sub(available_space.width, sat_add(self.padding.left, self.padding.right)),
            height: sat_sub(available_space.height, sat_add(self.padding.top, self.padding.bottom)),
        }
    }
}

/// The padding round trip: a padded fixed-size box reports, under every
/// constraint, the fixed size plus the inset on each axis — the inset
/// subtracted from the constraint on the way down is added back on the
/// way up — and once laid out, the child sits at the left and top inset
/// within the padding box.
pub proof fn lemma_padding_round_trip(w: Widget, available_space: Size)
    requires
        w is Padding,
        w->Padding_0.child is Some,
        (*w->Padding_0.child->Some_0) is SizedBox,
    ensures
        ({
            let p = w->Padding_0;
            let b = (*p.child->Some_0)->SizedBox_0;
            Widget::nat_size(w, available_space) == (Size {
                width: cadd(
                    b.size.width as int,
                    cadd(p.padding.left as int, p.padding.right as int),
                ) as u32,
                height: cadd(
                    b.size.height as int,
                    cadd(p.padding.top as int, p.padding.bottom as int),
                ) as u32,
            })
        }),
        w.laid_out() ==> (*w->Padding_0.child->Some_0).pos() == Padding::spec_child_origin(
            w->Padding_0.padding,
        ),
        w.laid_out() ==> (*w->Padding_0.child->Some_0).avail() == Padding::spec_child_constraint(
            w->Padding_0.padding,
            w.avail(),
        ),
{
    let p = w->Padding_0;
    let c = *p.child->Some_0;
    assert(Widget::nat_size(c, Padding::spec_child_constraint(p.padding, available_space))
        == c->SizedBox_0.size);
}

} // verus!
