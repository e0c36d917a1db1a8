//! The flex container: lays its children out along one axis.

use vstd::prelude::*;

use super::{Widget, WidgetData};
use crate::graphics::{cadd, csub, Position, Size};

verus! {

/// How children are distributed along the main axis.
#[derive(Clone, Copy, Debug, PartialEq, Eq, Structural)]
pub enum MainAxisAlignment {
    Start,
    Center,
    End,
    SpaceBetween,
    SpaceAround,
}

/// How each child is placed across the main axis.
#[derive(Clone, Copy, Debug, PartialEq, Eq, Structural)]
pub enum CrossAxisAlignment {
    Start,
    Center,
    End,
}

/// Whether the list sizes its main axis to its children or to the
/// incoming constraint.
#[derive(Clone, Copy, Debug, PartialEq, Eq, Structural)]
pub enum MainAxisSize {
    Min,
    Max,
}

/// Whether the list sizes its cross axis to its children or to the
/// incoming constraint.
#[derive(Clone, Copy, Debug, PartialEq, Eq, Structural)]
pub enum CrossAxisSize {
    Min,
    Max,
}

/// The axis a list arranges its children along.
#[derive(Clone, Copy, Debug, PartialEq, Eq, Structural)]
pub enum ListDirection {
    Column,
    Row,
}

/// The flex container.
#[derive(Debug)]
pub struct List {
    pub data: WidgetData,
    pub direction: ListDirection,
    pub main_axis_alignment: MainAxisAlignment,
    pub cross_axis_alignment: CrossAxisAlignment,
    pub main_axis_size: MainAxisSize,
    pub cross_axis_size: CrossAxisSize,
    pub children: Vec<Widget>,
}

impl List {
    pub fn new(
        direction: ListDirection,
        main_axis_alignment: MainAxisAlignment,
        cross_axis_alignment: CrossAxisAlignment,
        main_axis_size: MainAxisSize,
        cross_axis_size: CrossAxisSize,
        children: Vec<Widget>,
    ) -> (r: Widget)
        ensures
            (r matches Widget::List(l) && {
                &&& l.data == WidgetData::spec_new()
                &&& l.direction == direction
                &&& l.main_axis_alignment == main_axis_alignment
                &&& l.cross_axis_alignment == cross_axis_alignment
                &&& l.main_axis_size == main_axis_size
                &&& l.cross_axis_size == cross_axis_size
                &&& l.children == children
            }),
    {
        Widget::List(List {
            data: WidgetData::new(),
            direction,
            main_axis_alignment,
            cross_axis_alignment,
            main_axis_size,
            cross_axis_size,
            children,
        })
    }
}

/// The main-axis extent of a size.
pub open spec fn main_of(s: Size, direction: ListDirection) -> int {
    match direction {
        ListDirection::Column => s.height as int,
        ListDirection::Row => s.width as int,
    }
}

/// The cross-axis extent of a size.
pub open spec fn cross_of(s: Size, direction: ListDirection) -> int {
    match direction {
        ListDirection::Column => s.width as int,
        ListDirection::Row => s.height as int,
    }
}

/// A size assembled from main- and cross-axis extents.
pub open spec fn size_from_axes(main: int, cross: int, direction: ListDirection) -> Size {
    match direction {
        ListDirection::Column => Size { width: cross as u32, height: main as u32 },
        ListDirection::Row => Size { width: main as u32, height: cross as u32 },
    }
}

/// A position assembled from main- and cross-axis offsets.
pub open spec fn pos_from_axes(main: int, cross: int, direction: ListDirection) -> Position {
    match direction {
        ListDirection::Column => Position { x: cross as u32, y: main as u32 },
        ListDirection::Row => Position { x: main as u32, y: cross as u32 },
    }
}

/// The pairwise reduction of the first `n` child sizes: clamped sum along
/// the main axis, maximum along the cross axis.
pub open spec fn total_prefix(sizes: Seq<Size>, direction: ListDirection, n: int) -> Size
    decreases n,
{
    if n <= 0 {
        Size { width: 0, height: 0 }
    } else {
        let acc = total_prefix(sizes, direction, n - 1);
        let s = sizes[n - 1];
        let main = cadd(main_of(acc, direction), main_of(s, direction));
        let cross = if cross_of(acc, direction) >= cross_of(s, direction) {
            cross_of(acc, direction)
        } else {
            cross_of(s, direction)
        };
        size_from_axes(main, cross, direction)
    }
}

/// The reduction of all child sizes.
pub open spec fn total_size(sizes: Seq<Size>, direction: ListDirection) -> Size {
    total_prefix(sizes, direction, sizes.len() as int)
}

/// Whether some child before index `i` expands.
pub open spec fn has_expander_before(flags: Seq<bool>, i: int) -> bool {
    exists|j: int| 0 <= j < i && flags[j]
}

/// Whether any child expands.
pub open spec fn has_expander(flags: Seq<bool>) -> bool {
    has_expander_before(flags, flags.len() as int)
}

/// The children's sizes once the single expanding child (the first one,
/// if any; at most one is supported) has been granted the remaining
/// main-axis space: its extent becomes `available − total + its own`,
/// clamped at zero.
pub open spec fn adjusted_sizes(
    sizes: Seq<Size>,
    flags: Seq<bool>,
    direction: ListDirection,
    available_main: int,
) -> Seq<Size> {
    let total = total_size(sizes, direction);
    Seq::new(
        sizes.len(),
        |i: int|
            if flags[i] && !has_expander_before(flags, i) {
                size_from_axes(
                    csub(cadd(available_main, main_of(sizes[i], direction)), main_of(total, direction)),
                    cross_of(sizes[i], direction),
                    direction,
                )
            } else {
                sizes[i]
            },
    )
}

/// The total main-axis size after expansion: the full constraint when a
/// child expands, the children's own total otherwise.
pub open spec fn adjusted_total_main(
    sizes: Seq<Size>,
    flags: Seq<bool>,
    direction: ListDirection,
    available_main: int,
) -> int {
    if has_expander(flags) {
        available_main
    } else {
        main_of(total_size(sizes, direction), direction)
    }
}

/// The extra space inserted immediately before child `i` by the
/// space-distributing alignments. With a single child, distributing space
/// between children is degenerate and inserts nothing.
pub open spec fn extra_before(alignment: MainAxisAlignment, slack: int, n: int, i: int) -> int {
    match alignment {
        MainAxisAlignment::SpaceBetween => if i == 0 || n <= 1 {
            0
        } else {
            slack / (n - 1)
        },
        MainAxisAlignment::SpaceAround => slack / (n + 1),
        _ => 0,
    }
}

/// The main-axis space consumed by the first `i` children: their
/// (expansion-adjusted) extents plus the extra space inserted before each.
pub open spec fn used_before(
    adjusted: Seq<Size>,
    direction: ListDirection,
    alignment: MainAxisAlignment,
    slack: int,
    i: int,
) -> int
    decreases i,
{
    if i <= 0 {
        0
    } else {
        cadd(
            used_before(adjusted, direction, alignment, slack, i - 1),
            cadd(
                extra_before(alignment, slack, adjusted.len() as int, i - 1),
                main_of(adjusted[i - 1], direction),
            ),
        )
    }
}

/// Child `i`'s main-axis offset: the alignment's base offset, plus the
/// space consumed before it, plus its own extra space.
pub open spec fn main_position(
    adjusted: Seq<Size>,
    direction: ListDirection,
    alignment: MainAxisAlignment,
    slack: int,
    i: int,
) -> int {
    let used = used_before(adjusted, direction, alignment, slack, i);
    let extra = extra_before(alignment, slack, adjusted.len() as int, i);
    match alignment {
        MainAxisAlignment::Start => used,
        MainAxisAlignment::Center => cadd(slack / 2, used),
        MainAxisAlignment::End => cadd(slack, used),
        MainAxisAlignment::SpaceBetween => cadd(used, extra),
        MainAxisAlignment::SpaceAround => cadd(used, extra),
    }
}

/// The main-axis extent of a size.
pub fn main_axis_of(s: Size, direction: ListDirection) -> (r: u32)
    ensures
        r as int == main_of(s, direction),
{
    match direction {
        ListDirection::Column => s.height,
        ListDirection::Row => s.width,
    }
}

/// The cross-axis extent of a size.
pub fn cross_axis_of(s: Size, direction: ListDirection) -> (r: u32)
    ensures
        r as int == cross_of(s, direction),
{
    match direction {
        ListDirection::Column => s.width,
        ListDirection::Row => s.height,
    }
}

/// A size assembled from main- and cross-axis extents.
pub fn make_size(main: u32, cross: u32, direction: ListDirection) -> (r: Size)
    ensures
        r == size_from_axes(main as int, cross as int, direction),
{
    match direction {
        ListDirection::Column => Size { width: cross, height: main },
        ListDirection::Row => Size { width: main, height: cross },
    }
}

/// A position assembled from main- and cross-axis offsets.
pub fn make_pos(main: u32, cross: u32, direction: ListDirection) -> (r: Position)
    ensures
        r == pos_from_axes(main as int, cross as int, direction),
{
    match direction {
        ListDirection::Column => Position { x: cross, y: main },
        ListDirection::Row => Position { x: main, y: cross },
    }
}

/// Everything the placement of one child depends on, computed from the
/// children's natural sizes and expansion flags under the list's
/// committed constraint: the total, the expansion adjustment, the list's
/// resolved extent, and the slack.
pub open spec fn placement(
    sizes: Seq<Size>,
    flags: Seq<bool>,
    direction: ListDirection,
    main_axis_size: MainAxisSize,
    cross_axis_size: CrossAxisSize,
    available_space: Size,
) -> (Seq<Size>, int, int, int) {
    let available_main = main_of(available_space, direction);
    let adjusted = adjusted_sizes(sizes, flags, direction, available_main);
    let total_main = adjusted_total_main(sizes, flags, direction, available_main);
    let main_real = match main_axis_size {
        MainAxisSize::Max => available_main,
        MainAxisSize::Min => total_main,
    };
    let cross_real = match cross_axis_size {
        CrossAxisSize::Max => cross_of(available_space, direction),
        CrossAxisSize::Min => cross_of(total_size(sizes, direction), direction),
    };
    let slack = csub(main_real, total_main);
    (adjusted, main_real, cross_real, slack)
}

/// The rectangle (relative position and committed size) the flex
/// algorithm assigns to child `i`.
pub open spec fn child_rect(
    sizes: Seq<Size>,
    flags: Seq<bool>,
    direction: ListDirection,
    main_axis_alignment: MainAxisAlignment,
    cross_axis_alignment: CrossAxisAlignment,
    main_axis_size: MainAxisSize,
    cross_axis_size: CrossAxisSize,
    available_space: Size,
    i: int,
) -> (Position, Size) {
    let (adjusted, main_real, cross_real, slack) = placement(
        sizes,
        flags,
        direction,
        main_axis_size,
        cross_axis_size,
        available_space,
    );
    let mp = main_position(adjusted, direction, main_axis_alignment, slack, i);
    let cp = cross_position(cross_axis_alignment, cross_real, cross_of(adjusted[i], direction));
    (pos_from_axes(mp, cp, direction), adjusted[i])
}

/// A child's cross-axis offset within the list's cross extent.
pub open spec fn cross_position(
    alignment: CrossAxisAlignment,
    cross_real: int,
    child_cross: int,
) -> int {
    match alignment {
        CrossAxisAlignment::Start => 0,
        CrossAxisAlignment::Center => csub(cross_real, child_cross) / 2,
        CrossAxisAlignment::End => csub(cross_real, child_cross),
    }
}

/// The single-expander law: when exactly one child expands, the flex
/// algorithm grants it all the remaining main-axis space — its extent
/// becomes the constraint minus the other children's total (clamped at
/// zero), every other child keeps its natural size, and the children then
/// fill the main axis exactly.
pub proof fn lemma_single_expander(
    sizes: Seq<Size>,
    flags: Seq<bool>,
    direction: ListDirection,
    available_main: int,
    j: int,
)
    requires
        sizes.len() == flags.len(),
        0 <= j < flags.len(),
        flags[j],
        forall|i: int| 0 <= i < flags.len() && i != j ==> !flags[i],
    ensures
        adjusted_sizes(sizes, flags, direction, available_main)[j] == size_from_axes(
            csub(
                cadd(available_main, main_of(sizes[j], direction)),
                main_of(total_size(sizes, direction), direction),
            ),
            cross_of(sizes[j], direction),
            direction,
        ),
        forall|i: int|
            0 <= i < sizes.len() && i != j ==> adjusted_sizes(
                sizes,
                flags,
                direction,
                available_main,
            )[i] == sizes[i],
        adjusted_total_main(sizes, flags, direction, available_main) == available_main,
{
    assert(!has_expander_before(flags, j));
    assert(has_expander(flags));
    assert forall|i: int|
        0 <= i < sizes.len() && i != j implies adjusted_sizes(
        sizes,
        flags,
        direction,
        available_main,
    )[i] == sizes[i] by {
        if flags[i] {
            assert(false);
        }
    }
}

/// The space-consumed prefix of a row of equal-sized children: with a
/// uniform extent `c` and a fixed gap `g` inserted before every child
/// but the first, the first `i` children consume `i*c + (i-1)*g`.
proof fn lemma_space_between_used(
    adjusted: Seq<Size>,
    direction: ListDirection,
    slack: int,
    c: int,
    i: int,
)
    requires
        adjusted.len() >= 2,
        0 <= c,
        0 <= slack,
        forall|j: int| 0 <= j < adjusted.len() ==> main_of(#[trigger] adjusted[j], direction) == c,
        adjusted.len() * c + slack <= u32::MAX as int,
        0 <= i <= adjusted.len(),
    ensures
        used_before(adjusted, direction, MainAxisAlignment::SpaceBetween, slack, i) == if i == 0 {
            0int
        } else {
            i * c + (i - 1) * (slack / (adjusted.len() - 1))
        },
    decreases i,
{
    let n = adjusted.len() as int;
    let g = slack / (n - 1);
    vstd::arithmetic::div_mod::lemma_div_pos_is_pos(slack, n - 1);
    vstd::arithmetic::div_mod::lemma_remainder_lower(slack, n - 1);
    if i > 0 {
        lemma_space_between_used(adjusted, direction, slack, c, i - 1);
        let prev = used_before(adjusted, direction, MainAxisAlignment::SpaceBetween, slack, i - 1);
        if i == 1 {
            assert(c + slack <= u32::MAX as int && 1 * c + 0 * g == c) by (nonlinear_arith)
                requires
                    0 <= c,
                    0 <= slack,
                    2 <= n,
                    n * c + slack <= u32::MAX as int,
            ;
        } else {
            assert(prev + (g + c) == i * c + (i - 1) * g && 0 <= g + c <= u32::MAX as int && 0
                <= prev + (g + c) <= u32::MAX as int) by (nonlinear_arith)
                requires
                    0 <= c,
                    0 <= g,
                    2 <= i <= n,
                    g * (n - 1) <= slack,
                    n * c + slack <= u32::MAX as int,
                    prev == (i - 1) * c + (i - 2) * g,
            ;
        }
    }
}

/// The space-between law: children of one main-axis extent `c` under the
/// space-between alignment sit at the arithmetic progression
/// `i * (c + slack/(n-1))` — the slack divided into `n-1` equal gaps, one
/// between each pair of neighbours and none at the edges.
pub proof fn lemma_space_between_positions(
    adjusted: Seq<Size>,
    direction: ListDirection,
    slack: int,
    c: int,
    i: int,
)
    requires
        adjusted.len() >= 2,
        0 <= c,
        0 <= slack,
        forall|j: int| 0 <= j < adjusted.len() ==> main_of(#[trigger] adjusted[j], direction) == c,
        adjusted.len() * c + slack <= u32::MAX as int,
        0 <= i < adjusted.len(),
    ensures
        main_position(adjusted, direction, MainAxisAlignment::SpaceBetween, slack, i) == i * (c
            + slack / (adjusted.len() - 1)),
{
    let n = adjusted.len() as int;
    let g = slack / (n - 1);
    lemma_space_between_used(adjusted, direction, slack, c, i);
    vstd::arithmetic::div_mod::lemma_div_pos_is_pos(slack, n - 1);
    vstd::arithmetic::div_mod::lemma_remainder_lower(slack, n - 1);
    let u = used_before(adjusted, direction, MainAxisAlignment::SpaceBetween, slack, i);
    if i == 0 {
        assert(0 * (c + g) == 0) by (nonlinear_arith);
    } else {
        assert(u + g == i * (c + g) && 0 <= u + g <= u32::MAX as int) by (nonlinear_arith)
            requires
                0 <= c,
                0 <= g,
                1 <= i < n,
                g * (n - 1) <= slack,
                n * c + slack <= u32::MAX as int,
                u == i * c + (i - 1) * g,
        ;
    }
}

/// The space-consumed prefix under the space-around rule: with a uniform
/// extent `c` and the gap `g` inserted before every child, the first `i`
/// children consume `i*(c+g)`.
proof fn lemma_space_around_used(
    adjusted: Seq<Size>,
    direction: ListDirection,
    slack: int,
    c: int,
    i: int,
)
    requires
        adjusted.len() >= 1,
        0 <= c,
        0 <= slack,
        forall|j: int| 0 <= j < adjusted.len() ==> main_of(#[trigger] adjusted[j], direction) == c,
        adjusted.len() * c + slack <= u32::MAX as int,
        0 <= i <= adjusted.len(),
    ensures
        used_before(adjusted, direction, MainAxisAlignment::SpaceAround, slack, i) == i * (c
            + slack / (adjusted.len() as int + 1)),
    decreases i,
{
    let n = adjusted.len() as int;
    let g = slack / (n + 1);
    vstd::arithmetic::div_mod::lemma_div_pos_is_pos(slack, n + 1);
    vstd::arithmetic::div_mod::lemma_remainder_lower(slack, n + 1);
    if i == 0 {
        assert(0 * (c + g) == 0) by (nonlinear_arith);
    } else {
        lemma_space_around_used(adjusted, direction, slack, c, i - 1);
        let prev = used_before(adjusted, direction, MainAxisAlignment::SpaceAround, slack, i - 1);
        assert(prev + (g + c) == i * (c + g) && 0 <= g + c <= u32::MAX as int && 0 <= prev + (g
            + c) <= u32::MAX as int) by (nonlinear_arith)
            requires
                0 <= c,
                0 <= g,
                1 <= i <= n,
                g * (n + 1) <= slack,
                n * c + slack <= u32::MAX as int,
                prev == (i - 1) * (c + g),
        ;
    }
}

/// The space-around law: children of one main-axis extent `c` under the
/// space-around alignment sit at `(i+1)*g + i*c`, with the slack divided
/// into `n+1` equal parts `g = slack/(n+1)` — one before, between, and
/// after every child.
pub proof fn lemma_space_around_positions(
    adjusted: Seq<Size>,
    direction: ListDirection,
    slack: int,
    c: int,
    i: int,
)
    requires
        adjusted.len() >= 1,
        0 <= c,
        0 <= slack,
        forall|j: int| 0 <= j < adjusted.len() ==> main_of(#[trigger] adjusted[j], direction) == c,
        adjusted.len() * c + slack <= u32::MAX as int,
        0 <= i < adjusted.len(),
    ensures
        main_position(adjusted, direction, MainAxisAlignment::SpaceAround, slack, i) == (i + 1) * (
        slack / (adjusted.len() as int + 1)) + i * c,
{
    let n = adjusted.len() as int;
    let g = slack / (n + 1);
    lemma_space_around_used(adjusted, direction, slack, c, i);
    vstd::arithmetic::div_mod::lemma_div_pos_is_pos(slack, n + 1);
    vstd::arithmetic::div_mod::lemma_remainder_lower(slack, n + 1);
    let u = used_before(adjusted, direction, MainAxisAlignment::SpaceAround, slack, i);
    assert(u + g == (i + 1) * g + i * c && 0 <= u + g <= u32::MAX as int) by (nonlinear_arith)
        requires
            0 <= c,
            0 <= g,
            0 <= i < n,
            g * (n + 1) <= slack,
            n * c + slack <= u32::MAX as int,
            u == i * (c + g),
    ;
}

} // verus!
