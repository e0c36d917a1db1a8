//! The layout engine: list sizing, the single expander, the alignments,
//! and the padding round trip.

use casserole_core::graphics::{Position, Size};
use casserole_core::ui_library::expanded::Expanded;
use casserole_core::ui_library::list::{
    CrossAxisAlignment, CrossAxisSize, List, ListDirection, MainAxisAlignment, MainAxisSize,
};
use casserole_core::ui_library::padding::{Inset, Padding};
use casserole_core::ui_library::sized_box::SizedBox;
use casserole_core::ui_library::Widget;

fn fixed_box(width: u32, height: u32) -> Widget {
    SizedBox::new(Size { width, height }, Expanded::new())
}

fn row(
    main_axis_alignment: MainAxisAlignment,
    main_axis_size: MainAxisSize,
    cross_axis_size: CrossAxisSize,
    children: Vec<Widget>,
) -> Widget {
    List::new(
        ListDirection::Row,
        main_axis_alignment,
        CrossAxisAlignment::Start,
        main_axis_size,
        cross_axis_size,
        children,
    )
}

fn child_rects(list: &Widget) -> Vec<(Position, Size)> {
    match list {
        Widget::List(l) => l
            .children
            .iter()
            .map(|c| (c.get_position(), c.get_available_space()))
            .collect(),
        _ => panic!("not a list"),
    }
}

#[test]
fn list_min_sizing_sums_children() {
    let list = row(
        MainAxisAlignment::Start,
        MainAxisSize::Min,
        CrossAxisSize::Min,
        vec![fixed_box(30, 10), fixed_box(20, 10)],
    );
    let size = list.get_size(&Size { width: 200, height: 100 });
    assert_eq!(size, Size { width: 50, height: 10 });
}

#[test]
fn list_max_sizing_takes_the_constraint() {
    let list = row(
        MainAxisAlignment::Start,
        MainAxisSize::Max,
        CrossAxisSize::Min,
        vec![fixed_box(30, 10), fixed_box(20, 10)],
    );
    let size = list.get_size(&Size { width: 200, height: 100 });
    assert_eq!(size, Size { width: 200, height: 10 });
}

#[test]
fn column_min_sizing_sums_heights() {
    let list = List::new(
        ListDirection::Column,
        MainAxisAlignment::Start,
        CrossAxisAlignment::Start,
        MainAxisSize::Min,
        CrossAxisSize::Min,
        vec![fixed_box(30, 10), fixed_box(20, 40)],
    );
    let size = list.get_size(&Size { width: 200, height: 100 });
    assert_eq!(size, Size { width: 30, height: 50 });
}

#[test]
fn single_expander_takes_the_remaining_space() {
    let mut list = row(
        MainAxisAlignment::Start,
        MainAxisSize::Max,
        CrossAxisSize::Max,
        vec![fixed_box(100, 10), Expanded::new()],
    );
    list.set_layout(Position { x: 0, y: 0 }, Size { width: 300, height: 50 });
    let rects = child_rects(&list);
    assert_eq!(rects[0].0, Position { x: 0, y: 0 });
    assert_eq!(rects[0].1, Size { width: 100, height: 10 });
    assert_eq!(rects[1].0, Position { x: 100, y: 0 });
    assert_eq!(rects[1].1, Size { width: 200, height: 50 });
}

#[test]
fn space_between_divides_slack_into_gaps() {
    let mut list = row(
        MainAxisAlignment::SpaceBetween,
        MainAxisSize::Max,
        CrossAxisSize::Max,
        vec![fixed_box(10, 10), fixed_box(10, 10), fixed_box(10, 10)],
    );
    list.set_layout(Position { x: 0, y: 0 }, Size { width: 100, height: 10 });
    let rects = child_rects(&list);
    // Slack 70 split into two equal gaps of 35.
    assert_eq!(rects[0].0.x, 0);
    assert_eq!(rects[1].0.x, 45);
    assert_eq!(rects[2].0.x, 90);
}

#[test]
fn space_around_divides_slack_around_every_child() {
    let mut list = row(
        MainAxisAlignment::SpaceAround,
        MainAxisSize::Max,
        CrossAxisSize::Max,
        vec![fixed_box(20, 10), fixed_box(20, 10), fixed_box(20, 10)],
    );
    list.set_layout(Position { x: 0, y: 0 }, Size { width: 200, height: 10 });
    let rects = child_rects(&list);
    // Slack 140 split into four equal parts of 35: before, between,
    // between, after.
    assert_eq!(rects[0].0.x, 35);
    assert_eq!(rects[1].0.x, 90);
    assert_eq!(rects[2].0.x, 145);
}

#[test]
fn space_around_truncates_fractional_parts() {
    let mut list = row(
        MainAxisAlignment::SpaceAround,
        MainAxisSize::Max,
        CrossAxisSize::Max,
        vec![fixed_box(10, 10), fixed_box(10, 10), fixed_box(10, 10)],
    );
    list.set_layout(Position { x: 0, y: 0 }, Size { width: 100, height: 10 });
    let rects = child_rects(&list);
    // Slack 70 over four parts is 17.5; whole-pixel units truncate the
    // part to 17.
    assert_eq!(rects[0].0.x, 17);
    assert_eq!(rects[1].0.x, 44);
    assert_eq!(rects[2].0.x, 71);
}

#[test]
fn center_alignment_centres_the_block() {
    let mut list = row(
        MainAxisAlignment::Center,
        MainAxisSize::Max,
        CrossAxisSize::Max,
        vec![fixed_box(10, 10), fixed_box(10, 10)],
    );
    list.set_layout(Position { x: 0, y: 0 }, Size { width: 100, height: 10 });
    let rects = child_rects(&list);
    assert_eq!(rects[0].0.x, 40);
    assert_eq!(rects[1].0.x, 50);
}

#[test]
fn end_alignment_packs_against_the_far_edge() {
    let mut list = row(
        MainAxisAlignment::End,
        MainAxisSize::Max,
        CrossAxisSize::Max,
        vec![fixed_box(10, 10), fixed_box(10, 10)],
    );
    list.set_layout(Position { x: 0, y: 0 }, Size { width: 100, height: 10 });
    let rects = child_rects(&list);
    assert_eq!(rects[0].0.x, 80);
    assert_eq!(rects[1].0.x, 90);
}

#[test]
fn cross_alignment_positions() {
    let mut list = List::new(
        ListDirection::Row,
        MainAxisAlignment::Start,
        CrossAxisAlignment::Center,
        MainAxisSize::Max,
        CrossAxisSize::Max,
        vec![fixed_box(10, 20)],
    );
    list.set_layout(Position { x: 0, y: 0 }, Size { width: 100, height: 100 });
    let rects = child_rects(&list);
    assert_eq!(rects[0].0, Position { x: 0, y: 40 });

    let mut list_end = List::new(
        ListDirection::Row,
        MainAxisAlignment::Start,
        CrossAxisAlignment::End,
        MainAxisSize::Max,
        CrossAxisSize::Max,
        vec![fixed_box(10, 20)],
    );
    list_end.set_layout(Position { x: 0, y: 0 }, Size { width: 100, height: 100 });
    let rects_end = child_rects(&list_end);
    assert_eq!(rects_end[0].0, Position { x: 0, y: 80 });
}

#[test]
fn degenerate_overflow_clamps_to_zero() {
    // Children overflow the constraint: slack clamps to zero and the
    // children pack from the start edge.
    let mut list = row(
        MainAxisAlignment::Center,
        MainAxisSize::Max,
        CrossAxisSize::Max,
        vec![fixed_box(80, 10), fixed_box(80, 10)],
    );
    list.set_layout(Position { x: 0, y: 0 }, Size { width: 100, height: 10 });
    let rects = child_rects(&list);
    assert_eq!(rects[0].0.x, 0);
    assert_eq!(rects[1].0.x, 80);
}

#[test]
fn padding_round_trip_reports_inset_size() {
    let padded = Padding::new(Inset::every(10), Some(fixed_box(50, 50)));
    let size = padded.get_size(&Size { width: 500, height: 500 });
    assert_eq!(size, Size { width: 70, height: 70 });
}

#[test]
fn padding_offsets_the_child_origin() {
    let mut padded = Padding::new(Inset::every(10), Some(fixed_box(50, 50)));
    padded.set_layout(Position { x: 0, y: 0 }, Size { width: 500, height: 500 });
    match &padded {
        Widget::Padding(p) => {
            let child = p.child.as_ref().expect("padding keeps its child");
            assert_eq!(child.get_position(), Position { x: 10, y: 10 });
            assert_eq!(
                child.get_available_space(),
                Size { width: 480, height: 480 }
            );
        }
        _ => panic!("not a padding"),
    }
}

#[test]
fn padding_without_child_contributes_only_the_inset() {
    let padded = Padding::new(Inset::symmetric(5, 20), None);
    let size = padded.get_size(&Size { width: 500, height: 500 });
    assert_eq!(size, Size { width: 40, height: 10 });
}

#[test]
fn padding_larger_than_constraint_clamps_to_zero() {
    let padded = Padding::new(Inset::every(10), Some(Expanded::new()));
    let size = padded.get_size(&Size { width: 5, height: 5 });
    // The child's constraint clamps to zero; the inset is added back.
    assert_eq!(size, Size { width: 20, height: 20 });
}

#[test]
fn sized_box_reports_its_fixed_size_regardless_of_constraint() {
    let boxed = fixed_box(50, 40);
    assert_eq!(
        boxed.get_size(&Size { width: 7, height: 7 }),
        Size { width: 50, height: 40 }
    );
    assert_eq!(
        boxed.get_size(&Size { width: 700, height: 700 }),
        Size { width: 50, height: 40 }
    );
}

#[test]
fn measuring_commits_nothing() {
    // A layout query must not alter any stored position or constraint:
    // only set_layout commits geometry.
    let mut list = row(
        MainAxisAlignment::Start,
        MainAxisSize::Max,
        CrossAxisSize::Max,
        vec![fixed_box(30, 10), fixed_box(20, 10)],
    );
    list.set_layout(Position { x: 2, y: 3 }, Size { width: 90, height: 20 });
    let pos_before = list.get_position();
    let avail_before = list.get_available_space();
    let rects_before = child_rects(&list);

    let _ = list.get_width(&Size { width: 777, height: 777 });
    let _ = list.get_height(&Size { width: 1, height: 1 });
    let _ = list.get_size(&Size { width: 0, height: 0 });

    assert_eq!(list.get_position(), pos_before);
    assert_eq!(list.get_available_space(), avail_before);
    assert_eq!(child_rects(&list), rects_before);
}
