//! The widget tree protocol: key assignment, state persistence, event
//! dispatch, and the draw pass.

use casserole_core::entry_point;
use casserole_core::event_handlers::HandledEventInfo;
use casserole_core::graphics::{Color, DrawCommand, Position, Size};
use casserole_core::state::{StateManager, StateValue};
use casserole_core::ui_library::compound::hoverable::{Hoverable, HoverableState};
use casserole_core::ui_library::container::Container;
use casserole_core::ui_library::expanded::Expanded;
use casserole_core::ui_library::list::{
    CrossAxisAlignment, CrossAxisSize, List, ListDirection, MainAxisAlignment, MainAxisSize,
};
use casserole_core::ui_library::sized_box::SizedBox;
use casserole_core::ui_library::{Key, KeySeg, Widget, WidgetTag};

fn key_of(segments: Vec<KeySeg>) -> Key {
    let mut key = Key::new();
    for seg in segments {
        key = key.child(seg);
    }
    key
}

fn hover_cell(color: Color) -> Widget {
    // A hover-sensitive fixed cell: same face whether hovered or not.
    let face = |c: Color| {
        SizedBox::new(
            Size { width: 100, height: 100 },
            Container::new(c, Expanded::new()),
        )
    };
    Hoverable::new(face(color), face(Color { r: 255, g: 255, b: 255 }))
}

fn collect_keys(w: &Widget, out: &mut Vec<Vec<KeySeg>>) {
    out.push(w.get_key().segments.clone());
    match w {
        Widget::App(a) => {
            if let Some(b) = &a.data.cached_build {
                collect_keys(b, out);
            }
        }
        Widget::Button(b) => {
            if let Some(c) = &b.data.cached_build {
                collect_keys(c, out);
            }
        }
        Widget::Container(c) => collect_keys(&c.child, out),
        Widget::Expanded(_) => {}
        Widget::Hoverable(h) => {
            if let Some(b) = &h.data.cached_build {
                collect_keys(b, out);
            }
        }
        Widget::List(l) => {
            for child in &l.children {
                collect_keys(child, out);
            }
        }
        Widget::Padding(p) => {
            if let Some(c) = &p.child {
                collect_keys(c, out);
            }
        }
        Widget::SizedBox(b) => collect_keys(&b.child, out),
    }
}

#[test]
fn keys_are_paths_of_tags_and_indices() {
    let mut states = StateManager::new();
    let mut list = List::new(
        ListDirection::Row,
        MainAxisAlignment::Start,
        CrossAxisAlignment::Start,
        MainAxisSize::Min,
        CrossAxisSize::Min,
        vec![
            SizedBox::new(Size { width: 10, height: 10 }, Expanded::new()),
            Expanded::new(),
        ],
    );
    list.rebuild_with_key(&Key::new(), &mut states);
    let mut keys = Vec::new();
    collect_keys(&list, &mut keys);
    assert_eq!(keys[0], vec![KeySeg::Tag(WidgetTag::List)]);
    assert_eq!(
        keys[1],
        vec![
            KeySeg::Tag(WidgetTag::List),
            KeySeg::Index(0),
            KeySeg::Tag(WidgetTag::SizedBox),
        ]
    );
    assert_eq!(
        keys[2],
        vec![
            KeySeg::Tag(WidgetTag::List),
            KeySeg::Index(0),
            KeySeg::Tag(WidgetTag::SizedBox),
            KeySeg::Index(0),
            KeySeg::Tag(WidgetTag::Expanded),
        ]
    );
    assert_eq!(
        keys[3],
        vec![
            KeySeg::Tag(WidgetTag::List),
            KeySeg::Index(1),
            KeySeg::Tag(WidgetTag::Expanded),
        ]
    );
}

#[test]
fn consecutive_rebuilds_produce_identical_keys() {
    let mut runner = entry_point(Size { width: 800, height: 600 });
    let mut first = Vec::new();
    collect_keys(&runner.app, &mut first);

    let root = Key::new();
    runner.app.rebuild_with_key(&root, &mut runner.state_manager);
    let mut second = Vec::new();
    collect_keys(&runner.app, &mut second);

    assert_eq!(first, second);
}

#[test]
fn state_store_creates_then_reuses() {
    let mut states = StateManager::new();
    let key = key_of(vec![KeySeg::Tag(WidgetTag::Hoverable)]);
    let first = states.get_state(
        &key,
        StateValue::Hoverable(HoverableState { is_hovered: false }),
    );
    assert_eq!(
        first,
        StateValue::Hoverable(HoverableState { is_hovered: false })
    );
    states.set_state(&key, StateValue::Hoverable(HoverableState { is_hovered: true }));
    // The default of a later access loses to the stored value.
    let second = states.get_state(
        &key,
        StateValue::Hoverable(HoverableState { is_hovered: false }),
    );
    assert_eq!(
        second,
        StateValue::Hoverable(HoverableState { is_hovered: true })
    );
}

#[test]
fn distinct_keys_hold_distinct_state() {
    let mut states = StateManager::new();
    let a = key_of(vec![KeySeg::Index(0), KeySeg::Tag(WidgetTag::Hoverable)]);
    let b = key_of(vec![KeySeg::Index(1), KeySeg::Tag(WidgetTag::Hoverable)]);
    states.set_state(&a, StateValue::Hoverable(HoverableState { is_hovered: true }));
    let other = states.get_state(
        &b,
        StateValue::Hoverable(HoverableState { is_hovered: false }),
    );
    assert_eq!(
        other,
        StateValue::Hoverable(HoverableState { is_hovered: false })
    );
}

#[test]
fn key_equality_is_structural() {
    let a = key_of(vec![KeySeg::Tag(WidgetTag::App), KeySeg::Index(3)]);
    let b = key_of(vec![KeySeg::Tag(WidgetTag::App), KeySeg::Index(3)]);
    let c = key_of(vec![KeySeg::Tag(WidgetTag::App), KeySeg::Index(4)]);
    assert!(a.same_key(&b));
    assert!(!a.same_key(&c));
    assert!(!a.same_key(&Key::new()));
}

fn two_hoverables() -> (Widget, StateManager) {
    let mut states = StateManager::new();
    let mut list = List::new(
        ListDirection::Row,
        MainAxisAlignment::Start,
        CrossAxisAlignment::Start,
        MainAxisSize::Max,
        CrossAxisSize::Max,
        vec![
            hover_cell(Color { r: 10, g: 0, b: 0 }),
            hover_cell(Color { r: 20, g: 0, b: 0 }),
        ],
    );
    list.rebuild_with_key(&Key::new(), &mut states);
    list.set_layout(Position { x: 0, y: 0 }, Size { width: 300, height: 100 });
    (list, states)
}

fn hover_key(index: usize) -> Key {
    key_of(vec![
        KeySeg::Tag(WidgetTag::List),
        KeySeg::Index(index),
        KeySeg::Tag(WidgetTag::Hoverable),
    ])
}

#[test]
fn hit_test_prefers_the_first_sibling_in_the_overlap() {
    // The two cells occupy [0,100] and [100,200]; bounds are inclusive,
    // so the point x=100 lies in both. The depth-first, first-match rule
    // must give it to the earlier sibling, and only to it.
    let (mut list, mut states) = two_hoverables();
    let mut info = HandledEventInfo::new();
    let captured = list.on_mouse_move_anywhere(
        Position { x: 0, y: 0 },
        &Position { x: 100, y: 50 },
        &mut states,
        &mut info,
    );
    assert!(captured);
    assert!(info.needs_relayout);
    assert!(info.needs_redraw);
    let first = states.get_state(
        &hover_key(0),
        StateValue::Hoverable(HoverableState { is_hovered: false }),
    );
    let second = states.get_state(
        &hover_key(1),
        StateValue::Hoverable(HoverableState { is_hovered: false }),
    );
    assert_eq!(
        first,
        StateValue::Hoverable(HoverableState { is_hovered: true })
    );
    assert_eq!(
        second,
        StateValue::Hoverable(HoverableState { is_hovered: false })
    );
}

#[test]
fn hit_test_outside_every_bound_declines() {
    let (mut list, mut states) = two_hoverables();
    let mut info = HandledEventInfo::new();
    let captured = list.on_mouse_move_anywhere(
        Position { x: 0, y: 0 },
        &Position { x: 250, y: 50 },
        &mut states,
        &mut info,
    );
    assert!(!captured);
    assert!(!info.needs_relayout);
    assert!(!info.needs_redraw);
}

#[test]
fn state_survives_rebuild_after_capture() {
    // Mutate through a capture, rebuild, then read: the entry persists.
    let (mut list, mut states) = two_hoverables();
    let mut info = HandledEventInfo::new();
    list.on_mouse_move_anywhere(
        Position { x: 0, y: 0 },
        &Position { x: 150, y: 50 },
        &mut states,
        &mut info,
    );
    list.rebuild_with_key(&Key::new(), &mut states);
    let second = states.get_state(
        &hover_key(1),
        StateValue::Hoverable(HoverableState { is_hovered: false }),
    );
    assert_eq!(
        second,
        StateValue::Hoverable(HoverableState { is_hovered: true })
    );
}

#[test]
fn capture_swaps_the_hovered_subtree_in() {
    let (mut list, mut states) = two_hoverables();
    let mut info = HandledEventInfo::new();
    list.on_mouse_move_anywhere(
        Position { x: 0, y: 0 },
        &Position { x: 150, y: 50 },
        &mut states,
        &mut info,
    );
    // The captured hoverable now shows its hovered (white) face.
    match &list {
        Widget::List(l) => match &l.children[1] {
            Widget::Hoverable(h) => {
                let cached = h.data.cached_build.as_ref().expect("built");
                match cached.as_ref() {
                    Widget::SizedBox(b) => match b.child.as_ref() {
                        Widget::Container(c) => {
                            assert_eq!(c.background, Color { r: 255, g: 255, b: 255 });
                        }
                        _ => panic!("expected a container"),
                    },
                    _ => panic!("expected a sized box"),
                }
            }
            _ => panic!("expected a hoverable"),
        },
        _ => panic!("expected a list"),
    }
}

#[test]
fn container_paints_then_draws_its_child() {
    let mut container = Container::new(
        Color { r: 9, g: 8, b: 7 },
        SizedBox::new(Size { width: 40, height: 30 }, Expanded::new()),
    );
    container.set_layout(Position { x: 5, y: 6 }, Size { width: 200, height: 200 });
    let mut out: Vec<DrawCommand> = Vec::new();
    container.draw(Position { x: 100, y: 100 }, &mut out);
    assert_eq!(out.len(), 2);
    assert_eq!(
        out[0],
        DrawCommand::SetDrawColor { color: Color { r: 9, g: 8, b: 7 } }
    );
    assert_eq!(
        out[1],
        DrawCommand::FillRect {
            position: Position { x: 105, y: 106 },
            size: Size { width: 40, height: 30 },
        }
    );
}

#[test]
fn entry_point_builds_keys_and_lays_out() {
    let runner = entry_point(Size { width: 800, height: 600 });
    assert_eq!(
        runner.app.get_key().segments,
        vec![KeySeg::Tag(WidgetTag::App)]
    );
    assert_eq!(runner.app.get_position(), Position { x: 0, y: 0 });
    assert_eq!(
        runner.app.get_available_space(),
        Size { width: 800, height: 600 }
    );
}

#[test]
fn draw_frame_ends_with_a_flush() {
    let runner = entry_point(Size { width: 800, height: 600 });
    let commands = runner.draw_frame();
    assert!(commands.len() > 1);
    assert_eq!(commands[commands.len() - 1], DrawCommand::UpdateDisplay);
    // The demo interface paints at least its two coloured surfaces.
    let fills = commands
        .iter()
        .filter(|c| matches!(c, DrawCommand::FillRect { .. }))
        .count();
    assert!(fills >= 2);
}

#[test]
fn mouse_move_over_the_demo_button_redraws() {
    let mut runner = entry_point(Size { width: 800, height: 600 });
    // The banner row spans the padded width; its second child (the
    // button) is packed against the far edge by the space-between rule.
    let commands = runner.on_mouse_move(
        Position { x: 700, y: 20 },
        Size { width: 800, height: 600 },
    );
    assert!(!commands.is_empty());
    assert_eq!(commands[commands.len() - 1], DrawCommand::UpdateDisplay);

    // A move over the empty backdrop changes nothing and paints nothing.
    let quiet = runner.on_mouse_move(
        Position { x: 400, y: 400 },
        Size { width: 800, height: 600 },
    );
    assert!(quiet.is_empty());
}

#[test]
fn window_resize_relayouts_and_redraws() {
    let mut runner = entry_point(Size { width: 800, height: 600 });
    let commands = runner.on_window_resize(Size { width: 400, height: 300 });
    assert_eq!(
        runner.app.get_available_space(),
        Size { width: 400, height: 300 }
    );
    assert_eq!(commands[commands.len() - 1], DrawCommand::UpdateDisplay);
}

#[test]
fn key_segment_names_the_node_kind() {
    assert_eq!(Expanded::new().key_segment(), WidgetTag::Expanded);
    assert_eq!(
        SizedBox::new(Size { width: 1, height: 1 }, Expanded::new()).key_segment(),
        WidgetTag::SizedBox
    );
    assert_eq!(hover_cell(Color { r: 0, g: 0, b: 0 }).key_segment(), WidgetTag::Hoverable);
}

#[test]
fn rebuild_in_place_reflects_stored_state() {
    let (mut list, mut states) = two_hoverables();
    states.set_state(
        &hover_key(0),
        StateValue::Hoverable(HoverableState { is_hovered: true }),
    );
    list.rebuild(&mut states);
    match &list {
        Widget::List(l) => match &l.children[0] {
            Widget::Hoverable(h) => {
                let cached = h.data.cached_build.as_ref().expect("built");
                match cached.as_ref() {
                    Widget::SizedBox(b) => match b.child.as_ref() {
                        Widget::Container(c) => {
                            assert_eq!(c.background, Color { r: 255, g: 255, b: 255 });
                        }
                        _ => panic!("expected a container"),
                    },
                    _ => panic!("expected a sized box"),
                }
            }
            _ => panic!("expected a hoverable"),
        },
        _ => panic!("expected a list"),
    }
}
