//! Geometry primitives: clamped arithmetic, positions, sizes, insets,
//! and the whole-screen fill.

use casserole_core::graphics::{fill, sat_add, sat_sub, Color, DrawCommand, Position, Size};
use casserole_core::ui_library::padding::Inset;

#[test]
fn sat_add_plain() {
    assert_eq!(sat_add(30, 12), 42);
}

#[test]
fn sat_add_clamps_at_max() {
    assert_eq!(sat_add(u32::MAX - 1, 5), u32::MAX);
    assert_eq!(sat_add(u32::MAX, u32::MAX), u32::MAX);
}

#[test]
fn sat_sub_plain() {
    assert_eq!(sat_sub(30, 12), 18);
}

#[test]
fn sat_sub_clamps_at_zero() {
    assert_eq!(sat_sub(12, 30), 0);
    assert_eq!(sat_sub(0, 1), 0);
}

#[test]
fn position_add_is_componentwise() {
    let p = Position { x: 3, y: 4 }.add(Position { x: 10, y: 20 });
    assert_eq!(p, Position { x: 13, y: 24 });
}

#[test]
fn position_add_clamps() {
    let p = Position { x: u32::MAX, y: 0 }.add(Position { x: 1, y: 1 });
    assert_eq!(p, Position { x: u32::MAX, y: 1 });
}

#[test]
fn origin_and_zero() {
    assert_eq!(Position::origin(), Position { x: 0, y: 0 });
    assert_eq!(Size::zero(), Size { width: 0, height: 0 });
}

#[test]
fn inset_every_sets_all_edges() {
    let i = Inset::every(7);
    assert_eq!(i, Inset { left: 7, top: 7, right: 7, bottom: 7 });
}

#[test]
fn inset_symmetric_maps_axes() {
    let i = Inset::symmetric(5, 20);
    assert_eq!(i, Inset { left: 20, top: 5, right: 20, bottom: 5 });
}

#[test]
fn fill_covers_the_screen() {
    let color = Color { r: 1, g: 2, b: 3 };
    let screen = Size { width: 640, height: 480 };
    let commands = fill(color, screen);
    assert_eq!(commands.len(), 2);
    assert_eq!(commands[0], DrawCommand::SetDrawColor { color });
    assert_eq!(
        commands[1],
        DrawCommand::FillRect { position: Position { x: 0, y: 0 }, size: screen }
    );
}
