//! Tests of the intent layer: the drag/select state machine, its
//! hit-testing against displayed positions, and the display storage.

use trifarm::controller::{try_attach, Area, Controller, Event, Key, Layout, MouseButton, Render, State};
use trifarm::model::{AliveShape, Model, PlayerAction, Shape, TriPos};
use trifarm::storage::Storage;
use trifarm::triangular::{Point, Scale};

fn tri(x: i64, y: i64) -> TriPos {
    TriPos { x, y }
}

fn pt(x: i64, y: i64) -> Point {
    Point { x, y }
}

fn cells(n: usize) -> Shape {
    Shape((0..n as i64).map(|x| tri(x, 0)).collect())
}

fn layout() -> Layout {
    Layout {
        shape_buffer_a: Area::new((-300, -100), (-200, 100)),
        active_shapes_a: Area::new((-100, -100), (0, 100)),
        shape_farm_a: Area::new((-300, -200), (-200, -150)),
        shape_buffer_b: Area::new((200, -100), (300, 100)),
        active_shapes_b: Area::new((100, -100), (200, 100)),
        shape_farm_b: Area::new((200, -200), (300, -150)),
    }
}

#[test]
fn area_geometry() {
    let a = Area::new((0, 0), (10, 20));
    assert!(a.contains(pt(0, 0)));
    assert!(a.contains(pt(10, 20)));
    assert!(!a.contains(pt(11, 0)));
    assert_eq!(a.clamp_point(pt(-5, 25)), pt(0, 20));
    assert_eq!(a.clamp_point(pt(3, 4)), pt(3, 4));
    let b = Area::new((-10, 5), (5, 30));
    let j = a.join(&b);
    assert!(j.contains(pt(-10, 0)));
    assert!(j.contains(pt(10, 30)));
    assert!(!j.contains(pt(11, 0)));
}

#[test]
fn storage_insert_get_and_default() {
    let mut s: Storage<Point> = Storage::new();
    assert!(s.get(7).is_none());
    s.insert(7, pt(1, 2));
    assert_eq!(s.get(7), Some(&pt(1, 2)));
    s.set(7, pt(3, 4));
    assert_eq!(s.get(7), Some(&pt(3, 4)));
    assert_eq!(*s.get_or_default(7, pt(9, 9)), pt(3, 4));
    assert_eq!(*s.get_or_default(8, pt(9, 9)), pt(9, 9));
    assert_eq!(s.get(8), Some(&pt(9, 9)));
}

#[test]
fn storage_get_mut_edits_in_place() {
    let mut s: Storage<Point> = Storage::new();
    s.insert(3, pt(1, 1));
    assert!(s.get_mut(4).is_none());
    if let Some(v) = s.get_mut(3) {
        v.x = 42;
    }
    assert_eq!(s.get(3), Some(&pt(42, 1)));
}

#[test]
fn confirm_key_ends_the_turn() {
    let m = Model::new();
    let mut render = Render::new(layout());
    let mut controller = Controller::new();
    let acts = controller.handle_event(
        &m,
        &mut render,
        Event::KeyDown { key: Key::Enter },
    );
    assert_eq!(acts, vec![PlayerAction::EndTurn]);
    let none = controller.handle_event(&m, &mut render, Event::KeyDown { key: Key::Other });
    assert_eq!(none, vec![]);
}

#[test]
fn pressing_a_displayed_shape_starts_a_drag() {
    let mut m = Model::new();
    m.player_a.shape_buffer.0.push(AliveShape { id: 50, shape: cells(1) });
    let mut render = Render::new(layout());
    render.positions.set(50, pt(-250, 0));
    let press = Event::MouseDown { position: pt(-250, -1), button: MouseButton::Left };
    let (state, acts) = State::Idle.handle_event(&m, &mut render, press);
    assert_eq!(state, State::DraggingShape { shape_id: 50, start_pos: pt(-250, -1) });
    assert_eq!(acts, vec![]);
}

#[test]
fn pressing_empty_space_stays_idle() {
    let m = Model::new();
    let mut render = Render::new(layout());
    let press = Event::MouseDown { position: pt(-250, 0), button: MouseButton::Left };
    let (state, acts) = State::Idle.handle_event(&m, &mut render, press);
    assert_eq!(state, State::Idle);
    assert_eq!(acts, vec![]);
}

#[test]
fn dragging_into_the_active_zone_activates() {
    let mut m = Model::new();
    m.player_a.shape_buffer.0.push(AliveShape { id: 50, shape: cells(1) });
    let mut render = Render::new(layout());
    render.positions.set(50, pt(-250, 0));
    let drag = State::DraggingShape { shape_id: 50, start_pos: pt(-250, -1) };
    let (state, acts) = State::handle_event(
        drag,
        &m,
        &mut render,
        Event::MouseMove { position: pt(-50, 0) },
    );
    assert_eq!(state, drag);
    assert_eq!(acts, vec![PlayerAction::ActivateShape(50)]);
    assert_eq!(render.positions.get(50), Some(&pt(-50, 0)));
}

#[test]
fn dragging_into_the_buffer_zone_deactivates() {
    let mut m = Model::new();
    m.player_a.active_shapes.0.push(AliveShape { id: 50, shape: cells(1) });
    let mut render = Render::new(layout());
    render.positions.set(50, pt(-50, 0));
    let drag = State::DraggingShape { shape_id: 50, start_pos: pt(-50, -1) };
    let (_, acts) = State::handle_event(
        drag,
        &m,
        &mut render,
        Event::MouseMove { position: pt(-250, 0) },
    );
    assert_eq!(acts, vec![PlayerAction::DeactivateShape(50)]);
}

#[test]
fn drag_position_is_clamped_into_the_zones() {
    let mut m = Model::new();
    m.player_a.shape_buffer.0.push(AliveShape { id: 50, shape: cells(1) });
    let mut render = Render::new(layout());
    render.positions.set(50, pt(-250, 0));
    let drag = State::DraggingShape { shape_id: 50, start_pos: pt(-250, -1) };
    let (_, _) = State::handle_event(
        drag,
        &m,
        &mut render,
        Event::MouseMove { position: pt(-1000, 500) },
    );
    // The union of A's zones spans x in [-300, 0] and y in [-200, 100].
    assert_eq!(render.positions.get(50), Some(&pt(-300, 100)));
}

#[test]
fn dragging_a_consumed_shape_falls_back_to_idle() {
    let m = Model::new();
    let mut render = Render::new(layout());
    let drag = State::DraggingShape { shape_id: 50, start_pos: pt(-250, -1) };
    let (state, acts) = State::handle_event(
        drag,
        &m,
        &mut render,
        Event::MouseMove { position: pt(-50, 0) },
    );
    assert_eq!(state, State::Idle);
    assert_eq!(acts, vec![]);
}

#[test]
fn dragging_near_a_base_snaps_to_an_attachment() {
    let mut m = Model::new();
    m.player_a.shape_buffer.0.push(AliveShape { id: 50, shape: cells(1) });
    m.player_a.active_shapes.0.push(AliveShape { id: 51, shape: cells(1) });
    let mut render = Render::new(layout());
    render.positions.set(50, pt(-250, 0));
    render.positions.set(51, pt(-50, 0));
    let drag = State::DraggingShape { shape_id: 50, start_pos: pt(-250, -1) };
    // The base's right boundary cell (1, 0) is displayed around (-49, 1).
    let (state, acts) = State::handle_event(
        drag,
        &m,
        &mut render,
        Event::MouseMove { position: pt(-49, 1) },
    );
    assert_eq!(state, drag);
    assert_eq!(
        acts,
        vec![PlayerAction::AttachShape { triangle: 50, target: 51, pos: tri(1, 0) }]
    );
    // Snapping does not move the dragged shape's displayed position.
    assert_eq!(render.positions.get(50), Some(&pt(-250, 0)));
}

#[test]
fn hovering_a_plant_while_dragging_orders_an_upgrade() {
    let mut m = Model::new();
    m.player_a.shape_buffer.0.push(AliveShape { id: 54, shape: cells(2) });
    let mut render = Render::new(layout());
    render.positions.set(54, pt(-250, 0));
    render.positions.set(0, pt(-250, -175));
    render.scales.set(0, Scale { num: 1, den: 2 });
    let drag = State::DraggingShape { shape_id: 54, start_pos: pt(-250, -1) };
    let (_, acts) = State::handle_event(
        drag,
        &m,
        &mut render,
        Event::MouseMove { position: pt(-250, -176) },
    );
    assert_eq!(
        acts,
        vec![PlayerAction::UpgradePlant { source_shape: 54, target_plant: 0 }]
    );
}

#[test]
fn releasing_in_place_selects_attack_mode() {
    let m = Model::new();
    let mut render = Render::new(layout());
    let drag = State::DraggingShape { shape_id: 50, start_pos: pt(-250, -1) };
    let (state, _) = State::handle_event(
        drag,
        &m,
        &mut render,
        Event::MouseUp { position: pt(-250, -1), button: MouseButton::Left },
    );
    assert_eq!(state, State::SelectingAttackTarget { weapon_id: 50 });
    let (state, _) = State::handle_event(
        drag,
        &m,
        &mut render,
        Event::MouseUp { position: pt(-240, -1), button: MouseButton::Left },
    );
    assert_eq!(state, State::Idle);
}

#[test]
fn selecting_an_enemy_shape_orders_an_attack() {
    let mut m = Model::new();
    m.player_b.active_shapes.0.push(AliveShape { id: 53, shape: cells(1) });
    let mut render = Render::new(layout());
    render.positions.set(53, pt(150, 0));
    let select = State::SelectingAttackTarget { weapon_id: 52 };
    let (state, acts) = State::handle_event(
        select,
        &m,
        &mut render,
        Event::MouseDown { position: pt(150, -1), button: MouseButton::Left },
    );
    assert_eq!(state, State::Idle);
    assert_eq!(acts, vec![PlayerAction::Attack { weapon: 52, target: 53 }]);
}

#[test]
fn selecting_an_enemy_plant_orders_an_attack() {
    let m = Model::new();
    let mut render = Render::new(layout());
    render.positions.set(1, pt(250, -175));
    render.scales.set(1, Scale { num: 1, den: 1 });
    let select = State::SelectingAttackTarget { weapon_id: 52 };
    let (state, acts) = State::handle_event(
        select,
        &m,
        &mut render,
        Event::MouseDown { position: pt(250, -176), button: MouseButton::Left },
    );
    assert_eq!(state, State::Idle);
    assert_eq!(acts, vec![PlayerAction::Attack { weapon: 52, target: 1 }]);
}

#[test]
fn selecting_empty_space_just_returns_to_idle() {
    let m = Model::new();
    let mut render = Render::new(layout());
    let select = State::SelectingAttackTarget { weapon_id: 52 };
    let (state, acts) = State::handle_event(
        select,
        &m,
        &mut render,
        Event::MouseDown { position: pt(150, 0), button: MouseButton::Left },
    );
    assert_eq!(state, State::Idle);
    assert_eq!(acts, vec![]);
    // Any other event keeps the selection.
    let (state, _) = State::handle_event(select, &m, &mut render, Event::MouseMove { position: pt(0, 0) });
    assert_eq!(state, select);
}

#[test]
fn try_attach_finds_the_boundary_cell_under_the_pointer() {
    let base = cells(1);
    // The base is displayed at (-50, 0); its right boundary cell (1, 0)
    // has its displayed center at (-49, 1).
    assert_eq!(try_attach(pt(-49, 1), &base, pt(-50, 0)), Some(tri(1, 0)));
    assert_eq!(try_attach(pt(-51, 1), &base, pt(-50, 0)), Some(tri(-1, 0)));
    // The base's own cell is occupied, not a boundary hit.
    assert_eq!(try_attach(pt(-50, -1), &base, pt(-50, 0)), None);
    // Far away nothing matches.
    assert_eq!(try_attach(pt(100, 100), &base, pt(-50, 0)), None);
}
