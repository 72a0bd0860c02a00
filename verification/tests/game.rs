//! Tests of the entity model and the action resolver: construction,
//! turn cycle, plant production, attachment, upgrades and combat.

use trifarm::model::{AliveShape, IdGenerator, Model, Plant, PlayerAction, Shape, TriPos};

fn tri(x: i64, y: i64) -> TriPos {
    TriPos { x, y }
}

fn cells(n: usize) -> Shape {
    // n cells in a horizontal strip, a legal connected shape.
    Shape((0..n as i64).map(|x| tri(x, 0)).collect())
}

#[test]
fn id_generator_counts_up() {
    let mut gen = IdGenerator::new();
    let a = gen.next();
    let b = gen.next();
    let c = gen.next();
    assert_eq!((a, b, c), (0, 1, 2));
    assert!(a != b && b != c && a != c);
}

#[test]
fn new_model_layout() {
    let m = Model::new();
    assert!(m.player_a_turn);
    assert!(m.player_a.shape_buffer.0.is_empty());
    assert!(m.player_a.active_shapes.0.is_empty());
    assert_eq!(m.player_a.shape_farm.plants.len(), 1);
    assert_eq!(m.player_b.shape_farm.plants.len(), 1);
    let pa = &m.player_a.shape_farm.plants[0];
    let pb = &m.player_b.shape_farm.plants[0];
    assert_eq!(pa.id, 0);
    assert_eq!(pb.id, 1);
    assert_eq!(pa.cooldown, 1);
    assert_eq!(pa.time_left, 1);
    assert_eq!(pa.shape.0, vec![tri(0, 0)]);
}

#[test]
fn plant_tick_counts_down_then_produces() {
    let mut plant = Plant::new(7, cells(1), 1);
    assert_eq!(plant.time_left, 1);
    assert!(!plant.tick());
    assert_eq!(plant.time_left, 0);
    assert!(plant.tick());
    assert_eq!(plant.time_left, 1);
    assert!(!plant.tick());
}

#[test]
fn turn_cycle_round_trip() {
    let mut m = Model::new();
    assert!(m.player_a_turn);
    m.handle_player_action(PlayerAction::EndTurn);
    assert!(!m.player_a_turn);
    // On B's turn, EndTurn runs the scripted opponent and ends B's turn.
    m.handle_player_action(PlayerAction::EndTurn);
    assert!(m.player_a_turn);
}

#[test]
fn non_end_turn_actions_ignored_on_opponent_turn() {
    let mut m = Model::new();
    m.handle_player_action(PlayerAction::EndTurn);
    assert!(!m.player_a_turn);
    m.handle_player_action(PlayerAction::ActivateShape(0));
    assert!(!m.player_a_turn);
    assert!(m.player_b.active_shapes.0.is_empty());
}

#[test]
fn production_spawns_a_fresh_clone() {
    let mut m = Model::new();
    // First round: A's plant counts 1 -> 0, nothing spawns.
    m.handle_player_action(PlayerAction::EndTurn);
    m.handle_player_action(PlayerAction::EndTurn);
    assert!(m.player_a.shape_buffer.0.is_empty());
    // Second round: the countdown has run out, so the plant produces.
    m.handle_player_action(PlayerAction::EndTurn);
    assert_eq!(m.player_a.shape_buffer.0.len(), 1);
    let spawned = &m.player_a.shape_buffer.0[0];
    // The id is fresh (0 and 1 went to the plants), and the shape is a
    // cell-for-cell clone of the plant's template.
    assert_eq!(spawned.id, 2);
    assert_eq!(spawned.shape.0, m.player_a.shape_farm.plants[0].shape.0);
    // The countdown was reset to the cooldown.
    assert_eq!(m.player_a.shape_farm.plants[0].time_left, 1);
}

#[test]
fn activate_and_deactivate_move_shapes() {
    let mut m = Model::new();
    m.player_a.shape_buffer.0.push(AliveShape { id: 50, shape: cells(2) });
    assert!(m.activate_shape(50));
    assert!(m.player_a.shape_buffer.0.is_empty());
    assert_eq!(m.player_a.active_shapes.0.len(), 1);
    assert!(m.deactivate_shape(50));
    assert_eq!(m.player_a.shape_buffer.0.len(), 1);
    assert!(m.player_a.active_shapes.0.is_empty());
    // Unknown ids are ignored.
    assert!(!m.activate_shape(99));
    assert_eq!(m.player_a.shape_buffer.0.len(), 1);
}

#[test]
fn attach_grows_target_and_consumes_triangle() {
    let mut m = Model::new();
    m.player_a.shape_buffer.0.push(AliveShape { id: 60, shape: cells(1) });
    m.player_a.active_shapes.0.push(AliveShape { id: 61, shape: cells(1) });
    assert!(m.attach_shape(60, 61, tri(1, 0)));
    assert!(m.player_a.shape_buffer.0.is_empty());
    assert_eq!(m.player_a.active_shapes.0.len(), 1);
    assert_eq!(m.player_a.active_shapes.0[0].shape.0, vec![tri(0, 0), tri(1, 0)]);
}

#[test]
fn attach_rejects_multi_cell_triangle() {
    let mut m = Model::new();
    m.player_a.shape_buffer.0.push(AliveShape { id: 70, shape: cells(2) });
    m.player_a.active_shapes.0.push(AliveShape { id: 71, shape: cells(1) });
    // A two-cell shape is not a triangle unit: rejected with no mutation.
    assert!(!m.attach_shape(70, 71, tri(1, 0)));
    assert_eq!(m.player_a.shape_buffer.0.len(), 1);
    assert_eq!(m.player_a.shape_buffer.0[0].shape.0.len(), 2);
    assert_eq!(m.player_a.active_shapes.0.len(), 1);
    assert_eq!(m.player_a.active_shapes.0[0].shape.0.len(), 1);
}

#[test]
fn attach_rejects_position_off_the_boundary() {
    let mut m = Model::new();
    m.player_a.shape_buffer.0.push(AliveShape { id: 80, shape: cells(1) });
    m.player_a.active_shapes.0.push(AliveShape { id: 81, shape: cells(1) });
    assert!(!m.attach_shape(80, 81, tri(5, 5)));
    assert_eq!(m.player_a.shape_buffer.0.len(), 1);
    assert_eq!(m.player_a.active_shapes.0[0].shape.0.len(), 1);
}

#[test]
fn attach_rejects_target_not_in_play() {
    let mut m = Model::new();
    m.player_a.shape_buffer.0.push(AliveShape { id: 90, shape: cells(1) });
    m.player_a.shape_buffer.0.push(AliveShape { id: 91, shape: cells(1) });
    // The target must be among the shapes in play, not in the buffer.
    assert!(!m.attach_shape(90, 91, tri(1, 0)));
    assert_eq!(m.player_a.shape_buffer.0.len(), 2);
}

#[test]
fn upgrade_replaces_plant_shape_and_resets_countdown() {
    let mut m = Model::new();
    m.player_a.shape_buffer.0.push(AliveShape { id: 100, shape: cells(3) });
    m.player_a.shape_farm.plants[0].time_left = 0;
    assert!(m.upgrade_plant(100, 0));
    assert!(m.player_a.shape_buffer.0.is_empty());
    let plant = &m.player_a.shape_farm.plants[0];
    assert_eq!(plant.shape.0, vec![tri(0, 0), tri(1, 0), tri(2, 0)]);
    assert_eq!(plant.time_left, plant.cooldown);
}

#[test]
fn upgrade_rejects_small_sources_without_removal() {
    let mut m = Model::new();
    m.player_a.shape_buffer.0.push(AliveShape { id: 110, shape: cells(1) });
    m.player_a.shape_buffer.0.push(AliveShape { id: 111, shape: cells(0) });
    // One-cell and zero-cell sources are rejected up front and stay put.
    assert!(!m.upgrade_plant(110, 0));
    assert!(!m.upgrade_plant(111, 0));
    assert_eq!(m.player_a.shape_buffer.0.len(), 2);
    assert_eq!(m.player_a.shape_farm.plants[0].shape.0, vec![tri(0, 0)]);
}

#[test]
fn upgrade_rejects_unknown_plant() {
    let mut m = Model::new();
    m.player_a.shape_buffer.0.push(AliveShape { id: 120, shape: cells(2) });
    assert!(!m.upgrade_plant(120, 999));
    assert_eq!(m.player_a.shape_buffer.0.len(), 1);
}

#[test]
fn combat_three_against_five() {
    let mut m = Model::new();
    m.player_a.active_shapes.0.push(AliveShape { id: 130, shape: cells(3) });
    m.player_b.active_shapes.0.push(AliveShape { id: 131, shape: cells(5) });
    // Damage 3, defense 4: the target keeps 2 cells, the weapon dies.
    assert!(m.attack(130, 131));
    assert!(m.player_a.active_shapes.0.is_empty());
    assert_eq!(m.player_b.active_shapes.0.len(), 1);
    assert_eq!(m.player_b.active_shapes.0[0].shape.0.len(), 2);
}

#[test]
fn combat_removes_dead_target() {
    let mut m = Model::new();
    m.player_a.active_shapes.0.push(AliveShape { id: 140, shape: cells(4) });
    m.player_b.active_shapes.0.push(AliveShape { id: 141, shape: cells(2) });
    // Damage 4 kills the 2-cell target; defense 1 leaves the weapon 3 cells.
    assert!(m.attack(140, 141));
    assert!(m.player_b.active_shapes.0.is_empty());
    assert_eq!(m.player_a.active_shapes.0.len(), 1);
    assert_eq!(m.player_a.active_shapes.0[0].shape.0.len(), 3);
}

#[test]
fn combat_against_plant_delays_production() {
    let mut m = Model::new();
    m.player_a.active_shapes.0.push(AliveShape { id: 150, shape: cells(2) });
    m.player_b.shape_farm.plants[0].shape = cells(4);
    // Damage 2 < 4 cells: the plant survives but its countdown grows by 2.
    assert!(m.attack(150, 1));
    assert_eq!(m.player_b.shape_farm.plants.len(), 1);
    assert_eq!(m.player_b.shape_farm.plants[0].time_left, 3);
    // Defense 3 >= damage 2 kills the weapon.
    assert!(m.player_a.active_shapes.0.is_empty());
}

#[test]
fn combat_kills_small_plant() {
    let mut m = Model::new();
    m.player_a.active_shapes.0.push(AliveShape { id: 160, shape: cells(1) });
    // The starting plant has one cell: damage 1 is not below 1, so it dies.
    assert!(m.attack(160, 1));
    assert!(m.player_b.shape_farm.plants.is_empty());
    // Defense 0 < 1: the weapon survives untouched.
    assert_eq!(m.player_a.active_shapes.0.len(), 1);
    assert_eq!(m.player_a.active_shapes.0[0].shape.0.len(), 1);
}

#[test]
fn attack_rejects_unresolved_ids() {
    let mut m = Model::new();
    m.player_a.active_shapes.0.push(AliveShape { id: 170, shape: cells(2) });
    assert!(!m.attack(999, 1));
    assert!(!m.attack(170, 999));
    assert_eq!(m.player_a.active_shapes.0[0].shape.0.len(), 2);
    assert_eq!(m.player_b.shape_farm.plants.len(), 1);
}

#[test]
fn remove_shape_prefers_the_buffer() {
    let mut m = Model::new();
    m.player_a.shape_buffer.0.push(AliveShape { id: 180, shape: cells(2) });
    m.player_a.active_shapes.0.push(AliveShape { id: 181, shape: cells(3) });
    let s = m.player_a.remove_shape(180).expect("shape in buffer");
    assert_eq!(s.0.len(), 2);
    let s = m.player_a.remove_shape(181).expect("shape in play");
    assert_eq!(s.0.len(), 3);
    assert!(m.player_a.remove_shape(182).is_none());
}

#[test]
fn next_turn_runs_player_a_production_only() {
    let mut m = Model::new();
    m.player_a.shape_farm.plants[0].time_left = 0;
    m.next_turn();
    assert!(m.player_a_turn);
    assert_eq!(m.player_a.shape_buffer.0.len(), 1);
    assert!(m.player_b.shape_buffer.0.is_empty());
}
