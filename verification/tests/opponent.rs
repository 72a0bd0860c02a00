//! Tests of the scripted opponent: its fixed action list, its
//! reproducibility, and its whole turn through the resolver.

use trifarm::enemy_ai::enemy_ai;
use trifarm::model::{AliveShape, Model, PlayerAction, Shape, TriPos};

fn tri(x: i64, y: i64) -> TriPos {
    TriPos { x, y }
}

fn cells(n: usize) -> Shape {
    Shape((0..n as i64).map(|x| tri(x, 0)).collect())
}

#[test]
fn opponent_with_nothing_does_nothing() {
    let m = Model::new();
    assert_eq!(enemy_ai(&m), vec![]);
}

#[test]
fn opponent_activates_and_seeds() {
    let mut m = Model::new();
    m.player_b.shape_buffer.0.push(AliveShape { id: 10, shape: cells(1) });
    m.player_b.shape_buffer.0.push(AliveShape { id: 11, shape: cells(3) });
    // The multi-cell shape is activated; with nothing in play, one unit of
    // build material is activated as a seed base.
    assert_eq!(
        enemy_ai(&m),
        vec![
            PlayerAction::ActivateShape(11),
            PlayerAction::ActivateShape(10),
        ]
    );
}

#[test]
fn opponent_grows_base_along_the_outline() {
    let mut m = Model::new();
    m.player_b.shape_buffer.0.push(AliveShape { id: 20, shape: cells(1) });
    m.player_b.active_shapes.0.push(AliveShape { id: 21, shape: cells(1) });
    // The base has one cell, so the unit goes to outline slot one.
    assert_eq!(
        enemy_ai(&m),
        vec![PlayerAction::AttachShape { triangle: 20, target: 21, pos: tri(1, 0) }]
    );
}

#[test]
fn opponent_skips_dead_and_full_shapes() {
    let mut m = Model::new();
    m.player_b.shape_buffer.0.push(AliveShape { id: 30, shape: cells(0) });
    m.player_b.shape_buffer.0.push(AliveShape { id: 31, shape: cells(1) });
    m.player_b.active_shapes.0.push(AliveShape { id: 32, shape: cells(6) });
    // The dead shape is skipped, the full base gets no attachment, and the
    // build material is left unused.
    assert_eq!(enemy_ai(&m), vec![]);
}

#[test]
fn opponent_stops_when_material_runs_out() {
    let mut m = Model::new();
    m.player_b.shape_buffer.0.push(AliveShape { id: 40, shape: cells(1) });
    m.player_b.active_shapes.0.push(AliveShape { id: 41, shape: cells(2) });
    m.player_b.active_shapes.0.push(AliveShape { id: 42, shape: cells(2) });
    // One unit feeds the first base; the second base finds none and the
    // growth phase stops.
    assert_eq!(
        enemy_ai(&m),
        vec![PlayerAction::AttachShape { triangle: 40, target: 41, pos: tri(1, 1) }]
    );
}

#[test]
fn opponent_is_reproducible() {
    let build = |ids: &[(u64, usize)], active: &[(u64, usize)]| {
        let mut m = Model::new();
        for &(id, n) in ids {
            m.player_b.shape_buffer.0.push(AliveShape { id, shape: cells(n) });
        }
        for &(id, n) in active {
            m.player_b.active_shapes.0.push(AliveShape { id, shape: cells(n) });
        }
        m
    };
    let m1 = build(&[(50, 1), (51, 2), (52, 1)], &[(53, 3)]);
    let m2 = build(&[(50, 1), (51, 2), (52, 1)], &[(53, 3)]);
    assert_eq!(enemy_ai(&m1), enemy_ai(&m2));
}

#[test]
fn opponent_turn_applies_its_own_script() {
    let mut m = Model::new();
    m.player_b.shape_buffer.0.push(AliveShape { id: 60, shape: cells(1) });
    m.player_b.shape_buffer.0.push(AliveShape { id: 61, shape: cells(1) });
    // Hand the turn to B, then let B play its scripted turn.  The script
    // reads the state from before its own actions, so this turn only
    // seeds a base.
    m.handle_player_action(PlayerAction::EndTurn);
    assert!(!m.player_a_turn);
    m.handle_player_action(PlayerAction::EndTurn);
    assert!(m.player_a_turn);
    assert_eq!(m.player_b.active_shapes.0.len(), 1);
    assert_eq!(m.player_b.active_shapes.0[0].id, 61);
    assert_eq!(m.player_b.shape_buffer.0.len(), 1);
    // The next opponent turn grows the seeded base with the unit left,
    // and B's plant (its countdown now elapsed) spawns a fresh clone.
    m.handle_player_action(PlayerAction::EndTurn);
    m.handle_player_action(PlayerAction::EndTurn);
    assert!(m.player_a_turn);
    let base = &m.player_b.active_shapes.0[0];
    assert_eq!(base.id, 61);
    assert_eq!(base.shape.0, vec![tri(0, 0), tri(1, 0)]);
    assert_eq!(m.player_b.shape_buffer.0.len(), 1);
    assert_eq!(m.player_b.shape_buffer.0[0].id, 3);
    assert_eq!(m.player_b.shape_buffer.0[0].shape.0, vec![tri(0, 0)]);
}
