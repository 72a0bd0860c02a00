//! Identifier bookkeeping: every entity id lives in exactly one of the
//! six collections, and every id ever stored is below the generator's
//! counter.  Together with the generator's contract this is what makes
//! identifiers unique for the lifetime of a game: a fresh id can never
//! collide with a stored one, and no action ever duplicates a stored one.

use vstd::prelude::*;
use vstd::seq_lib::{lemma_multiset_commutative, to_multiset_build, to_multiset_contains, to_multiset_remove};
use crate::model::{AliveShapeV, Id, ModelV, PlantV, PlayerAction, PlayerV};
use crate::logic::{
    action_fits, attach_ok, cur_player, cut, defense_of, has_plant, has_shape, other_player,
    plant_idx, player_action_fits, shape_idx, spec_tick, upgrade_ok, upgrade_src,
    v_apply_upto, v_handle_action, v_handle_player_action,
    v_run_production, v_tick_upto, v_attack_pair, lemma_tick_upto_bounds,
    lemma_apply_upto_preserves,
};

verus! {

/// The ids of a sequence of alive shapes, in order.
pub open spec fn shape_ids(s: Seq<AliveShapeV>) -> Seq<Id> {
    s.map_values(|x: AliveShapeV| x.id)
}

/// The ids of a sequence of plants, in order.
pub open spec fn plant_ids(s: Seq<PlantV>) -> Seq<Id> {
    s.map_values(|x: PlantV| x.id)
}

/// How often `id` occurs among a player's shapes and plants.
pub open spec fn cnt_s(s: Seq<AliveShapeV>, id: Id) -> nat {
    shape_ids(s).to_multiset().count(id)
}

/// How often `id` occurs among a sequence of plants.
pub open spec fn cnt_p(s: Seq<PlantV>, id: Id) -> nat {
    plant_ids(s).to_multiset().count(id)
}

/// How often `id` occurs in the whole model, over all six collections.
pub open spec fn id_count(m: ModelV, id: Id) -> nat {
    (cnt_s(m.a.buffer, id) + cnt_s(m.a.active, id) + cnt_p(m.a.plants, id)
        + cnt_s(m.b.buffer, id) + cnt_s(m.b.active, id) + cnt_p(m.b.plants, id)) as nat
}

/// The id invariant of the model: every stored id occurs in exactly one
/// place, and every stored id has already been issued by the generator.
pub open spec fn wf_model(m: ModelV) -> bool {
    &&& forall|id: Id| #[trigger] id_count(m, id) <= 1
    &&& forall|id: Id| #[trigger] id_count(m, id) > 0 ==> id < m.next_id
}

// ---------------------------------------------------------------------------
// Counting through the basic sequence operations.
// ---------------------------------------------------------------------------

proof fn lemma_cnt_s_push(s: Seq<AliveShapeV>, x: AliveShapeV, id: Id)
    ensures
        cnt_s(s.push(x), id) == cnt_s(s, id) + (if x.id == id { 1nat } else { 0nat }),
{
    broadcast use vstd::multiset::group_multiset_axioms;

    assert(shape_ids(s.push(x)) =~= shape_ids(s).push(x.id));
    to_multiset_build(shape_ids(s), x.id);
}

proof fn lemma_cnt_s_remove(s: Seq<AliveShapeV>, i: int, id: Id)
    requires
        0 <= i < s.len(),
    ensures
        cnt_s(s, id) == cnt_s(s.remove(i), id) + (if s[i].id == id { 1nat } else { 0nat }),
{
    broadcast use vstd::multiset::group_multiset_axioms;
    broadcast use vstd::seq_lib::group_to_multiset_ensures;

    assert(shape_ids(s.remove(i)) =~= shape_ids(s).remove(i));
    to_multiset_remove(shape_ids(s), i);
    assert(shape_ids(s)[i] == s[i].id);
    assert(shape_ids(s).contains(s[i].id));
}

proof fn lemma_cnt_s_update_same_id(s: Seq<AliveShapeV>, i: int, x: AliveShapeV, id: Id)
    requires
        0 <= i < s.len(),
        x.id == s[i].id,
    ensures
        cnt_s(s.update(i, x), id) == cnt_s(s, id),
{
    assert(shape_ids(s.update(i, x)) =~= shape_ids(s));
}

proof fn lemma_cnt_p_update_same_id(s: Seq<PlantV>, i: int, x: PlantV, id: Id)
    requires
        0 <= i < s.len(),
        x.id == s[i].id,
    ensures
        cnt_p(s.update(i, x), id) == cnt_p(s, id),
{
    assert(plant_ids(s.update(i, x)) =~= plant_ids(s));
}

proof fn lemma_cnt_p_remove(s: Seq<PlantV>, i: int, id: Id)
    requires
        0 <= i < s.len(),
    ensures
        cnt_p(s, id) == cnt_p(s.remove(i), id) + (if s[i].id == id { 1nat } else { 0nat }),
{
    broadcast use vstd::multiset::group_multiset_axioms;
    broadcast use vstd::seq_lib::group_to_multiset_ensures;

    assert(plant_ids(s.remove(i)) =~= plant_ids(s).remove(i));
    to_multiset_remove(plant_ids(s), i);
    assert(plant_ids(s)[i] == s[i].id);
    assert(plant_ids(s).contains(s[i].id));
}

proof fn lemma_cnt_s_concat(a: Seq<AliveShapeV>, b: Seq<AliveShapeV>, id: Id)
    ensures
        cnt_s(a + b, id) == cnt_s(a, id) + cnt_s(b, id),
{
    broadcast use vstd::multiset::group_multiset_axioms;

    assert(shape_ids(a + b) =~= shape_ids(a) + shape_ids(b));
    lemma_multiset_commutative(shape_ids(a), shape_ids(b));
}

/// A present id is counted, and a counted id is present.
proof fn lemma_cnt_s_contains(s: Seq<AliveShapeV>, id: Id)
    ensures
        (cnt_s(s, id) > 0) == (exists|i: int| 0 <= i < s.len() && (#[trigger] s[i]).id == id),
{
    broadcast use vstd::multiset::group_multiset_axioms;

    to_multiset_contains(shape_ids(s), id);
    if shape_ids(s).contains(id) {
        let i = choose|i: int| 0 <= i < shape_ids(s).len() && shape_ids(s)[i] == id;
        assert(s[i].id == id);
    }
    if exists|i: int| 0 <= i < s.len() && (#[trigger] s[i]).id == id {
        let i = choose|i: int| 0 <= i < s.len() && (#[trigger] s[i]).id == id;
        assert(shape_ids(s)[i] == id);
        assert(shape_ids(s).contains(id));
    }
}

proof fn lemma_cnt_p_contains(s: Seq<PlantV>, id: Id)
    ensures
        (cnt_p(s, id) > 0) == (exists|i: int| 0 <= i < s.len() && (#[trigger] s[i]).id == id),
{
    broadcast use vstd::multiset::group_multiset_axioms;

    to_multiset_contains(plant_ids(s), id);
    if plant_ids(s).contains(id) {
        let i = choose|i: int| 0 <= i < plant_ids(s).len() && plant_ids(s)[i] == id;
        assert(s[i].id == id);
    }
    if exists|i: int| 0 <= i < s.len() && (#[trigger] s[i]).id == id {
        let i = choose|i: int| 0 <= i < s.len() && (#[trigger] s[i]).id == id;
        assert(plant_ids(s)[i] == id);
        assert(plant_ids(s).contains(id));
    }
}

// ---------------------------------------------------------------------------
// Preservation through each operation.
// ---------------------------------------------------------------------------

proof fn lemma_activate_counts(p: PlayerV, sid: Id, id: Id)
    ensures
        id_count_p(crate::logic::v_activate_p(p, sid), id) == id_count_p(p, id),
{
    if has_shape(p.buffer, sid) {
        let i = shape_idx(p.buffer, sid);
        crate::logic::lemma_shape_idx(p.buffer, sid);
        lemma_cnt_s_remove(p.buffer, i, id);
        lemma_cnt_s_push(p.active, p.buffer[i], id);
    }
}

/// How often `id` occurs among one player's three collections.
pub open spec fn id_count_p(p: PlayerV, id: Id) -> nat {
    (cnt_s(p.buffer, id) + cnt_s(p.active, id) + cnt_p(p.plants, id)) as nat
}

proof fn lemma_deactivate_counts(p: PlayerV, sid: Id, id: Id)
    ensures
        id_count_p(crate::logic::v_deactivate_p(p, sid), id) == id_count_p(p, id),
{
    if has_shape(p.active, sid) {
        let i = shape_idx(p.active, sid);
        crate::logic::lemma_shape_idx(p.active, sid);
        lemma_cnt_s_remove(p.active, i, id);
        lemma_cnt_s_push(p.buffer, p.active[i], id);
    }
}

proof fn lemma_attach_counts(p: PlayerV, triangle: Id, target: Id, pos: crate::model::TriPos, id: Id)
    ensures
        id_count_p(crate::logic::v_attach_p(p, triangle, target, pos), id) <= id_count_p(p, id),
{
    if attach_ok(p, triangle, target, pos) {
        let ti = shape_idx(p.active, target);
        let t = p.active[ti];
        crate::logic::lemma_shape_idx(p.active, target);
        let grown_item = AliveShapeV { id: t.id, cells: t.cells.push(pos) };
        lemma_cnt_s_update_same_id(p.active, ti, grown_item, id);
        let grown = PlayerV { active: p.active.update(ti, grown_item), ..p };
        crate::logic::lemma_shape_idx_same_ids(p.active, grown.active, triangle);
        if has_shape(grown.active, triangle) {
            let i = shape_idx(grown.active, triangle);
            crate::logic::lemma_shape_idx(grown.active, triangle);
            lemma_cnt_s_remove(grown.active, i, id);
        } else {
            let i = shape_idx(grown.buffer, triangle);
            crate::logic::lemma_shape_idx(grown.buffer, triangle);
            lemma_cnt_s_remove(grown.buffer, i, id);
        }
    }
}

proof fn lemma_upgrade_counts(p: PlayerV, source: Id, target_plant: Id, id: Id)
    ensures
        id_count_p(crate::logic::v_upgrade_p(p, source, target_plant), id) <= id_count_p(p, id),
{
    if upgrade_ok(p, source, target_plant) {
        let pi = plant_idx(p.plants, target_plant);
        crate::logic::lemma_plant_idx(p.plants, target_plant);
        let pl = p.plants[pi];
        let cells = upgrade_src(p, source);
        if has_shape(p.buffer, source) {
            crate::logic::lemma_shape_idx(p.buffer, source);
            lemma_cnt_s_remove(p.buffer, shape_idx(p.buffer, source), id);
        } else {
            crate::logic::lemma_shape_idx(p.active, source);
            lemma_cnt_s_remove(p.active, shape_idx(p.active, source), id);
        }
        lemma_cnt_p_update_same_id(
            p.plants,
            pi,
            PlantV { id: pl.id, cells, cooldown: pl.cooldown, time_left: pl.cooldown },
            id,
        );
    }
}

proof fn lemma_attack_counts(act: PlayerV, inact: PlayerV, weapon: Id, target: Id, id: Id)
    ensures
        ({
            let r = v_attack_pair(act, inact, weapon, target);
            id_count_p(r.0, id) + id_count_p(r.1, id)
                <= id_count_p(act, id) + id_count_p(inact, id)
        }),
{
    if has_shape(act.active, weapon) {
        let wi = shape_idx(act.active, weapon);
        let w = act.active[wi];
        let ad = w.cells.len() as int;
        crate::logic::lemma_shape_idx(act.active, weapon);
        if has_shape(inact.active, target) {
            let ti = shape_idx(inact.active, target);
            let t = inact.active[ti];
            crate::logic::lemma_shape_idx(inact.active, target);
            let def = defense_of(t.cells);
            let w2 = AliveShapeV { id: w.id, cells: cut(w.cells, def) };
            let t2 = AliveShapeV { id: t.id, cells: cut(t.cells, ad) };
            lemma_cnt_s_update_same_id(act.active, wi, w2, id);
            lemma_cnt_s_update_same_id(inact.active, ti, t2, id);
            lemma_cnt_s_remove(act.active.update(wi, w2), wi, id);
            lemma_cnt_s_remove(inact.active.update(ti, t2), ti, id);
        } else if has_plant(inact.plants, target) {
            let pi = plant_idx(inact.plants, target);
            let t = inact.plants[pi];
            crate::logic::lemma_plant_idx(inact.plants, target);
            let def = defense_of(t.cells);
            let w2 = AliveShapeV { id: w.id, cells: cut(w.cells, def) };
            let t2 = PlantV { time_left: (t.time_left + w.cells.len()) as u64, ..t };
            lemma_cnt_s_update_same_id(act.active, wi, w2, id);
            lemma_cnt_p_update_same_id(inact.plants, pi, t2, id);
            lemma_cnt_s_remove(act.active.update(wi, w2), wi, id);
            lemma_cnt_p_remove(inact.plants.update(pi, t2), pi, id);
        }
    }
}

/// The ids spawned by a production round are exactly the fresh interval
/// `[next, r.2)`, one each, and the plants keep their ids.
proof fn lemma_tick_upto_ids(plants: Seq<PlantV>, k: int, next: int, id: Id)
    requires
        0 <= k <= plants.len(),
        0 <= next,
        next + k <= Id::MAX,
    ensures
        plant_ids(v_tick_upto(plants, k, next).0) =~= plant_ids(plants.take(k)),
        cnt_s(v_tick_upto(plants, k, next).1, id)
            == (if next <= id < v_tick_upto(plants, k, next).2 { 1nat } else { 0nat }),
    decreases k,
{
    broadcast use vstd::multiset::group_multiset_axioms;
    broadcast use vstd::seq_lib::group_to_multiset_ensures;

    if k == 0 {
        assert(shape_ids(v_tick_upto(plants, 0, next).1) =~= Seq::<Id>::empty());
        assert(!Seq::<Id>::empty().contains(id));
    } else {
        lemma_tick_upto_ids(plants, k - 1, next, id);
        lemma_tick_upto_bounds(plants, k - 1, next);
        let pre = v_tick_upto(plants, k - 1, next);
        let stepped = spec_tick(plants[k - 1]);
        assert(plant_ids(plants.take(k)) =~= plant_ids(plants.take(k - 1)).push(plants[k - 1].id));
        if stepped.1 {
            lemma_cnt_s_push(pre.1, AliveShapeV { id: pre.2 as u64, cells: stepped.0.cells }, id);
        }
        assert(plant_ids(v_tick_upto(plants, k, next).0)
            =~= plant_ids(pre.0).push(stepped.0.id));
    }
}

proof fn lemma_end_turn_counts(p: PlayerV, next: int, id: Id)
    requires
        0 <= next,
        next + p.plants.len() <= Id::MAX,
    ensures
        ({
            let r = v_run_production(p, next);
            id_count_p(r.0, id)
                == id_count_p(p, id) + (if next <= id < r.1 { 1nat } else { 0nat })
        }),
{
    let r = v_tick_upto(p.plants, p.plants.len() as int, next);
    lemma_tick_upto_ids(p.plants, p.plants.len() as int, next, id);
    lemma_cnt_s_concat(p.buffer, r.1, id);
    assert(plant_ids(p.plants.take(p.plants.len() as int)) =~= plant_ids(p.plants));
    assert(cnt_p(r.0, id) == cnt_p(p.plants, id)) by {
        assert(plant_ids(r.0) =~= plant_ids(p.plants));
    }
}

/// The id invariant is preserved by every action of a turn.
pub proof fn lemma_wf_preserved(m: ModelV, a: PlayerAction)
    requires
        wf_model(m),
        action_fits(m, a),
    ensures
        wf_model(v_handle_action(m, a)),
        v_handle_action(m, a).next_id >= m.next_id,
{
    let m2 = v_handle_action(m, a);
    match a {
        PlayerAction::ActivateShape(sid) => {
            assert forall|id: Id| #[trigger] id_count(m2, id) == id_count(m, id) by {
                lemma_activate_counts(cur_player(m), sid, id);
            }
        }
        PlayerAction::DeactivateShape(sid) => {
            assert forall|id: Id| #[trigger] id_count(m2, id) == id_count(m, id) by {
                lemma_deactivate_counts(cur_player(m), sid, id);
            }
        }
        PlayerAction::AttachShape { triangle, target, pos } => {
            assert forall|id: Id| #[trigger] id_count(m2, id) <= id_count(m, id) by {
                lemma_attach_counts(cur_player(m), triangle, target, pos, id);
            }
        }
        PlayerAction::UpgradePlant { source_shape, target_plant } => {
            assert forall|id: Id| #[trigger] id_count(m2, id) <= id_count(m, id) by {
                lemma_upgrade_counts(cur_player(m), source_shape, target_plant, id);
            }
        }
        PlayerAction::Attack { weapon, target } => {
            assert forall|id: Id| #[trigger] id_count(m2, id) <= id_count(m, id) by {
                lemma_attack_counts(cur_player(m), other_player(m), weapon, target, id);
            }
        }
        PlayerAction::EndTurn => {
            let p = cur_player(m);
            lemma_tick_upto_bounds(p.plants, p.plants.len() as int, m.next_id as int);
            assert forall|id: Id| #[trigger] id_count(m2, id) <= 1 && (id_count(m2, id) > 0
                ==> id < m2.next_id) by {
                lemma_end_turn_counts(p, m.next_id as int, id);
                if id < m.next_id {
                    assert(id_count(m2, id) == id_count(m, id));
                } else {
                    assert(id_count(m, id) == 0);
                }
            }
        }
    }
}

/// The id invariant is preserved by the scripted opponent's whole action
/// list.
proof fn lemma_wf_apply_upto(m: ModelV, s: Seq<PlayerAction>, k: int)
    requires
        wf_model(m),
        0 <= k <= s.len(),
        crate::enemy_ai::ai_kind_ok(s),
    ensures
        wf_model(v_apply_upto(m, s, k)),
        v_apply_upto(m, s, k).next_id >= m.next_id,
    decreases k,
{
    if k > 0 {
        lemma_wf_apply_upto(m, s, k - 1);
        lemma_wf_preserved(v_apply_upto(m, s, k - 1), s[k - 1]);
    }
}

/// Uniqueness law: every submitted action keeps each entity id in at
/// most one collection, and keeps every stored id below the generator's
/// counter.  Since the generator never reissues a counter value, no two
/// living entities ever share an id, across arbitrarily many actions.
pub proof fn lemma_wf_player_action(m: ModelV, a: PlayerAction)
    requires
        wf_model(m),
        player_action_fits(m, a),
    ensures
        wf_model(v_handle_player_action(m, a)),
{
    if m.a_turn {
        lemma_wf_preserved(m, a);
    } else if a is EndTurn {
        let s = crate::enemy_ai::v_enemy_ai(m.b);
        crate::enemy_ai::lemma_ai_actions_kind(m.b);
        lemma_wf_apply_upto(m, s, s.len() as int);
        lemma_apply_upto_preserves(m, s, s.len() as int);
        lemma_wf_preserved(v_apply_upto(m, s, s.len() as int), PlayerAction::EndTurn);
    }
}

/// The freshly created game satisfies the id invariant.
pub proof fn lemma_initial_wf()
    ensures
        wf_model(crate::model::initial_model()),
{
    broadcast use vstd::multiset::group_multiset_axioms;
    broadcast use vstd::seq_lib::group_to_multiset_ensures;

    let m = crate::model::initial_model();
    assert forall|id: Id| #[trigger] id_count(m, id) <= 1 && (id_count(m, id) > 0
        ==> id < m.next_id) by {
        assert(shape_ids(m.a.buffer) =~= Seq::<Id>::empty());
        assert(shape_ids(m.a.active) =~= Seq::<Id>::empty());
        assert(plant_ids(m.a.plants) =~= Seq::<Id>::empty().push(0u64));
        assert(shape_ids(m.b.buffer) =~= Seq::<Id>::empty());
        assert(shape_ids(m.b.active) =~= Seq::<Id>::empty());
        assert(plant_ids(m.b.plants) =~= Seq::<Id>::empty().push(1u64));
        assert(!Seq::<Id>::empty().contains(id));
    }
}

} // verus!
