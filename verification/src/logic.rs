//! The action resolver: a two-state turn machine over the entity model.
//! Every operation is specified by a ghost interpreter over [`ModelV`];
//! the executable methods are proved to implement it exactly.

use vstd::prelude::*;
use crate::model::{
    AliveShape, AliveShapeV, Id, IdGenerator, Model, ModelV, Plant, PlantV, Player, PlayerV,
    PlayerAction, Shape, TriPos,
};
use crate::triangular::in_boundary;

verus! {

// ---------------------------------------------------------------------------
// Lookup by identifier, ghost and executable.
// ---------------------------------------------------------------------------

/// Index of the first shape with the given id, or `s.len()` when absent.
pub open spec fn shape_idx(s: Seq<AliveShapeV>, id: Id) -> int
    decreases s.len(),
{
    if s.len() == 0 {
        0
    } else if s[0].id == id {
        0
    } else {
        1 + shape_idx(s.skip(1), id)
    }
}

/// Whether some shape in the sequence has the given id.
pub open spec fn has_shape(s: Seq<AliveShapeV>, id: Id) -> bool {
    shape_idx(s, id) < s.len()
}

/// Index of the first plant with the given id, or `s.len()` when absent.
pub open spec fn plant_idx(s: Seq<PlantV>, id: Id) -> int
    decreases s.len(),
{
    if s.len() == 0 {
        0
    } else if s[0].id == id {
        0
    } else {
        1 + plant_idx(s.skip(1), id)
    }
}

/// Whether some plant in the sequence has the given id.
pub open spec fn has_plant(s: Seq<PlantV>, id: Id) -> bool {
    plant_idx(s, id) < s.len()
}

/// `shape_idx` points at the first occurrence of the id, if any.
pub proof fn lemma_shape_idx(s: Seq<AliveShapeV>, id: Id)
    ensures
        0 <= shape_idx(s, id) <= s.len(),
        has_shape(s, id) ==> s[shape_idx(s, id)].id == id,
        forall|i: int| 0 <= i < shape_idx(s, id) && i < s.len() ==> (#[trigger] s[i]).id != id,
        !has_shape(s, id) ==> forall|i: int| 0 <= i < s.len() ==> (#[trigger] s[i]).id != id,
    decreases s.len(),
{
    if s.len() > 0 && s[0].id != id {
        lemma_shape_idx(s.skip(1), id);
        assert(forall|i: int| 1 <= i < s.len() ==> #[trigger] s[i] == s.skip(1)[i - 1]);
    }
}

/// `plant_idx` points at the first occurrence of the id, if any.
pub proof fn lemma_plant_idx(s: Seq<PlantV>, id: Id)
    ensures
        0 <= plant_idx(s, id) <= s.len(),
        has_plant(s, id) ==> s[plant_idx(s, id)].id == id,
        forall|i: int| 0 <= i < plant_idx(s, id) && i < s.len() ==> (#[trigger] s[i]).id != id,
        !has_plant(s, id) ==> forall|i: int| 0 <= i < s.len() ==> (#[trigger] s[i]).id != id,
    decreases s.len(),
{
    if s.len() > 0 && s[0].id != id {
        lemma_plant_idx(s.skip(1), id);
        assert(forall|i: int| 1 <= i < s.len() ==> #[trigger] s[i] == s.skip(1)[i - 1]);
    }
}

/// Linear search for a shape by id.
pub fn find_shape(v: &Vec<AliveShape>, id: Id) -> (r: Option<usize>)
    ensures
        match r {
            Some(i) => has_shape(crate::model::sviews(v@), id)
                && i == shape_idx(crate::model::sviews(v@), id),
            None => !has_shape(crate::model::sviews(v@), id),
        },
{
    let ghost s = crate::model::sviews(v@);
    let n = v.len();
    let mut i: usize = 0;
    while i < n
        invariant
            i <= n,
            n == v@.len(),
            s == crate::model::sviews(v@),
            forall|j: int| 0 <= j < i ==> (#[trigger] s[j]).id != id,
        decreases n - i,
    {
        if v[i].id == id {
            proof {
                lemma_shape_idx(s, id);
                assert(s[i as int].id == id);
            }
            return Some(i);
        }
        i = i + 1;
    }
    proof {
        lemma_shape_idx(s, id);
    }
    None
}

/// Linear search for a plant by id.
pub fn find_plant(v: &Vec<Plant>, id: Id) -> (r: Option<usize>)
    ensures
        match r {
            Some(i) => has_plant(crate::model::pviews(v@), id)
                && i == plant_idx(crate::model::pviews(v@), id),
            None => !has_plant(crate::model::pviews(v@), id),
        },
{
    let ghost s = crate::model::pviews(v@);
    let n = v.len();
    let mut i: usize = 0;
    while i < n
        invariant
            i <= n,
            n == v@.len(),
            s == crate::model::pviews(v@),
            forall|j: int| 0 <= j < i ==> (#[trigger] s[j]).id != id,
        decreases n - i,
    {
        if v[i].id == id {
            proof {
                lemma_plant_idx(s, id);
                assert(s[i as int].id == id);
            }
            return Some(i);
        }
        i = i + 1;
    }
    proof {
        lemma_plant_idx(s, id);
    }
    None
}

// ---------------------------------------------------------------------------
// Small view lemmas.
// ---------------------------------------------------------------------------

proof fn lemma_sviews_push(v: Seq<AliveShape>, a: AliveShape)
    ensures
        crate::model::sviews(v.push(a)) == crate::model::sviews(v).push(a@),
{
    assert(crate::model::sviews(v.push(a)) =~= crate::model::sviews(v).push(a@));
}

proof fn lemma_sviews_remove(v: Seq<AliveShape>, i: int)
    requires
        0 <= i < v.len(),
    ensures
        crate::model::sviews(v.remove(i)) == crate::model::sviews(v).remove(i),
{
    assert(crate::model::sviews(v.remove(i)) =~= crate::model::sviews(v).remove(i));
}

proof fn lemma_sviews_update(v: Seq<AliveShape>, i: int, a: AliveShape)
    requires
        0 <= i < v.len(),
    ensures
        crate::model::sviews(v.update(i, a)) == crate::model::sviews(v).update(i, a@),
{
    assert(crate::model::sviews(v.update(i, a)) =~= crate::model::sviews(v).update(i, a@));
}

proof fn lemma_pviews_remove(v: Seq<Plant>, i: int)
    requires
        0 <= i < v.len(),
    ensures
        crate::model::pviews(v.remove(i)) == crate::model::pviews(v).remove(i),
{
    assert(crate::model::pviews(v.remove(i)) =~= crate::model::pviews(v).remove(i));
}

proof fn lemma_pviews_update(v: Seq<Plant>, i: int, a: Plant)
    requires
        0 <= i < v.len(),
    ensures
        crate::model::pviews(v.update(i, a)) == crate::model::pviews(v).update(i, a@),
{
    assert(crate::model::pviews(v.update(i, a)) =~= crate::model::pviews(v).update(i, a@));
}

// ---------------------------------------------------------------------------
// Turn-side selection.
// ---------------------------------------------------------------------------

/// The player whose turn it is.
pub open spec fn cur_player(m: ModelV) -> PlayerV {
    if m.a_turn {
        m.a
    } else {
        m.b
    }
}

/// The player whose turn it is not.
pub open spec fn other_player(m: ModelV) -> PlayerV {
    if m.a_turn {
        m.b
    } else {
        m.a
    }
}

/// Replace the state of the player whose turn it is.
pub open spec fn with_cur(m: ModelV, p: PlayerV) -> ModelV {
    if m.a_turn {
        ModelV { a: p, ..m }
    } else {
        ModelV { b: p, ..m }
    }
}

/// Replace the state of the player whose turn it is not.
pub open spec fn with_other(m: ModelV, p: PlayerV) -> ModelV {
    if m.a_turn {
        ModelV { b: p, ..m }
    } else {
        ModelV { a: p, ..m }
    }
}

// ---------------------------------------------------------------------------
// Activation and deactivation.
// ---------------------------------------------------------------------------

/// Move a shape from the buffer into play; no change when the id is not in
/// the buffer.
pub open spec fn v_activate_p(p: PlayerV, id: Id) -> PlayerV {
    if has_shape(p.buffer, id) {
        let i = shape_idx(p.buffer, id);
        PlayerV { buffer: p.buffer.remove(i), active: p.active.push(p.buffer[i]), plants: p.plants }
    } else {
        p
    }
}

/// Move a shape out of play back into the buffer; no change when the id is
/// not in play.
pub open spec fn v_deactivate_p(p: PlayerV, id: Id) -> PlayerV {
    if has_shape(p.active, id) {
        let i = shape_idx(p.active, id);
        PlayerV { buffer: p.buffer.push(p.active[i]), active: p.active.remove(i), plants: p.plants }
    } else {
        p
    }
}

/// What `ActivateShape` does to the whole model.
pub open spec fn v_activate(m: ModelV, id: Id) -> ModelV {
    with_cur(m, v_activate_p(cur_player(m), id))
}

/// What `DeactivateShape` does to the whole model.
pub open spec fn v_deactivate(m: ModelV, id: Id) -> ModelV {
    with_cur(m, v_deactivate_p(cur_player(m), id))
}

impl Player {
    /// Move the shape with this id from the reserve buffer into play.
    pub fn activate(&mut self, id: Id) -> (moved: bool)
        ensures
            final(self)@ == v_activate_p(old(self)@, id),
            moved == has_shape(old(self)@.buffer, id),
    {
        match find_shape(&self.shape_buffer.0, id) {
            Some(i) => {
                let s = self.shape_buffer.0.remove(i);
                self.active_shapes.0.push(s);
                proof {
                    lemma_sviews_remove(old(self).shape_buffer.0@, i as int);
                    lemma_sviews_push(old(self).active_shapes.0@, old(self).shape_buffer.0@[i as int]);
                }
                true
            }
            None => false,
        }
    }

    /// Move the shape with this id out of play back into the reserve
    /// buffer.
    pub fn deactivate(&mut self, id: Id) -> (moved: bool)
        ensures
            final(self)@ == v_deactivate_p(old(self)@, id),
            moved == has_shape(old(self)@.active, id),
    {
        match find_shape(&self.active_shapes.0, id) {
            Some(i) => {
                let s = self.active_shapes.0.remove(i);
                self.shape_buffer.0.push(s);
                proof {
                    lemma_sviews_remove(old(self).active_shapes.0@, i as int);
                    lemma_sviews_push(old(self).shape_buffer.0@, old(self).active_shapes.0@[i as int]);
                }
                true
            }
            None => false,
        }
    }
}

// ---------------------------------------------------------------------------
// Attachment.
// ---------------------------------------------------------------------------

/// `shape_idx` only looks at the ids, so it is stable under any change
/// that keeps every element's id.
pub proof fn lemma_shape_idx_same_ids(s1: Seq<AliveShapeV>, s2: Seq<AliveShapeV>, id: Id)
    requires
        s1.len() == s2.len(),
        forall|i: int| 0 <= i < s1.len() ==> (#[trigger] s1[i]).id == s2[i].id,
    ensures
        shape_idx(s1, id) == shape_idx(s2, id),
    decreases s1.len(),
{
    if s1.len() > 0 && s1[0].id != id {
        lemma_shape_idx_same_ids(s1.skip(1), s2.skip(1), id);
        assert(forall|i: int| 0 <= i < s1.len() - 1 ==> (#[trigger] s1.skip(1)[i]).id == s2.skip(1)[i].id);
    }
}

/// The legality of an attachment: `triangle` resolves (in play first,
/// then the buffer) to a shape of exactly one cell, and `target` resolves
/// to a shape in play whose boundary holds `pos`.
pub open spec fn attach_ok(p: PlayerV, triangle: Id, target: Id, pos: TriPos) -> bool {
    let tri_cells = if has_shape(p.active, triangle) {
        p.active[shape_idx(p.active, triangle)].cells
    } else {
        p.buffer[shape_idx(p.buffer, triangle)].cells
    };
    (has_shape(p.active, triangle) || has_shape(p.buffer, triangle))
    && tri_cells.len() == 1
    && has_shape(p.active, target)
    && in_boundary(p.active[shape_idx(p.active, target)].cells, pos)
}

/// Attach: append `pos` to the target's cells and consume the triangle
/// entity entirely (looked up in play first, then in the buffer).  On an
/// illegal request nothing changes.
pub open spec fn v_attach_p(p: PlayerV, triangle: Id, target: Id, pos: TriPos) -> PlayerV {
    if attach_ok(p, triangle, target, pos) {
        let ti = shape_idx(p.active, target);
        let t = p.active[ti];
        let grown = PlayerV {
            active: p.active.update(ti, AliveShapeV { id: t.id, cells: t.cells.push(pos) }),
            ..p
        };
        if has_shape(grown.active, triangle) {
            PlayerV {
                active: grown.active.remove(shape_idx(grown.active, triangle)),
                ..grown
            }
        } else {
            PlayerV {
                buffer: grown.buffer.remove(shape_idx(grown.buffer, triangle)),
                ..grown
            }
        }
    } else {
        p
    }
}

/// What `AttachShape` does to the whole model.
pub open spec fn v_attach(m: ModelV, triangle: Id, target: Id, pos: TriPos) -> ModelV {
    with_cur(m, v_attach_p(cur_player(m), triangle, target, pos))
}

impl Player {
    /// Attach the single-cell shape `triangle` onto `target` at boundary
    /// position `pos`; all-or-nothing.  Reports whether it was legal.
    pub fn attach(&mut self, triangle: Id, target: Id, pos: TriPos) -> (attached: bool)
        ensures
            final(self)@ == v_attach_p(old(self)@, triangle, target, pos),
            attached == attach_ok(old(self)@, triangle, target, pos),
    {
        let tri_len: usize = match find_shape(&self.active_shapes.0, triangle) {
            Some(i) => self.active_shapes.0[i].shape.0.len(),
            None => {
                match find_shape(&self.shape_buffer.0, triangle) {
                    Some(i) => self.shape_buffer.0[i].shape.0.len(),
                    None => {
                        return false;
                    }
                }
            }
        };
        if tri_len != 1 {
            return false;
        }
        let ti = match find_shape(&self.active_shapes.0, target) {
            Some(i) => i,
            None => {
                return false;
            }
        };
        if !self.active_shapes.0[ti].shape.has_boundary(pos) {
            return false;
        }
        // Grow the target by the new cell.
        let mut item = self.active_shapes.0.remove(ti);
        item.shape.0.push(pos);
        self.active_shapes.0.insert(ti, item);
        proof {
            let ov = old(self).active_shapes.0@;
            let t = old(self)@.active[ti as int];
            let grown_item = self.active_shapes.0@[ti as int];
            assert(self.active_shapes.0@ =~= ov.update(ti as int, grown_item));
            lemma_sviews_update(ov, ti as int, grown_item);
            assert(grown_item@ == (AliveShapeV { id: t.id, cells: t.cells.push(pos) }));
            assert(self.active_shapes@ =~= old(self)@.active.update(
                ti as int,
                AliveShapeV { id: t.id, cells: t.cells.push(pos) },
            ));
        }
        let ghost grown_vec = self.active_shapes.0@;
        let ghost grown_active = self.active_shapes@;
        proof {
            lemma_shape_idx_same_ids(old(self)@.active, grown_active, triangle);
        }
        // Consume the triangle from wherever it lives.
        match find_shape(&self.active_shapes.0, triangle) {
            Some(i) => {
                self.active_shapes.0.remove(i);
                proof {
                    lemma_sviews_remove(grown_vec, i as int);
                }
            }
            None => {
                match find_shape(&self.shape_buffer.0, triangle) {
                    Some(i) => {
                        self.shape_buffer.0.remove(i);
                        proof {
                            lemma_sviews_remove(old(self).shape_buffer.0@, i as int);
                        }
                    }
                    None => {
                        // The triangle was found a moment ago and growing the
                        // target keeps every id, so this cannot happen.
                        proof {
                            assert(false);
                        }
                    }
                }
            }
        }
        true
    }
}

impl Model {
    /// `ActivateShape`: move the shape from the acting player's buffer
    /// into play.  Reports whether anything moved.
    pub fn activate_shape(&mut self, shape_id: Id) -> (moved: bool)
        ensures
            final(self)@ == v_activate(old(self)@, shape_id),
            moved == has_shape(cur_player(old(self)@).buffer, shape_id),
    {
        if self.player_a_turn {
            self.player_a.activate(shape_id)
        } else {
            self.player_b.activate(shape_id)
        }
    }

    /// `DeactivateShape`: move the shape out of play back into the acting
    /// player's buffer.  Reports whether anything moved.
    pub fn deactivate_shape(&mut self, shape_id: Id) -> (moved: bool)
        ensures
            final(self)@ == v_deactivate(old(self)@, shape_id),
            moved == has_shape(cur_player(old(self)@).active, shape_id),
    {
        if self.player_a_turn {
            self.player_a.deactivate(shape_id)
        } else {
            self.player_b.deactivate(shape_id)
        }
    }

    /// `AttachShape`: grow the target by one cell, consuming the
    /// single-cell triangle; all-or-nothing.  Reports legality.
    pub fn attach_shape(&mut self, triangle: Id, target: Id, pos: TriPos) -> (attached: bool)
        ensures
            final(self)@ == v_attach(old(self)@, triangle, target, pos),
            attached == attach_ok(cur_player(old(self)@), triangle, target, pos),
    {
        if self.player_a_turn {
            self.player_a.attach(triangle, target, pos)
        } else {
            self.player_b.attach(triangle, target, pos)
        }
    }

    /// `UpgradePlant`: spend a stored shape of at least two cells to
    /// replace a plant's template shape and restart its countdown.
    /// Reports whether the upgrade happened.
    pub fn upgrade_plant(&mut self, source_shape: Id, target_plant: Id) -> (ok: bool)
        ensures
            final(self)@ == v_upgrade(old(self)@, source_shape, target_plant),
            ok == upgrade_ok(cur_player(old(self)@), source_shape, target_plant),
    {
        if self.player_a_turn {
            self.player_a.upgrade(source_shape, target_plant)
        } else {
            self.player_b.upgrade(source_shape, target_plant)
        }
    }
}

// ---------------------------------------------------------------------------
// Plant upgrade.
// ---------------------------------------------------------------------------

/// The cells of the shape that `UpgradePlant` would consume, looked up in
/// the buffer first, then among the shapes in play (the precedence of
/// [`Player::remove_shape`]).
pub open spec fn upgrade_src(p: PlayerV, source: Id) -> Seq<TriPos> {
    if has_shape(p.buffer, source) {
        p.buffer[shape_idx(p.buffer, source)].cells
    } else {
        p.active[shape_idx(p.active, source)].cells
    }
}

/// The legality of a plant upgrade: the source shape exists, the plant
/// exists, and the source has at least two cells.  A zero-cell or
/// one-cell source is rejected up front with nothing removed (the
/// one-cell "increase efficiency" upgrade is a deliberately unassigned
/// extension point, kept as a rejection).
pub open spec fn upgrade_ok(p: PlayerV, source: Id, target_plant: Id) -> bool {
    (has_shape(p.buffer, source) || has_shape(p.active, source))
    && has_plant(p.plants, target_plant)
    && upgrade_src(p, source).len() >= 2
}

/// Upgrade: remove the source shape (buffer first, then in play), give
/// the plant its cells wholesale, and restart the countdown.  On an
/// illegal request nothing changes.
pub open spec fn v_upgrade_p(p: PlayerV, source: Id, target_plant: Id) -> PlayerV {
    if upgrade_ok(p, source, target_plant) {
        let cells = upgrade_src(p, source);
        let pi = plant_idx(p.plants, target_plant);
        let pl = p.plants[pi];
        let p2 = if has_shape(p.buffer, source) {
            PlayerV { buffer: p.buffer.remove(shape_idx(p.buffer, source)), ..p }
        } else {
            PlayerV { active: p.active.remove(shape_idx(p.active, source)), ..p }
        };
        PlayerV {
            plants: p2.plants.update(
                pi,
                PlantV { id: pl.id, cells, cooldown: pl.cooldown, time_left: pl.cooldown },
            ),
            ..p2
        }
    } else {
        p
    }
}

/// What `UpgradePlant` does to the whole model.
pub open spec fn v_upgrade(m: ModelV, source: Id, target_plant: Id) -> ModelV {
    with_cur(m, v_upgrade_p(cur_player(m), source, target_plant))
}

impl Player {
    /// Remove the shape with this id from the buffer (first) or from the
    /// shapes in play, returning its bare shape.
    pub fn remove_shape(&mut self, id: Id) -> (r: Option<Shape>)
        ensures
            has_shape(old(self)@.buffer, id) ==> {
                &&& final(self)@ == (PlayerV {
                    buffer: old(self)@.buffer.remove(shape_idx(old(self)@.buffer, id)),
                    ..old(self)@
                })
                &&& r matches Some(s)
                    && s@ == old(self)@.buffer[shape_idx(old(self)@.buffer, id)].cells
            },
            !has_shape(old(self)@.buffer, id) && has_shape(old(self)@.active, id) ==> {
                &&& final(self)@ == (PlayerV {
                    active: old(self)@.active.remove(shape_idx(old(self)@.active, id)),
                    ..old(self)@
                })
                &&& r matches Some(s)
                    && s@ == old(self)@.active[shape_idx(old(self)@.active, id)].cells
            },
            !has_shape(old(self)@.buffer, id) && !has_shape(old(self)@.active, id) ==> {
                &&& final(self)@ == old(self)@
                &&& r is None
            },
    {
        match find_shape(&self.shape_buffer.0, id) {
            Some(i) => {
                let a = self.shape_buffer.0.remove(i);
                proof {
                    lemma_sviews_remove(old(self).shape_buffer.0@, i as int);
                }
                Some(a.shape)
            }
            None => {
                match find_shape(&self.active_shapes.0, id) {
                    Some(i) => {
                        let a = self.active_shapes.0.remove(i);
                        proof {
                            lemma_sviews_remove(old(self).active_shapes.0@, i as int);
                        }
                        Some(a.shape)
                    }
                    None => None,
                }
            }
        }
    }

    /// Spend a stored shape of at least two cells to replace the plant's
    /// template shape and restart its countdown; all-or-nothing.
    pub fn upgrade(&mut self, source: Id, target_plant: Id) -> (ok: bool)
        ensures
            final(self)@ == v_upgrade_p(old(self)@, source, target_plant),
            ok == upgrade_ok(old(self)@, source, target_plant),
    {
        // Validate everything before touching anything, so that an
        // illegal request (including a zero- or one-cell source) leaves
        // the player's storage untouched.
        let src_len: usize = match find_shape(&self.shape_buffer.0, source) {
            Some(i) => self.shape_buffer.0[i].shape.0.len(),
            None => {
                match find_shape(&self.active_shapes.0, source) {
                    Some(i) => self.active_shapes.0[i].shape.0.len(),
                    None => {
                        return false;
                    }
                }
            }
        };
        let pi = match find_plant(&self.shape_farm.plants, target_plant) {
            Some(i) => i,
            None => {
                return false;
            }
        };
        if src_len < 2 {
            return false;
        }
        match self.remove_shape(source) {
            Some(shape) => {
                let ghost op = self.shape_farm.plants@;
                let mut pl = self.shape_farm.plants.remove(pi);
                pl.shape = shape;
                pl.time_left = pl.cooldown;
                self.shape_farm.plants.insert(pi, pl);
                proof {
                    let new_pl = self.shape_farm.plants@[pi as int];
                    assert(self.shape_farm.plants@ =~= op.update(pi as int, new_pl));
                    lemma_pviews_update(op, pi as int, new_pl);
                    let opl = old(self)@.plants[pi as int];
                    assert(new_pl@ == (PlantV {
                        id: opl.id,
                        cells: upgrade_src(old(self)@, source),
                        cooldown: opl.cooldown,
                        time_left: opl.cooldown,
                    }));
                }
                true
            }
            None => {
                proof {
                    assert(false);
                }
                false
            }
        }
    }
}

// ---------------------------------------------------------------------------
// Combat.
// ---------------------------------------------------------------------------

/// A shape's cells after losing `n` cells from the tail, saturating at
/// empty.
pub open spec fn cut(cells: Seq<TriPos>, n: int) -> Seq<TriPos> {
    if n >= cells.len() {
        Seq::empty()
    } else {
        cells.take(cells.len() - n)
    }
}

/// The defense of a target: its cell count less one, saturating at zero.
pub open spec fn defense_of(cells: Seq<TriPos>) -> int {
    if cells.len() >= 1 {
        cells.len() - 1
    } else {
        0
    }
}

/// Drop `n` cells from the tail of the shape, saturating at empty.
fn cut_tail(s: &mut Shape, n: usize)
    ensures
        final(s)@ == cut(old(s)@, n as int),
{
    let len = s.0.len();
    if n >= len {
        s.0.truncate(0);
        proof {
            assert(old(s)@.subrange(0, 0) =~= Seq::<TriPos>::empty());
        }
    } else {
        s.0.truncate(len - n);
    }
}

/// Combat against a shape in play.  Damage equals the weapon's cell
/// count; defense equals the target's cell count less one.  The target
/// loses the damage from its tail, the weapon loses the defense from its
/// tail, both saturating at empty; survival is decided from the sizes
/// before the losses.  Returns who survived: `(weapon, target)`.
pub fn attack_active(weapon: &mut Shape, target: &mut Shape) -> (survivors: (bool, bool))
    ensures
        final(weapon)@ == cut(old(weapon)@, defense_of(old(target)@)),
        final(target)@ == cut(old(target)@, old(weapon)@.len() as int),
        survivors.0 == (defense_of(old(target)@) < old(weapon)@.len()),
        survivors.1 == ((old(weapon)@.len() as int) < old(target)@.len()),
{
    let attack_damage = weapon.0.len();
    let tlen = target.0.len();
    let defense: usize = if tlen >= 1 { tlen - 1 } else { 0 };
    let survivors = (defense < weapon.0.len(), attack_damage < tlen);
    cut_tail(target, attack_damage);
    cut_tail(weapon, defense);
    survivors
}

/// Combat against a plant.  The plant does not lose cells; instead its
/// countdown grows by the weapon's cell count, delaying production.  The
/// weapon-side arithmetic is as in [`attack_active`].  Returns who
/// survived: `(weapon, plant)`.
pub fn attack_plant(weapon: &mut Shape, target: &mut Plant) -> (survivors: (bool, bool))
    requires
        old(target)@.time_left + old(weapon)@.len() <= u64::MAX,
    ensures
        final(weapon)@ == cut(old(weapon)@, defense_of(old(target)@.cells)),
        final(target)@ == (PlantV {
            time_left: (old(target)@.time_left + old(weapon)@.len()) as u64,
            ..old(target)@
        }),
        survivors.0 == (defense_of(old(target)@.cells) < old(weapon)@.len()),
        survivors.1 == ((old(weapon)@.len() as int) < old(target)@.cells.len()),
{
    let attack_damage = weapon.0.len();
    let tlen = target.shape.0.len();
    let defense: usize = if tlen >= 1 { tlen - 1 } else { 0 };
    let survivors = (defense < weapon.0.len(), attack_damage < tlen);
    target.time_left = target.time_left + (attack_damage as u64);
    cut_tail(weapon, defense);
    survivors
}

/// The legality of an attack: the weapon is a shape of the acting player
/// in play, and the target resolves among the opponent's shapes in play
/// first, then the opponent's plants.
pub open spec fn attack_ok(act: PlayerV, inact: PlayerV, weapon: Id, target: Id) -> bool {
    has_shape(act.active, weapon)
    && (has_shape(inact.active, target) || has_plant(inact.plants, target))
}

/// Machine limit of an attack on a plant: the countdown must not leave
/// `u64`.
pub open spec fn attack_fits(act: PlayerV, inact: PlayerV, weapon: Id, target: Id) -> bool {
    (has_shape(act.active, weapon) && !has_shape(inact.active, target)
        && has_plant(inact.plants, target))
        ==> inact.plants[plant_idx(inact.plants, target)].time_left
            + act.active[shape_idx(act.active, weapon)].cells.len() <= u64::MAX
}

/// Attack: resolve combat between the acting player's weapon and the
/// opponent's shape or plant, and remove either side entirely when it did
/// not survive.  On an unresolvable request nothing changes.
pub open spec fn v_attack_pair(act: PlayerV, inact: PlayerV, weapon: Id, target: Id)
    -> (PlayerV, PlayerV)
{
    if !has_shape(act.active, weapon) {
        (act, inact)
    } else {
        let wi = shape_idx(act.active, weapon);
        let w = act.active[wi];
        let ad = w.cells.len() as int;
        if has_shape(inact.active, target) {
            let ti = shape_idx(inact.active, target);
            let t = inact.active[ti];
            let def = defense_of(t.cells);
            let act2 = PlayerV {
                active: act.active.update(wi, AliveShapeV { id: w.id, cells: cut(w.cells, def) }),
                ..act
            };
            let inact2 = PlayerV {
                active: inact.active.update(ti, AliveShapeV { id: t.id, cells: cut(t.cells, ad) }),
                ..inact
            };
            let act3 = if def < ad {
                act2
            } else {
                PlayerV { active: act2.active.remove(wi), ..act2 }
            };
            let inact3 = if ad < t.cells.len() {
                inact2
            } else {
                PlayerV { active: inact2.active.remove(ti), ..inact2 }
            };
            (act3, inact3)
        } else if has_plant(inact.plants, target) {
            let pi = plant_idx(inact.plants, target);
            let t = inact.plants[pi];
            let def = defense_of(t.cells);
            let act2 = PlayerV {
                active: act.active.update(wi, AliveShapeV { id: w.id, cells: cut(w.cells, def) }),
                ..act
            };
            let inact2 = PlayerV {
                plants: inact.plants.update(
                    pi,
                    PlantV { time_left: (t.time_left + w.cells.len()) as u64, ..t },
                ),
                ..inact
            };
            let act3 = if def < ad {
                act2
            } else {
                PlayerV { active: act2.active.remove(wi), ..act2 }
            };
            let inact3 = if ad < t.cells.len() {
                inact2
            } else {
                PlayerV { plants: inact2.plants.remove(pi), ..inact2 }
            };
            (act3, inact3)
        } else {
            (act, inact)
        }
    }
}

/// What `Attack` does to the whole model.
pub open spec fn v_attack(m: ModelV, weapon: Id, target: Id) -> ModelV {
    let pair = v_attack_pair(cur_player(m), other_player(m), weapon, target);
    with_other(with_cur(m, pair.0), pair.1)
}

/// Resolve an attack between the two players' states.
fn attack_between(active: &mut Player, inactive: &mut Player, weapon: Id, target: Id)
    -> (ok: bool)
    requires
        attack_fits(old(active)@, old(inactive)@, weapon, target),
    ensures
        (final(active)@, final(inactive)@)
            == v_attack_pair(old(active)@, old(inactive)@, weapon, target),
        ok == attack_ok(old(active)@, old(inactive)@, weapon, target),
{
    let wi = match find_shape(&active.active_shapes.0, weapon) {
        Some(i) => i,
        None => {
            return false;
        }
    };
    match find_shape(&inactive.active_shapes.0, target) {
        Some(ti) => {
            let ghost oa = active.active_shapes.0@;
            let ghost oi = inactive.active_shapes.0@;
            let mut w = active.active_shapes.0.remove(wi);
            let mut t = inactive.active_shapes.0.remove(ti);
            let survivors = attack_active(&mut w.shape, &mut t.shape);
            if survivors.0 {
                active.active_shapes.0.insert(wi, w);
                proof {
                    assert(active.active_shapes.0@ =~= oa.update(wi as int, active.active_shapes.0@[wi as int]));
                    lemma_sviews_update(oa, wi as int, active.active_shapes.0@[wi as int]);
                }
            } else {
                proof {
                    lemma_sviews_remove(oa, wi as int);
                    let w2 = AliveShapeV {
                        id: old(active)@.active[wi as int].id,
                        cells: cut(old(active)@.active[wi as int].cells, defense_of(old(inactive)@.active[ti as int].cells)),
                    };
                    assert(old(active)@.active.update(wi as int, w2).remove(wi as int)
                        =~= old(active)@.active.remove(wi as int));
                }
            }
            if survivors.1 {
                inactive.active_shapes.0.insert(ti, t);
                proof {
                    assert(inactive.active_shapes.0@ =~= oi.update(ti as int, inactive.active_shapes.0@[ti as int]));
                    lemma_sviews_update(oi, ti as int, inactive.active_shapes.0@[ti as int]);
                }
            } else {
                proof {
                    lemma_sviews_remove(oi, ti as int);
                    let t2 = AliveShapeV {
                        id: old(inactive)@.active[ti as int].id,
                        cells: cut(old(inactive)@.active[ti as int].cells, old(active)@.active[wi as int].cells.len() as int),
                    };
                    assert(old(inactive)@.active.update(ti as int, t2).remove(ti as int)
                        =~= old(inactive)@.active.remove(ti as int));
                }
            }
            true
        }
        None => {
            match find_plant(&inactive.shape_farm.plants, target) {
                Some(pi) => {
                    let ghost oa = active.active_shapes.0@;
                    let ghost op = inactive.shape_farm.plants@;
                    let mut w = active.active_shapes.0.remove(wi);
                    let mut t = inactive.shape_farm.plants.remove(pi);
                    let survivors = attack_plant(&mut w.shape, &mut t);
                    if survivors.0 {
                        active.active_shapes.0.insert(wi, w);
                        proof {
                            assert(active.active_shapes.0@ =~= oa.update(wi as int, active.active_shapes.0@[wi as int]));
                            lemma_sviews_update(oa, wi as int, active.active_shapes.0@[wi as int]);
                        }
                    } else {
                        proof {
                            lemma_sviews_remove(oa, wi as int);
                            let w2 = AliveShapeV {
                                id: old(active)@.active[wi as int].id,
                                cells: cut(old(active)@.active[wi as int].cells, defense_of(old(inactive)@.plants[pi as int].cells)),
                            };
                            assert(old(active)@.active.update(wi as int, w2).remove(wi as int)
                                =~= old(active)@.active.remove(wi as int));
                        }
                    }
                    if survivors.1 {
                        inactive.shape_farm.plants.insert(pi, t);
                        proof {
                            assert(inactive.shape_farm.plants@ =~= op.update(pi as int, inactive.shape_farm.plants@[pi as int]));
                            lemma_pviews_update(op, pi as int, inactive.shape_farm.plants@[pi as int]);
                        }
                    } else {
                        proof {
                            lemma_pviews_remove(op, pi as int);
                            let t0 = old(inactive)@.plants[pi as int];
                            let t2 = PlantV {
                                time_left: (t0.time_left + old(active)@.active[wi as int].cells.len()) as u64,
                                ..t0
                            };
                            assert(old(inactive)@.plants.update(pi as int, t2).remove(pi as int)
                                =~= old(inactive)@.plants.remove(pi as int));
                        }
                    }
                    true
                }
                None => false,
            }
        }
    }
}

// ---------------------------------------------------------------------------
// Plant production and the turn tick.
// ---------------------------------------------------------------------------

/// One countdown step of a plant: when the countdown has run out it
/// resets to the cooldown and the plant produces; otherwise it just
/// counts down.
pub open spec fn spec_tick(p: PlantV) -> (PlantV, bool) {
    if p.time_left == 0 {
        (PlantV { time_left: p.cooldown, ..p }, true)
    } else {
        (PlantV { time_left: (p.time_left - 1) as u64, ..p }, false)
    }
}

impl Plant {
    /// One countdown step; reports whether the plant produced.
    pub fn tick(&mut self) -> (produced: bool)
        ensures
            final(self)@ == spec_tick(old(self)@).0,
            produced == spec_tick(old(self)@).1,
    {
        if self.time_left == 0 {
            self.time_left = self.cooldown;
            return true;
        }
        self.time_left = self.time_left - 1;
        false
    }
}

/// Production of the first `k` plants: the plants after their countdown
/// steps, the spawned shapes (one per producing plant, in plant order,
/// with consecutive fresh ids), and the next fresh id afterwards.
pub open spec fn v_tick_upto(plants: Seq<PlantV>, k: int, next: int)
    -> (Seq<PlantV>, Seq<AliveShapeV>, int)
    decreases k,
{
    if k <= 0 || k > plants.len() {
        (Seq::empty(), Seq::empty(), next)
    } else {
        let pre = v_tick_upto(plants, k - 1, next);
        let stepped = spec_tick(plants[k - 1]);
        if stepped.1 {
            (
                pre.0.push(stepped.0),
                pre.1.push(AliveShapeV { id: pre.2 as u64, cells: stepped.0.cells }),
                pre.2 + 1,
            )
        } else {
            (pre.0.push(stepped.0), pre.1, pre.2)
        }
    }
}

/// A full production round for one player: every plant ticks, each
/// producing plant spawns a clone of its shape with a fresh id into the
/// buffer.
pub open spec fn v_run_production(p: PlayerV, next: int) -> (PlayerV, int) {
    let r = v_tick_upto(p.plants, p.plants.len() as int, next);
    (PlayerV { buffer: p.buffer + r.1, active: p.active, plants: r.0 }, r.2)
}

/// Production issues at most one id per plant.
pub proof fn lemma_tick_upto_bounds(plants: Seq<PlantV>, k: int, next: int)
    requires
        0 <= k <= plants.len(),
    ensures
        next <= v_tick_upto(plants, k, next).2 <= next + k,
        v_tick_upto(plants, k, next).0.len() == k,
    decreases k,
{
    if k > 0 {
        lemma_tick_upto_bounds(plants, k - 1, next);
    }
}

/// Run a production round on this player, drawing fresh ids from the
/// generator.
fn run_production(p: &mut Player, id_gen: &mut IdGenerator)
    requires
        old(id_gen)@ + old(p)@.plants.len() <= Id::MAX,
    ensures
        final(p)@ == v_run_production(old(p)@, old(id_gen)@ as int).0,
        final(id_gen)@ == v_run_production(old(p)@, old(id_gen)@ as int).1 as u64,
{
    let n = p.shape_farm.plants.len();
    let mut i: usize = 0;
    while i < n
        invariant
            i <= n,
            n == old(p)@.plants.len(),
            p.shape_farm.plants@.len() == n,
            old(id_gen)@ + n <= Id::MAX,
            ({
                let r = v_tick_upto(old(p)@.plants, i as int, old(id_gen)@ as int);
                &&& crate::model::pviews(p.shape_farm.plants@)
                    == r.0 + old(p)@.plants.skip(i as int)
                &&& crate::model::sviews(p.shape_buffer.0@) == old(p)@.buffer + r.1
                &&& id_gen@ == r.2
                &&& r.2 <= old(id_gen)@ + i
            }),
            crate::model::sviews(p.active_shapes.0@) == old(p)@.active,
        decreases n - i,
    {
        let ghost r_pre = v_tick_upto(old(p)@.plants, i as int, old(id_gen)@ as int);
        let ghost op = p.shape_farm.plants@;
        proof {
            lemma_tick_upto_bounds(old(p)@.plants, i as int, old(id_gen)@ as int);
            assert((r_pre.0 + old(p)@.plants.skip(i as int))[i as int] == old(p)@.plants[i as int]);
        }
        let mut pl = p.shape_farm.plants.remove(i);
        let produced = pl.tick();
        if produced {
            let id = id_gen.next();
            let ghost ob = p.shape_buffer.0@;
            p.shape_buffer.0.push(AliveShape { id, shape: pl.shape.clone() });
            proof {
                let nb = p.shape_buffer.0@;
                assert(crate::model::sviews(nb)
                    =~= crate::model::sviews(ob).push(nb[nb.len() - 1]@));
            }
        }
        p.shape_farm.plants.insert(i, pl);
        proof {
            let r_post = v_tick_upto(old(p)@.plants, i + 1, old(id_gen)@ as int);
            let stepped = spec_tick(old(p)@.plants[i as int]);
            assert(p.shape_farm.plants@ =~= op.update(i as int, p.shape_farm.plants@[i as int]));
            lemma_pviews_update(op, i as int, p.shape_farm.plants@[i as int]);
            assert(crate::model::pviews(p.shape_farm.plants@)
                =~= r_post.0 + old(p)@.plants.skip(i + 1));
            if produced {
                assert(crate::model::sviews(p.shape_buffer.0@) =~= old(p)@.buffer + r_post.1);
            }
        }
        i = i + 1;
    }
    proof {
        let r = v_tick_upto(old(p)@.plants, n as int, old(id_gen)@ as int);
        lemma_tick_upto_bounds(old(p)@.plants, n as int, old(id_gen)@ as int);
        assert(crate::model::pviews(p.shape_farm.plants@) =~= r.0);
    }
}

/// End of turn: every plant of the acting player ticks, produced shapes
/// are spawned into the acting player's buffer with fresh ids, and the
/// turn passes to the other player.
pub open spec fn v_end_turn(m: ModelV) -> ModelV {
    let r = v_run_production(cur_player(m), m.next_id as int);
    ModelV { next_id: r.1 as u64, a_turn: !m.a_turn, ..with_cur(m, r.0) }
}

impl Model {
    /// The real-time update hook: the model is turn-based, so nothing
    /// changes between turns.
    pub fn update(&mut self)
        ensures
            final(self)@ == old(self)@,
    {
    }

    /// `EndTurn`: run the acting player's production round and flip the
    /// turn.
    pub fn tick(&mut self)
        requires
            old(self)@.next_id + cur_player(old(self)@).plants.len() <= Id::MAX,
        ensures
            final(self)@ == v_end_turn(old(self)@),
    {
        if self.player_a_turn {
            run_production(&mut self.player_a, &mut self.id_gen);
        } else {
            run_production(&mut self.player_b, &mut self.id_gen);
        }
        self.player_a_turn = !self.player_a_turn;
    }

    /// A bare production round for player A, without passing the turn.
    pub fn next_turn(&mut self)
        requires
            old(self)@.next_id + old(self)@.a.plants.len() <= Id::MAX,
        ensures
            final(self)@ == (ModelV {
                a: v_run_production(old(self)@.a, old(self)@.next_id as int).0,
                next_id: v_run_production(old(self)@.a, old(self)@.next_id as int).1 as u64,
                ..old(self)@
            }),
    {
        run_production(&mut self.player_a, &mut self.id_gen);
    }
}

// ---------------------------------------------------------------------------
// Action dispatch.
// ---------------------------------------------------------------------------

/// What one action does to the model, whoever's turn it is.
pub open spec fn v_handle_action(m: ModelV, a: PlayerAction) -> ModelV {
    match a {
        PlayerAction::EndTurn => v_end_turn(m),
        PlayerAction::ActivateShape(id) => v_activate(m, id),
        PlayerAction::DeactivateShape(id) => v_deactivate(m, id),
        PlayerAction::AttachShape { triangle, target, pos } => v_attach(m, triangle, target, pos),
        PlayerAction::UpgradePlant { source_shape, target_plant } =>
            v_upgrade(m, source_shape, target_plant),
        PlayerAction::Attack { weapon, target } => v_attack(m, weapon, target),
    }
}

/// The machine limits of one action: fresh ids for a production round,
/// and a countdown that stays within `u64` for an attack on a plant.
pub open spec fn action_fits(m: ModelV, a: PlayerAction) -> bool {
    match a {
        PlayerAction::EndTurn => m.next_id + cur_player(m).plants.len() <= Id::MAX,
        PlayerAction::Attack { weapon, target } =>
            attack_fits(cur_player(m), other_player(m), weapon, target),
        _ => true,
    }
}

impl Model {
    /// Apply one action on behalf of the player whose turn it is.
    pub fn handle_action(&mut self, action: PlayerAction)
        requires
            action_fits(old(self)@, action),
        ensures
            final(self)@ == v_handle_action(old(self)@, action),
            crate::ids::wf_model(old(self)@) ==> crate::ids::wf_model(final(self)@),
    {
        proof {
            if crate::ids::wf_model(old(self)@) {
                crate::ids::lemma_wf_preserved(old(self)@, action);
            }
        }
        match action {
            PlayerAction::EndTurn => {
                self.tick();
            }
            PlayerAction::ActivateShape(shape_id) => {
                self.activate_shape(shape_id);
            }
            PlayerAction::DeactivateShape(shape_id) => {
                self.deactivate_shape(shape_id);
            }
            PlayerAction::AttachShape { triangle, target, pos } => {
                self.attach_shape(triangle, target, pos);
            }
            PlayerAction::UpgradePlant { source_shape, target_plant } => {
                self.upgrade_plant(source_shape, target_plant);
            }
            PlayerAction::Attack { weapon, target } => {
                self.attack(weapon, target);
            }
        }
    }
}

// ---------------------------------------------------------------------------
// The public entry point: one action per call, with the scripted turn.
// ---------------------------------------------------------------------------

/// Apply the first `k` actions of a list in order.
pub open spec fn v_apply_upto(m: ModelV, s: Seq<PlayerAction>, k: int) -> ModelV
    decreases k,
{
    if k <= 0 || k > s.len() {
        m
    } else {
        v_handle_action(v_apply_upto(m, s, k - 1), s[k - 1])
    }
}

/// Activations and attachments never touch the id counter, the turn
/// flag, or either player's plants.
pub proof fn lemma_apply_upto_preserves(m: ModelV, s: Seq<PlayerAction>, k: int)
    requires
        0 <= k <= s.len(),
        crate::enemy_ai::ai_kind_ok(s),
    ensures
        v_apply_upto(m, s, k).next_id == m.next_id,
        v_apply_upto(m, s, k).a_turn == m.a_turn,
        v_apply_upto(m, s, k).a.plants == m.a.plants,
        v_apply_upto(m, s, k).b.plants == m.b.plants,
    decreases k,
{
    if k > 0 {
        lemma_apply_upto_preserves(m, s, k - 1);
    }
}

/// What one submitted action does to the whole game.  On player A's turn
/// it is applied directly; on player B's turn only `EndTurn` is accepted,
/// and it runs the whole scripted turn followed by B's own `EndTurn`.
pub open spec fn v_handle_player_action(m: ModelV, a: PlayerAction) -> ModelV {
    if m.a_turn {
        v_handle_action(m, a)
    } else if a is EndTurn {
        let s = crate::enemy_ai::v_enemy_ai(m.b);
        v_end_turn(v_apply_upto(m, s, s.len() as int))
    } else {
        m
    }
}

/// The machine limits of one submitted action (fresh ids and countdown
/// headroom, as in [`action_fits`]).
pub open spec fn player_action_fits(m: ModelV, a: PlayerAction) -> bool {
    if m.a_turn {
        action_fits(m, a)
    } else {
        a is EndTurn ==> m.next_id + m.b.plants.len() <= Id::MAX
    }
}

impl Model {
    /// Submit one action.  On player A's turn it is applied on A's
    /// behalf; on player B's turn, `EndTurn` runs the scripted opponent
    /// and then ends B's turn, and anything else is ignored.
    pub fn handle_player_action(&mut self, action: PlayerAction)
        requires
            player_action_fits(old(self)@, action),
        ensures
            final(self)@ == v_handle_player_action(old(self)@, action),
            crate::ids::wf_model(old(self)@) ==> crate::ids::wf_model(final(self)@),
    {
        proof {
            if crate::ids::wf_model(old(self)@) {
                crate::ids::lemma_wf_player_action(old(self)@, action);
            }
        }
        if self.player_a_turn {
            self.handle_action(action);
        } else {
            match action {
                PlayerAction::EndTurn => {
                    let actions = crate::enemy_ai::enemy_ai(&*self);
                    let ghost m0 = self@;
                    let ghost s = actions@;
                    proof {
                        crate::enemy_ai::lemma_ai_actions_kind(m0.b);
                    }
                    let n = actions.len();
                    let mut i: usize = 0;
                    while i < n
                        invariant
                            i <= n,
                            n == s.len(),
                            actions@ == s,
                            crate::enemy_ai::ai_kind_ok(s),
                            self@ == v_apply_upto(m0, s, i as int),
                        decreases n - i,
                    {
                        proof {
                            lemma_apply_upto_preserves(m0, s, i as int);
                        }
                        let a = actions[i];
                        self.handle_action(a);
                        i = i + 1;
                    }
                    proof {
                        lemma_apply_upto_preserves(m0, s, n as int);
                    }
                    self.handle_action(PlayerAction::EndTurn);
                }
                _ => {}
            }
        }
    }
}

/// Turn-cycle law: an `EndTurn` submitted on player A's turn passes the
/// turn to player B, and one submitted on player B's turn (which runs the
/// whole scripted turn) passes it back to player A.
pub proof fn lemma_turn_cycle(m: ModelV)
    ensures
        m.a_turn ==> !v_handle_player_action(m, PlayerAction::EndTurn).a_turn,
        !m.a_turn ==> v_handle_player_action(m, PlayerAction::EndTurn).a_turn,
{
    if !m.a_turn {
        let s = crate::enemy_ai::v_enemy_ai(m.b);
        crate::enemy_ai::lemma_ai_actions_kind(m.b);
        lemma_apply_upto_preserves(m, s, s.len() as int);
    }
}

/// The full round trip: from player A's turn, A's `EndTurn` followed by
/// B's `EndTurn` returns the turn to player A.
pub proof fn lemma_turn_round_trip(m: ModelV)
    requires
        m.a_turn,
    ensures
        v_handle_player_action(
            v_handle_player_action(m, PlayerAction::EndTurn),
            PlayerAction::EndTurn,
        ).a_turn,
{
    lemma_turn_cycle(m);
    lemma_turn_cycle(v_handle_player_action(m, PlayerAction::EndTurn));
}

impl Model {
    /// `Attack`: the acting player's shape in play attacks an opposing
    /// shape in play or, failing that, an opposing plant.  Reports
    /// whether both sides resolved.
    pub fn attack(&mut self, weapon_id: Id, target_id: Id) -> (ok: bool)
        requires
            attack_fits(cur_player(old(self)@), other_player(old(self)@), weapon_id, target_id),
        ensures
            final(self)@ == v_attack(old(self)@, weapon_id, target_id),
            ok == attack_ok(cur_player(old(self)@), other_player(old(self)@), weapon_id, target_id),
    {
        if self.player_a_turn {
            attack_between(&mut self.player_a, &mut self.player_b, weapon_id, target_id)
        } else {
            attack_between(&mut self.player_b, &mut self.player_a, weapon_id, target_id)
        }
    }
}

} // verus!

