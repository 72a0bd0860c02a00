//! The scripted opponent: a deterministic heuristic that grows one base
//! toward a fixed six-cell outline.  Given a snapshot of the opponent's
//! buffer and shapes in play it emits a fixed action list; the caller
//! applies the list and then ends the opponent's turn.

use vstd::prelude::*;
use crate::model::{AliveShapeV, Id, Model, PlayerAction, PlayerV, TriPos};

verus! {

/// The canonical growth outline: the six cells of a hexagon-like blob
/// around the origin, indexed by how many cells the base already has.
pub open spec fn outline(k: int) -> TriPos {
    if k == 0 {
        TriPos { x: 0, y: 0 }
    } else if k == 1 {
        TriPos { x: 1, y: 0 }
    } else if k == 2 {
        TriPos { x: 1, y: 1 }
    } else if k == 3 {
        TriPos { x: 0, y: 1 }
    } else if k == 4 {
        TriPos { x: -1i64, y: 1 }
    } else {
        TriPos { x: -1i64, y: 0 }
    }
}

fn outline_at(k: usize) -> (r: TriPos)
    requires
        k < 6,
    ensures
        r == outline(k as int),
{
    if k == 0 {
        TriPos { x: 0, y: 0 }
    } else if k == 1 {
        TriPos { x: 1, y: 0 }
    } else if k == 2 {
        TriPos { x: 1, y: 1 }
    } else if k == 3 {
        TriPos { x: 0, y: 1 }
    } else if k == 4 {
        TriPos { x: -1, y: 1 }
    } else {
        TriPos { x: -1, y: 0 }
    }
}

/// Build material gathered from the first `k` buffer entries: the ids of
/// the single-cell shapes, in buffer order.
pub open spec fn ai_build_upto(buffer: Seq<AliveShapeV>, k: int) -> Seq<Id>
    decreases k,
{
    if k <= 0 || k > buffer.len() {
        Seq::empty()
    } else {
        let pre = ai_build_upto(buffer, k - 1);
        if buffer[k - 1].cells.len() == 1 {
            pre.push(buffer[k - 1].id)
        } else {
            pre
        }
    }
}

/// Activation orders gathered from the first `k` buffer entries: one for
/// every multi-cell shape, in buffer order (dead zero-cell shapes are
/// skipped).
pub open spec fn ai_activates_upto(buffer: Seq<AliveShapeV>, k: int) -> Seq<PlayerAction>
    decreases k,
{
    if k <= 0 || k > buffer.len() {
        Seq::empty()
    } else {
        let pre = ai_activates_upto(buffer, k - 1);
        if buffer[k - 1].cells.len() >= 2 {
            pre.push(PlayerAction::ActivateShape(buffer[k - 1].id))
        } else {
            pre
        }
    }
}

/// The partition of the whole buffer, plus the seed step: when nothing is
/// in play yet, one unit of build material (the last gathered) is
/// activated as a base.  Returns the actions so far and the remaining
/// build material.
pub open spec fn ai_after_seed(p: PlayerV) -> (Seq<PlayerAction>, Seq<Id>) {
    let build = ai_build_upto(p.buffer, p.buffer.len() as int);
    let acts = ai_activates_upto(p.buffer, p.buffer.len() as int);
    if p.active.len() == 0 && build.len() > 0 {
        (acts.push(PlayerAction::ActivateShape(build.last())), build.drop_last())
    } else {
        (acts, build)
    }
}

/// The growth phase over the first `k` shapes in play: each base with
/// fewer than six cells consumes one unit of build material (taken from
/// the end) and gets an attachment order at its outline slot; the phase
/// stops for good when material runs out at such a base.  Returns the
/// orders, the material left, and whether the phase stopped.
pub open spec fn ai_attach_upto(active: Seq<AliveShapeV>, k: int, build0: Seq<Id>)
    -> (Seq<PlayerAction>, Seq<Id>, bool)
    decreases k,
{
    if k <= 0 || k > active.len() {
        (Seq::empty(), build0, false)
    } else {
        let pre = ai_attach_upto(active, k - 1, build0);
        if pre.2 {
            pre
        } else {
            let base = active[k - 1];
            if base.cells.len() < 6 {
                if pre.1.len() == 0 {
                    (pre.0, pre.1, true)
                } else {
                    (
                        pre.0.push(PlayerAction::AttachShape {
                            triangle: pre.1.last(),
                            target: base.id,
                            pos: outline(base.cells.len() as int),
                        }),
                        pre.1.drop_last(),
                        false,
                    )
                }
            } else {
                pre
            }
        }
    }
}

/// The whole scripted turn for the given player snapshot (without the
/// closing `EndTurn`, which the caller issues itself).
pub open spec fn v_enemy_ai(p: PlayerV) -> Seq<PlayerAction> {
    let seeded = ai_after_seed(p);
    seeded.0 + ai_attach_upto(p.active, p.active.len() as int, seeded.1).0
}

/// Once the growth phase stops it stays stopped and emits nothing more.
proof fn lemma_ai_attach_stopped(active: Seq<AliveShapeV>, k: int, m: int, build0: Seq<Id>)
    requires
        0 <= k <= m <= active.len(),
        ai_attach_upto(active, k, build0).2,
    ensures
        ai_attach_upto(active, m, build0) == ai_attach_upto(active, k, build0),
    decreases m - k,
{
    if k < m {
        lemma_ai_attach_stopped(active, k + 1, m, build0);
    }
}

/// Every action the script emits moves or grows shapes: it never ends the
/// turn, never attacks, never upgrades.
pub open spec fn ai_kind_ok(s: Seq<PlayerAction>) -> bool {
    forall|i: int| 0 <= i < s.len()
        ==> ((#[trigger] s[i]) is ActivateShape || s[i] is AttachShape)
}

proof fn lemma_ai_activates_kind(buffer: Seq<AliveShapeV>, k: int)
    ensures
        ai_kind_ok(ai_activates_upto(buffer, k)),
    decreases k,
{
    if 0 < k <= buffer.len() {
        lemma_ai_activates_kind(buffer, k - 1);
    }
}

proof fn lemma_ai_attach_kind(active: Seq<AliveShapeV>, k: int, build0: Seq<Id>)
    ensures
        ai_kind_ok(ai_attach_upto(active, k, build0).0),
    decreases k,
{
    if 0 < k <= active.len() {
        lemma_ai_attach_kind(active, k - 1, build0);
    }
}

/// The scripted turn consists of activations and attachments only.
pub proof fn lemma_ai_actions_kind(p: PlayerV)
    ensures
        ai_kind_ok(v_enemy_ai(p)),
{
    lemma_ai_activates_kind(p.buffer, p.buffer.len() as int);
    let seeded = ai_after_seed(p);
    assert(ai_kind_ok(seeded.0));
    lemma_ai_attach_kind(p.active, p.active.len() as int, seeded.1);
}

/// Reproducibility law: the scripted turn is a function of the opponent's
/// buffer and shapes in play alone, so two identical snapshots yield the
/// same ordered action list.
pub proof fn lemma_ai_reproducible(p1: PlayerV, p2: PlayerV)
    requires
        p1.buffer == p2.buffer,
        p1.active == p2.active,
    ensures
        v_enemy_ai(p1) == v_enemy_ai(p2),
{
    assert(ai_after_seed(p1) == ai_after_seed(p2));
}

/// Compute the scripted turn for player B of the given model.
pub fn enemy_ai(model: &Model) -> (actions: Vec<PlayerAction>)
    ensures
        actions@ == v_enemy_ai(model@.b),
{
    let player = &model.player_b;
    let ghost pv = model@.b;

    let mut actions: Vec<PlayerAction> = Vec::new();
    let mut build: Vec<Id> = Vec::new();
    let n = player.shape_buffer.0.len();
    let mut i: usize = 0;
    while i < n
        invariant
            i <= n,
            n == pv.buffer.len(),
            player@ == pv,
            build@ == ai_build_upto(pv.buffer, i as int),
            actions@ == ai_activates_upto(pv.buffer, i as int),
        decreases n - i,
    {
        let len = player.shape_buffer.0[i].shape.0.len();
        if len == 1 {
            build.push(player.shape_buffer.0[i].id);
        } else if len >= 2 {
            actions.push(PlayerAction::ActivateShape(player.shape_buffer.0[i].id));
        }
        i = i + 1;
    }

    if player.active_shapes.0.len() == 0 {
        if let Some(id) = build.pop() {
            actions.push(PlayerAction::ActivateShape(id));
        }
    }
    let ghost seeded = ai_after_seed(pv);
    proof {
        assert(actions@ == seeded.0);
        assert(build@ == seeded.1);
    }

    let m = player.active_shapes.0.len();
    let mut j: usize = 0;
    while j < m
        invariant_except_break
            j <= m,
            m == pv.active.len(),
            player@ == pv,
            seeded == ai_after_seed(pv),
            !ai_attach_upto(pv.active, j as int, seeded.1).2,
            actions@ == seeded.0 + ai_attach_upto(pv.active, j as int, seeded.1).0,
            build@ == ai_attach_upto(pv.active, j as int, seeded.1).1,
        ensures
            actions@ == seeded.0 + ai_attach_upto(pv.active, m as int, seeded.1).0,
        decreases m - j,
    {
        let base_len = player.active_shapes.0[j].shape.0.len();
        if base_len < 6 {
            match build.pop() {
                Some(id) => {
                    let pos = outline_at(base_len);
                    actions.push(PlayerAction::AttachShape {
                        triangle: id,
                        target: player.active_shapes.0[j].id,
                        pos,
                    });
                }
                None => {
                    proof {
                        lemma_ai_attach_stopped(pv.active, j + 1, m as int, seeded.1);
                    }
                    break;
                }
            }
        }
        j = j + 1;
    }
    actions
}

} // verus!
