//! The intent layer: a finite-state machine over pointer and key events
//! that turns hit-tests against the displayed entities into discrete
//! [`PlayerAction`]s.  It reads the model, reads and updates the shared
//! display placements, and never touches game state itself.
//!
//! Events carry world positions in the grid units of [`Point`]; the
//! embedding maps raw screen coordinates to world coordinates with its
//! projection before handing events in.

use vstd::prelude::*;
use crate::model::{AliveShapeV, Id, Model, ModelV, PlantV, PlayerAction, PlayerV, Shape, TriPos};
use crate::storage::Storage;
use crate::triangular::{
    cell_in_range, in_tri, point_in_range, scale_in_range, shape_contains,
    shape_contains_scaled, spec_boundary, vert_x, vert_y, inside_triangle,
    lemma_boundary_set, Point, Scale, VERT_MAX,
};

verus! {

/// Largest display coordinate the intent layer accepts: small enough
/// that a difference of two positions stays within the containment
/// tests' range.
pub const POS_MAX: i64 = 0x1_0000_0000_0000;

// ---------------------------------------------------------------------------
// Events.
// ---------------------------------------------------------------------------

/// The keys the intent layer distinguishes.
#[derive(Debug, Clone, Copy, PartialEq, Eq, Structural)]
pub enum Key {
    Enter,
    Other,
}

/// Pointer buttons.
#[derive(Debug, Clone, Copy, PartialEq, Eq, Structural)]
pub enum MouseButton {
    Left,
    Middle,
    Right,
}

/// A discrete input event, with world positions in grid units.
#[derive(Debug, Clone, Copy, PartialEq, Eq, Structural)]
pub enum Event {
    KeyDown { key: Key },
    MouseDown { position: Point, button: MouseButton },
    MouseUp { position: Point, button: MouseButton },
    MouseMove { position: Point },
}

// ---------------------------------------------------------------------------
// Screen regions.
// ---------------------------------------------------------------------------

/// An axis-aligned region of the world, in grid units; bounds inclusive.
#[derive(Debug, Clone, Copy, PartialEq, Eq, Structural)]
pub struct Area {
    pub x_min: i64,
    pub y_min: i64,
    pub x_max: i64,
    pub y_max: i64,
}

/// Whether the area holds the point (bounds inclusive).
pub open spec fn area_contains(a: Area, p: Point) -> bool {
    a.x_min <= p.x <= a.x_max && a.y_min <= p.y <= a.y_max
}

/// The point moved to the nearest point of the area.
pub open spec fn area_clamp(a: Area, p: Point) -> Point {
    Point {
        x: if p.x < a.x_min { a.x_min } else if p.x > a.x_max { a.x_max } else { p.x },
        y: if p.y < a.y_min { a.y_min } else if p.y > a.y_max { a.y_max } else { p.y },
    }
}

/// The smallest area holding both.
pub open spec fn area_join(a: Area, b: Area) -> Area {
    Area {
        x_min: if a.x_min <= b.x_min { a.x_min } else { b.x_min },
        y_min: if a.y_min <= b.y_min { a.y_min } else { b.y_min },
        x_max: if a.x_max >= b.x_max { a.x_max } else { b.x_max },
        y_max: if a.y_max >= b.y_max { a.y_max } else { b.y_max },
    }
}

impl Area {
    pub fn new(min: (i64, i64), max: (i64, i64)) -> (r: Self)
        ensures
            r == (Area { x_min: min.0, y_min: min.1, x_max: max.0, y_max: max.1 }),
    {
        Area { x_min: min.0, y_min: min.1, x_max: max.0, y_max: max.1 }
    }

    /// Whether the area holds the point.
    pub fn contains(&self, p: Point) -> (r: bool)
        ensures
            r == area_contains(*self, p),
    {
        self.x_min <= p.x && p.x <= self.x_max && self.y_min <= p.y && p.y <= self.y_max
    }

    /// Move the point to the nearest point of the area.
    pub fn clamp_point(&self, p: Point) -> (r: Point)
        requires
            self.x_min <= self.x_max,
            self.y_min <= self.y_max,
        ensures
            r == area_clamp(*self, p),
    {
        let x = if p.x < self.x_min {
            self.x_min
        } else if p.x > self.x_max {
            self.x_max
        } else {
            p.x
        };
        let y = if p.y < self.y_min {
            self.y_min
        } else if p.y > self.y_max {
            self.y_max
        } else {
            p.y
        };
        Point { x, y }
    }

    /// The smallest area holding both.
    pub fn join(&self, other: &Self) -> (r: Self)
        ensures
            r == area_join(*self, *other),
    {
        Area {
            x_min: if self.x_min <= other.x_min { self.x_min } else { other.x_min },
            y_min: if self.y_min <= other.y_min { self.y_min } else { other.y_min },
            x_max: if self.x_max >= other.x_max { self.x_max } else { other.x_max },
            y_max: if self.y_max >= other.y_max { self.y_max } else { other.y_max },
        }
    }
}

/// The display regions of the six zones: each player's shape buffer,
/// active-shape zone and farm.
#[derive(Debug, Clone, Copy, PartialEq, Eq, Structural)]
pub struct Layout {
    pub shape_buffer_a: Area,
    pub active_shapes_a: Area,
    pub shape_farm_a: Area,
    pub shape_buffer_b: Area,
    pub active_shapes_b: Area,
    pub shape_farm_b: Area,
}

// ---------------------------------------------------------------------------
// The shared display state.
// ---------------------------------------------------------------------------

/// Ghost image of [`Render`].
pub struct RenderV {
    pub layout: Layout,
    pub positions: Map<Id, Point>,
    pub scales: Map<Id, Scale>,
}

/// The display state the renderer shares with the intent layer: the zone
/// layout and, per displayed entity, its world position and scale.
pub struct Render {
    pub layout: Layout,
    pub positions: Storage<Point>,
    pub scales: Storage<Scale>,
}

impl View for Render {
    type V = RenderV;

    open spec fn view(&self) -> RenderV {
        RenderV { layout: self.layout, positions: self.positions@, scales: self.scales@ }
    }
}

impl Render {
    /// Both stores are well formed.
    pub open spec fn wf(&self) -> bool {
        self.positions.wf() && self.scales.wf()
    }

    pub fn new(layout: Layout) -> (r: Self)
        ensures
            r@.layout == layout,
            r@.positions == Map::<Id, Point>::empty(),
            r@.scales == Map::<Id, Scale>::empty(),
            r.wf(),
    {
        Render { layout, positions: Storage::new(), scales: Storage::new() }
    }
}

// ---------------------------------------------------------------------------
// Bounds that keep the integer hit tests exact.
// ---------------------------------------------------------------------------

/// A display position the intent layer accepts.
pub open spec fn point_ok(p: Point) -> bool {
    -POS_MAX <= p.x <= POS_MAX && -POS_MAX <= p.y <= POS_MAX
}

/// A cell whose triangle, and its neighbours' triangles, the vertex
/// formulas accept.
pub open spec fn cell_ok(c: TriPos) -> bool {
    -(VERT_MAX - 1) <= c.x <= VERT_MAX - 1 && -(VERT_MAX - 1) <= c.y <= VERT_MAX - 1
}

pub open spec fn cells_ok(cells: Seq<TriPos>) -> bool {
    forall|i: int| 0 <= i < cells.len() ==> cell_ok(#[trigger] cells[i])
}

pub open spec fn shapes_ok(s: Seq<AliveShapeV>) -> bool {
    forall|i: int| 0 <= i < s.len() ==> cells_ok((#[trigger] s[i]).cells)
}

pub open spec fn plants_ok(s: Seq<PlantV>) -> bool {
    forall|i: int| 0 <= i < s.len() ==> cells_ok((#[trigger] s[i]).cells)
}

pub open spec fn player_ok(p: PlayerV) -> bool {
    shapes_ok(p.buffer) && shapes_ok(p.active) && plants_ok(p.plants)
}

pub open spec fn model_ok(m: ModelV) -> bool {
    player_ok(m.a) && player_ok(m.b)
}

pub open spec fn area_ok(a: Area) -> bool {
    &&& a.x_min <= a.x_max
    &&& a.y_min <= a.y_max
    &&& -POS_MAX <= a.x_min && a.x_max <= POS_MAX
    &&& -POS_MAX <= a.y_min && a.y_max <= POS_MAX
}

pub open spec fn layout_ok(l: Layout) -> bool {
    &&& area_ok(l.shape_buffer_a)
    &&& area_ok(l.active_shapes_a)
    &&& area_ok(l.shape_farm_a)
    &&& area_ok(l.shape_buffer_b)
    &&& area_ok(l.active_shapes_b)
    &&& area_ok(l.shape_farm_b)
}

/// Every stored position is within bounds.
pub open spec fn positions_ok(m: Map<Id, Point>) -> bool {
    forall|id: Id| m.contains_key(id) ==> point_ok(#[trigger] m[id])
}

/// Every stored scale is well formed.
pub open spec fn scales_ok(m: Map<Id, Scale>) -> bool {
    forall|id: Id| m.contains_key(id) ==> scale_in_range(#[trigger] m[id])
}

pub open spec fn render_ok(rv: RenderV) -> bool {
    &&& layout_ok(rv.layout)
    &&& positions_ok(rv.positions)
    &&& scales_ok(rv.scales)
}

pub open spec fn event_ok(e: Event) -> bool {
    match e {
        Event::KeyDown { .. } => true,
        Event::MouseDown { position, .. } => point_ok(position),
        Event::MouseUp { position, .. } => point_ok(position),
        Event::MouseMove { position } => point_ok(position),
    }
}

/// The difference of two display points.
fn point_sub(a: Point, b: Point) -> (r: Point)
    requires
        point_ok(a),
        point_ok(b),
    ensures
        r.x == a.x - b.x,
        r.y == a.y - b.y,
        point_in_range(r),
    {
    Point { x: a.x - b.x, y: a.y - b.y }
}

// ---------------------------------------------------------------------------
// The intent state machine.
// ---------------------------------------------------------------------------

/// The three states of the intent layer.
#[derive(Debug, Clone, Copy, PartialEq, Eq, Structural)]
pub enum State {
    Idle,
    DraggingShape { shape_id: Id, start_pos: Point },
    SelectingAttackTarget { weapon_id: Id },
}

/// The intent layer: holds the current state between events.
pub struct Controller {
    state: State,
}

// ---------------------------------------------------------------------------
// Hit scans (first match wins, in collection order).
// ---------------------------------------------------------------------------

/// The first shape at or after index `i` whose displayed triangles hold
/// the pointer.
pub open spec fn hit_shape_from(
    shapes: Seq<AliveShapeV>, positions: Map<Id, Point>, mouse: Point, i: int,
) -> Option<Id>
    decreases shapes.len() - i,
{
    if i < 0 || i >= shapes.len() {
        None
    } else {
        let s = shapes[i];
        if positions.contains_key(s.id)
            && shape_contains(s.cells, mouse.x - positions[s.id].x, mouse.y - positions[s.id].y) {
            Some(s.id)
        } else {
            hit_shape_from(shapes, positions, mouse, i + 1)
        }
    }
}

/// The first plant at or after index `i` with a displayed position and
/// scale whose scaled triangles hold the pointer.
pub open spec fn hit_plant_from(
    plants: Seq<PlantV>, positions: Map<Id, Point>, scales: Map<Id, Scale>, mouse: Point, i: int,
) -> Option<Id>
    decreases plants.len() - i,
{
    if i < 0 || i >= plants.len() {
        None
    } else {
        let p = plants[i];
        if positions.contains_key(p.id) && scales.contains_key(p.id)
            && shape_contains_scaled(
                p.cells,
                mouse.x - positions[p.id].x,
                mouse.y - positions[p.id].y,
                scales[p.id].num as int,
                scales[p.id].den as int,
            ) {
            Some(p.id)
        } else {
            hit_plant_from(plants, positions, scales, mouse, i + 1)
        }
    }
}

/// Scan a player's shapes for a pointer hit.
fn scan_shapes(shapes: &Vec<crate::model::AliveShape>, positions: &Storage<Point>, mouse: Point)
    -> (r: Option<Id>)
    requires
        shapes_ok(crate::model::sviews(shapes@)),
        positions.wf(),
        positions_ok(positions@),
        point_ok(mouse),
    ensures
        r == hit_shape_from(crate::model::sviews(shapes@), positions@, mouse, 0),
{
    let ghost s = crate::model::sviews(shapes@);
    let n = shapes.len();
    let mut i: usize = 0;
    while i < n
        invariant
            i <= n,
            n == s.len(),
            s == crate::model::sviews(shapes@),
            shapes_ok(s),
            positions.wf(),
            positions_ok(positions@),
            point_ok(mouse),
            hit_shape_from(s, positions@, mouse, 0) == hit_shape_from(s, positions@, mouse, i as int),
        decreases n - i,
    {
        match positions.get(shapes[i].id) {
            Some(p) => {
                let rel = point_sub(mouse, *p);
                if shapes[i].shape.contains(rel) {
                    return Some(shapes[i].id);
                }
            }
            None => {}
        }
        i = i + 1;
    }
    None
}

/// Scan a player's plants for a scaled pointer hit.
fn scan_plants(
    plants: &Vec<crate::model::Plant>,
    positions: &Storage<Point>,
    scales: &Storage<Scale>,
    mouse: Point,
) -> (r: Option<Id>)
    requires
        plants_ok(crate::model::pviews(plants@)),
        positions.wf(),
        scales.wf(),
        positions_ok(positions@),
        scales_ok(scales@),
        point_ok(mouse),
    ensures
        r == hit_plant_from(crate::model::pviews(plants@), positions@, scales@, mouse, 0),
{
    let ghost s = crate::model::pviews(plants@);
    let n = plants.len();
    let mut i: usize = 0;
    while i < n
        invariant
            i <= n,
            n == s.len(),
            s == crate::model::pviews(plants@),
            plants_ok(s),
            positions.wf(),
            scales.wf(),
            positions_ok(positions@),
            scales_ok(scales@),
            point_ok(mouse),
            hit_plant_from(s, positions@, scales@, mouse, 0)
                == hit_plant_from(s, positions@, scales@, mouse, i as int),
        decreases n - i,
    {
        match positions.get(plants[i].id) {
            Some(p) => {
                match scales.get(plants[i].id) {
                    Some(sc) => {
                        let rel = point_sub(mouse, *p);
                        if plants[i].shape.contains_scaled(rel, *sc) {
                            return Some(plants[i].id);
                        }
                    }
                    None => {}
                }
            }
            None => {}
        }
        i = i + 1;
    }
    None
}

// ---------------------------------------------------------------------------
// The idle state.
// ---------------------------------------------------------------------------

/// What an event does in the idle state: confirm ends the turn, and a
/// left press on one of player A's displayed buffer or active shapes
/// starts a drag.
pub open spec fn v_handle_idle(m: ModelV, rv: RenderV, e: Event) -> (State, Seq<PlayerAction>) {
    match e {
        Event::KeyDown { key } => {
            if key is Enter {
                (State::Idle, seq![PlayerAction::EndTurn])
            } else {
                (State::Idle, Seq::empty())
            }
        }
        Event::MouseDown { position, button } => {
            if button is Left {
                let hit = match hit_shape_from(m.a.buffer, rv.positions, position, 0) {
                    Some(id) => Some(id),
                    None => hit_shape_from(m.a.active, rv.positions, position, 0),
                };
                match hit {
                    Some(id) => (
                        State::DraggingShape { shape_id: id, start_pos: position },
                        Seq::empty(),
                    ),
                    None => (State::Idle, Seq::empty()),
                }
            } else {
                (State::Idle, Seq::empty())
            }
        }
        _ => (State::Idle, Seq::empty()),
    }
}

/// Handle an event in the idle state.
pub fn handle_idle(model: &Model, render: &Render, event: Event) -> (r: (State, Vec<PlayerAction>))
    requires
        model_ok(model@),
        render_ok(render@),
        render.wf(),
        event_ok(event),
    ensures
        (r.0, r.1@) == v_handle_idle(model@, render@, event),
{
    match event {
        Event::KeyDown { key } => {
            match key {
                Key::Enter => {
                    let mut acts: Vec<PlayerAction> = Vec::new();
                    acts.push(PlayerAction::EndTurn);
                    proof {
                        assert(acts@ =~= seq![PlayerAction::EndTurn]);
                    }
                    (State::Idle, acts)
                }
                _ => (State::Idle, Vec::new()),
            }
        }
        Event::MouseDown { position, button: MouseButton::Left } => {
            let hit = match scan_shapes(&model.player_a.shape_buffer.0, &render.positions, position) {
                Some(id) => Some(id),
                None => scan_shapes(&model.player_a.active_shapes.0, &render.positions, position),
            };
            match hit {
                Some(id) => (
                    State::DraggingShape { shape_id: id, start_pos: position },
                    Vec::new(),
                ),
                None => (State::Idle, Vec::new()),
            }
        }
        _ => (State::Idle, Vec::new()),
    }
}

// ---------------------------------------------------------------------------
// Selecting an attack target.
// ---------------------------------------------------------------------------

/// What an event does while selecting an attack target: a left press on
/// an opposing displayed shape in play, or failing that an opposing
/// plant, orders the attack; anything else is ignored.
pub open spec fn v_handle_select(weapon_id: Id, m: ModelV, rv: RenderV, e: Event)
    -> (State, Seq<PlayerAction>)
{
    match e {
        Event::MouseDown { position, button } => {
            if button is Left {
                let hit = match hit_shape_from(m.b.active, rv.positions, position, 0) {
                    Some(id) => Some(id),
                    None => hit_plant_from(m.b.plants, rv.positions, rv.scales, position, 0),
                };
                match hit {
                    Some(id) => (
                        State::Idle,
                        seq![PlayerAction::Attack { weapon: weapon_id, target: id }],
                    ),
                    None => (State::Idle, Seq::empty()),
                }
            } else {
                (State::SelectingAttackTarget { weapon_id }, Seq::empty())
            }
        }
        _ => (State::SelectingAttackTarget { weapon_id }, Seq::empty()),
    }
}

/// Handle an event while selecting an attack target.
pub fn handle_select_attack_target(weapon_id: Id, model: &Model, render: &Render, event: Event)
    -> (r: (State, Vec<PlayerAction>))
    requires
        model_ok(model@),
        render_ok(render@),
        render.wf(),
        event_ok(event),
    ensures
        (r.0, r.1@) == v_handle_select(weapon_id, model@, render@, event),
{
    match event {
        Event::MouseDown { position, button: MouseButton::Left } => {
            let hit = match scan_shapes(&model.player_b.active_shapes.0, &render.positions, position) {
                Some(id) => Some(id),
                None => scan_plants(
                    &model.player_b.shape_farm.plants,
                    &render.positions,
                    &render.scales,
                    position,
                ),
            };
            match hit {
                Some(id) => {
                    let mut acts: Vec<PlayerAction> = Vec::new();
                    acts.push(PlayerAction::Attack { weapon: weapon_id, target: id });
                    proof {
                        assert(acts@ =~= seq![PlayerAction::Attack { weapon: weapon_id, target: id }]);
                    }
                    (State::Idle, acts)
                }
                None => (State::Idle, Vec::new()),
            }
        }
        _ => (State::SelectingAttackTarget { weapon_id }, Vec::new()),
    }
}

// ---------------------------------------------------------------------------
// Dragging a shape.
// ---------------------------------------------------------------------------

/// Whether the pointer lies in boundary cell `q`'s triangle displayed at
/// offset `shape_pos`.
pub open spec fn tri_hit(center: Point, q: TriPos, shape_pos: Point) -> bool {
    in_tri(
        center.x as int, center.y as int,
        vert_x(q, 0) + shape_pos.x, vert_y(q, 0) + shape_pos.y,
        vert_x(q, 1) + shape_pos.x, vert_y(q, 1) + shape_pos.y,
        vert_x(q, 2) + shape_pos.x, vert_y(q, 2) + shape_pos.y,
    )
}

/// The first boundary position at or after index `i` whose displayed
/// triangle holds the pointer.
pub open spec fn try_attach_from(bnd: Seq<TriPos>, center: Point, shape_pos: Point, i: int)
    -> Option<TriPos>
    decreases bnd.len() - i,
{
    if i < 0 || i >= bnd.len() {
        None
    } else if tri_hit(center, bnd[i], shape_pos) {
        Some(bnd[i])
    } else {
        try_attach_from(bnd, center, shape_pos, i + 1)
    }
}

/// The first legal attachment position of the shape (displayed at
/// `shape_pos`) whose triangle holds the pointer.
pub open spec fn v_try_attach(center: Point, cells: Seq<TriPos>, shape_pos: Point)
    -> Option<TriPos>
{
    try_attach_from(spec_boundary(cells), center, shape_pos, 0)
}

/// Find the boundary cell of the displayed shape under the pointer, if
/// any: the legal attachment position a drag over this shape snaps to.
pub fn try_attach(center: Point, shape: &Shape, shape_pos: Point) -> (r: Option<TriPos>)
    requires
        cells_ok(shape@),
        point_ok(center),
        point_ok(shape_pos),
    ensures
        r == v_try_attach(center, shape@, shape_pos),
{
    let bnd = shape.boundary();
    let ghost bs = spec_boundary(shape@);
    proof {
        assert forall|k: int| 0 <= k < bs.len() implies cell_in_range(#[trigger] bs[k]) by {
            lemma_boundary_set(shape@, bs[k]);
            assert(bs.contains(bs[k]));
        }
    }
    let n = bnd.len();
    let mut i: usize = 0;
    while i < n
        invariant
            i <= n,
            n == bs.len(),
            bnd@ == bs,
            bs == spec_boundary(shape@),
            point_ok(center),
            point_ok(shape_pos),
            forall|k: int| 0 <= k < bs.len() ==> cell_in_range(#[trigger] bs[k]),
            try_attach_from(bs, center, shape_pos, 0) == try_attach_from(bs, center, shape_pos, i as int),
        decreases n - i,
    {
        let q = bnd[i];
        let v = q.to_vertices();
        let tv = [
            Point { x: v[0].x + shape_pos.x, y: v[0].y + shape_pos.y },
            Point { x: v[1].x + shape_pos.x, y: v[1].y + shape_pos.y },
            Point { x: v[2].x + shape_pos.x, y: v[2].y + shape_pos.y },
        ];
        if inside_triangle(center, tv) {
            proof {
                assert(tv@[0].x == vert_x(q, 0) + shape_pos.x);
                assert(tv@[0].y == vert_y(q, 0) + shape_pos.y);
                assert(tv@[1].x == vert_x(q, 1) + shape_pos.x);
                assert(tv@[1].y == vert_y(q, 1) + shape_pos.y);
                assert(tv@[2].x == vert_x(q, 2) + shape_pos.x);
                assert(tv@[2].y == vert_y(q, 2) + shape_pos.y);
                assert(tri_hit(center, q, shape_pos));
                assert(try_attach_from(bs, center, shape_pos, i as int) == Some(q));
            }
            return Some(q);
        }
        i = i + 1;
    }
    None
}

/// The first of the player's other displayed shapes in play offering a
/// legal attachment position under the pointer.
pub open spec fn attach_scan_from(
    shapes: Seq<AliveShapeV>, dragged: Id, positions: Map<Id, Point>, center: Point, i: int,
) -> Option<(Id, TriPos)>
    decreases shapes.len() - i,
{
    if i < 0 || i >= shapes.len() {
        None
    } else {
        let s = shapes[i];
        if s.id != dragged && positions.contains_key(s.id) {
            match v_try_attach(center, s.cells, positions[s.id]) {
                Some(q) => Some((s.id, q)),
                None => attach_scan_from(shapes, dragged, positions, center, i + 1),
            }
        } else {
            attach_scan_from(shapes, dragged, positions, center, i + 1)
        }
    }
}

/// Scan the player's shapes in play for an attachment hit.
fn scan_attach(
    shapes: &Vec<crate::model::AliveShape>,
    dragged: Id,
    positions: &Storage<Point>,
    center: Point,
) -> (r: Option<(Id, TriPos)>)
    requires
        shapes_ok(crate::model::sviews(shapes@)),
        positions.wf(),
        positions_ok(positions@),
        point_ok(center),
    ensures
        r == attach_scan_from(crate::model::sviews(shapes@), dragged, positions@, center, 0),
{
    let ghost s = crate::model::sviews(shapes@);
    let n = shapes.len();
    let mut i: usize = 0;
    while i < n
        invariant
            i <= n,
            n == s.len(),
            s == crate::model::sviews(shapes@),
            shapes_ok(s),
            positions.wf(),
            positions_ok(positions@),
            point_ok(center),
            attach_scan_from(s, dragged, positions@, center, 0)
                == attach_scan_from(s, dragged, positions@, center, i as int),
        decreases n - i,
    {
        if shapes[i].id != dragged {
            match positions.get(shapes[i].id) {
                Some(p) => {
                    match try_attach(center, &shapes[i].shape, *p) {
                        Some(q) => {
                            return Some((shapes[i].id, q));
                        }
                        None => {}
                    }
                }
                None => {}
            }
        }
        i = i + 1;
    }
    None
}

/// What an event does while dragging a shape.  Releasing in place turns
/// the drag into an attack selection; releasing elsewhere drops it.
/// Moving the pointer clamps the shape into the union of player A's
/// three zones, emits the zone's action (deactivate, activate, or — over
/// a displayed plant whose scaled shape holds the raw pointer — an
/// upgrade), unless another displayed shape in play offers an attachment
/// under the pointer, in which case the attachment is ordered instead
/// and the displayed position stays.  A dragged entity with no displayed
/// position (already consumed) falls back to idle.
pub open spec fn v_handle_drag(shape_id: Id, start_pos: Point, m: ModelV, rv: RenderV, e: Event)
    -> (State, Seq<PlayerAction>, Map<Id, Point>)
{
    match e {
        Event::MouseUp { position, button } => {
            if button is Left {
                if position == start_pos {
                    (State::SelectingAttackTarget { weapon_id: shape_id }, Seq::empty(), rv.positions)
                } else {
                    (State::Idle, Seq::empty(), rv.positions)
                }
            } else {
                (
                    State::DraggingShape { shape_id, start_pos },
                    Seq::empty(),
                    rv.positions,
                )
            }
        }
        Event::MouseMove { position } => {
            let bounds = area_join(
                area_join(rv.layout.shape_buffer_a, rv.layout.active_shapes_a),
                rv.layout.shape_farm_a,
            );
            let pos = area_clamp(bounds, position);
            let zone_actions: Seq<PlayerAction> = if area_contains(rv.layout.shape_buffer_a, pos) {
                seq![PlayerAction::DeactivateShape(shape_id)]
            } else if area_contains(rv.layout.active_shapes_a, pos) {
                seq![PlayerAction::ActivateShape(shape_id)]
            } else if area_contains(rv.layout.shape_farm_a, pos) {
                match hit_plant_from(m.a.plants, rv.positions, rv.scales, position, 0) {
                    Some(pid) => seq![
                        PlayerAction::UpgradePlant { source_shape: shape_id, target_plant: pid },
                    ],
                    None => Seq::empty(),
                }
            } else {
                Seq::empty()
            };
            match attach_scan_from(m.a.active, shape_id, rv.positions, pos, 0) {
                Some(hit) => (
                    State::DraggingShape { shape_id, start_pos },
                    seq![
                        PlayerAction::AttachShape {
                            triangle: shape_id,
                            target: hit.0,
                            pos: hit.1,
                        },
                    ],
                    rv.positions,
                ),
                None => {
                    if rv.positions.contains_key(shape_id) {
                        (
                            State::DraggingShape { shape_id, start_pos },
                            zone_actions,
                            rv.positions.insert(shape_id, pos),
                        )
                    } else {
                        (State::Idle, Seq::empty(), rv.positions)
                    }
                }
            }
        }
        _ => (State::DraggingShape { shape_id, start_pos }, Seq::empty(), rv.positions),
    }
}

/// Handle an event while dragging a shape.
pub fn handle_drag_shape(
    shape_id: Id,
    start_pos: Point,
    model: &Model,
    render: &mut Render,
    event: Event,
) -> (r: (State, Vec<PlayerAction>))
    requires
        model_ok(model@),
        render_ok(old(render)@),
        old(render).wf(),
        event_ok(event),
    ensures
        ({
            let t = v_handle_drag(shape_id, start_pos, model@, old(render)@, event);
            r.0 == t.0 && r.1@ == t.1 && final(render)@.positions == t.2
        }),
        final(render)@.layout == old(render)@.layout,
        final(render)@.scales == old(render)@.scales,
        final(render).wf(),
        render_ok(final(render)@),
{
    match event {
        Event::MouseUp { position, button: MouseButton::Left } => {
            if position == start_pos {
                (State::SelectingAttackTarget { weapon_id: shape_id }, Vec::new())
            } else {
                (State::Idle, Vec::new())
            }
        }
        Event::MouseMove { position } => {
            let bounds = render.layout.shape_buffer_a
                .join(&render.layout.active_shapes_a)
                .join(&render.layout.shape_farm_a);
            let pos = bounds.clamp_point(position);
            proof {
                assert(point_ok(pos));
            }
            let mut zone_actions: Vec<PlayerAction> = Vec::new();
            if render.layout.shape_buffer_a.contains(pos) {
                zone_actions.push(PlayerAction::DeactivateShape(shape_id));
            } else if render.layout.active_shapes_a.contains(pos) {
                zone_actions.push(PlayerAction::ActivateShape(shape_id));
            } else if render.layout.shape_farm_a.contains(pos) {
                match scan_plants(
                    &model.player_a.shape_farm.plants,
                    &render.positions,
                    &render.scales,
                    position,
                ) {
                    Some(pid) => {
                        zone_actions.push(PlayerAction::UpgradePlant {
                            source_shape: shape_id,
                            target_plant: pid,
                        });
                    }
                    None => {}
                }
            }
            match scan_attach(&model.player_a.active_shapes.0, shape_id, &render.positions, pos) {
                Some(hit) => {
                    let mut acts: Vec<PlayerAction> = Vec::new();
                    acts.push(PlayerAction::AttachShape {
                        triangle: shape_id,
                        target: hit.0,
                        pos: hit.1,
                    });
                    proof {
                        assert(acts@ =~= seq![
                            PlayerAction::AttachShape { triangle: shape_id, target: hit.0, pos: hit.1 },
                        ]);
                    }
                    (State::DraggingShape { shape_id, start_pos }, acts)
                }
                None => {
                    let known = match render.positions.get(shape_id) {
                        Some(_) => true,
                        None => false,
                    };
                    if known {
                        render.positions.set(shape_id, pos);
                        (State::DraggingShape { shape_id, start_pos }, zone_actions)
                    } else {
                        (State::Idle, Vec::new())
                    }
                }
            }
        }
        _ => (State::DraggingShape { shape_id, start_pos }, Vec::new()),
    }
}

// ---------------------------------------------------------------------------
// Dispatch.
// ---------------------------------------------------------------------------

/// One step of the intent machine: the new state, the emitted actions,
/// and the displayed positions afterwards.
pub open spec fn v_state_step(st: State, m: ModelV, rv: RenderV, e: Event)
    -> (State, Seq<PlayerAction>, Map<Id, Point>)
{
    match st {
        State::Idle => {
            let t = v_handle_idle(m, rv, e);
            (t.0, t.1, rv.positions)
        }
        State::DraggingShape { shape_id, start_pos } => v_handle_drag(shape_id, start_pos, m, rv, e),
        State::SelectingAttackTarget { weapon_id } => {
            let t = v_handle_select(weapon_id, m, rv, e);
            (t.0, t.1, rv.positions)
        }
    }
}

impl State {
    /// Handle one event in this state, reading the model and updating the
    /// displayed positions.
    pub fn handle_event(self, model: &Model, render: &mut Render, event: Event)
        -> (r: (State, Vec<PlayerAction>))
        requires
            model_ok(model@),
            render_ok(old(render)@),
            old(render).wf(),
            event_ok(event),
        ensures
            ({
                let t = v_state_step(self, model@, old(render)@, event);
                r.0 == t.0 && r.1@ == t.1 && final(render)@.positions == t.2
            }),
            final(render)@.layout == old(render)@.layout,
            final(render)@.scales == old(render)@.scales,
            final(render).wf(),
            render_ok(final(render)@),
    {
        match self {
            State::Idle => handle_idle(model, &*render, event),
            State::DraggingShape { shape_id, start_pos } => {
                handle_drag_shape(shape_id, start_pos, model, render, event)
            }
            State::SelectingAttackTarget { weapon_id } => {
                handle_select_attack_target(weapon_id, model, &*render, event)
            }
        }
    }
}

impl View for Controller {
    type V = State;

    closed spec fn view(&self) -> State {
        self.state
    }
}

impl Controller {
    pub fn new() -> (r: Self)
        ensures
            r@ is Idle,
    {
        Controller { state: State::Idle }
    }

    /// Feed one event through the intent machine, advancing its state
    /// and collecting the emitted actions.
    pub fn handle_event(&mut self, model: &Model, render: &mut Render, event: Event)
        -> (r: Vec<PlayerAction>)
        requires
            model_ok(model@),
            render_ok(old(render)@),
            old(render).wf(),
            event_ok(event),
        ensures
            ({
                let t = v_state_step(old(self)@, model@, old(render)@, event);
                final(self)@ == t.0 && r@ == t.1 && final(render)@.positions == t.2
            }),
            final(render)@.layout == old(render)@.layout,
            final(render)@.scales == old(render)@.scales,
            final(render).wf(),
            render_ok(final(render)@),
    {
        let st = self.state;
        let stepped = st.handle_event(model, render, event);
        self.state = stepped.0;
        stepped.1
    }
}

} // verus!
