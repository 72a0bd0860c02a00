//! Entity model: identifiers, grid cells, shapes, plants, players, and the
//! whole game state, together with the ghost views that the contracts of the
//! action resolver speak about.

use vstd::prelude::*;

verus! {

/// Opaque entity identifier, issued by a single monotonically increasing
/// generator owned by the game state; never reused within one game.
pub type Id = u64;

/// A count of turns (plant cooldowns and countdowns).
pub type Turns = u64;

/// Issues fresh identifiers: each call of `next` returns the current counter
/// and increments it, so no identifier is ever handed out twice.
#[derive(Debug)]
pub struct IdGenerator(Id);

impl View for IdGenerator {
    type V = Id;

    closed spec fn view(&self) -> Id {
        self.0
    }
}

impl IdGenerator {
    pub fn new() -> (r: Self)
        ensures
            r@ == 0,
    {
        Self(0)
    }

    pub fn next(&mut self) -> (id: Id)
        requires
            old(self)@ < Id::MAX,
        ensures
            id == old(self)@,
            final(self)@ == old(self)@ + 1,
    {
        let id = self.0;
        self.0 = self.0 + 1;
        id
    }
}

/// A position in a triangular grid.  The parity of `x + y` decides the
/// cell's orientation: odd means the triangle points down.
#[derive(Debug, Clone, Copy, PartialEq, Eq, Structural)]
pub struct TriPos {
    pub x: i64,
    pub y: i64,
}

/// A shape is formed from cells in a triangular grid.  The order is the
/// order of attachment: combat and upgrades consume cells from the tail,
/// so the most recently attached cells are lost first.  A shape with zero
/// cells counts as dead.
#[derive(Debug)]
pub struct Shape(pub Vec<TriPos>);

impl View for Shape {
    type V = Seq<TriPos>;

    open spec fn view(&self) -> Seq<TriPos> {
        self.0@
    }
}

impl Clone for Shape {
    fn clone(&self) -> (r: Self)
        ensures
            r@ == self@,
    {
        let mut cells: Vec<TriPos> = Vec::new();
        let mut i: usize = 0;
        while i < self.0.len()
            invariant
                i <= self.0.len(),
                cells@ == self.0@.take(i as int),
            decreases self.0.len() - i,
        {
            cells.push(self.0[i]);
            proof {
                assert(self.0@.take(i + 1) =~= self.0@.take(i as int).push(self.0@[i as int]));
            }
            i = i + 1;
        }
        proof {
            assert(self.0@.take(self.0@.len() as int) =~= self.0@);
        }
        Shape(cells)
    }
}

/// Ghost image of an [`AliveShape`]: its identifier and its cells.
pub struct AliveShapeV {
    pub id: Id,
    pub cells: Seq<TriPos>,
}

/// A shape tagged with a unique identifier: an entity a player can own,
/// move between zones, attach to, or lose in combat.
#[derive(Debug)]
pub struct AliveShape {
    pub id: Id,
    pub shape: Shape,
}

impl View for AliveShape {
    type V = AliveShapeV;

    open spec fn view(&self) -> AliveShapeV {
        AliveShapeV { id: self.id, cells: self.shape@ }
    }
}

impl Clone for AliveShape {
    fn clone(&self) -> (r: Self)
        ensures
            r@ == self@,
    {
        AliveShape { id: self.id, shape: self.shape.clone() }
    }
}

/// Ghost image of a [`Plant`].
pub struct PlantV {
    pub id: Id,
    pub cells: Seq<TriPos>,
    pub cooldown: Turns,
    pub time_left: Turns,
}

/// An economy entity owned by one player: every time its countdown runs
/// out it resets to `cooldown` and yields a fresh shape cloned from its
/// template shape into the owner's shape buffer.
#[derive(Debug)]
pub struct Plant {
    pub id: Id,
    pub shape: Shape,
    pub cooldown: Turns,
    pub time_left: Turns,
}

impl View for Plant {
    type V = PlantV;

    open spec fn view(&self) -> PlantV {
        PlantV {
            id: self.id,
            cells: self.shape@,
            cooldown: self.cooldown,
            time_left: self.time_left,
        }
    }
}

impl Clone for Plant {
    fn clone(&self) -> (r: Self)
        ensures
            r@ == self@,
    {
        Plant {
            id: self.id,
            shape: self.shape.clone(),
            cooldown: self.cooldown,
            time_left: self.time_left,
        }
    }
}

impl Plant {
    pub fn new(id: Id, shape: Shape, cooldown: Turns) -> (r: Self)
        ensures
            r@ == (PlantV { id, cells: shape@, cooldown, time_left: cooldown }),
    {
        Self { time_left: cooldown, id, shape, cooldown }
    }
}

/// Inactive shapes held in reserve; they cannot attack or be attacked.
#[derive(Debug)]
pub struct ShapeBuffer(pub Vec<AliveShape>);

/// Shapes moved into play; only these can attack, be attacked, receive
/// attachments, or be spent on upgrading a plant.
#[derive(Debug)]
pub struct ActiveShapes(pub Vec<AliveShape>);

/// The player's plants.
#[derive(Debug)]
pub struct ShapeFarm {
    pub plants: Vec<Plant>,
}

/// View of a sequence of alive shapes.
pub open spec fn sviews(s: Seq<AliveShape>) -> Seq<AliveShapeV> {
    s.map_values(|a: AliveShape| a@)
}

/// View of a sequence of plants.
pub open spec fn pviews(s: Seq<Plant>) -> Seq<PlantV> {
    s.map_values(|p: Plant| p@)
}

impl View for ShapeBuffer {
    type V = Seq<AliveShapeV>;

    open spec fn view(&self) -> Seq<AliveShapeV> {
        sviews(self.0@)
    }
}

impl View for ActiveShapes {
    type V = Seq<AliveShapeV>;

    open spec fn view(&self) -> Seq<AliveShapeV> {
        sviews(self.0@)
    }
}

impl View for ShapeFarm {
    type V = Seq<PlantV>;

    open spec fn view(&self) -> Seq<PlantV> {
        pviews(self.plants@)
    }
}

impl ShapeBuffer {
    pub fn new() -> (r: Self)
        ensures
            r@ == Seq::<AliveShapeV>::empty(),
    {
        Self(Vec::new())
    }
}

impl ActiveShapes {
    pub fn new() -> (r: Self)
        ensures
            r@ == Seq::<AliveShapeV>::empty(),
    {
        Self(Vec::new())
    }
}

/// The plant every player starts with: a single cell at the origin,
/// producing every other turn.
pub open spec fn initial_plant(id: Id) -> PlantV {
    PlantV { id, cells: seq![TriPos { x: 0, y: 0 }], cooldown: 1, time_left: 1 }
}

impl ShapeFarm {
    pub fn new(id_gen: &mut IdGenerator) -> (r: Self)
        requires
            old(id_gen)@ < Id::MAX,
        ensures
            r@ == seq![initial_plant(old(id_gen)@)],
            final(id_gen)@ == old(id_gen)@ + 1,
    {
        let mut plants: Vec<Plant> = Vec::new();
        let mut cells: Vec<TriPos> = Vec::new();
        cells.push(TriPos { x: 0, y: 0 });
        plants.push(Plant::new(id_gen.next(), Shape(cells), 1));
        proof {
            assert(pviews(plants@) =~= seq![initial_plant(old(id_gen)@)]);
        }
        Self { plants }
    }
}

/// Ghost image of a [`Player`]: the three id-keyed collections.
pub struct PlayerV {
    pub buffer: Seq<AliveShapeV>,
    pub active: Seq<AliveShapeV>,
    pub plants: Seq<PlantV>,
}

/// One of the two players: a reserve buffer, a farm, and the shapes in play.
#[derive(Debug)]
pub struct Player {
    pub shape_buffer: ShapeBuffer,
    pub shape_farm: ShapeFarm,
    pub active_shapes: ActiveShapes,
}

impl View for Player {
    type V = PlayerV;

    open spec fn view(&self) -> PlayerV {
        PlayerV {
            buffer: self.shape_buffer@,
            active: self.active_shapes@,
            plants: self.shape_farm@,
        }
    }
}

/// The state a player starts the game with: empty buffer and active zone,
/// one plant.
pub open spec fn initial_player(plant_id: Id) -> PlayerV {
    PlayerV {
        buffer: Seq::empty(),
        active: Seq::empty(),
        plants: seq![initial_plant(plant_id)],
    }
}

impl Player {
    pub fn new(id_gen: &mut IdGenerator) -> (r: Self)
        requires
            old(id_gen)@ < Id::MAX,
        ensures
            r@ == initial_player(old(id_gen)@),
            final(id_gen)@ == old(id_gen)@ + 1,
    {
        Self {
            shape_buffer: ShapeBuffer::new(),
            shape_farm: ShapeFarm::new(id_gen),
            active_shapes: ActiveShapes::new(),
        }
    }
}

/// Ghost image of the whole game state.
pub struct ModelV {
    pub next_id: Id,
    pub a: PlayerV,
    pub b: PlayerV,
    pub a_turn: bool,
}

/// The whole game state: the two players, the shared identifier generator,
/// and whose turn it is.
#[derive(Debug)]
pub struct Model {
    pub(crate) id_gen: IdGenerator,
    pub player_a: Player,
    pub player_b: Player,
    pub player_a_turn: bool,
}

impl View for Model {
    type V = ModelV;

    open(crate) spec fn view(&self) -> ModelV {
        ModelV {
            next_id: self.id_gen@,
            a: self.player_a@,
            b: self.player_b@,
            a_turn: self.player_a_turn,
        }
    }
}

/// The state a game starts in: player A's plant has id 0, player B's id 1,
/// the next fresh id is 2, and it is player A's turn.
pub open spec fn initial_model() -> ModelV {
    ModelV { next_id: 2, a: initial_player(0), b: initial_player(1), a_turn: true }
}

impl Model {
    pub fn new() -> (r: Self)
        ensures
            r@ == initial_model(),
            crate::ids::wf_model(r@),
    {
        let mut id_gen = IdGenerator::new();
        let player_a = Player::new(&mut id_gen);
        let player_b = Player::new(&mut id_gen);
        proof {
            crate::ids::lemma_initial_wf();
        }
        Self { player_a, player_b, id_gen, player_a_turn: true }
    }

    /// The next identifier the generator would issue.
    pub fn next_id(&self) -> (r: Id)
        ensures
            r == self@.next_id,
    {
        self.id_gen.0
    }
}

/// A shape grabbed by the pointer while dragging.
#[derive(Debug)]
pub struct GrabbedShape {
    pub shape: AliveShape,
}

impl Clone for GrabbedShape {
    fn clone(&self) -> (r: Self)
        ensures
            r.shape@ == self.shape@,
    {
        GrabbedShape { shape: self.shape.clone() }
    }
}

/// The discrete inputs of the action resolver: everything a player (or the
/// scripted opponent) can do within a turn.
#[derive(Debug, Clone, Copy, PartialEq, Eq, Structural)]
pub enum PlayerAction {
    ActivateShape(Id),
    DeactivateShape(Id),
    AttachShape { triangle: Id, target: Id, pos: TriPos },
    UpgradePlant { source_shape: Id, target_plant: Id },
    Attack { weapon: Id, target: Id },
    EndTurn,
}

} // verus!
