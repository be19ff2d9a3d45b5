//! The components that an entity can carry, and the rows of the table that
//! the systems work on.

use vstd::prelude::*;
use crate::types::{Point2, Vector2};

verus! {

/// The name of an entity: a slot of the store and the generation of the
/// entity that lives in that slot. A name whose entity has been removed
/// matches no row, so what refers to it simply finds nothing.
#[derive(Clone, Copy, Debug, PartialEq, Eq, Structural)]
pub struct Entity {
    pub index: u32,
    pub generation: i32,
}

/// Where an entity is.
#[derive(Clone, Copy, Debug, PartialEq, Eq, Structural)]
pub struct Position(pub Point2);

/// How an entity moves.
#[derive(Clone, Copy, Debug, PartialEq, Eq, Structural)]
pub struct Motion {
    pub velocity: Vector2,
    pub acceleration: Vector2,
}

/// A pine cone. It falls while it is active; once it has landed it stays
/// inactive for good and a new one is dropped in its place.
#[derive(Clone, Copy, Debug, PartialEq, Eq, Structural)]
pub struct Matubokkuri {
    /// An open pine cone drifts to the right while it falls.
    pub is_open: bool,
    pub is_active: bool,
    /// Set by the bird that has chosen this pine cone.
    pub is_target: bool,
    /// Set while a bird carries this pine cone away.
    pub is_bringing: bool,
}

impl Matubokkuri {
    /// Whether it is still in play.
    pub fn is_active(&self) -> (b: bool)
        ensures
            b == self.is_active,
    {
        self.is_active
    }

    /// Takes it out of play, for good.
    pub fn deactivate(&mut self)
        ensures
            *final(self) == (Matubokkuri { is_active: false, ..*old(self) }),
    {
        self.is_active = false;
    }
}

impl Default for Matubokkuri {
    /// A closed pine cone that has just begun to fall.
    fn default() -> (m: Matubokkuri)
        ensures
            m == (Matubokkuri {
                is_open: false,
                is_active: true,
                is_target: false,
                is_bringing: false,
            }),
    {
        Matubokkuri { is_open: false, is_active: true, is_target: false, is_bringing: false }
    }
}

/// A shot.
#[derive(Clone, Copy, Debug, PartialEq, Eq, Structural)]
pub struct Bullet {
    pub is_active: bool,
}

impl Bullet {
    /// Whether it is still in play.
    pub fn is_active(&self) -> (b: bool)
        ensures
            b == self.is_active,
    {
        self.is_active
    }

    /// Takes it out of play, for good.
    pub fn deactivate(&mut self)
        ensures
            *final(self) == (Bullet { is_active: false }),
    {
        self.is_active = false;
    }
}

impl Default for Bullet {
    /// A shot in flight.
    fn default() -> (b: Bullet)
        ensures
            b == (Bullet { is_active: true }),
    {
        Bullet { is_active: true }
    }
}

/// What a bird is doing.
#[derive(Clone, Copy, Debug, PartialEq, Eq, Structural)]
pub enum BirdState {
    /// Flying in from the right edge.
    Entry,
    /// Patrolling and looking for a landed pine cone.
    Seeking,
    /// Flying toward the chosen pine cone.
    Reaching(Entity),
    /// Sitting on the pine cone until the grab timer runs out.
    Grabbing(Entity),
    /// Carrying the pine cone away.
    Bringing(Entity),
}

/// A bird.
#[derive(Clone, Copy, Debug, PartialEq, Eq, Structural)]
pub struct Bird {
    pub state: BirdState,
    /// Frames left until a grabbed pine cone comes loose.
    pub grab_timer: i32,
    pub is_active: bool,
}

impl Bird {
    /// Whether it is still in play.
    pub fn is_active(&self) -> (b: bool)
        ensures
            b == self.is_active,
    {
        self.is_active
    }

    /// Takes it out of play, for good.
    pub fn deactivate(&mut self)
        ensures
            *final(self) == (Bird { is_active: false, ..*old(self) }),
    {
        self.is_active = false;
    }
}

impl Default for Bird {
    /// A bird that flies in, with a full grab timer.
    fn default() -> (b: Bird)
        ensures
            b == (Bird { state: BirdState::Entry, grab_timer: 100, is_active: true }),
    {
        Bird { state: BirdState::Entry, grab_timer: 100, is_active: true }
    }
}

/// The player's score.
#[derive(Clone, Copy, Debug, PartialEq, Eq, Structural)]
pub struct Score {
    pub score: i32,
}

impl Default for Score {
    fn default() -> (s: Score)
        ensures
            s == (Score { score: 0 }),
    {
        Score { score: 0 }
    }
}

/// How many pine cones have landed so far.
#[derive(Clone, Copy, Debug, PartialEq, Eq, Structural)]
pub struct GameState {
    pub matubokkuri_fall: u32,
}

impl Default for GameState {
    fn default() -> (g: GameState)
        ensures
            g == (GameState { matubokkuri_fall: 0 }),
    {
        GameState { matubokkuri_fall: 0 }
    }
}

/// The components of one entity. Each of them may be missing.
#[derive(Clone, Copy, Debug, PartialEq, Eq)]
pub struct Components {
    pub position: Option<Position>,
    pub motion: Option<Motion>,
    pub matubokkuri: Option<Matubokkuri>,
    pub bullet: Option<Bullet>,
    pub bird: Option<Bird>,
}

impl Components {
    /// An entity without components.
    pub open spec fn nothing() -> Components {
        Components { position: None, motion: None, matubokkuri: None, bullet: None, bird: None }
    }

    /// The components of an entity that has none.
    pub fn none() -> (c: Components)
        ensures
            c == Components::nothing(),
    {
        Components { position: None, motion: None, matubokkuri: None, bullet: None, bird: None }
    }

    /// `self` and `other` have the same kinds of components.
    pub open spec fn same_shape(self, other: Components) -> bool {
        &&& self.position is Some <==> other.position is Some
        &&& self.motion is Some <==> other.motion is Some
        &&& self.matubokkuri is Some <==> other.matubokkuri is Some
        &&& self.bullet is Some <==> other.bullet is Some
        &&& self.bird is Some <==> other.bird is Some
    }
}

/// One entity as the systems see it during a frame.
#[derive(Clone, Copy, Debug, PartialEq, Eq)]
pub struct Row {
    pub id: Entity,
    /// The entity has been marked for removal. It stays in the table, and is
    /// gone after the next commit.
    pub deleted: bool,
    pub components: Components,
}

/// The two tables hold the same entities in the same order, each with the
/// same kinds of components.
pub open spec fn same_entities(a: Seq<Row>, b: Seq<Row>) -> bool {
    &&& a.len() == b.len()
    &&& forall|i: int|
        0 <= i < a.len() ==> (#[trigger] a[i]).id == b[i].id && a[i].components.same_shape(
            b[i].components,
        )
}

/// Tables that hold the same entities as a third hold the same entities.
pub proof fn lemma_same_entities_chain(a: Seq<Row>, b: Seq<Row>, c: Seq<Row>)
    requires
        same_entities(a, b),
        same_entities(b, c),
    ensures
        same_entities(a, c),
{
    assert forall|i: int| 0 <= i < a.len() implies (#[trigger] a[i]).id == c[i].id
        && a[i].components.same_shape(c[i].components) by {
        assert(b[i].id == c[i].id);
    }
}

/// The first row at or behind `from` that is named `id`.
pub open spec fn first_named(rows: Seq<Row>, id: Entity, from: int) -> Option<int>
    decreases rows.len() - from,
{
    if from < 0 || from >= rows.len() {
        None
    } else if rows[from].id == id {
        Some(from)
    } else {
        first_named(rows, id, from + 1)
    }
}

/// The row of the entity `id`. In a table that comes from the store no two
/// rows have the same name; in any other table the first such row counts.
pub open spec fn find(rows: Seq<Row>, id: Entity) -> Option<int> {
    first_named(rows, id, 0)
}

/// Looks up the row of the entity `id`.
pub fn locate(rows: &Vec<Row>, id: Entity) -> (found: Option<usize>)
    ensures
        match found {
            Some(k) => find(rows@, id) == Some(k as int) && k < rows.len() && rows[k as int].id
                == id,
            None => find(rows@, id) is None,
        },
{
    let n = rows.len();
    let mut i: usize = 0;
    while i < n
        invariant
            i <= n,
            n == rows.len(),
            find(rows@, id) == first_named(rows@, id, i as int),
        decreases n - i,
    {
        if rows[i].id == id {
            return Some(i);
        }
        i += 1;
    }
    None
}

impl specs::Component for Position {
    type Storage = specs::VecStorage<Self>;
}

impl specs::Component for Motion {
    type Storage = specs::VecStorage<Self>;
}

impl specs::Component for Matubokkuri {
    type Storage = specs::HashMapStorage<Self>;
}

impl specs::Component for Bullet {
    type Storage = specs::VecStorage<Self>;
}

impl specs::Component for Bird {
    type Storage = specs::HashMapStorage<Self>;
}

} // verus!
