//! The systems. Each of them transforms the table of one frame.
//!
//! A system never adds or removes a row, and it never adds a component to an
//! entity or takes one away. An entity is removed by marking its row, and
//! created by queueing its components; both take effect at the next commit.

use vstd::prelude::*;
use crate::components::{
    find, lemma_same_entities_chain, locate, same_entities, Bird, BirdState, Bullet, Components,
    Entity, GameState, Matubokkuri, Motion, Position, Row,
};
use crate::types::{clamp, minus, Point2, Vector2, UNIT};

verus! {

/// The size of the play area.
#[derive(Clone, Copy, Debug, PartialEq, Eq, Structural)]
pub struct WindowMode {
    pub width: i64,
    pub height: i64,
}

/// A pine cone lands once it is lower than this far above the lower edge.
pub const GROUND_MARGIN: i64 = 60_000;

/// Horizontal speed of an open pine cone.
pub const DRIFT: i64 = 1_500;

/// Where a new pine cone appears: in the crown of the tree.
pub const SPAWN_X: i64 = 240_000;

/// How far below the upper edge a new pine cone appears.
pub const SPAWN_Y: i64 = 110_000;

/// Initial falling speed of a pine cone.
pub const FALL_SPEED: i64 = 1_000;

/// What a falling pine cone gains in speed per frame.
pub const GRAVITY: i64 = 10;

/// The rows `0..n` of `rows`, each replaced by `f` of it, followed by the
/// remaining rows unchanged.
pub open spec fn partly(rows: Seq<Row>, n: int, f: spec_fn(Row) -> Row) -> Seq<Row> {
    Seq::new(rows.len(), |i: int| if i < n { f(rows[i]) } else { rows[i] })
}

/// Every row of `rows` replaced by `f` of it.
pub open spec fn each(rows: Seq<Row>, f: spec_fn(Row) -> Row) -> Seq<Row> {
    Seq::new(rows.len(), |i: int| f(rows[i]))
}

/// Advances every entity that has a position and a motion by one frame.
pub struct MovementSystem;

impl MovementSystem {
    /// One step of forward Euler integration: the position moves by the
    /// velocity, then the velocity grows by the acceleration.
    pub open spec fn step(c: Components) -> Components {
        match (c.position, c.motion) {
            (Some(p), Some(m)) => Components {
                position: Some(Position(p.0.moved(m.velocity))),
                motion: Some(
                    Motion {
                        velocity: m.velocity.sum(m.acceleration),
                        acceleration: m.acceleration,
                    },
                ),
                ..c
            },
            _ => c,
        }
    }

    /// The row one step later.
    pub open spec fn step_row(r: Row) -> Row {
        Row { components: Self::step(r.components), ..r }
    }

    /// Moves one entity by one step.
    pub fn integrate(c: Components) -> (r: Components)
        ensures
            r == Self::step(c),
    {
        match (c.position, c.motion) {
            (Some(p), Some(m)) => Components {
                position: Some(Position(p.0.shift(m.velocity))),
                motion: Some(
                    Motion {
                        velocity: m.velocity.combine(m.acceleration),
                        acceleration: m.acceleration,
                    },
                ),
                ..c
            },
            _ => c,
        }
    }

    /// The table one frame of motion later.
    pub open spec fn advanced(rows: Seq<Row>) -> Seq<Row> {
        each(rows, |r: Row| Self::step_row(r))
    }

    /// Moves every entity by one step.
    pub fn run(&mut self, rows: &mut Vec<Row>)
        ensures
            final(rows)@ == Self::advanced(old(rows)@),
            same_entities(final(rows)@, old(rows)@),
    {
        let ghost before = rows@;
        let ghost f = |r: Row| Self::step_row(r);
        let n = rows.len();
        let mut i: usize = 0;
        while i < n
            invariant
                i <= n,
                n == before.len(),
                rows@ == partly(before, i as int, f),
                f == (|r: Row| Self::step_row(r)),
            decreases n - i,
        {
            let r = rows[i];
            rows.set(i, Row { components: Self::integrate(r.components), ..r });
            assert(rows@ =~= partly(before, i + 1, f));
            i += 1;
        }
        assert(rows@ =~= each(before, f));
    }
}

/// Lets the pine cones fall, land and be replaced.
pub struct MatubokkuriSystem;

impl MatubokkuriSystem {
    /// The entity is a falling pine cone.
    pub open spec fn falls(c: Components) -> bool {
        &&& c.position is Some
        &&& c.motion is Some
        &&& c.matubokkuri is Some
        &&& c.matubokkuri.unwrap().is_active
    }

    /// The entity is a falling pine cone that has reached the ground.
    pub open spec fn lands(c: Components, height: i64) -> bool {
        Self::falls(c) && c.position.unwrap().0.y > height - GROUND_MARGIN
    }

    /// A pine cone that has just landed: it rests, is closed, and is inactive
    /// from now on.
    pub open spec fn landed(c: Components) -> Components {
        Components {
            motion: Some(
                Motion {
                    velocity: Vector2 { x: 0, y: 0 },
                    acceleration: Vector2 { x: c.motion.unwrap().acceleration.x, y: 0 },
                },
            ),
            matubokkuri: Some(
                Matubokkuri { is_open: false, is_active: false, ..c.matubokkuri.unwrap() },
            ),
            ..c
        }
    }

    /// A pine cone in the air: it drifts to the right exactly while it is
    /// open.
    pub open spec fn drifting(c: Components) -> Components {
        Components {
            motion: Some(
                Motion {
                    velocity: Vector2 {
                        x: if c.matubokkuri.unwrap().is_open {
                            DRIFT
                        } else {
                            0
                        },
                        y: c.motion.unwrap().velocity.y,
                    },
                    acceleration: c.motion.unwrap().acceleration,
                },
            ),
            ..c
        }
    }

    /// The entity after the step of the pine cones: a falling pine cone lands
    /// or drifts, and nothing else changes.
    pub open spec fn step(c: Components, height: i64) -> Components {
        if Self::lands(c, height) {
            Self::landed(c)
        } else if Self::falls(c) {
            Self::drifting(c)
        } else {
            c
        }
    }

    /// The row after the step of the pine cones.
    pub open spec fn step_row(r: Row, height: i64) -> Row {
        Row { components: Self::step(r.components, height), ..r }
    }

    /// Some pine cone lands in this frame.
    pub open spec fn any_landing(rows: Seq<Row>, height: i64) -> bool {
        exists|i: int| 0 <= i < rows.len() && Self::lands(#[trigger] rows[i].components, height)
    }

    /// The pine cone that replaces one that has landed.
    pub open spec fn replacement() -> Components {
        Components {
            position: Some(Position(Point2 { x: SPAWN_X, y: SPAWN_Y })),
            motion: Some(
                Motion {
                    velocity: Vector2 { x: 0, y: FALL_SPEED },
                    acceleration: Vector2 { x: 0, y: GRAVITY },
                },
            ),
            matubokkuri: Some(
                Matubokkuri {
                    is_open: false,
                    is_active: true,
                    is_target: false,
                    is_bringing: false,
                },
            ),
            bullet: None,
            bird: None,
        }
    }

    /// The fall counter after one more landing. It stops at the largest
    /// number that it can hold.
    pub open spec fn counted(g: GameState) -> GameState {
        GameState {
            matubokkuri_fall: if g.matubokkuri_fall < u32::MAX {
                (g.matubokkuri_fall + 1) as u32
            } else {
                g.matubokkuri_fall
            },
        }
    }

    /// Makes the pine cone that replaces one that has landed.
    pub fn new_matubokkuri() -> (c: Components)
        ensures
            c == Self::replacement(),
    {
        Components {
            position: Some(Position(Point2 { x: SPAWN_X, y: SPAWN_Y })),
            motion: Some(
                Motion {
                    velocity: Vector2 { x: 0, y: FALL_SPEED },
                    acceleration: Vector2 { x: 0, y: GRAVITY },
                },
            ),
            matubokkuri: Some(Matubokkuri::default()),
            bullet: None,
            bird: None,
        }
    }

    /// Steps one entity, and tells whether it has landed.
    fn advance(c: Components, height: i64) -> (r: (Components, bool))
        ensures
            r.0 == Self::step(c, height),
            r.1 == Self::lands(c, height),
    {
        match (c.position, c.motion, c.matubokkuri) {
            (Some(p), Some(mot), Some(m)) => {
                if !m.is_active() {
                    (c, false)
                } else if (p.0.y as i128) > (height as i128) - (GROUND_MARGIN as i128) {
                    let mut m = m;
                    m.is_open = false;
                    m.deactivate();
                    (
                        Components {
                            motion: Some(
                                Motion {
                                    velocity: Vector2 { x: 0, y: 0 },
                                    acceleration: Vector2 { x: mot.acceleration.x, y: 0 },
                                },
                            ),
                            matubokkuri: Some(m),
                            ..c
                        },
                        true,
                    )
                } else {
                    let drift: i64 = if m.is_open {
                        DRIFT
                    } else {
                        0
                    };
                    (
                        Components {
                            motion: Some(
                                Motion {
                                    velocity: Vector2 { x: drift, y: mot.velocity.y },
                                    acceleration: mot.acceleration,
                                },
                            ),
                            ..c
                        },
                        false,
                    )
                }
            },
            _ => (c, false),
        }
    }

    /// The table after every pine cone has been stepped.
    pub open spec fn dropped(rows: Seq<Row>, height: i64) -> Seq<Row> {
        each(rows, |r: Row| Self::step_row(r, height))
    }

    /// Steps every pine cone. If at least one of them lands, one new pine
    /// cone is queued and the fall counter goes up by one, however many have
    /// landed.
    pub fn run(
        &mut self,
        rows: &mut Vec<Row>,
        pending: &mut Vec<Components>,
        game_state: &mut GameState,
        window_mode: &WindowMode,
    )
        ensures
            final(rows)@ == Self::dropped(old(rows)@, window_mode.height),
            same_entities(final(rows)@, old(rows)@),
            Self::any_landing(old(rows)@, window_mode.height) ==> {
                &&& final(pending)@ == old(pending)@.push(Self::replacement())
                &&& *final(game_state) == Self::counted(*old(game_state))
            },
            !Self::any_landing(old(rows)@, window_mode.height) ==> {
                &&& final(pending)@ == old(pending)@
                &&& *final(game_state) == *old(game_state)
            },
    {
        let height = window_mode.height;
        let ghost before = rows@;
        let ghost f = |r: Row| Self::step_row(r, height);
        let n = rows.len();
        let mut exhausted = false;
        let mut i: usize = 0;
        while i < n
            invariant
                i <= n,
                n == before.len(),
                rows@ == partly(before, i as int, f),
                f == (|r: Row| Self::step_row(r, height)),
                exhausted <==> exists|j: int|
                    0 <= j < i && Self::lands(#[trigger] before[j].components, height),
            decreases n - i,
        {
            let r = rows[i];
            let (c, down) = Self::advance(r.components, height);
            rows.set(i, Row { components: c, ..r });
            if down {
                exhausted = true;
            }
            assert(rows@ =~= partly(before, i + 1, f));
            i += 1;
        }
        assert(rows@ =~= each(before, f));
        if exhausted {
            pending.push(Self::new_matubokkuri());
            if game_state.matubokkuri_fall < u32::MAX {
                game_state.matubokkuri_fall = game_state.matubokkuri_fall + 1;
            }
        }
    }
}

/// Removes the shots that have left the play area.
pub struct BulletManagementSystem;

impl BulletManagementSystem {
    /// The entity is an active shot that is outside the play area both
    /// horizontally and vertically. A shot that has left it along one axis
    /// only stays.
    pub open spec fn escaped(c: Components, window_mode: WindowMode) -> bool {
        &&& c.position is Some
        &&& c.bullet is Some
        &&& c.bullet.unwrap().is_active
        &&& (c.position.unwrap().0.x < 0 || c.position.unwrap().0.x > window_mode.width)
        &&& (c.position.unwrap().0.y < 0 || c.position.unwrap().0.y > window_mode.height)
    }

    /// The row, marked for removal if it is a shot that has escaped.
    pub open spec fn step_row(r: Row, window_mode: WindowMode) -> Row {
        Row { deleted: r.deleted || Self::escaped(r.components, window_mode), ..r }
    }

    /// Whether the entity is a shot that has escaped.
    pub fn has_escaped(c: &Components, window_mode: &WindowMode) -> (b: bool)
        ensures
            b == Self::escaped(*c, *window_mode),
    {
        match (c.position, c.bullet) {
            (Some(p), Some(b)) => b.is_active() && (p.0.x < 0 || p.0.x > window_mode.width) && (
            p.0.y < 0 || p.0.y > window_mode.height),
            _ => false,
        }
    }

    /// The table with every escaped shot marked for removal.
    pub open spec fn swept(rows: Seq<Row>, window_mode: WindowMode) -> Seq<Row> {
        each(rows, |r: Row| Self::step_row(r, window_mode))
    }

    /// Marks every shot that has escaped for removal.
    pub fn run(&mut self, rows: &mut Vec<Row>, window_mode: &WindowMode)
        ensures
            final(rows)@ == Self::swept(old(rows)@, *window_mode),
            same_entities(final(rows)@, old(rows)@),
    {
        let ghost before = rows@;
        let ghost f = |r: Row| Self::step_row(r, *window_mode);
        let n = rows.len();
        let mut i: usize = 0;
        while i < n
            invariant
                i <= n,
                n == before.len(),
                rows@ == partly(before, i as int, f),
                f == (|r: Row| Self::step_row(r, *window_mode)),
            decreases n - i,
        {
            let r = rows[i];
            let gone = r.deleted || Self::has_escaped(&r.components, window_mode);
            rows.set(i, Row { deleted: gone, ..r });
            assert(rows@ =~= partly(before, i + 1, f));
            i += 1;
        }
        assert(rows@ =~= each(before, f));
    }
}

/// Width of the box of a bird.
pub const BIRD_WIDTH: i64 = 60_000;

/// Height of the box of a bird.
pub const BIRD_HEIGHT: i64 = 34_000;

/// Shoots birds down, and sets the pine cones free that they carried.
pub struct CollisionSystem;

impl CollisionSystem {
    /// The shot lies in the box of the bird. The box starts at the bird's
    /// position and includes its edges.
    pub open spec fn overlaps(bird: Point2, shot: Point2) -> bool {
        &&& bird.x <= shot.x <= bird.x + BIRD_WIDTH
        &&& bird.y <= shot.y <= bird.y + BIRD_HEIGHT
    }

    /// The entity is an active shot.
    pub open spec fn is_shot(c: Components) -> bool {
        c.position is Some && c.bullet is Some && c.bullet.unwrap().is_active
    }

    /// The entity is an active bird.
    pub open spec fn is_bird(c: Components) -> bool {
        c.position is Some && c.bird is Some && c.bird.unwrap().is_active
    }

    /// Row `shot` is an active shot that lies in the box of the active bird
    /// in row `bird`.
    pub open spec fn meets(rows: Seq<Row>, shot: int, bird: int) -> bool {
        &&& 0 <= shot < rows.len()
        &&& 0 <= bird < rows.len()
        &&& Self::is_shot(rows[shot].components)
        &&& Self::is_bird(rows[bird].components)
        &&& Self::overlaps(
            rows[bird].components.position.unwrap().0,
            rows[shot].components.position.unwrap().0,
        )
    }

    /// The shot in row `i` hits some bird.
    pub open spec fn shot_hits(rows: Seq<Row>, i: int) -> bool {
        exists|j: int| Self::meets(rows, i, j)
    }

    /// The bird in row `j` is hit by some shot.
    pub open spec fn bird_falls(rows: Seq<Row>, j: int) -> bool {
        exists|i: int| Self::meets(rows, i, j)
    }

    /// Row `j` is a bird that is hit while it carries the entity `id`.
    pub open spec fn drops(rows: Seq<Row>, j: int, id: Entity) -> bool {
        &&& 0 <= j < rows.len()
        &&& Self::bird_falls(rows, j)
        &&& rows[j].components.bird.unwrap().state == BirdState::Bringing(id)
    }

    /// Some bird is hit while it carries the entity `id`.
    pub open spec fn released(rows: Seq<Row>, id: Entity) -> bool {
        exists|j: int| Self::drops(rows, j, id)
    }

    /// Row `k` after all collisions of the frame. A shot that hits and a bird
    /// that is hit become inactive and are marked for removal. What a hit
    /// bird carried is no longer carried or chosen, and lies on the ground.
    pub open spec fn resolved(rows: Seq<Row>, k: int, height: i64) -> Row {
        let r = rows[k];
        let c = r.components;
        let free = Self::released(rows, r.id);
        Row {
            id: r.id,
            deleted: r.deleted || Self::shot_hits(rows, k) || Self::bird_falls(rows, k),
            components: Components {
                position: match c.position {
                    Some(p) => if free {
                        Some(Position(Point2 { x: p.0.x, y: clamp(height - GROUND_MARGIN) }))
                    } else {
                        Some(p)
                    },
                    None => None,
                },
                motion: c.motion,
                matubokkuri: match c.matubokkuri {
                    Some(m) => if free {
                        Some(Matubokkuri { is_bringing: false, is_target: false, ..m })
                    } else {
                        Some(m)
                    },
                    None => None,
                },
                bullet: if Self::shot_hits(rows, k) {
                    Some(Bullet { is_active: false })
                } else {
                    c.bullet
                },
                bird: if Self::bird_falls(rows, k) {
                    Some(Bird { is_active: false, ..c.bird.unwrap() })
                } else {
                    c.bird
                },
            },
        }
    }

    /// The table after all collisions of the frame.
    pub open spec fn settled(rows: Seq<Row>, height: i64) -> Seq<Row> {
        Seq::new(rows.len(), |k: int| Self::resolved(rows, k, height))
    }

    /// A collision neither adds nor removes an entity or a component.
    pub proof fn lemma_keeps_entities(rows: Seq<Row>, height: i64)
        ensures
            same_entities(Self::settled(rows, height), rows),
    {
        assert forall|i: int| 0 <= i < rows.len() implies (#[trigger] Self::settled(
            rows,
            height,
        )[i]).id == rows[i].id && Self::settled(rows, height)[i].components.same_shape(
            rows[i].components,
        ) by {
            if Self::shot_hits(rows, i) {
                let j = choose|j: int| Self::meets(rows, i, j);
                assert(Self::is_shot(rows[i].components));
            }
            if Self::bird_falls(rows, i) {
                let j = choose|j: int| Self::meets(rows, j, i);
                assert(Self::is_bird(rows[i].components));
            }
        }
    }

    /// Whether the shot lies in the box of the bird.
    pub fn touches(bird: &Point2, shot: &Point2) -> (b: bool)
        ensures
            b == Self::overlaps(*bird, *shot),
    {
        let bx: i128 = bird.x as i128;
        let by: i128 = bird.y as i128;
        let sx: i128 = shot.x as i128;
        let sy: i128 = shot.y as i128;
        bx <= sx && sx <= bx + (BIRD_WIDTH as i128) && by <= sy && sy <= by + (
        BIRD_HEIGHT as i128)
    }

    /// Whether the shot in row `i` hits a bird.
    fn shot_is_hit(rows: &Vec<Row>, i: usize) -> (b: bool)
        requires
            i < rows.len(),
        ensures
            b == Self::shot_hits(rows@, i as int),
    {
        let c = rows[i].components;
        match (c.position, c.bullet) {
            (Some(p), Some(shot)) => {
                if !shot.is_active() {
                    return false;
                }
                let n = rows.len();
                let mut found = false;
                let mut j: usize = 0;
                while j < n
                    invariant
                        j <= n,
                        n == rows.len(),
                        i < n,
                        rows[i as int].components == c,
                        c.position == Some(p),
                        Self::is_shot(c),
                        found <==> exists|jj: int| 0 <= jj < j && Self::meets(rows@, i as int, jj),
                    decreases n - j,
                {
                    let d = rows[j].components;
                    match (d.position, d.bird) {
                        (Some(q), Some(bird)) => {
                            if bird.is_active() && Self::touches(&q.0, &p.0) {
                                assert(Self::meets(rows@, i as int, j as int));
                                found = true;
                            }
                        },
                        _ => {},
                    }
                    j += 1;
                }
                found
            },
            _ => false,
        }
    }

    /// Whether the bird in row `j` is hit by a shot.
    fn bird_is_hit(rows: &Vec<Row>, j: usize) -> (b: bool)
        requires
            j < rows.len(),
        ensures
            b == Self::bird_falls(rows@, j as int),
    {
        let c = rows[j].components;
        match (c.position, c.bird) {
            (Some(p), Some(bird)) => {
                if !bird.is_active() {
                    return false;
                }
                let n = rows.len();
                let mut found = false;
                let mut i: usize = 0;
                while i < n
                    invariant
                        i <= n,
                        n == rows.len(),
                        j < n,
                        rows[j as int].components == c,
                        c.position == Some(p),
                        Self::is_bird(c),
                        found <==> exists|ii: int| 0 <= ii < i && Self::meets(rows@, ii, j as int),
                    decreases n - i,
                {
                    let d = rows[i].components;
                    match (d.position, d.bullet) {
                        (Some(q), Some(shot)) => {
                            if shot.is_active() && Self::touches(&p.0, &q.0) {
                                assert(Self::meets(rows@, i as int, j as int));
                                found = true;
                            }
                        },
                        _ => {},
                    }
                    i += 1;
                }
                found
            },
            _ => false,
        }
    }

    /// Whether a bird is hit while it carries the entity `id`. `down` tells
    /// for each row whether it is a bird that is hit.
    fn is_released(rows: &Vec<Row>, down: &Vec<bool>, id: Entity) -> (b: bool)
        requires
            down.len() == rows.len(),
            forall|k: int| 0 <= k < rows.len() ==> down[k] == Self::bird_falls(rows@, k),
        ensures
            b == Self::released(rows@, id),
    {
        let n = rows.len();
        let mut found = false;
        let mut j: usize = 0;
        while j < n
            invariant
                j <= n,
                n == rows.len(),
                down.len() == n,
                forall|k: int| 0 <= k < rows.len() ==> down[k] == Self::bird_falls(rows@, k),
                found <==> exists|jj: int| 0 <= jj < j && Self::drops(rows@, jj, id),
            decreases n - j,
        {
            if down[j] {
                match rows[j].components.bird {
                    Some(bird) => match bird.state {
                        BirdState::Bringing(e) => {
                            if e == id {
                                assert(Self::drops(rows@, j as int, id));
                                found = true;
                            }
                        },
                        _ => {},
                    },
                    None => {},
                }
            }
            j += 1;
        }
        found
    }

    /// Computes the table after all collisions.
    fn settle(rows: &Vec<Row>, height: i64) -> (out: Vec<Row>)
        ensures
            out@ == Self::settled(rows@, height),
    {
        let n = rows.len();
        let mut down: Vec<bool> = Vec::new();
        let mut j: usize = 0;
        while j < n
            invariant
                j <= n,
                n == rows.len(),
                down.len() == j,
                forall|k: int| 0 <= k < j ==> down[k] == Self::bird_falls(rows@, k),
            decreases n - j,
        {
            down.push(Self::bird_is_hit(rows, j));
            j += 1;
        }
        let ground = minus(height, GROUND_MARGIN);
        let mut out: Vec<Row> = Vec::new();
        let mut k: usize = 0;
        while k < n
            invariant
                k <= n,
                n == rows.len(),
                down.len() == n,
                forall|a: int| 0 <= a < n ==> down[a] == Self::bird_falls(rows@, a),
                ground == clamp(height - GROUND_MARGIN),
                out.len() == k,
                forall|a: int| 0 <= a < k ==> out[a] == Self::resolved(rows@, a, height),
            decreases n - k,
        {
            let r = rows[k];
            let c = r.components;
            let hit = Self::shot_is_hit(rows, k);
            let fallen = down[k];
            let free = Self::is_released(rows, &down, r.id);
            let position = match c.position {
                Some(p) => if free {
                    Some(Position(Point2 { x: p.0.x, y: ground }))
                } else {
                    Some(p)
                },
                None => None,
            };
            let matubokkuri = match c.matubokkuri {
                Some(m) => if free {
                    Some(Matubokkuri { is_bringing: false, is_target: false, ..m })
                } else {
                    Some(m)
                },
                None => None,
            };
            let bullet = if hit {
                Some(Bullet { is_active: false })
            } else {
                c.bullet
            };
            let bird = match c.bird {
                Some(b) => if fallen {
                    Some(Bird { is_active: false, ..b })
                } else {
                    Some(b)
                },
                None => None,
            };
            out.push(
                Row {
                    id: r.id,
                    deleted: r.deleted || hit || fallen,
                    components: Components { position, motion: c.motion, matubokkuri, bullet, bird },
                },
            );
            k += 1;
        }
        assert(out@ =~= Self::settled(rows@, height));
        out
    }

    /// Resolves every pair of an active shot and an active bird that
    /// overlap. Which pairs overlap is decided on the table as it is when
    /// the system starts, so a shot that lies in two birds hits both.
    pub fn run(&mut self, rows: &mut Vec<Row>, window_mode: &WindowMode)
        ensures
            final(rows)@ == Self::settled(old(rows)@, window_mode.height),
            same_entities(final(rows)@, old(rows)@),
    {
        proof {
            Self::lemma_keeps_entities(rows@, window_mode.height);
        }
        let out = Self::settle(rows, window_mode.height);
        *rows = out;
    }
}

/// A seeking bird turns round left of this line.
pub const LEFT_BOUND: i64 = 150_000;

/// A bird has arrived, and a seeking bird turns round, this far from the
/// right edge.
pub const RIGHT_MARGIN: i64 = 100_000;

/// Speed of a bird that flies toward its pine cone.
pub const REACH_SPEED: u32 = 2_000;

/// A bird that carries a pine cone away flies to the right at this speed,
pub const CARRY_X: i64 = 1_500;

/// and upward at this one.
pub const CARRY_Y: i64 = -2_000;

/// Lets every active bird take its turn.
pub struct BirdSystem;

impl BirdSystem {
    /// The entity is an active bird that can fly.
    pub open spec fn flies(c: Components) -> bool {
        &&& c.position is Some
        &&& c.motion is Some
        &&& c.bird is Some
        &&& c.bird.unwrap().is_active
    }

    /// The position of the entity `id`, if there is such an entity and it has
    /// one.
    pub open spec fn position_of(rows: Seq<Row>, id: Entity) -> Option<Point2> {
        match find(rows, id) {
            Some(k) => match rows[k].components.position {
                Some(p) => Some(p.0),
                None => None,
            },
            None => None,
        }
    }

    /// The entity `id` exists and is a pine cone.
    pub open spec fn has_cone(rows: Seq<Row>, id: Entity) -> bool {
        match find(rows, id) {
            Some(k) => rows[k].components.matubokkuri is Some,
            None => false,
        }
    }

    /// The two points are less than one pixel apart along both axes.
    pub open spec fn near(a: Point2, b: Point2) -> bool {
        -UNIT < a.x - b.x < UNIT && -UNIT < a.y - b.y < UNIT
    }

    /// The grab timer one frame later. It counts down to zero and stays
    /// there. A negative timer never runs out.
    pub open spec fn ticked(t: i32) -> i32 {
        if t == 0 || t == i32::MIN {
            t
        } else {
            (t - 1) as i32
        }
    }

    /// The entity with the velocity `v`.
    pub open spec fn with_velocity(c: Components, v: Vector2) -> Components {
        Components {
            motion: Some(Motion { velocity: v, acceleration: c.motion.unwrap().acceleration }),
            ..c
        }
    }

    /// The bird in the state `state`.
    pub open spec fn with_state(c: Components, state: BirdState) -> Components {
        Components { bird: Some(Bird { state, ..c.bird.unwrap() }), ..c }
    }

    /// What the bird in row `i` does to itself in its turn.
    ///
    /// - On entry it starts to seek once it is left of the right margin.
    /// - While it seeks it turns round at the left bound and at the right
    ///   margin.
    /// - While it reaches for a pine cone it flies straight toward it, and
    ///   grabs it when it is near. A pine cone that is gone is not pursued.
    /// - While it grabs, its timer runs; when the timer is at zero it lifts
    ///   the pine cone.
    /// - While it carries a pine cone it flies away with it.
    pub open spec fn turn(rows: Seq<Row>, i: int, width: i64) -> Components {
        let c = rows[i].components;
        if !Self::flies(c) {
            c
        } else {
            let p = c.position.unwrap().0;
            let v = c.motion.unwrap().velocity;
            let b = c.bird.unwrap();
            match b.state {
                BirdState::Entry => if p.x < width - RIGHT_MARGIN {
                    Self::with_state(c, BirdState::Seeking)
                } else {
                    c
                },
                BirdState::Seeking => if (p.x < LEFT_BOUND && v.x < 0) || (p.x > width
                    - RIGHT_MARGIN && v.x > 0) {
                    Self::with_velocity(c, Vector2 { x: clamp(-v.x), y: v.y })
                } else {
                    c
                },
                BirdState::Reaching(e) => match Self::position_of(rows, e) {
                    Some(t) => if Self::near(p, t) {
                        Self::with_state(
                            Self::with_velocity(c, Vector2 { x: 0, y: 0 }),
                            BirdState::Grabbing(e),
                        )
                    } else {
                        Self::with_velocity(c, t.offset_from(p).resized(REACH_SPEED))
                    },
                    None => c,
                },
                BirdState::Grabbing(e) => Components {
                    bird: Some(
                        Bird {
                            state: if Self::ticked(b.grab_timer) == 0 {
                                BirdState::Bringing(e)
                            } else {
                                BirdState::Grabbing(e)
                            },
                            grab_timer: Self::ticked(b.grab_timer),
                            is_active: b.is_active,
                        },
                    ),
                    ..c
                },
                BirdState::Bringing(e) => if Self::has_cone(rows, e) {
                    Self::with_velocity(c, Vector2 { x: CARRY_X, y: CARRY_Y })
                } else {
                    c
                },
            }
        }
    }

    /// The table after every bird has done to itself what its turn asks.
    pub open spec fn turned(rows: Seq<Row>, width: i64) -> Seq<Row> {
        Seq::new(rows.len(), |i: int| Row { components: Self::turn(rows, i, width), ..rows[i] })
    }

    /// The entity is a bird that looks for a pine cone.
    pub open spec fn seeks(c: Components) -> bool {
        Self::flies(c) && c.bird.unwrap().state is Seeking
    }

    /// The entity is a landed pine cone that no bird has chosen.
    pub open spec fn unclaimed(c: Components) -> bool {
        &&& c.matubokkuri is Some
        &&& !c.matubokkuri.unwrap().is_active
        &&& !c.matubokkuri.unwrap().is_target
    }

    /// The first row at or behind `from` that is an unclaimed pine cone.
    pub open spec fn first_unclaimed(rows: Seq<Row>, from: int) -> Option<int>
        decreases rows.len() - from,
    {
        if from < 0 || from >= rows.len() {
            None
        } else if Self::unclaimed(rows[from].components) {
            Some(from)
        } else {
            Self::first_unclaimed(rows, from + 1)
        }
    }

    /// The pine cone, chosen.
    pub open spec fn chosen(r: Row) -> Row {
        Row {
            components: Components {
                matubokkuri: match r.components.matubokkuri {
                    Some(m) => Some(Matubokkuri { is_target: true, ..m }),
                    None => None,
                },
                ..r.components
            },
            ..r
        }
    }

    /// The bird, on its way to the entity `id`.
    pub open spec fn aimed(r: Row, id: Entity) -> Row {
        Row {
            components: Components {
                bird: match r.components.bird {
                    Some(b) => Some(Bird { state: BirdState::Reaching(id), ..b }),
                    None => None,
                },
                ..r.components
            },
            ..r
        }
    }

    /// The bird in row `i` chooses the first unclaimed pine cone of the
    /// table, if there is one, and sets out for it.
    pub open spec fn claim(rows: Seq<Row>, i: int) -> Seq<Row> {
        match Self::first_unclaimed(rows, 0) {
            Some(k) => {
                let marked = rows.update(k, Self::chosen(rows[k]));
                marked.update(i, Self::aimed(marked[i], rows[k].id))
            },
            None => rows,
        }
    }

    /// `rows` after the birds in the rows `0..n` have chosen, one after the
    /// other in the order of the table. A bird chooses if it was seeking in
    /// `start`, the table as the system found it.
    pub open spec fn claimed(rows: Seq<Row>, start: Seq<Row>, n: int) -> Seq<Row>
        decreases n,
    {
        if n <= 0 || n > start.len() {
            rows
        } else {
            let before = Self::claimed(rows, start, n - 1);
            if Self::seeks(start[n - 1].components) {
                Self::claim(before, n - 1)
            } else {
                before
            }
        }
    }

    /// Row `j` of `start` is a bird that carries the pine cone `id`.
    pub open spec fn carries(start: Seq<Row>, j: int, id: Entity) -> bool {
        &&& 0 <= j < start.len()
        &&& Self::flies(start[j].components)
        &&& start[j].components.bird.unwrap().state == BirdState::Bringing(id)
        &&& Self::has_cone(start, id)
    }

    /// The last row before `upto` that carries the pine cone `id`.
    pub open spec fn last_carrier(start: Seq<Row>, id: Entity, upto: int) -> Option<int>
        decreases upto,
    {
        if upto <= 0 || upto > start.len() {
            None
        } else if Self::carries(start, upto - 1, id) {
            Some(upto - 1)
        } else {
            Self::last_carrier(start, id, upto - 1)
        }
    }

    /// The row `r` after the birds have moved what they carry. An entity
    /// that is carried is flagged so, and is put where its carrier was in
    /// `previous`, the table before the motion of this frame: what a bird
    /// carries trails it by one frame. Of several carriers the last counts.
    /// Where the carrier had no position then, what it carries stays.
    pub open spec fn carried(r: Row, start: Seq<Row>, previous: Seq<Row>) -> Row {
        match Self::last_carrier(start, r.id, start.len() as int) {
            Some(j) => Row {
                components: Components {
                    position: match r.components.position {
                        Some(p) => match Self::position_of(previous, start[j].id) {
                            Some(q) => Some(Position(q)),
                            None => Some(p),
                        },
                        None => None,
                    },
                    matubokkuri: match r.components.matubokkuri {
                        Some(m) => Some(Matubokkuri { is_bringing: true, ..m }),
                        None => None,
                    },
                    ..r.components
                },
                ..r
            },
            None => r,
        }
    }

    /// The table after the turns of all birds: each bird acts on itself, then
    /// the seeking birds choose, then what is carried is moved. `previous` is
    /// the table before the motion of this frame.
    pub open spec fn ran(rows: Seq<Row>, previous: Seq<Row>, width: i64) -> Seq<Row> {
        each(
            Self::claimed(Self::turned(rows, width), rows, rows.len() as int),
            |r: Row| Self::carried(r, rows, previous),
        )
    }

    /// The first unclaimed pine cone, where there is one, is a row of the
    /// table.
    pub proof fn lemma_first_unclaimed(rows: Seq<Row>, from: int)
        requires
            0 <= from,
        ensures
            match Self::first_unclaimed(rows, from) {
                Some(k) => from <= k < rows.len() && Self::unclaimed(rows[k].components),
                None => true,
            },
        decreases rows.len() - from,
    {
        if from < rows.len() && !Self::unclaimed(rows[from].components) {
            Self::lemma_first_unclaimed(rows, from + 1);
        }
    }

    /// The last carrier, where there is one, is a row that carries.
    pub proof fn lemma_last_carrier(start: Seq<Row>, id: Entity, upto: int)
        ensures
            match Self::last_carrier(start, id, upto) {
                Some(j) => 0 <= j < upto && Self::carries(start, j, id),
                None => true,
            },
        decreases upto,
    {
        if 0 < upto <= start.len() && !Self::carries(start, upto - 1, id) {
            Self::lemma_last_carrier(start, id, upto - 1);
        }
    }

    /// `after` is `before` but for the choices of the birds: a pine cone
    /// may have been chosen, and a bird may have set out for one.
    pub open spec fn differs_by_choice(after: Row, before: Row) -> bool {
        &&& after.id == before.id
        &&& after.deleted == before.deleted
        &&& after.components.position == before.components.position
        &&& after.components.motion == before.components.motion
        &&& after.components.bullet == before.components.bullet
        &&& match (after.components.matubokkuri, before.components.matubokkuri) {
            (Some(a), Some(b)) => a == (Matubokkuri { is_target: a.is_target, ..b }),
            (None, None) => true,
            _ => false,
        }
        &&& match (after.components.bird, before.components.bird) {
            (Some(a), Some(b)) => a == (Bird { state: a.state, ..b }),
            (None, None) => true,
            _ => false,
        }
    }

    /// Choosing changes nothing but who has chosen what.
    pub proof fn lemma_claims_touch_little(rows: Seq<Row>, start: Seq<Row>, n: int)
        requires
            rows.len() == start.len(),
        ensures
            Self::claimed(rows, start, n).len() == rows.len(),
            forall|i: int|
                0 <= i < rows.len() ==> Self::differs_by_choice(
                    #[trigger] Self::claimed(rows, start, n)[i],
                    rows[i],
                ),
        decreases n,
    {
        if 0 < n <= start.len() {
            Self::lemma_claims_touch_little(rows, start, n - 1);
            let before = Self::claimed(rows, start, n - 1);
            Self::lemma_first_unclaimed(before, 0);
            let after = Self::claimed(rows, start, n);
            assert forall|i: int| 0 <= i < rows.len() implies Self::differs_by_choice(
                #[trigger] after[i],
                rows[i],
            ) by {
                assert(Self::differs_by_choice(before[i], rows[i]));
                assert(Self::differs_by_choice(after[i], before[i]));
            }
        }
    }

    /// Choosing neither adds nor removes an entity or a component.
    pub proof fn lemma_claimed_keeps_entities(rows: Seq<Row>, start: Seq<Row>, n: int)
        requires
            rows.len() == start.len(),
        ensures
            same_entities(Self::claimed(rows, start, n), rows),
    {
        Self::lemma_claims_touch_little(rows, start, n);
        let after = Self::claimed(rows, start, n);
        assert forall|i: int| 0 <= i < after.len() implies (#[trigger] after[i]).id == rows[i].id
            && after[i].components.same_shape(rows[i].components) by {
            assert(Self::differs_by_choice(after[i], rows[i]));
        }
    }

    /// The turns of the birds neither add nor remove an entity or a
    /// component.
    pub proof fn lemma_keeps_entities(rows: Seq<Row>, previous: Seq<Row>, width: i64)
        ensures
            same_entities(Self::ran(rows, previous, width), rows),
    {
        let turned = Self::turned(rows, width);
        let claimed = Self::claimed(turned, rows, rows.len() as int);
        let ran = Self::ran(rows, previous, width);
        assert(same_entities(turned, rows));
        Self::lemma_claimed_keeps_entities(turned, rows, rows.len() as int);
        assert forall|i: int| 0 <= i < ran.len() implies (#[trigger] ran[i]).id == claimed[i].id
            && ran[i].components.same_shape(claimed[i].components) by {
            Self::lemma_last_carrier(rows, claimed[i].id, rows.len() as int);
        }
        assert(same_entities(ran, claimed));
        lemma_same_entities_chain(ran, claimed, turned);
        lemma_same_entities_chain(ran, turned, rows);
    }

    /// Whether the two points are less than one pixel apart along both axes.
    pub fn is_near(a: &Point2, b: &Point2) -> (r: bool)
        ensures
            r == Self::near(*a, *b),
    {
        let dx: i128 = (a.x as i128) - (b.x as i128);
        let dy: i128 = (a.y as i128) - (b.y as i128);
        -(UNIT as i128) < dx && dx < (UNIT as i128) && -(UNIT as i128) < dy && dy < (UNIT as i128)
    }

    /// Counts the grab timer down by one frame.
    pub fn tick(t: i32) -> (r: i32)
        ensures
            r == Self::ticked(t),
    {
        if t == 0 || t == i32::MIN {
            t
        } else {
            t - 1
        }
    }

    /// Computes what the bird in row `i` does to itself.
    fn take_turn(rows: &Vec<Row>, i: usize, width: i64) -> (r: Components)
        requires
            i < rows.len(),
        ensures
            r == Self::turn(rows@, i as int, width),
    {
        let c = rows[i].components;
        match (c.position, c.motion, c.bird) {
            (Some(position), Some(m), Some(b)) => {
                if !b.is_active() {
                    return c;
                }
                let p = position.0;
                let v = m.velocity;
                let margin: i128 = (width as i128) - (RIGHT_MARGIN as i128);
                match b.state {
                    BirdState::Entry => {
                        if (p.x as i128) < margin {
                            Components { bird: Some(Bird { state: BirdState::Seeking, ..b }), ..c }
                        } else {
                            c
                        }
                    },
                    BirdState::Seeking => {
                        if (p.x < LEFT_BOUND && v.x < 0) || ((p.x as i128) > margin && v.x > 0) {
                            Components {
                                motion: Some(
                                    Motion {
                                        velocity: Vector2 { x: minus(0, v.x), y: v.y },
                                        acceleration: m.acceleration,
                                    },
                                ),
                                ..c
                            }
                        } else {
                            c
                        }
                    },
                    BirdState::Reaching(e) => {
                        let target = match locate(rows, e) {
                            Some(k) => rows[k].components.position,
                            None => None,
                        };
                        match target {
                            Some(t) => {
                                if Self::is_near(&p, &t.0) {
                                    Components {
                                        motion: Some(
                                            Motion {
                                                velocity: Vector2 { x: 0, y: 0 },
                                                acceleration: m.acceleration,
                                            },
                                        ),
                                        bird: Some(Bird { state: BirdState::Grabbing(e), ..b }),
                                        ..c
                                    }
                                } else {
                                    Components {
                                        motion: Some(
                                            Motion {
                                                velocity: t.0.offset(p).resize(REACH_SPEED),
                                                acceleration: m.acceleration,
                                            },
                                        ),
                                        ..c
                                    }
                                }
                            },
                            None => c,
                        }
                    },
                    BirdState::Grabbing(e) => {
                        let t = Self::tick(b.grab_timer);
                        let state = if t == 0 {
                            BirdState::Bringing(e)
                        } else {
                            BirdState::Grabbing(e)
                        };
                        Components {
                            bird: Some(Bird { state, grab_timer: t, is_active: b.is_active }),
                            ..c
                        }
                    },
                    BirdState::Bringing(e) => {
                        if Self::cone_exists(rows, e) {
                            Components {
                                motion: Some(
                                    Motion {
                                        velocity: Vector2 { x: CARRY_X, y: CARRY_Y },
                                        acceleration: m.acceleration,
                                    },
                                ),
                                ..c
                            }
                        } else {
                            c
                        }
                    },
                }
            },
            _ => c,
        }
    }

    /// Whether the entity `id` exists and is a pine cone.
    fn cone_exists(rows: &Vec<Row>, id: Entity) -> (b: bool)
        ensures
            b == Self::has_cone(rows@, id),
    {
        match locate(rows, id) {
            Some(k) => rows[k].components.matubokkuri.is_some(),
            None => false,
        }
    }

    /// Whether the entity is a bird that looks for a pine cone.
    fn is_seeking(c: &Components) -> (b: bool)
        ensures
            b == Self::seeks(*c),
    {
        match (c.position, c.motion, c.bird) {
            (Some(_), Some(_), Some(b)) => b.is_active() && match b.state {
                BirdState::Seeking => true,
                _ => false,
            },
            _ => false,
        }
    }

    /// Looks for the first unclaimed pine cone.
    fn find_unclaimed(rows: &Vec<Row>) -> (found: Option<usize>)
        ensures
            match found {
                Some(k) => Self::first_unclaimed(rows@, 0) == Some(k as int) && k < rows.len(),
                None => Self::first_unclaimed(rows@, 0) is None,
            },
    {
        let n = rows.len();
        let mut i: usize = 0;
        while i < n
            invariant
                i <= n,
                n == rows.len(),
                Self::first_unclaimed(rows@, 0) == Self::first_unclaimed(rows@, i as int),
            decreases n - i,
        {
            match rows[i].components.matubokkuri {
                Some(m) => {
                    if !m.is_active() && !m.is_target {
                        return Some(i);
                    }
                },
                None => {},
            }
            i += 1;
        }
        None
    }

    /// Lets the seeking birds choose, one after the other.
    fn choose_targets(rows: &mut Vec<Row>, start: &Vec<Row>)
        requires
            old(rows).len() == start.len(),
        ensures
            final(rows)@ == Self::claimed(old(rows)@, start@, start.len() as int),
    {
        let ghost before = rows@;
        let n = start.len();
        let mut i: usize = 0;
        while i < n
            invariant
                i <= n,
                n == start.len(),
                rows.len() == n,
                rows@ == Self::claimed(before, start@, i as int),
            decreases n - i,
        {
            if Self::is_seeking(&start[i].components) {
                match Self::find_unclaimed(rows) {
                    Some(k) => {
                        let cone = rows[k];
                        let matubokkuri = match cone.components.matubokkuri {
                            Some(m) => Some(Matubokkuri { is_target: true, ..m }),
                            None => None,
                        };
                        rows.set(
                            k,
                            Row { components: Components { matubokkuri, ..cone.components }, ..cone },
                        );
                        let hunter = rows[i];
                        let bird = match hunter.components.bird {
                            Some(b) => Some(Bird { state: BirdState::Reaching(cone.id), ..b }),
                            None => None,
                        };
                        rows.set(
                            i,
                            Row { components: Components { bird, ..hunter.components }, ..hunter },
                        );
                    },
                    None => {},
                }
            }
            i += 1;
        }
    }

    /// Looks for the last bird that carries the pine cone `id`.
    fn find_carrier(start: &Vec<Row>, id: Entity) -> (found: Option<usize>)
        ensures
            match found {
                Some(j) => Self::last_carrier(start@, id, start.len() as int) == Some(j as int)
                    && j < start.len(),
                None => Self::last_carrier(start@, id, start.len() as int) is None,
            },
    {
        if !Self::cone_exists(start, id) {
            proof {
                Self::lemma_no_cone_no_carrier(start@, id, start.len() as int);
            }
            return None;
        }
        let n = start.len();
        let mut j: usize = n;
        while j > 0
            invariant
                j <= n,
                n == start.len(),
                Self::has_cone(start@, id),
                Self::last_carrier(start@, id, n as int) == Self::last_carrier(
                    start@,
                    id,
                    j as int,
                ),
            decreases j,
        {
            let c = start[j - 1].components;
            match (c.position, c.motion, c.bird) {
                (Some(_), Some(_), Some(b)) => {
                    if b.is_active() {
                        match b.state {
                            BirdState::Bringing(e) => {
                                if e == id {
                                    return Some(j - 1);
                                }
                            },
                            _ => {},
                        }
                    }
                },
                _ => {},
            }
            j -= 1;
        }
        None
    }

    /// Nothing carries an entity that is not a pine cone.
    proof fn lemma_no_cone_no_carrier(start: Seq<Row>, id: Entity, upto: int)
        requires
            !Self::has_cone(start, id),
        ensures
            Self::last_carrier(start, id, upto) is None,
        decreases upto,
    {
        if upto > 0 && upto <= start.len() {
            Self::lemma_no_cone_no_carrier(start, id, upto - 1);
        }
    }

    /// Moves what the birds carry.
    fn carry(rows: &Vec<Row>, start: &Vec<Row>, previous: &Vec<Row>) -> (out: Vec<Row>)
        ensures
            out@ == each(rows@, |r: Row| Self::carried(r, start@, previous@)),
    {
        let n = rows.len();
        let mut out: Vec<Row> = Vec::new();
        let mut k: usize = 0;
        while k < n
            invariant
                k <= n,
                n == rows.len(),
                out.len() == k,
                forall|a: int| 0 <= a < k ==> out[a] == Self::carried(rows[a], start@, previous@),
            decreases n - k,
        {
            let r = rows[k];
            match Self::find_carrier(start, r.id) {
                Some(j) => {
                    let before = match locate(previous, start[j].id) {
                        Some(k) => previous[k].components.position,
                        None => None,
                    };
                    let position = match (r.components.position, before) {
                        (Some(_), Some(q)) => Some(q),
                        (p, _) => p,
                    };
                    let matubokkuri = match r.components.matubokkuri {
                        Some(m) => Some(Matubokkuri { is_bringing: true, ..m }),
                        None => None,
                    };
                    out.push(
                        Row {
                            components: Components { position, matubokkuri, ..r.components },
                            ..r
                        },
                    );
                },
                None => {
                    out.push(r);
                },
            }
            k += 1;
        }
        assert(out@ =~= each(rows@, |r: Row| Self::carried(r, start@, previous@)));
        out
    }

    /// Lets every bird act on itself.
    fn turn_all(rows: &Vec<Row>, width: i64) -> (out: Vec<Row>)
        ensures
            out@ == Self::turned(rows@, width),
    {
        let n = rows.len();
        let mut out: Vec<Row> = Vec::new();
        let mut i: usize = 0;
        while i < n
            invariant
                i <= n,
                n == rows.len(),
                out.len() == i,
                forall|a: int|
                    0 <= a < i ==> out[a] == (Row {
                        components: Self::turn(rows@, a, width),
                        ..rows[a]
                    }),
            decreases n - i,
        {
            out.push(Row { components: Self::take_turn(rows, i, width), ..rows[i] });
            i += 1;
        }
        assert(out@ =~= Self::turned(rows@, width));
        out
    }

    /// Lets every active bird take its turn, in the order of the table.
    /// `previous` is the table as it was before the motion of this frame.
    pub fn run(&mut self, rows: &mut Vec<Row>, previous: &Vec<Row>, window_mode: &WindowMode)
        ensures
            final(rows)@ == Self::ran(old(rows)@, previous@, window_mode.width),
            same_entities(final(rows)@, old(rows)@),
    {
        proof {
            Self::lemma_keeps_entities(rows@, previous@, window_mode.width);
        }
        let mut next = Self::turn_all(rows, window_mode.width);
        Self::choose_targets(&mut next, rows);
        let out = Self::carry(&next, rows, previous);
        *rows = out;
    }
}

} // verus!
