//! The level: one frame of the game after the other.

use vstd::prelude::*;
use crate::components::{
    lemma_same_entities_chain, same_entities, Bird, BirdState, Bullet, Components, Entity,
    GameState, Matubokkuri, Motion, Position, Row, Score,
};
use crate::systems::{
    each, partly, BirdSystem, BulletManagementSystem, CollisionSystem, MatubokkuriSystem,
    MovementSystem, WindowMode,
};
use crate::table::{admitted, distinct, survivors, Store};
use crate::types::{clamp, plus, Point2, Vector2, UNIT};

verus! {

/// What the player's mouse does in one frame.
#[derive(Clone, Copy, Debug, PartialEq, Eq, Structural)]
pub struct Mouse {
    pub left: bool,
    pub right: bool,
    pub position: Point2,
}

/// A shot leaves a pine cone this far right of and below its position.
pub const MUZZLE: i64 = 25_000;

/// Speed of a shot.
pub const SHOT_SPEED: u32 = 3_000;

/// A bird arrives whenever the timer has counted this many frames.
pub const BIRD_SPAWN_TIME: i32 = 180;

/// A bird arrives this far from the left edge,
pub const BIRD_X: i64 = 800_000;

/// this far below the upper edge,
pub const BIRD_Y: i64 = 200_000;

/// and flies to the left at this speed.
pub const BIRD_SPEED: i64 = -2_000;

/// The game is over when this many pine cones have landed.
pub const FALL_LIMIT: u32 = 10;

/// The table after the five systems have run on it, in their fixed order:
/// motion, pine cones, shots, collisions, birds. The birds put what they
/// carry where they were at the start of the frame.
pub open spec fn dispatched(start: Seq<Row>, window_mode: WindowMode) -> Seq<Row> {
    BirdSystem::ran(
        CollisionSystem::settled(
            BulletManagementSystem::swept(
                MatubokkuriSystem::dropped(MovementSystem::advanced(start), window_mode.height),
                window_mode,
            ),
            window_mode.height,
        ),
        start,
        window_mode.width,
    )
}

/// A pine cone lands in the frame that starts with the table `start`.
pub open spec fn landing(start: Seq<Row>, window_mode: WindowMode) -> bool {
    MatubokkuriSystem::any_landing(MovementSystem::advanced(start), window_mode.height)
}

/// A copy of the table.
fn copy(rows: &Vec<Row>) -> (out: Vec<Row>)
    ensures
        out@ == rows@,
{
    let n = rows.len();
    let mut out: Vec<Row> = Vec::new();
    let mut i: usize = 0;
    while i < n
        invariant
            i <= n,
            n == rows.len(),
            out@ == rows@.take(i as int),
        decreases n - i,
    {
        out.push(rows[i]);
        assert(out@ =~= rows@.take(i + 1));
        i += 1;
    }
    assert(rows@.take(n as int) =~= rows@);
    out
}

/// Runs the five systems in their order.
pub fn dispatch(
    rows: &mut Vec<Row>,
    pending: &mut Vec<Components>,
    game_state: &mut GameState,
    window_mode: &WindowMode,
)
    ensures
        final(rows)@ == dispatched(old(rows)@, *window_mode),
        same_entities(final(rows)@, old(rows)@),
        landing(old(rows)@, *window_mode) ==> {
            &&& final(pending)@ == old(pending)@.push(MatubokkuriSystem::replacement())
            &&& *final(game_state) == MatubokkuriSystem::counted(*old(game_state))
        },
        !landing(old(rows)@, *window_mode) ==> {
            &&& final(pending)@ == old(pending)@
            &&& *final(game_state) == *old(game_state)
        },
{
    let ghost start = rows@;
    let previous = copy(rows);
    let mut movement = MovementSystem;
    movement.run(rows);
    let ghost moved = rows@;
    let mut matubokkuri = MatubokkuriSystem;
    matubokkuri.run(rows, pending, game_state, window_mode);
    let ghost dropped = rows@;
    let mut bullets = BulletManagementSystem;
    bullets.run(rows, window_mode);
    let ghost swept = rows@;
    let mut collision = CollisionSystem;
    collision.run(rows, window_mode);
    let ghost settled = rows@;
    let mut birds = BirdSystem;
    birds.run(rows, &previous, window_mode);
    proof {
        lemma_same_entities_chain(dropped, moved, start);
        lemma_same_entities_chain(swept, dropped, start);
        lemma_same_entities_chain(settled, swept, start);
        lemma_same_entities_chain(rows@, settled, start);
    }
}

/// Where the shot of the pine cone at `p` starts.
pub open spec fn muzzle(p: Point2) -> Point2 {
    Point2 { x: clamp(p.x + MUZZLE), y: clamp(p.y + MUZZLE) }
}

/// The shot that the pine cone at `p` fires at `aim`.
pub open spec fn shot_from(p: Point2, aim: Point2) -> Components {
    Components {
        position: Some(Position(muzzle(p))),
        motion: Some(
            Motion {
                velocity: aim.offset_from(muzzle(p)).resized(SHOT_SPEED),
                acceleration: Vector2 { x: 0, y: 0 },
            },
        ),
        matubokkuri: None,
        bullet: Some(Bullet { is_active: true }),
        bird: None,
    }
}

/// The entity is a falling pine cone with a position: it shoots.
pub open spec fn shoots(c: Components) -> bool {
    c.matubokkuri is Some && c.position is Some && c.matubokkuri.unwrap().is_active
}

/// The shots that the pine cones among the first `n` rows fire at `aim`.
pub open spec fn shots(rows: Seq<Row>, aim: Point2, n: int) -> Seq<Components>
    decreases n,
{
    if n <= 0 || n > rows.len() {
        Seq::empty()
    } else if shoots(rows[n - 1].components) {
        shots(rows, aim, n - 1).push(
            shot_from(rows[n - 1].components.position.unwrap().0, aim),
        )
    } else {
        shots(rows, aim, n - 1)
    }
}

/// Queues one shot at `aim` from every falling pine cone.
pub fn shot_bullet(rows: &Vec<Row>, aim: Point2, pending: &mut Vec<Components>)
    ensures
        final(pending)@ == old(pending)@ + shots(rows@, aim, rows.len() as int),
{
    let n = rows.len();
    let mut i: usize = 0;
    assert(pending@ =~= old(pending)@ + shots(rows@, aim, 0));
    while i < n
        invariant
            i <= n,
            n == rows.len(),
            pending@ == old(pending)@ + shots(rows@, aim, i as int),
        decreases n - i,
    {
        let c = rows[i].components;
        match (c.matubokkuri, c.position) {
            (Some(m), Some(p)) => {
                if m.is_active() {
                    let from = Point2 { x: plus(p.0.x, MUZZLE), y: plus(p.0.y, MUZZLE) };
                    pending.push(
                        Components {
                            position: Some(Position(from)),
                            motion: Some(
                                Motion {
                                    velocity: aim.offset(from).resize(SHOT_SPEED),
                                    acceleration: Vector2 { x: 0, y: 0 },
                                },
                            ),
                            matubokkuri: None,
                            bullet: Some(Bullet::default()),
                            bird: None,
                        },
                    );
                }
            },
            _ => {},
        }
        assert(pending@ =~= old(pending)@ + shots(rows@, aim, i + 1));
        i += 1;
    }
}

/// The row with its pine cone open or closed.
pub open spec fn opened(r: Row, open: bool) -> Row {
    Row {
        components: Components {
            matubokkuri: match r.components.matubokkuri {
                Some(m) => Some(Matubokkuri { is_open: open, ..m }),
                None => None,
            },
            ..r.components
        },
        ..r
    }
}

/// The table with every pine cone open or closed.
pub open spec fn all_opened(rows: Seq<Row>, open: bool) -> Seq<Row> {
    each(rows, |r: Row| opened(r, open))
}

/// Opens or closes every pine cone.
pub fn set_open(rows: &mut Vec<Row>, open: bool)
    ensures
        final(rows)@ == all_opened(old(rows)@, open),
        same_entities(final(rows)@, old(rows)@),
{
    let ghost before = rows@;
    let ghost f = |r: Row| opened(r, open);
    let n = rows.len();
    let mut i: usize = 0;
    while i < n
        invariant
            i <= n,
            n == before.len(),
            rows@ == partly(before, i as int, f),
            f == (|r: Row| opened(r, open)),
        decreases n - i,
    {
        let r = rows[i];
        let matubokkuri = match r.components.matubokkuri {
            Some(m) => Some(Matubokkuri { is_open: open, ..m }),
            None => None,
        };
        rows.set(i, Row { components: Components { matubokkuri, ..r.components }, ..r });
        assert(rows@ =~= partly(before, i + 1, f));
        i += 1;
    }
    assert(rows@ =~= each(before, f));
}

/// The pine cones are open exactly while the right button is held and the
/// left one is not.
pub open spec fn wants_open(mouse: Mouse) -> bool {
    !mouse.left && mouse.right
}

/// Applies the mouse to the table: the left button fires a shot from every
/// falling pine cone, and the buttons open or close the pine cones.
pub fn handle_mouse(rows: &mut Vec<Row>, pending: &mut Vec<Components>, mouse: &Mouse)
    ensures
        final(rows)@ == all_opened(old(rows)@, wants_open(*mouse)),
        same_entities(final(rows)@, old(rows)@),
        final(pending)@ == if mouse.left {
            old(pending)@ + shots(old(rows)@, mouse.position, old(rows).len() as int)
        } else {
            old(pending)@
        },
{
    if mouse.left {
        shot_bullet(rows, mouse.position, pending);
        set_open(rows, false);
    } else if mouse.right {
        set_open(rows, true);
    } else {
        set_open(rows, false);
    }
}

/// The entity is a landed pine cone that no bird is carrying: it counts for
/// the score.
pub open spec fn counts(c: Components) -> bool {
    &&& c.matubokkuri is Some
    &&& c.position is Some
    &&& !c.matubokkuri.unwrap().is_active
    &&& !c.matubokkuri.unwrap().is_bringing
}

/// The sum of the horizontal positions of the pine cones that count, among
/// the first `n` rows.
pub open spec fn total(rows: Seq<Row>, n: int) -> int
    decreases n,
{
    if n <= 0 || n > rows.len() {
        0
    } else if counts(rows[n - 1].components) {
        total(rows, n - 1) + rows[n - 1].components.position.unwrap().0.x
    } else {
        total(rows, n - 1)
    }
}

/// A coordinate in whole pixels, rounded toward zero.
pub open spec fn whole_pixels(v: int) -> int {
    if v >= 0 {
        v / (UNIT as int)
    } else {
        -((-v) / (UNIT as int))
    }
}

/// The score of a table: the sum of the horizontal positions of the pine
/// cones that count, in whole pixels. A sum that an `i32` cannot hold is
/// replaced by the nearest number that it can.
pub open spec fn score_of(rows: Seq<Row>) -> i32 {
    let pixels = whole_pixels(total(rows, rows.len() as int));
    if pixels > i32::MAX {
        i32::MAX
    } else if pixels < i32::MIN {
        i32::MIN
    } else {
        pixels as i32
    }
}

/// Computes the score of a table.
pub fn tally(rows: &Vec<Row>) -> (score: i32)
    ensures
        score == score_of(rows@),
{
    let n = rows.len();
    let mut sum: i128 = 0;
    let mut i: usize = 0;
    while i < n
        invariant
            i <= n,
            n == rows.len(),
            sum == total(rows@, i as int),
            -(i * 0x8000_0000_0000_0000) <= sum <= i * 0x8000_0000_0000_0000,
        decreases n - i,
    {
        let c = rows[i].components;
        assert((i + 1) * 0x8000_0000_0000_0000 <= 0x7fff_ffff_ffff_ffff_8000_0000_0000_0000)
            by (nonlinear_arith)
            requires
                i + 1 <= 0xffff_ffff_ffff_ffff,
        ;
        assert((i + 1) * 0x8000_0000_0000_0000 == i * 0x8000_0000_0000_0000
            + 0x8000_0000_0000_0000) by (nonlinear_arith);
        match (c.matubokkuri, c.position) {
            (Some(m), Some(p)) => {
                if !m.is_active() && !m.is_bringing {
                    sum = sum + (p.0.x as i128);
                }
            },
            _ => {},
        }
        i += 1;
    }
    let magnitude: u128 = if sum >= 0 {
        sum as u128
    } else {
        (-sum) as u128
    };
    let pixels: u128 = magnitude / (UNIT as u128);
    if sum >= 0 {
        if pixels > i32::MAX as u128 {
            i32::MAX
        } else {
            pixels as i32
        }
    } else {
        if pixels > 0x8000_0000 {
            i32::MIN
        } else {
            (-(pixels as i64)) as i32
        }
    }
}

/// The bird that arrives when the timer has run out.
pub open spec fn arriving_bird() -> Components {
    Components {
        position: Some(Position(Point2 { x: BIRD_X, y: BIRD_Y })),
        motion: Some(
            Motion {
                velocity: Vector2 { x: BIRD_SPEED, y: 0 },
                acceleration: Vector2 { x: 0, y: 0 },
            },
        ),
        matubokkuri: None,
        bullet: None,
        bird: Some(Bird { state: BirdState::Entry, grab_timer: 100, is_active: true }),
    }
}

/// Makes the bird that arrives when the timer has run out.
pub fn new_bird() -> (c: Components)
    ensures
        c == arriving_bird(),
{
    Components {
        position: Some(Position(Point2 { x: BIRD_X, y: BIRD_Y })),
        motion: Some(
            Motion {
                velocity: Vector2 { x: BIRD_SPEED, y: 0 },
                acceleration: Vector2 { x: 0, y: 0 },
            },
        ),
        matubokkuri: None,
        bullet: None,
        bird: Some(Bird::default()),
    }
}

/// The entities that the frame queues: a new pine cone if one has landed,
/// the shots if the left button is held, and a bird if the timer has run
/// out. `rows` is the table after the systems have run.
pub open spec fn arrivals(
    landed: bool,
    rows: Seq<Row>,
    mouse: Mouse,
    bird_timer: i32,
) -> Seq<Components> {
    let cones = if landed {
        seq![MatubokkuriSystem::replacement()]
    } else {
        Seq::empty()
    };
    let fired = if mouse.left {
        cones + shots(rows, mouse.position, rows.len() as int)
    } else {
        cones
    };
    if bird_timer == BIRD_SPAWN_TIME {
        fired.push(arriving_bird())
    } else {
        fired
    }
}

/// The level of the game.
pub struct LevelScene {
    done: bool,
    bird_timer: i32,
    store: Store,
    pending: Vec<Components>,
    score: Score,
    game_state: GameState,
}

impl LevelScene {
    /// The store of the scene is sound, and the timer is in its range.
    pub closed spec fn wf(&self) -> bool {
        self.store.wf() && 0 <= self.bird_timer <= BIRD_SPAWN_TIME
    }

    /// The table of the scene as it stands between two frames.
    pub closed spec fn table(&self) -> Seq<Row> {
        self.store.rows()
    }

    /// The number of entities that the scene can still create.
    pub closed spec fn room(&self) -> nat {
        self.store.room()
    }

    /// How many of the queued entities the next commit lets in: all of them,
    /// as long as there is room.
    pub open spec fn intake(&self) -> int {
        if self.queue().len() <= self.room() {
            self.queue().len() as int
        } else {
            self.room() as int
        }
    }

    /// The entities that enter the table at the next commit.
    pub closed spec fn queue(&self) -> Seq<Components> {
        self.pending@
    }

    /// The frames since the last bird arrived.
    pub closed spec fn timer(&self) -> i32 {
        self.bird_timer
    }

    /// The score after the last frame.
    pub closed spec fn points(&self) -> Score {
        self.score
    }

    /// The count of the landings.
    pub closed spec fn state(&self) -> GameState {
        self.game_state
    }

    /// The game is over.
    pub closed spec fn over(&self) -> bool {
        self.done
    }

    /// `self` is the scene one frame after `before`, where `start` is the
    /// table of `before` after the commit. What the commit could not let in
    /// stays queued, in front of what the frame queues.
    pub open spec fn follows(
        &self,
        before: &LevelScene,
        start: Seq<Row>,
        mouse: Mouse,
        window_mode: WindowMode,
    ) -> bool {
        let rows = dispatched(start, window_mode);
        let landed = landing(start, window_mode);
        &&& self.table() == all_opened(rows, wants_open(mouse))
        &&& self.queue() == before.queue().skip(before.intake()) + arrivals(
            landed,
            rows,
            mouse,
            before.timer(),
        )
        &&& self.room() == before.room() - before.intake()
        &&& self.timer() == if before.timer() == BIRD_SPAWN_TIME {
            0
        } else {
            (before.timer() + 1) as i32
        }
        &&& self.state() == if landed {
            MatubokkuriSystem::counted(before.state())
        } else {
            before.state()
        }
        &&& self.points() == (Score { score: score_of(self.table()) })
        &&& self.over() == (before.over() || self.state().matubokkuri_fall == FALL_LIMIT)
    }

    /// A level in which the first pine cone is about to fall.
    pub fn new() -> (scene: LevelScene)
        ensures
            scene.wf(),
            scene.table() == Seq::<Row>::empty(),
            scene.queue() == seq![MatubokkuriSystem::replacement()],
            scene.room() == crate::store::CAPACITY,
            scene.timer() == 0,
            scene.points() == (Score { score: 0 }),
            scene.state() == (GameState { matubokkuri_fall: 0 }),
            !scene.over(),
    {
        let store = Store::new();
        let mut pending: Vec<Components> = Vec::new();
        pending.push(MatubokkuriSystem::new_matubokkuri());
        assert(pending@ =~= seq![MatubokkuriSystem::replacement()]);
        LevelScene {
            done: false,
            bird_timer: 0,
            store,
            pending,
            score: Score::default(),
            game_state: GameState::default(),
        }
    }

    /// Queues an entity. It enters the table at the next commit.
    pub fn spawn(&mut self, components: Components)
        requires
            old(self).wf(),
        ensures
            final(self).wf(),
            final(self).queue() == old(self).queue().push(components),
            final(self).table() == old(self).table(),
            final(self).room() == old(self).room(),
            final(self).timer() == old(self).timer(),
            final(self).points() == old(self).points(),
            final(self).state() == old(self).state(),
            final(self).over() == old(self).over(),
    {
        self.pending.push(components);
    }

    /// The menu button ends the game.
    pub fn input(&mut self, menu: bool)
        requires
            old(self).wf(),
        ensures
            final(self).wf(),
            final(self).over() == (old(self).over() || menu),
            final(self).queue() == old(self).queue(),
            final(self).table() == old(self).table(),
            final(self).room() == old(self).room(),
            final(self).timer() == old(self).timer(),
            final(self).points() == old(self).points(),
            final(self).state() == old(self).state(),
    {
        if menu {
            self.done = true;
        }
    }

    /// The score after the last frame.
    pub fn score(&self) -> (s: i32)
        ensures
            s == self.points().score,
    {
        self.score.score
    }

    /// How many pine cones have landed.
    pub fn falls(&self) -> (n: u32)
        ensures
            n == self.state().matubokkuri_fall,
    {
        self.game_state.matubokkuri_fall
    }

    /// Whether the game is over.
    pub fn is_done(&self) -> (b: bool)
        ensures
            b == self.over(),
    {
        self.done
    }

    /// The entities of the scene with their components, for whoever draws
    /// them.
    pub fn entities(&self) -> (list: Vec<(Entity, Components)>)
        requires
            self.wf(),
        ensures
            list.len() == self.table().len(),
            forall|i: int|
                0 <= i < list.len() ==> (#[trigger] list[i]).0 == self.table()[i].id && list[i].1
                    == self.table()[i].components,
    {
        self.store.entities()
    }

    /// The entities that wait for the next commit.
    pub fn queued(&self) -> (list: &Vec<Components>)
        ensures
            list@ == self.queue(),
    {
        &self.pending
    }

    /// One frame: the commit, the five systems, the mouse, the arrival of a
    /// bird, the score, and the end of the game. Returns the final score once
    /// the game is over.
    pub fn update(&mut self, mouse: &Mouse, window_mode: &WindowMode) -> (report: Option<i32>)
        requires
            old(self).wf(),
        ensures
            final(self).wf(),
            exists|start: Seq<Row>|
                {
                    &&& #[trigger] admitted(
                        survivors(old(self).table()),
                        old(self).queue().take(old(self).intake()),
                        start,
                    )
                    &&& final(self).follows(old(self), start, *mouse, *window_mode)
                },
            report == if final(self).over() {
                Some(final(self).points().score)
            } else {
                None::<i32>
            },
    {
        self.store.commit(&mut self.pending);
        let ghost leftover = self.pending@;
        let mut rows = self.store.load();
        let ghost start = rows@;
        dispatch(&mut rows, &mut self.pending, &mut self.game_state, window_mode);
        let ghost ran = rows@;
        handle_mouse(&mut rows, &mut self.pending, mouse);
        proof {
            lemma_same_entities_chain(rows@, ran, start);
            assert(distinct(rows@)) by {
                assert forall|i: int, j: int| 0 <= i < j < rows.len() implies rows[i].id.index
                    != rows[j].id.index by {
                    assert(rows[i].id == start[i].id && rows[j].id == start[j].id);
                }
            }
        }
        self.store.save(&rows);
        if self.bird_timer == BIRD_SPAWN_TIME {
            self.pending.push(new_bird());
            self.bird_timer = 0;
        } else {
            self.bird_timer = self.bird_timer + 1;
        }
        self.score.score = tally(&rows);
        if self.game_state.matubokkuri_fall == FALL_LIMIT {
            self.done = true;
        }
        proof {
            assert(self.pending@ =~= leftover + arrivals(
                landing(start, *window_mode),
                ran,
                *mouse,
                old(self).bird_timer,
            ));
            assert(admitted(
                survivors(old(self).table()),
                old(self).queue().take(old(self).intake()),
                start,
            ));
            assert(self.follows(old(self), start, *mouse, *window_mode));
        }
        if self.done {
            Some(self.score.score)
        } else {
            None
        }
    }
}

} // verus!
