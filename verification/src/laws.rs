//! What holds of the systems on every table.

use vstd::prelude::*;
use crate::components::{BirdState, Components, Entity, GameState, Row};
use crate::scenes::level::{
    all_opened, arrivals, arriving_bird, counts, dispatched, landing, score_of, shots, total,
    whole_pixels, Mouse,
};
use crate::table::{admitted, newcomer, survivors};
use crate::systems::{
    BirdSystem, BulletManagementSystem, CollisionSystem, MatubokkuriSystem, MovementSystem,
    WindowMode, BIRD_WIDTH, RIGHT_MARGIN,
};
use crate::types::Point2;

verus! {

/// One step of motion adds the velocity to the position and the acceleration
/// to the velocity, as long as the sums are coordinates.
pub proof fn law_motion_adds(c: Components)
    requires
        c.position is Some,
        c.motion is Some,
        i64::MIN <= c.position.unwrap().0.x + c.motion.unwrap().velocity.x <= i64::MAX,
        i64::MIN <= c.position.unwrap().0.y + c.motion.unwrap().velocity.y <= i64::MAX,
        i64::MIN <= c.motion.unwrap().velocity.x + c.motion.unwrap().acceleration.x <= i64::MAX,
        i64::MIN <= c.motion.unwrap().velocity.y + c.motion.unwrap().acceleration.y <= i64::MAX,
    ensures
        MovementSystem::step(c).position.unwrap().0.x == c.position.unwrap().0.x
            + c.motion.unwrap().velocity.x,
        MovementSystem::step(c).position.unwrap().0.y == c.position.unwrap().0.y
            + c.motion.unwrap().velocity.y,
        MovementSystem::step(c).motion.unwrap().velocity.x == c.motion.unwrap().velocity.x
            + c.motion.unwrap().acceleration.x,
        MovementSystem::step(c).motion.unwrap().velocity.y == c.motion.unwrap().velocity.y
            + c.motion.unwrap().acceleration.y,
        MovementSystem::step(c).motion.unwrap().acceleration == c.motion.unwrap().acceleration,
        MovementSystem::step(c).matubokkuri == c.matubokkuri,
        MovementSystem::step(c).bullet == c.bullet,
        MovementSystem::step(c).bird == c.bird,
{
}

/// An entity without velocity and acceleration stays as it is: motion does
/// not change it, however often it is applied.
pub proof fn law_rest_is_kept(c: Components)
    requires
        c.motion is Some ==> {
            &&& c.motion.unwrap().velocity.x == 0
            &&& c.motion.unwrap().velocity.y == 0
            &&& c.motion.unwrap().acceleration.x == 0
            &&& c.motion.unwrap().acceleration.y == 0
        },
    ensures
        MovementSystem::step(c) == c,
        MovementSystem::step(MovementSystem::step(c)) == MovementSystem::step(c),
{
}

/// Motion moves every row of a table by one step and leaves its name and
/// its mark alone.
pub proof fn law_motion_reaches_every_row(rows: Seq<Row>, i: int)
    requires
        0 <= i < rows.len(),
    ensures
        MovementSystem::advanced(rows).len() == rows.len(),
        MovementSystem::advanced(rows)[i].components == MovementSystem::step(rows[i].components),
        MovementSystem::advanced(rows)[i].id == rows[i].id,
        MovementSystem::advanced(rows)[i].deleted == rows[i].deleted,
{
}

/// The entity is a pine cone that has not landed.
pub open spec fn is_falling(c: Components) -> bool {
    c.matubokkuri is Some && c.matubokkuri.unwrap().is_active
}

/// The number of rows that are pine cones which have not landed.
pub open spec fn falling(rows: Seq<Row>) -> nat
    decreases rows.len(),
{
    if rows.len() == 0 {
        0
    } else if is_falling(rows.last().components) {
        falling(rows.drop_last()) + 1
    } else {
        falling(rows.drop_last())
    }
}

/// The number of queued entities that are pine cones which have not landed.
pub open spec fn waiting(queue: Seq<Components>) -> nat
    decreases queue.len(),
{
    if queue.len() == 0 {
        0
    } else if is_falling(queue.last()) {
        waiting(queue.drop_last()) + 1
    } else {
        waiting(queue.drop_last())
    }
}

/// The queue after the pine cones have been stepped.
pub open spec fn requeued(rows: Seq<Row>, queue: Seq<Components>, height: i64) -> Seq<
    Components,
> {
    if MatubokkuriSystem::any_landing(rows, height) {
        queue.push(MatubokkuriSystem::replacement())
    } else {
        queue
    }
}

/// No pine cone starts to fall again, and each landing leaves one fewer in
/// the air.
proof fn lemma_landings_count(rows: Seq<Row>, height: i64)
    ensures
        falling(MatubokkuriSystem::dropped(rows, height)) <= falling(rows),
        MatubokkuriSystem::any_landing(rows, height) ==> falling(
            MatubokkuriSystem::dropped(rows, height),
        ) < falling(rows),
        !MatubokkuriSystem::any_landing(rows, height) ==> falling(
            MatubokkuriSystem::dropped(rows, height),
        ) == falling(rows),
    decreases rows.len(),
{
    let after = MatubokkuriSystem::dropped(rows, height);
    if rows.len() > 0 {
        let init = rows.drop_last();
        lemma_landings_count(init, height);
        assert(after.drop_last() =~= MatubokkuriSystem::dropped(init, height));
        assert(after.last().components == MatubokkuriSystem::step(rows.last().components, height));
        if MatubokkuriSystem::any_landing(rows, height) {
            let k = choose|k: int|
                0 <= k < rows.len() && MatubokkuriSystem::lands(
                    #[trigger] rows[k].components,
                    height,
                );
            if k < rows.len() - 1 {
                assert(init[k] == rows[k]);
                assert(MatubokkuriSystem::any_landing(init, height));
            }
        }
        if MatubokkuriSystem::any_landing(init, height) {
            let k = choose|k: int|
                0 <= k < init.len() && MatubokkuriSystem::lands(
                    #[trigger] init[k].components,
                    height,
                );
            assert(rows[k] == init[k]);
        }
        if MatubokkuriSystem::lands(rows.last().components, height) {
            assert(rows[rows.len() - 1] == rows.last());
        }
    }
}

/// While exactly one pine cone is in the air or waiting to enter, stepping
/// the pine cones keeps it so: when the one lands, its replacement is queued,
/// and nothing else is.
pub proof fn law_one_cone_in_play(rows: Seq<Row>, queue: Seq<Components>, height: i64)
    requires
        falling(rows) + waiting(queue) == 1,
    ensures
        falling(MatubokkuriSystem::dropped(rows, height)) + waiting(requeued(rows, queue, height))
            == 1,
        MatubokkuriSystem::any_landing(rows, height) ==> falling(
            MatubokkuriSystem::dropped(rows, height),
        ) == 0,
{
    lemma_landings_count(rows, height);
    if MatubokkuriSystem::any_landing(rows, height) {
        let pushed = queue.push(MatubokkuriSystem::replacement());
        assert(pushed.drop_last() =~= queue);
        assert(pushed.last() == MatubokkuriSystem::replacement());
    }
}

/// A frame counts one landing, however many pine cones land in it.
pub proof fn law_one_count_per_frame(g: GameState)
    requires
        g.matubokkuri_fall < u32::MAX,
    ensures
        MatubokkuriSystem::counted(g).matubokkuri_fall == g.matubokkuri_fall + 1,
{
}

/// A shot that is inside the play area along one axis stays, wherever it is
/// along the other.
pub proof fn law_shot_stays_inside_one_axis(c: Components, window_mode: WindowMode)
    requires
        c.position is Some,
        0 <= c.position.unwrap().0.x <= window_mode.width || 0 <= c.position.unwrap().0.y
            <= window_mode.height,
    ensures
        !BulletManagementSystem::escaped(c, window_mode),
{
}

/// A shot at the position of a bird is in its box.
pub proof fn law_anchor_is_hit(bird: Point2)
    ensures
        CollisionSystem::overlaps(bird, bird),
{
}

/// A shot right of the box of a bird is not in it.
pub proof fn law_beyond_the_box(bird: Point2, shot: Point2)
    requires
        shot.x > bird.x + BIRD_WIDTH,
    ensures
        !CollisionSystem::overlaps(bird, shot),
{
}

/// Without a landed pine cone that counts, the sum of the positions is zero.
proof fn lemma_nothing_to_sum(rows: Seq<Row>, n: int)
    requires
        forall|i: int| 0 <= i < rows.len() ==> !counts(#[trigger] rows[i].components),
    ensures
        total(rows, n) == 0,
    decreases n,
{
    if 0 < n <= rows.len() {
        lemma_nothing_to_sum(rows, n - 1);
    }
}

/// As long as no pine cone has landed, the score is zero.
pub proof fn law_no_landing_no_score(rows: Seq<Row>)
    requires
        forall|i: int| 0 <= i < rows.len() ==> !counts(#[trigger] rows[i].components),
    ensures
        score_of(rows) == 0,
{
    lemma_nothing_to_sum(rows, rows.len() as int);
    assert(whole_pixels(0) == 0);
}

/// A bird that enters starts to seek in the frame in which it is left of
/// the right margin, and not before.
pub proof fn law_entry_ends_at_the_margin(rows: Seq<Row>, i: int, width: i64)
    requires
        0 <= i < rows.len(),
        BirdSystem::flies(rows[i].components),
        rows[i].components.bird.unwrap().state == BirdState::Entry,
    ensures
        BirdSystem::turn(rows, i, width).bird.unwrap().state == if rows[i].components.position.unwrap().0.x
            < width - RIGHT_MARGIN {
            BirdState::Seeking
        } else {
            BirdState::Entry
        },
        BirdSystem::turn(rows, i, width).motion == rows[i].components.motion,
        BirdSystem::turn(rows, i, width).position == rows[i].components.position,
{
}

/// A bird that grabs counts its timer down by one in each frame, and lifts
/// the pine cone in the frame in which the timer reaches zero.
pub proof fn law_grab_takes_the_timer(rows: Seq<Row>, i: int, width: i64, cone: Entity)
    requires
        0 <= i < rows.len(),
        BirdSystem::flies(rows[i].components),
        rows[i].components.bird.unwrap().state == BirdState::Grabbing(cone),
        rows[i].components.bird.unwrap().grab_timer > 0,
    ensures
        BirdSystem::turn(rows, i, width).bird.unwrap().grab_timer
            == rows[i].components.bird.unwrap().grab_timer - 1,
        BirdSystem::turn(rows, i, width).bird.unwrap().state == if rows[i].components.bird.unwrap().grab_timer
            == 1 {
            BirdState::Bringing(cone)
        } else {
            BirdState::Grabbing(cone)
        },
{
}

/// What is inactive in `before` is inactive in `after`.
pub open spec fn calmer(after: Components, before: Components) -> bool {
    &&& after.same_shape(before)
    &&& before.matubokkuri is Some && !before.matubokkuri.unwrap().is_active
        ==> !after.matubokkuri.unwrap().is_active
    &&& before.bullet is Some && !before.bullet.unwrap().is_active
        ==> !after.bullet.unwrap().is_active
    &&& before.bird is Some && !before.bird.unwrap().is_active ==> !after.bird.unwrap().is_active
}

/// The tables hold the same entities, nothing that was marked for removal is
/// unmarked, and nothing that was inactive is active.
pub open spec fn settles(after: Seq<Row>, before: Seq<Row>) -> bool {
    &&& after.len() == before.len()
    &&& forall|i: int|
        0 <= i < after.len() ==> {
            &&& (#[trigger] after[i]).id == before[i].id
            &&& before[i].deleted ==> after[i].deleted
            &&& calmer(after[i].components, before[i].components)
        }
}

proof fn lemma_settles_chain(a: Seq<Row>, b: Seq<Row>, c: Seq<Row>)
    requires
        settles(a, b),
        settles(b, c),
    ensures
        settles(a, c),
{
    assert forall|i: int| 0 <= i < a.len() implies {
        &&& (#[trigger] a[i]).id == c[i].id
        &&& c[i].deleted ==> a[i].deleted
        &&& calmer(a[i].components, c[i].components)
    } by {
        assert(b[i].id == c[i].id);
    }
}

proof fn lemma_collisions_settle(rows: Seq<Row>, height: i64)
    ensures
        settles(CollisionSystem::settled(rows, height), rows),
{
    let after = CollisionSystem::settled(rows, height);
    assert forall|i: int| 0 <= i < after.len() implies {
        &&& (#[trigger] after[i]).id == rows[i].id
        &&& rows[i].deleted ==> after[i].deleted
        &&& calmer(after[i].components, rows[i].components)
    } by {
        if CollisionSystem::shot_hits(rows, i) {
            let j = choose|j: int| CollisionSystem::meets(rows, i, j);
            assert(CollisionSystem::is_shot(rows[i].components));
        }
        if CollisionSystem::bird_falls(rows, i) {
            let j = choose|j: int| CollisionSystem::meets(rows, j, i);
            assert(CollisionSystem::is_bird(rows[i].components));
        }
    }
}

proof fn lemma_claims_settle(rows: Seq<Row>, start: Seq<Row>, n: int)
    requires
        rows.len() == start.len(),
    ensures
        settles(BirdSystem::claimed(rows, start, n), rows),
{
    BirdSystem::lemma_claims_touch_little(rows, start, n);
    let after = BirdSystem::claimed(rows, start, n);
    assert forall|i: int| 0 <= i < after.len() implies {
        &&& (#[trigger] after[i]).id == rows[i].id
        &&& rows[i].deleted ==> after[i].deleted
        &&& calmer(after[i].components, rows[i].components)
    } by {
        assert(BirdSystem::differs_by_choice(after[i], rows[i]));
    }
}

proof fn lemma_birds_settle(rows: Seq<Row>, previous: Seq<Row>, width: i64)
    ensures
        settles(BirdSystem::ran(rows, previous, width), rows),
{
    let turned = BirdSystem::turned(rows, width);
    let claimed = BirdSystem::claimed(turned, rows, rows.len() as int);
    let ran = BirdSystem::ran(rows, previous, width);
    assert(settles(turned, rows));
    lemma_claims_settle(turned, rows, rows.len() as int);
    assert forall|i: int| 0 <= i < ran.len() implies {
        &&& (#[trigger] ran[i]).id == claimed[i].id
        &&& claimed[i].deleted ==> ran[i].deleted
        &&& calmer(ran[i].components, claimed[i].components)
    } by {
        BirdSystem::lemma_last_carrier(rows, claimed[i].id, rows.len() as int);
    }
    assert(settles(ran, claimed));
    lemma_settles_chain(ran, claimed, turned);
    lemma_settles_chain(ran, turned, rows);
}

/// In the course of a frame no entity enters or leaves the table, no mark
/// for removal is taken back, and no pine cone, shot or bird that is
/// inactive becomes active again.
pub proof fn law_nothing_comes_back(start: Seq<Row>, window_mode: WindowMode, open: bool)
    ensures
        settles(dispatched(start, window_mode), start),
        settles(all_opened(dispatched(start, window_mode), open), start),
{
    let moved = MovementSystem::advanced(start);
    let dropped = MatubokkuriSystem::dropped(moved, window_mode.height);
    let swept = BulletManagementSystem::swept(dropped, window_mode);
    let settled = CollisionSystem::settled(swept, window_mode.height);
    let ran = BirdSystem::ran(settled, start, window_mode.width);
    assert(settles(moved, start));
    assert(settles(dropped, moved));
    assert(settles(swept, dropped));
    lemma_collisions_settle(swept, window_mode.height);
    lemma_birds_settle(settled, start, window_mode.width);
    lemma_settles_chain(dropped, moved, start);
    lemma_settles_chain(swept, dropped, start);
    lemma_settles_chain(settled, swept, start);
    lemma_settles_chain(ran, settled, start);
    assert(settles(all_opened(ran, open), ran));
    lemma_settles_chain(all_opened(ran, open), ran, start);
}

/// If the entity is a pine cone, it is neither a shot nor a bird.
pub open spec fn plain(c: Components) -> bool {
    c.matubokkuri is Some ==> c.bullet is None && c.bird is None
}

/// The row is in order: if it is a pine cone, it is nothing else, and it is
/// not marked for removal.
pub open spec fn tidy(r: Row) -> bool {
    plain(r.components) && (r.components.matubokkuri is Some ==> !r.deleted)
}

/// Exactly one pine cone is in the air or waiting to enter, and every row
/// and every queued entity is in order.
pub open spec fn one_cone(rows: Seq<Row>, queue: Seq<Components>) -> bool {
    &&& falling(rows) + waiting(queue) == 1
    &&& forall|i: int| 0 <= i < rows.len() ==> tidy(#[trigger] rows[i])
    &&& forall|j: int| 0 <= j < queue.len() ==> plain(#[trigger] queue[j])
}

/// Tables that agree row by row on which pine cones fall have as many of
/// them.
proof fn lemma_same_falling(after: Seq<Row>, before: Seq<Row>)
    requires
        after.len() == before.len(),
        forall|i: int|
            0 <= i < after.len() ==> is_falling((#[trigger] after[i]).components) == is_falling(
                before[i].components,
            ),
    ensures
        falling(after) == falling(before),
    decreases after.len(),
{
    if after.len() > 0 {
        assert(after.last() == after[after.len() - 1]);
        assert(before.last() == before[before.len() - 1]);
        assert forall|i: int| 0 <= i < after.drop_last().len() implies is_falling(
            (#[trigger] after.drop_last()[i]).components,
        ) == is_falling(before.drop_last()[i].components) by {
            assert(after.drop_last()[i] == after[i]);
            assert(before.drop_last()[i] == before[i]);
        }
        lemma_same_falling(after.drop_last(), before.drop_last());
    }
}

/// A new row adds itself to the pine cones that fall, if it is one.
proof fn lemma_falling_with(rows: Seq<Row>, k: int, r: Row)
    requires
        0 <= k <= rows.len(),
    ensures
        falling(rows.insert(k, r)) == falling(rows) + if is_falling(r.components) {
            1nat
        } else {
            0nat
        },
    decreases rows.len() - k,
{
    let wider = rows.insert(k, r);
    rows.insert_ensures(k, r);
    if k == rows.len() {
        assert(wider.drop_last() =~= rows);
        assert(wider.last() == r);
    } else {
        lemma_falling_with(rows.drop_last(), k, r);
        rows.drop_last().insert_ensures(k, r);
        assert(wider.drop_last() =~= rows.drop_last().insert(k, r));
        assert(wider.last() == rows.last());
    }
}

/// The commit drops no pine cone that falls, and no row in order gets out
/// of order.
proof fn lemma_survivors_in_order(rows: Seq<Row>)
    requires
        forall|i: int| 0 <= i < rows.len() ==> tidy(#[trigger] rows[i]),
    ensures
        falling(survivors(rows)) == falling(rows),
        forall|i: int| 0 <= i < survivors(rows).len() ==> tidy(#[trigger] survivors(rows)[i]),
    decreases rows.len(),
{
    reveal(Seq::filter);
    if rows.len() > 0 {
        let init = rows.drop_last();
        assert forall|i: int| 0 <= i < init.len() implies tidy(#[trigger] init[i]) by {
            assert(init[i] == rows[i]);
        }
        lemma_survivors_in_order(init);
        assert(rows.last() == rows[rows.len() - 1]);
        let rest = survivors(init);
        if !rows.last().deleted {
            assert(survivors(rows) == rest.push(rows.last()));
            assert(rest.push(rows.last()).drop_last() =~= rest);
        } else {
            assert(survivors(rows) == rest);
        }
    }
}

/// The entities that the commit lets in add their pine cones to those of
/// the table, and leave it in order.
proof fn lemma_admitted_in_order(base: Seq<Row>, queue: Seq<Components>, result: Seq<Row>)
    requires
        admitted(base, queue, result),
        forall|i: int| 0 <= i < base.len() ==> tidy(#[trigger] base[i]),
        forall|j: int| 0 <= j < queue.len() ==> plain(#[trigger] queue[j]),
    ensures
        falling(result) == falling(base) + waiting(queue),
        forall|i: int| 0 <= i < result.len() ==> tidy(#[trigger] result[i]),
    decreases queue.len(),
{
    if queue.len() > 0 {
        let (earlier, k, id) = choose|earlier: Seq<Row>, k: int, id: Entity|
            {
                &&& admitted(base, queue.drop_last(), earlier)
                &&& 0 <= k <= earlier.len()
                &&& crate::table::vacant(earlier, id.index)
                &&& result == #[trigger] earlier.insert(k, newcomer(id, queue.last()))
            };
        assert forall|j: int| 0 <= j < queue.drop_last().len() implies plain(
            #[trigger] queue.drop_last()[j],
        ) by {
            assert(queue.drop_last()[j] == queue[j]);
        }
        lemma_admitted_in_order(base, queue.drop_last(), earlier);
        lemma_falling_with(earlier, k, newcomer(id, queue.last()));
        earlier.insert_ensures(k, newcomer(id, queue.last()));
        assert(queue.last() == queue[queue.len() - 1]);
        assert(plain(queue.last()));
        assert forall|i: int| 0 <= i < result.len() implies tidy(#[trigger] result[i]) by {
            if i < k {
                assert(result[i] == earlier[i]);
            } else if i > k {
                assert(result[i] == earlier[i - 1]);
            }
        }
    }
}

/// Shots are no pine cones.
proof fn lemma_shots_are_no_cones(queue: Seq<Components>, rows: Seq<Row>, aim: Point2, n: int)
    requires
        forall|j: int| 0 <= j < queue.len() ==> plain(#[trigger] queue[j]),
    ensures
        waiting(queue + shots(rows, aim, n)) == waiting(queue),
        forall|j: int|
            0 <= j < (queue + shots(rows, aim, n)).len() ==> plain(
                #[trigger] (queue + shots(rows, aim, n))[j],
            ),
    decreases n,
{
    let fired = shots(rows, aim, n);
    if n <= 0 || n > rows.len() {
        assert(queue + fired =~= queue);
    } else {
        lemma_shots_are_no_cones(queue, rows, aim, n - 1);
        let earlier = shots(rows, aim, n - 1);
        if crate::scenes::level::shoots(rows[n - 1].components) {
            let all = queue + fired;
            assert(all.drop_last() =~= queue + earlier);
            assert(all.last() == fired.last());
            assert forall|j: int| 0 <= j < all.len() implies plain(#[trigger] all[j]) by {
                if j < all.len() - 1 {
                    assert(all[j] == (queue + earlier)[j]);
                }
            }
        }
    }
}

/// One frame keeps one pine cone in play. If exactly one pine cone is in
/// the air or waiting to enter before the commit, and all that waits is let
/// in, then exactly one is in the air or waiting to enter after the frame:
/// the one that lands is replaced in the frame in which it lands, and
/// nothing else makes or takes a falling pine cone.
pub proof fn law_one_cone_at_all_times(
    table: Seq<Row>,
    queue: Seq<Components>,
    start: Seq<Row>,
    mouse: Mouse,
    window_mode: WindowMode,
    bird_timer: i32,
    open: bool,
)
    requires
        one_cone(table, queue),
        admitted(survivors(table), queue, start),
    ensures
        one_cone(
            all_opened(dispatched(start, window_mode), open),
            arrivals(
                landing(start, window_mode),
                dispatched(start, window_mode),
                mouse,
                bird_timer,
            ),
        ),
{
    lemma_survivors_in_order(table);
    lemma_admitted_in_order(survivors(table), queue, start);
    assert(falling(start) == 1);
    let moved = MovementSystem::advanced(start);
    let dropped = MatubokkuriSystem::dropped(moved, window_mode.height);
    let swept = BulletManagementSystem::swept(dropped, window_mode);
    let settled = CollisionSystem::settled(swept, window_mode.height);
    let turned = BirdSystem::turned(settled, window_mode.width);
    let claimed = BirdSystem::claimed(turned, settled, settled.len() as int);
    let ran = BirdSystem::ran(settled, start, window_mode.width);
    let shown = all_opened(ran, open);
    let landed = landing(start, window_mode);
    // the pine cones
    lemma_same_falling(moved, start);
    law_one_cone_in_play(moved, Seq::<Components>::empty(), window_mode.height);
    lemma_same_falling(swept, dropped);
    lemma_same_falling(settled, swept);
    lemma_same_falling(turned, settled);
    BirdSystem::lemma_claims_touch_little(turned, settled, settled.len() as int);
    assert forall|i: int| 0 <= i < claimed.len() implies is_falling(
        (#[trigger] claimed[i]).components,
    ) == is_falling(turned[i].components) by {
        assert(BirdSystem::differs_by_choice(claimed[i], turned[i]));
    }
    lemma_same_falling(claimed, turned);
    assert forall|i: int| 0 <= i < ran.len() implies is_falling((#[trigger] ran[i]).components)
        == is_falling(claimed[i].components) by {
        BirdSystem::lemma_last_carrier(settled, claimed[i].id, settled.len() as int);
    }
    lemma_same_falling(ran, claimed);
    lemma_same_falling(shown, ran);
    // the rows
    assert forall|i: int| 0 <= i < shown.len() implies tidy(#[trigger] shown[i]) by {
        assert(tidy(start[i]));
        assert(tidy(moved[i]));
        assert(tidy(dropped[i]));
        assert(tidy(swept[i]));
        if CollisionSystem::shot_hits(swept, i) {
            let j = choose|j: int| CollisionSystem::meets(swept, i, j);
            assert(CollisionSystem::is_shot(swept[i].components));
        }
        if CollisionSystem::bird_falls(swept, i) {
            let j = choose|j: int| CollisionSystem::meets(swept, j, i);
            assert(CollisionSystem::is_bird(swept[i].components));
        }
        assert(tidy(settled[i]));
        assert(tidy(turned[i]));
        assert(BirdSystem::differs_by_choice(claimed[i], turned[i]));
        assert(tidy(claimed[i]));
        BirdSystem::lemma_last_carrier(settled, claimed[i].id, settled.len() as int);
        assert(tidy(ran[i]));
    }
    // the queue
    let cones = if landed {
        seq![MatubokkuriSystem::replacement()]
    } else {
        Seq::<Components>::empty()
    };
    assert(cones =~= requeued(moved, Seq::<Components>::empty(), window_mode.height));
    let fired = if mouse.left {
        cones + shots(ran, mouse.position, ran.len() as int)
    } else {
        cones
    };
    lemma_shots_are_no_cones(cones, ran, mouse.position, ran.len() as int);
    let queued = arrivals(landed, ran, mouse, bird_timer);
    if bird_timer == crate::scenes::level::BIRD_SPAWN_TIME {
        assert(queued == fired.push(arriving_bird()));
        assert(queued.drop_last() =~= fired);
        assert(queued.last() == arriving_bird());
        assert forall|j: int| 0 <= j < queued.len() implies plain(#[trigger] queued[j]) by {
            if j < fired.len() {
                assert(queued[j] == fired[j]);
            }
        }
    }
}

} // verus!
