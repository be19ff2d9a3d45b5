//! The entity store: a `specs` world behind a small set of operations.
//!
//! Nothing in this file is proved. Each function states what the `specs`
//! function that it calls does to the world.

use vstd::prelude::*;
use specs::Join;
use specs::Builder;
use crate::components::{Bird, Bullet, Components, Entity, Matubokkuri, Motion, Position};

verus! {

/// `specs::World`, of which nothing is known but what the functions below
/// state.
#[verifier::external_type_specification]
#[verifier::external_body]
pub struct ExWorld(specs::World);

/// `specs::VecStorage`, the storage of positions, motions and shots.
#[verifier::external_type_specification]
#[verifier::external_body]
#[verifier::reject_recursive_types(T)]
pub struct ExVecStorage<T>(specs::VecStorage<T>);

/// `specs::HashMapStorage`, the storage of pine cones and birds.
#[verifier::external_type_specification]
#[verifier::external_body]
#[verifier::reject_recursive_types(T)]
pub struct ExHashMapStorage<T>(specs::HashMapStorage<T>);

/// The entities of a world with their components, in the order in which a
/// join over the world's entities yields them.
pub uninterp spec fn contents(world: specs::World) -> Seq<(Entity, Components)>;

/// The slots of the entities that have been deleted since the last
/// `maintain`.
pub uninterp spec fn condemned(world: specs::World) -> Set<u32>;

/// The world has a storage for each of the five component types.
pub uninterp spec fn registered(world: specs::World) -> bool;

/// The number of entities that the world has created so far, whether they
/// are still in it or not.
pub uninterp spec fn created(world: specs::World) -> nat;

/// A world creates fewer entities than this, and so uses only the slots
/// below it. The bit sets in which `specs` keeps its slots take the slots
/// below 2^20 where a pointer has 32 bits, and below 2^24 where it has 64:
/// beyond that a join no longer yields an entity, and adding a slot panics.
/// The generation of a slot, an `i32` that counts the entities that have
/// lived in it, overflows later still.
pub const CAPACITY: u32 = 0x10_0000;

/// The world has an entity in the slot `index`.
pub open spec fn holds(world: specs::World, index: u32) -> bool {
    exists|k: int| 0 <= k < contents(world).len() && (#[trigger] contents(world)[k]).0.index == index
}

/// `entries` with `change` applied to the components of the entity in the
/// slot `index`.
pub open spec fn amended(
    entries: Seq<(Entity, Components)>,
    index: u32,
    change: spec_fn(Components) -> Components,
) -> Seq<(Entity, Components)> {
    Seq::new(
        entries.len(),
        |k: int|
            if entries[k].0.index == index {
                (entries[k].0, change(entries[k].1))
            } else {
                entries[k]
            },
    )
}

/// Tells the entities that are not in one of the slots `doomed`.
pub open spec fn spared(doomed: Set<u32>) -> spec_fn((Entity, Components)) -> bool {
    |e: (Entity, Components)| !doomed.contains(e.0.index)
}

/// `specs::World::new`: a world without entities.
#[verifier::external_body]
pub(crate) fn empty_world() -> (world: specs::World)
    ensures
        contents(world) == Seq::<(Entity, Components)>::empty(),
        condemned(world) == Set::<u32>::empty(),
        created(world) == 0,
{
    specs::World::new()
}

/// `specs::World::register`, once for each component type. It adds the
/// storage where there is none and touches nothing else.
#[verifier::external_body]
pub fn register_components(specs_world: &mut specs::World)
    ensures
        registered(*final(specs_world)),
        contents(*final(specs_world)) == contents(*old(specs_world)),
        condemned(*final(specs_world)) == condemned(*old(specs_world)),
        created(*final(specs_world)) == created(*old(specs_world)),
{
    specs_world.register::<Position>();
    specs_world.register::<Motion>();
    specs_world.register::<Matubokkuri>();
    specs_world.register::<Bullet>();
    specs_world.register::<Bird>();
}

/// A join over `specs::World::entities`, with `Storage::get` on each of the
/// five storages. The join walks the slots in ascending order.
#[verifier::external_body]
pub(crate) fn snapshot(world: &specs::World) -> (rows: Vec<(Entity, Components)>)
    requires
        registered(*world),
    ensures
        rows@ == contents(*world),
        forall|i: int, j: int| 0 <= i < j < rows.len() ==> rows[i].0.index < rows[j].0.index,
{
    let entities = world.entities();
    let (ps, ms) = (world.read_storage::<Position>(), world.read_storage::<Motion>());
    let (cs, bs) = (world.read_storage::<Matubokkuri>(), world.read_storage::<Bullet>());
    let ds = world.read_storage::<Bird>();
    (&*entities).join().map(|e| (
        Entity { index: e.id(), generation: e.gen().id() },
        Components {
            position: ps.get(e).cloned(),
            motion: ms.get(e).cloned(),
            matubokkuri: cs.get(e).cloned(),
            bullet: bs.get(e).cloned(),
            bird: ds.get(e).cloned(),
        },
    )).collect()
}

/// `specs::World::maintain`: the entities that were deleted since the last
/// call leave the world together with their components, and the others keep
/// their order. The world's queue of lazy updates is never filled, so the
/// call does nothing else.
#[verifier::external_body]
pub(crate) fn maintain(world: &mut specs::World)
    ensures
        registered(*final(world)) == registered(*old(world)),
        created(*final(world)) == created(*old(world)),
        condemned(*final(world)) == Set::<u32>::empty(),
        contents(*final(world)) == contents(*old(world)).filter(spared(condemned(*old(world)))),
{
    world.maintain();
}

/// `specs::World::create_entity` and `Builder::build`: a new entity without
/// components, in a slot that no entity of the world holds. The world picks
/// the slot: one that an earlier entity has left, or else the lowest that
/// was never used, so its number is at most the number of entities created
/// before. Where the entity stands among the others depends on its slot. The
/// call panics, or the entity is lost to the joins, when the slot is not
/// below the limit of the bit sets; below `CAPACITY` creations it is.
#[verifier::external_body]
pub(crate) fn create(world: &mut specs::World) -> (id: Entity)
    requires
        created(*old(world)) < CAPACITY,
    ensures
        registered(*final(world)) == registered(*old(world)),
        created(*final(world)) == created(*old(world)) + 1,
        id.index <= created(*old(world)),
        condemned(*final(world)) == condemned(*old(world)),
        !holds(*old(world), id.index),
        exists|k: int|
            0 <= k <= contents(*old(world)).len() && contents(*final(world)) == #[trigger] contents(
                *old(world),
            ).insert(k, (id, Components::nothing())),
{
    let e = world.create_entity().build();
    Entity { index: e.id(), generation: e.gen().id() }
}

/// `EntitiesRes::delete` on the entity in the slot `index`, which
/// `EntitiesRes::entity` gives. The entity stays in the world with all its
/// components until the next `maintain`. The call panics for a slot beyond
/// the limit of the bit sets.
#[verifier::external_body]
pub(crate) fn delete(world: &mut specs::World, index: u32)
    requires
        holds(*old(world), index),
        index < CAPACITY,
    ensures
        registered(*final(world)) == registered(*old(world)),
        created(*final(world)) == created(*old(world)),
        condemned(*final(world)) == condemned(*old(world)).insert(index),
        contents(*final(world)) == contents(*old(world)),
{
    let e = world.entities().entity(index);
    let _ = world.entities().delete(e);
}

/// `Storage::insert` on the storage of positions, for the entity in the slot
/// `index`: the entity has the position `value` afterwards, whether it had
/// one before or not. The call panics for a slot beyond the limit of the bit
/// sets.
#[verifier::external_body]
pub(crate) fn put_position(world: &mut specs::World, index: u32, value: Position)
    requires
        registered(*old(world)),
        holds(*old(world), index),
        index < CAPACITY,
    ensures
        registered(*final(world)),
        created(*final(world)) == created(*old(world)),
        condemned(*final(world)) == condemned(*old(world)),
        contents(*final(world)) == amended(
            contents(*old(world)),
            index,
            |c: Components| (Components { position: Some(value), ..c }),
        ),
{
    let e = world.entities().entity(index);
    let _ = world.write_storage::<Position>().insert(e, value);
}

/// `Storage::insert` on the storage of motions, as on that of positions.
#[verifier::external_body]
pub(crate) fn put_motion(world: &mut specs::World, index: u32, value: Motion)
    requires
        registered(*old(world)),
        holds(*old(world), index),
        index < CAPACITY,
    ensures
        registered(*final(world)),
        created(*final(world)) == created(*old(world)),
        condemned(*final(world)) == condemned(*old(world)),
        contents(*final(world)) == amended(
            contents(*old(world)),
            index,
            |c: Components| (Components { motion: Some(value), ..c }),
        ),
{
    let e = world.entities().entity(index);
    let _ = world.write_storage::<Motion>().insert(e, value);
}

/// `Storage::insert` on the storage of pine cones, as on that of positions.
#[verifier::external_body]
pub(crate) fn put_matubokkuri(world: &mut specs::World, index: u32, value: Matubokkuri)
    requires
        registered(*old(world)),
        holds(*old(world), index),
        index < CAPACITY,
    ensures
        registered(*final(world)),
        created(*final(world)) == created(*old(world)),
        condemned(*final(world)) == condemned(*old(world)),
        contents(*final(world)) == amended(
            contents(*old(world)),
            index,
            |c: Components| (Components { matubokkuri: Some(value), ..c }),
        ),
{
    let e = world.entities().entity(index);
    let _ = world.write_storage::<Matubokkuri>().insert(e, value);
}

/// `Storage::insert` on the storage of shots, as on that of positions.
#[verifier::external_body]
pub(crate) fn put_bullet(world: &mut specs::World, index: u32, value: Bullet)
    requires
        registered(*old(world)),
        holds(*old(world), index),
        index < CAPACITY,
    ensures
        registered(*final(world)),
        created(*final(world)) == created(*old(world)),
        condemned(*final(world)) == condemned(*old(world)),
        contents(*final(world)) == amended(
            contents(*old(world)),
            index,
            |c: Components| (Components { bullet: Some(value), ..c }),
        ),
{
    let e = world.entities().entity(index);
    let _ = world.write_storage::<Bullet>().insert(e, value);
}

/// `Storage::insert` on the storage of birds, as on that of positions.
#[verifier::external_body]
pub(crate) fn put_bird(world: &mut specs::World, index: u32, value: Bird)
    requires
        registered(*old(world)),
        holds(*old(world), index),
        index < CAPACITY,
    ensures
        registered(*final(world)),
        created(*final(world)) == created(*old(world)),
        condemned(*final(world)) == condemned(*old(world)),
        contents(*final(world)) == amended(
            contents(*old(world)),
            index,
            |c: Components| (Components { bird: Some(value), ..c }),
        ),
{
    let e = world.entities().entity(index);
    let _ = world.write_storage::<Bird>().insert(e, value);
}

} // verus!
