//! From the store to the table of a frame and back.

use vstd::prelude::*;
use crate::components::{same_entities, Components, Entity, Row};
use crate::store::{
    amended, condemned, contents, create, created, delete, empty_world, holds, maintain, put_bird,
    put_bullet, put_matubokkuri, put_motion, put_position, register_components, registered,
    snapshot, spared, CAPACITY,
};

verus! {

/// One row for each of `entries`, marked exactly if its slot is among
/// `doomed`.
pub open spec fn rows_of(entries: Seq<(Entity, Components)>, doomed: Set<u32>) -> Seq<Row> {
    Seq::new(
        entries.len(),
        |i: int|
            Row {
                id: entries[i].0,
                deleted: doomed.contains(entries[i].0.index),
                components: entries[i].1,
            },
    )
}

/// The table that a world holds: one row for each of its entities. A row is
/// marked exactly if its entity has been deleted since the last commit.
pub open spec fn published(world: specs::World) -> Seq<Row> {
    rows_of(contents(world), condemned(world))
}

/// No two rows stand for the same slot.
pub open spec fn distinct(rows: Seq<Row>) -> bool {
    forall|i: int, j: int| 0 <= i < j < rows.len() ==> rows[i].id.index != rows[j].id.index
}

/// No row stands for the slot `index`.
pub open spec fn vacant(rows: Seq<Row>, index: u32) -> bool {
    forall|i: int| 0 <= i < rows.len() ==> (#[trigger] rows[i]).id.index != index
}

/// The rows that are not marked for removal.
pub open spec fn survivors(rows: Seq<Row>) -> Seq<Row> {
    rows.filter(|r: Row| !r.deleted)
}

/// The row of a new entity.
pub open spec fn newcomer(id: Entity, components: Components) -> Row {
    Row { id, deleted: false, components }
}

/// `result` is `base` with one new entity for each of `arrivals`. The store
/// chooses the name of each new entity and its place in the table; the name
/// is one that no row has.
pub open spec fn admitted(base: Seq<Row>, arrivals: Seq<Components>, result: Seq<Row>) -> bool
    decreases arrivals.len(),
{
    if arrivals.len() == 0 {
        result == base
    } else {
        exists|earlier: Seq<Row>, k: int, id: Entity|
            {
                &&& admitted(base, arrivals.drop_last(), earlier)
                &&& 0 <= k <= earlier.len()
                &&& vacant(earlier, id.index)
                &&& result == #[trigger] earlier.insert(k, newcomer(id, arrivals.last()))
            }
    }
}

/// Every entity is in a slot that the store can handle.
pub open spec fn within(entries: Seq<(Entity, Components)>) -> bool {
    forall|k: int| 0 <= k < entries.len() ==> (#[trigger] entries[k]).0.index < CAPACITY
}

/// Every component that `c` lacks, `entry` lacks too.
pub open spec fn covers(c: Components, entry: Components) -> bool {
    &&& c.position is None ==> entry.position is None
    &&& c.motion is None ==> entry.motion is None
    &&& c.matubokkuri is None ==> entry.matubokkuri is None
    &&& c.bullet is None ==> entry.bullet is None
    &&& c.bird is None ==> entry.bird is None
}

/// Gives the entity in the slot `index` the components `c`.
fn write(world: &mut specs::World, index: u32, c: &Components)
    requires
        registered(*old(world)),
        holds(*old(world), index),
        index < CAPACITY,
        forall|k: int|
            0 <= k < contents(*old(world)).len() && (#[trigger] contents(*old(world))[k]).0.index
                == index ==> covers(*c, contents(*old(world))[k].1),
    ensures
        registered(*final(world)),
        created(*final(world)) == created(*old(world)),
        condemned(*final(world)) == condemned(*old(world)),
        contents(*final(world)) == amended(contents(*old(world)), index, |e: Components| *c),
{
    let ghost before = contents(*world);
    if let Some(p) = c.position {
        put_position(world, index, p);
        assert(holds(*world, index)) by {
            let k = choose|k: int| 0 <= k < before.len() && (#[trigger] before[k]).0.index == index;
            assert(contents(*world)[k].0.index == index);
        }
    }
    let ghost s1 = contents(*world);
    if let Some(m) = c.motion {
        put_motion(world, index, m);
        assert(holds(*world, index)) by {
            let k = choose|k: int| 0 <= k < s1.len() && (#[trigger] s1[k]).0.index == index;
            assert(contents(*world)[k].0.index == index);
        }
    }
    let ghost s2 = contents(*world);
    if let Some(m) = c.matubokkuri {
        put_matubokkuri(world, index, m);
        assert(holds(*world, index)) by {
            let k = choose|k: int| 0 <= k < s2.len() && (#[trigger] s2[k]).0.index == index;
            assert(contents(*world)[k].0.index == index);
        }
    }
    let ghost s3 = contents(*world);
    if let Some(b) = c.bullet {
        put_bullet(world, index, b);
        assert(holds(*world, index)) by {
            let k = choose|k: int| 0 <= k < s3.len() && (#[trigger] s3[k]).0.index == index;
            assert(contents(*world)[k].0.index == index);
        }
    }
    if let Some(b) = c.bird {
        put_bird(world, index, b);
    }
    assert(contents(*world) =~= amended(before, index, |e: Components| *c));
}

/// Reads the table of a world in which nothing is marked for removal.
fn read(world: &specs::World) -> (rows: Vec<Row>)
    requires
        registered(*world),
        condemned(*world) == Set::<u32>::empty(),
    ensures
        rows@ == published(*world),
        distinct(rows@),
{
    let entries = snapshot(world);
    let n = entries.len();
    let mut rows: Vec<Row> = Vec::new();
    let mut i: usize = 0;
    while i < n
        invariant
            i <= n,
            n == entries.len(),
            entries@ == contents(*world),
            condemned(*world) == Set::<u32>::empty(),
            rows.len() == i,
            forall|j: int| 0 <= j < i ==> rows[j] == published(*world)[j],
        decreases n - i,
    {
        let entry = entries[i];
        rows.push(Row { id: entry.0, deleted: false, components: entry.1 });
        i += 1;
    }
    assert(rows@ =~= published(*world));
    rows
}

/// The slots of the marked rows among the first `n`.
pub open spec fn marked(rows: Seq<Row>, n: int) -> Set<u32> {
    Set::new(|x: u32| exists|j: int| 0 <= j < n && (#[trigger] rows[j]).deleted && rows[j].id.index == x)
}

/// Writes the table of a frame back to the world that it was read from.
fn write_back(world: &mut specs::World, rows: &Vec<Row>)
    requires
        registered(*old(world)),
        within(contents(*old(world))),
        condemned(*old(world)) == Set::<u32>::empty(),
        distinct(rows@),
        rows.len() == contents(*old(world)).len(),
        forall|i: int|
            0 <= i < rows.len() ==> {
                &&& (#[trigger] rows[i]).id == contents(*old(world))[i].0
                &&& rows[i].components.same_shape(contents(*old(world))[i].1)
            },
    ensures
        registered(*final(world)),
        within(contents(*final(world))),
        created(*final(world)) == created(*old(world)),
        published(*final(world)) == rows@,
{
    let ghost before = contents(*world);
    let n = rows.len();
    let mut i: usize = 0;
    while i < n
        invariant
            i <= n,
            n == rows.len(),
            n == before.len(),
            distinct(rows@),
            registered(*world),
            within(contents(*world)),
            created(*world) == created(*old(world)),
            contents(*world).len() == n,
            forall|j: int|
                0 <= j < n ==> {
                    &&& (#[trigger] rows[j]).id == before[j].0
                    &&& rows[j].components.same_shape(before[j].1)
                },
            forall|j: int|
                0 <= j < i ==> (#[trigger] contents(*world)[j]) == (rows[j].id, rows[j].components),
            forall|j: int| i <= j < n ==> (#[trigger] contents(*world)[j]) == before[j],
            condemned(*world) =~= marked(rows@, i as int),
        decreases n - i,
    {
        let row = rows[i];
        let ghost current = contents(*world);
        assert(current[i as int].0.index == row.id.index);
        assert(row.id.index < CAPACITY);
        assert forall|k: int| 0 <= k < current.len() && (#[trigger] current[k]).0.index
            == row.id.index implies k == i by {
            assert(rows[k].id.index == current[k].0.index);
        }
        write(world, row.id.index, &row.components);
        assert(contents(*world)[i as int].0.index == row.id.index);
        assert(within(contents(*world))) by {
            assert forall|k: int| 0 <= k < contents(*world).len() implies (#[trigger] contents(
                *world,
            )[k]).0.index < CAPACITY by {
                assert(current[k].0.index < CAPACITY);
            }
        }
        if row.deleted {
            delete(world, row.id.index);
        }
        assert(condemned(*world) =~= marked(rows@, i + 1)) by {
            assert forall|x: u32| marked(rows@, i + 1).contains(x) implies condemned(
                *world,
            ).contains(x) by {
                let j = choose|j: int|
                    0 <= j < i + 1 && (#[trigger] rows[j]).deleted && rows[j].id.index == x;
                if j < i {
                    assert(marked(rows@, i as int).contains(x));
                }
            }
            assert forall|x: u32| condemned(*world).contains(x) implies marked(
                rows@,
                i + 1,
            ).contains(x) by {
                if marked(rows@, i as int).contains(x) {
                    let j = choose|j: int|
                        0 <= j < i && (#[trigger] rows[j]).deleted && rows[j].id.index == x;
                    assert(rows[j].deleted && rows[j].id.index == x);
                } else {
                    assert(rows[i as int].deleted && rows[i as int].id.index == x);
                }
            }
        }
        assert forall|j: int| 0 <= j < i + 1 implies (#[trigger] contents(*world)[j]) == (
            rows[j].id,
            rows[j].components,
        ) by {
            assert(rows[j].id.index == current[j].0.index);
        }
        assert forall|j: int| i + 1 <= j < n implies (#[trigger] contents(*world)[j])
            == before[j] by {
            assert(rows[j].id.index == current[j].0.index);
        }
        i += 1;
    }
    assert(published(*world) =~= rows@) by {
        assert forall|j: int| 0 <= j < n implies published(*world)[j] == rows[j] by {
            let x = rows[j].id.index;
            if rows[j].deleted {
                assert(marked(rows@, n as int).contains(x));
            }
            if marked(rows@, n as int).contains(x) {
                let a = choose|a: int|
                    0 <= a < n && (#[trigger] rows[a]).deleted && rows[a].id.index == x;
                assert(a == j);
            }
        }
    }
}

/// Creates an entity with the components `c`.
fn insert(world: &mut specs::World, c: &Components) -> (id: Entity)
    requires
        registered(*old(world)),
        within(contents(*old(world))),
        created(*old(world)) < CAPACITY,
    ensures
        registered(*final(world)),
        within(contents(*final(world))),
        created(*final(world)) == created(*old(world)) + 1,
        condemned(*final(world)) == condemned(*old(world)),
        !holds(*old(world), id.index),
        exists|k: int|
            0 <= k <= contents(*old(world)).len() && contents(*final(world)) == #[trigger] contents(
                *old(world),
            ).insert(k, (id, *c)),
{
    let ghost before = contents(*world);
    let id = create(world);
    let ghost k = choose|k: int|
        0 <= k <= before.len() && contents(*world) == #[trigger] before.insert(
            k,
            (id, Components::nothing()),
        );
    proof {
        before.insert_ensures(k, (id, Components::nothing()));
        before.insert_ensures(k, (id, *c));
        assert(contents(*world)[k].0.index == id.index);
    }
    let ghost created = contents(*world);
    assert forall|j: int| 0 <= j < created.len() && (#[trigger] created[j]).0.index
        == id.index implies j == k by {
        if j < k {
            assert(before[j].0.index != id.index);
        } else if j > k {
            assert(created[j] == before[j - 1]);
            assert(before[j - 1].0.index != id.index);
        }
    }
    write(world, id.index, c);
    assert(within(contents(*world))) by {
        assert forall|j: int| 0 <= j < contents(*world).len() implies (#[trigger] contents(
            *world,
        )[j]).0.index < CAPACITY by {
            if j < k {
                assert(created[j] == before[j]);
            } else if j > k {
                assert(created[j] == before[j - 1]);
            }
        }
    }
    assert(contents(*world) =~= before.insert(k, (id, *c))) by {
        assert forall|j: int| 0 <= j < created.len() implies contents(*world)[j] == before.insert(
            k,
            (id, *c),
        )[j] by {
            if j < k {
                assert(created[j] == before[j]);
            } else if j > k {
                assert(created[j] == before[j - 1]);
            }
        }
    }
    id
}

/// The entities that stay are in slots in which entities were before.
proof fn lemma_spared_within(entries: Seq<(Entity, Components)>, doomed: Set<u32>)
    requires
        within(entries),
    ensures
        within(entries.filter(spared(doomed))),
    decreases entries.len(),
{
    reveal(Seq::filter);
    if entries.len() > 0 {
        let init = entries.drop_last();
        assert(within(init)) by {
            assert forall|k: int| 0 <= k < init.len() implies (#[trigger] init[k]).0.index
                < CAPACITY by {
                assert(init[k] == entries[k]);
            }
        }
        lemma_spared_within(init, doomed);
        assert(entries.last() == entries[entries.len() - 1]);
    }
}

/// Dropping the doomed entities from a world drops the marked rows from its
/// table.
proof fn lemma_survivors(entries: Seq<(Entity, Components)>, doomed: Set<u32>)
    ensures
        rows_of(entries.filter(spared(doomed)), Set::<u32>::empty()) == survivors(
            rows_of(entries, doomed),
        ),
    decreases entries.len(),
{
    reveal(Seq::filter);
    let rows = rows_of(entries, doomed);
    let alive = |r: Row| !r.deleted;
    if entries.len() == 0 {
        assert(rows_of(entries.filter(spared(doomed)), Set::<u32>::empty()) =~= survivors(rows));
    } else {
        let init = entries.drop_last();
        lemma_survivors(init, doomed);
        assert(rows.drop_last() =~= rows_of(init, doomed));
        if spared(doomed)(entries.last()) {
            assert(alive(rows.last()));
            assert(rows_of(init.filter(spared(doomed)).push(entries.last()), Set::<u32>::empty())
                =~= rows_of(init.filter(spared(doomed)), Set::<u32>::empty()).push(rows.last()));
        } else {
            assert(!alive(rows.last()));
        }
    }
}

/// The entities of the game with their components, between the frames.
pub struct Store {
    world: specs::World,
    created: u32,
}

impl Store {
    /// The world can hold every component, the store knows how many
    /// entities the world has created, and every entity is in a slot that
    /// the store can handle.
    pub closed spec fn wf(&self) -> bool {
        &&& registered(self.world)
        &&& created(self.world) == self.created
        &&& self.created <= CAPACITY
        &&& within(contents(self.world))
    }

    /// The table of the store.
    pub closed spec fn rows(&self) -> Seq<Row> {
        published(self.world)
    }

    /// No row of the store is marked for removal.
    pub closed spec fn settled(&self) -> bool {
        condemned(self.world) == Set::<u32>::empty()
    }

    /// The number of entities that the store can still create.
    pub closed spec fn room(&self) -> nat {
        (CAPACITY - self.created) as nat
    }

    /// A store without entities.
    pub fn new() -> (store: Store)
        ensures
            store.wf(),
            store.settled(),
            store.rows() == Seq::<Row>::empty(),
            store.room() == CAPACITY,
    {
        let mut world = empty_world();
        register_components(&mut world);
        assert(published(world) =~= Seq::<Row>::empty());
        Store { world, created: 0 }
    }

    /// How many entities the store can still create.
    pub fn remaining(&self) -> (n: u32)
        requires
            self.wf(),
        ensures
            n == self.room(),
    {
        CAPACITY - self.created
    }

    /// The entities of the store with their components. Whether an entity is
    /// marked for removal is not told.
    pub fn entities(&self) -> (list: Vec<(Entity, Components)>)
        requires
            self.wf(),
        ensures
            list.len() == self.rows().len(),
            forall|i: int|
                0 <= i < list.len() ==> (#[trigger] list[i]).0 == self.rows()[i].id && list[i].1
                    == self.rows()[i].components,
    {
        snapshot(&self.world)
    }

    /// Reads the table of a frame.
    pub fn load(&self) -> (rows: Vec<Row>)
        requires
            self.wf(),
            self.settled(),
        ensures
            rows@ == self.rows(),
            distinct(rows@),
    {
        read(&self.world)
    }

    /// Writes the table of a frame back. The rows must be those that were
    /// read, with the same kinds of components; what they hold and which of
    /// them are marked is free.
    pub fn save(&mut self, rows: &Vec<Row>)
        requires
            old(self).wf(),
            old(self).settled(),
            distinct(rows@),
            same_entities(rows@, old(self).rows()),
        ensures
            final(self).wf(),
            final(self).rows() == rows@,
            final(self).room() == old(self).room(),
    {
        assert forall|i: int| 0 <= i < rows.len() implies {
            &&& (#[trigger] rows[i]).id == contents(self.world)[i].0
            &&& rows[i].components.same_shape(contents(self.world)[i].1)
        } by {
            assert(published(self.world)[i].id == contents(self.world)[i].0);
        }
        write_back(&mut self.world, rows);
    }

    /// Creates an entity with the components `c`, if there is room for one.
    pub fn spawn(&mut self, c: &Components) -> (name: Option<Entity>)
        requires
            old(self).wf(),
            old(self).settled(),
        ensures
            final(self).wf(),
            final(self).settled(),
            match name {
                Some(id) => {
                    &&& old(self).room() > 0
                    &&& final(self).room() == old(self).room() - 1
                    &&& vacant(old(self).rows(), id.index)
                    &&& exists|k: int|
                        0 <= k <= old(self).rows().len() && final(self).rows() == #[trigger] old(
                            self,
                        ).rows().insert(k, newcomer(id, *c))
                },
                None => {
                    &&& old(self).room() == 0
                    &&& final(self).room() == 0
                    &&& final(self).rows() == old(self).rows()
                },
            },
    {
        if self.created >= CAPACITY {
            return None;
        }
        let ghost earlier = published(self.world);
        let ghost before = contents(self.world);
        let id = insert(&mut self.world, c);
        self.created = self.created + 1;
        proof {
            let k = choose|k: int|
                0 <= k <= before.len() && contents(self.world) == #[trigger] before.insert(
                    k,
                    (id, *c),
                );
            before.insert_ensures(k, (id, *c));
            earlier.insert_ensures(k, newcomer(id, *c));
            assert(published(self.world) =~= earlier.insert(k, newcomer(id, *c)));
            assert(vacant(earlier, id.index)) by {
                assert forall|j: int| 0 <= j < earlier.len() implies (#[trigger] earlier[j]).id.index
                    != id.index by {
                    assert(before[j].0.index != id.index);
                }
            }
        }
        Some(id)
    }

    /// How many of `waiting` queued entities the next commit lets in.
    pub open spec fn intake(&self, waiting: nat) -> nat {
        if waiting <= self.room() {
            waiting
        } else {
            self.room()
        }
    }

    /// The commit point of a frame. The entities that are marked for removal
    /// leave the store. Then the queued entities enter it in their order, as
    /// long as there is room; those for which there is none stay queued.
    pub fn commit(&mut self, pending: &mut Vec<Components>)
        requires
            old(self).wf(),
        ensures
            final(self).wf(),
            final(self).settled(),
            admitted(
                survivors(old(self).rows()),
                old(pending)@.take(old(self).intake(old(pending)@.len()) as int),
                final(self).rows(),
            ),
            final(pending)@ == old(pending)@.skip(old(self).intake(old(pending)@.len()) as int),
            final(self).room() == old(self).room() - old(self).intake(old(pending)@.len()),
    {
        let ghost entries = contents(self.world);
        let ghost doomed = condemned(self.world);
        maintain(&mut self.world);
        proof {
            lemma_survivors(entries, doomed);
            lemma_spared_within(entries, doomed);
        }
        let ghost base = published(self.world);
        let n = pending.len();
        let mut i: usize = 0;
        while i < n && self.created < CAPACITY
            invariant
                i <= n,
                n == pending.len(),
                pending@ == old(pending)@,
                self.wf(),
                self.settled(),
                self.created == old(self).created + i,
                admitted(base, pending@.take(i as int), published(self.world)),
            decreases n - i,
        {
            let ghost earlier = published(self.world);
            let c = pending[i];
            let name = self.spawn(&c);
            proof {
                let id = name.unwrap();
                let k = choose|k: int|
                    0 <= k <= earlier.len() && published(self.world) == #[trigger] earlier.insert(
                        k,
                        newcomer(id, c),
                    );
                let arrivals = pending@.take(i + 1);
                assert(arrivals.drop_last() =~= pending@.take(i as int));
                assert(arrivals.last() == c);
            }
            i += 1;
        }
        let mut rest: Vec<Components> = Vec::new();
        let mut j: usize = i;
        while j < n
            invariant
                i <= j <= n,
                n == pending.len(),
                rest@ == pending@.subrange(i as int, j as int),
            decreases n - j,
        {
            rest.push(pending[j]);
            assert(rest@ =~= pending@.subrange(i as int, j + 1));
            j += 1;
        }
        assert(rest@ =~= pending@.skip(i as int));
        *pending = rest;
    }
}

} // verus!
