use vstd::prelude::*;

use crate::components::{Asteroid, GameData, Laser, Player, Position, Renderable};
use crate::geometry::FULL_TURN;

verus! {

/// An entity: the components it holds, and whether it is marked for deletion.
#[derive(Clone, Copy, Debug)]
pub struct Entity {
    pub position: Option<Position>,
    pub renderable: Option<Renderable>,
    pub player: Option<Player>,
    pub asteroid: Option<Asteroid>,
    pub laser: Option<Laser>,
    pub game_data: Option<GameData>,
    pub deleted: bool,
}

/// The component types, for counting the entities that hold one.
#[derive(Clone, Copy, Debug, PartialEq, Eq, Structural)]
pub enum ComponentKind {
    Position,
    Renderable,
    Player,
    Asteroid,
    Laser,
    GameData,
}

impl Entity {
    /// An entity with no components.
    pub fn empty() -> (r: Entity)
        ensures
            r == Entity::bare(),
    {
        Entity {
            position: None,
            renderable: None,
            player: None,
            asteroid: None,
            laser: None,
            game_data: None,
            deleted: false,
        }
    }

    pub open spec fn bare() -> Entity {
        Entity {
            position: None,
            renderable: None,
            player: None,
            asteroid: None,
            laser: None,
            game_data: None,
            deleted: false,
        }
    }

    pub open spec fn has(self, kind: ComponentKind) -> bool {
        match kind {
            ComponentKind::Position => self.position is Some,
            ComponentKind::Renderable => self.renderable is Some,
            ComponentKind::Player => self.player is Some,
            ComponentKind::Asteroid => self.asteroid is Some,
            ComponentKind::Laser => self.laser is Some,
            ComponentKind::GameData => self.game_data is Some,
        }
    }

    /// Whether the entity holds a component of the given kind.
    pub fn holds(&self, kind: ComponentKind) -> (r: bool)
        ensures
            r == self.has(kind),
    {
        match kind {
            ComponentKind::Position => self.position.is_some(),
            ComponentKind::Renderable => self.renderable.is_some(),
            ComponentKind::Player => self.player.is_some(),
            ComponentKind::Asteroid => self.asteroid.is_some(),
            ComponentKind::Laser => self.laser.is_some(),
            ComponentKind::GameData => self.game_data.is_some(),
        }
    }

    /// Every player component it holds keeps the player's limits, and an asteroid's
    /// heading stays within one turn either side of [0, 360) degrees.
    pub open spec fn wf(self) -> bool {
        &&& (self.player matches Some(p) ==> p.wf())
        &&& (self.asteroid is Some && self.position is Some) ==> -FULL_TURN <= self.position->Some_0.rot
            <= 2 * FULL_TURN
    }
}

/// Number of entities in `s` holding a component of the given kind.
pub open spec fn count_with(s: Seq<Entity>, kind: ComponentKind) -> nat {
    s.filter(|e: Entity| e.has(kind)).len()
}

/// `s` with the entity at `id` marked for deletion.
pub open spec fn marked(s: Seq<Entity>, id: int) -> Seq<Entity> {
    if 0 <= id < s.len() {
        s.update(id, Entity { deleted: true, ..s[id] })
    } else {
        s
    }
}

/// `s` without the entities marked for deletion, in the same order.
pub open spec fn swept(s: Seq<Entity>) -> Seq<Entity> {
    s.filter(|e: Entity| !e.deleted)
}

/// The entity store. An entity's id is its slot; ids stay valid until the next
/// `maintain`, which drops the entities marked for deletion.
pub struct World {
    pub entities: Vec<Entity>,
}

impl View for World {
    type V = Seq<Entity>;

    open spec fn view(&self) -> Seq<Entity> {
        self.entities@
    }
}

impl World {
    pub open spec fn wf(self) -> bool {
        forall|i: int| 0 <= i < self@.len() ==> (#[trigger] self@[i]).wf()
    }

    /// An empty store.
    pub fn new() -> (r: World)
        ensures
            r@ == Seq::<Entity>::empty(),
            r.wf(),
    {
        World { entities: Vec::new() }
    }

    /// Number of entities, including those marked for deletion.
    pub fn len(&self) -> (r: usize)
        ensures
            r == self@.len(),
    {
        self.entities.len()
    }

    /// The entity with id `id`, if there is one.
    pub fn get(&self, id: usize) -> (r: Option<Entity>)
        ensures
            r == (if id < self@.len() {
                Some(self@[id as int])
            } else {
                None
            }),
    {
        if id < self.entities.len() {
            Some(self.entities[id])
        } else {
            None
        }
    }

    /// Adds an entity with the given components; returns its id.
    pub fn create(&mut self, e: Entity) -> (id: usize)
        requires
            old(self).wf(),
            e.wf(),
        ensures
            final(self)@ == old(self)@.push(Entity { deleted: false, ..e }),
            id == old(self)@.len(),
            final(self).wf(),
    {
        let id = self.entities.len();
        self.entities.push(Entity { deleted: false, ..e });
        id
    }

    /// Marks the entity `id` for deletion; it stays visible until `maintain`.
    /// An id out of range is ignored.
    pub fn mark_deleted(&mut self, id: usize)
        requires
            old(self).wf(),
        ensures
            final(self)@ == marked(old(self)@, id as int),
            final(self).wf(),
    {
        if id < self.entities.len() {
            let mut e = self.entities[id];
            e.deleted = true;
            self.entities.set(id, e);
        }
    }

    /// Drops every entity marked for deletion, keeping the order of the rest.
    pub fn maintain(&mut self)
        requires
            old(self).wf(),
        ensures
            final(self)@ == swept(old(self)@),
            final(self).wf(),
    {
        let mut kept: Vec<Entity> = Vec::new();
        let mut i: usize = 0;
        while i < self.entities.len()
            invariant
                self.wf(),
                0 <= i <= self@.len(),
                kept@ == swept(self@.take(i as int)),
                forall|j: int| 0 <= j < kept@.len() ==> (#[trigger] kept@[j]).wf(),
            decreases self@.len() - i,
        {
            let e = self.entities[i];
            proof {
                reveal(Seq::filter);
                assert(self@.take(i + 1).drop_last() =~= self@.take(i as int));
            }
            if !e.deleted {
                kept.push(e);
            }
            i += 1;
        }
        assert(self@.take(i as int) =~= self@);
        self.entities = kept;
    }

    /// Removes every entity at once.
    pub fn delete_all(&mut self)
        ensures
            final(self)@ == Seq::<Entity>::empty(),
            final(self).wf(),
    {
        self.entities = Vec::new();
    }

    /// Number of entities holding a component of the given kind.
    pub fn count(&self, kind: ComponentKind) -> (r: usize)
        ensures
            r == count_with(self@, kind),
    {
        let mut n: usize = 0;
        let mut i: usize = 0;
        while i < self.entities.len()
            invariant
                0 <= i <= self@.len(),
                n == count_with(self@.take(i as int), kind),
                n <= i,
            decreases self@.len() - i,
        {
            proof {
                reveal(Seq::filter);
                assert(self@.take(i + 1).drop_last() =~= self@.take(i as int));
            }
            if self.entities[i].holds(kind) {
                n += 1;
            }
            i += 1;
        }
        assert(self@.take(i as int) =~= self@);
        n
    }
}

/// Marking an entity twice is the same as marking it once, and `maintain` then
/// removes exactly that entity: no entity of the result is the marked one, and
/// every other entity that was not already marked is kept, unchanged and in order.
pub proof fn lemma_delete_idempotent(s: Seq<Entity>, id: int)
    requires
        0 <= id < s.len(),
        !s[id].deleted,
    ensures
        marked(marked(s, id), id) == marked(s, id),
        swept(marked(marked(s, id), id)) == swept(marked(s, id)),
        swept(marked(s, id)) == swept(s.take(id)) + swept(s.skip(id + 1)),
{
    let m = marked(s, id);
    assert(marked(m, id) =~= m);
    assert(m =~= s.take(id) + seq![m[id]] + s.skip(id + 1));
    broadcast use Seq::filter_distributes_over_add;
    assert(swept(m) == swept(s.take(id) + seq![m[id]]) + swept(s.skip(id + 1)));
    assert(swept(s.take(id) + seq![m[id]]) == swept(s.take(id)) + swept(seq![m[id]]));
    reveal(Seq::filter);
    assert(seq![m[id]].drop_last() =~= Seq::<Entity>::empty());
    assert(swept(Seq::<Entity>::empty()) =~= Seq::<Entity>::empty());
    assert(seq![m[id]].last().deleted);
    assert(swept(seq![m[id]]) =~= Seq::<Entity>::empty());
    assert(swept(s.take(id)) + Seq::<Entity>::empty() =~= swept(s.take(id)));
}

} // verus!
