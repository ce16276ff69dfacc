use vstd::prelude::*;

use crate::asteroid::{after_collisions, asteroid_moved, collisions_on, AsteroidCollider, AsteroidMovement};
use crate::components::DeltaTime;
use crate::game::{keys_after_update, update, updated};
use crate::input_manager::InputState;
use crate::laser::{after_laser_pass, laser_moved, LaserDamage, LaserMovement};
use crate::world::{swept, Entity, World};

verus! {

/// The world after each stage of a frame, from `s` to `r`: `update`, asteroid
/// movement, ship-asteroid collisions, laser movement, laser damage, deletions.
pub open spec fn frame_stages(
    s: Seq<Entity>,
    r: Seq<Entity>,
    keys: Map<Seq<char>, bool>,
    micros: int,
    w1: Seq<Entity>,
    w2: Seq<Entity>,
    w3: Seq<Entity>,
    w4: Seq<Entity>,
    w5: Seq<Entity>,
) -> bool {
    &&& updated(s, w1, keys, micros)
    &&& w2 == w1.map_values(|e: Entity| asteroid_moved(e, micros))
    &&& collisions_on(w2) ==> w3 == after_collisions(w2)
    &&& !collisions_on(w2) ==> w3 == w2
    &&& w4 == w3.map_values(|e: Entity| laser_moved(e, micros))
    &&& w5 == after_laser_pass(w4)
    &&& r == swept(w5)
}

/// One whole frame of simulation, in the fixed order: ship control and the wave
/// director, asteroid movement, ship-asteroid collisions, laser movement, laser
/// damage, and finally the deferred deletions. No entity is left marked.
pub fn run_frame(ecs: &mut World, input_manager: &mut InputState, delta_time: DeltaTime)
    requires
        old(ecs).wf(),
    ensures
        final(ecs).wf(),
        exists|w1: Seq<Entity>, w2: Seq<Entity>, w3: Seq<Entity>, w4: Seq<Entity>, w5: Seq<Entity>|
            frame_stages(old(ecs)@, final(ecs)@, old(input_manager)@, delta_time.0 as int, w1, w2, w3, w4, w5),
        forall|i: int| 0 <= i < final(ecs)@.len() ==> !(#[trigger] final(ecs)@[i]).deleted,
        final(input_manager)@ == keys_after_update(old(input_manager)@, old(ecs)@),
{
    update(ecs, input_manager, delta_time);
    let ghost w1 = ecs@;
    AsteroidMovement.run(ecs, delta_time);
    let ghost w2 = ecs@;
    AsteroidCollider.run(ecs);
    let ghost w3 = ecs@;
    LaserMovement.run(ecs, delta_time);
    let ghost w4 = ecs@;
    LaserDamage.run(ecs);
    let ghost before = ecs@;
    ecs.maintain();
    assert(ecs@ == swept(before));
    assert(frame_stages(old(ecs)@, ecs@, old(input_manager)@, delta_time.0 as int, w1, w2, w3, w4, before));
    proof {
        broadcast use vstd::seq_lib::group_filter_ensures;
        assert forall|i: int| 0 <= i < ecs@.len() implies !(#[trigger] ecs@[i]).deleted by {
            assert(ecs@ == crate::world::swept(before));
        }
    }
}

} // verus!
