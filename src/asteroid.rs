use vstd::prelude::*;

use crate::components::{DeltaTime, Player, Position, Renderable};
use crate::geometry::{
    clamp_i64, component, cosine, cosine_of, quadrant_at, quadrant_of, reflect_horizontal,
    reflect_vertical, reflected_horizontally, reflected_vertically, saturate, scale, sine, sine_of,
    closer_than_half, travel, travel_of, within_half, wrap_into, FULL_TURN, MICROS_PER_SECOND, SUBPIXELS, TRIG_SCALE, WORLD_HEIGHT,
    WORLD_WIDTH,
};
use crate::game::is_ship;
use crate::world::{Entity, World};

verus! {

/// Moves the asteroids and bounces them off the screen edges.
pub struct AsteroidMovement;

/// Damages the ship when it meets an asteroid.
pub struct AsteroidCollider;

/// The distance moved in `micros` microseconds at `speed` world units per second
/// along a direction whose trigonometric factor is `factor` (in thousandths).
pub open spec fn stride(speed: int, factor: int, micros: int) -> int {
    travel(component(speed, factor), micros)
}

/// `e` after one movement step, if it is an asteroid with a position and an image:
/// it travels along its heading, bounces off a left or right edge (or, failing that,
/// a top or bottom edge) once its image would cross it, spins its image, and records
/// its quadrant. Other entities are left as they are.
pub open spec fn asteroid_moved(e: Entity, micros: int) -> Entity {
    if e.position is Some && e.renderable is Some && e.asteroid is Some {
        let p = e.position->Some_0;
        let r = e.renderable->Some_0;
        let a = e.asteroid->Some_0;
        let x = clamp_i64(p.x + stride(a.speed as int, sine_of(p.rot as int), micros));
        let y = clamp_i64(p.y - stride(a.speed as int, cosine_of(p.rot as int), micros));
        let half_width = (r.output_width / 2) * SUBPIXELS;
        let half_height = (r.output_height / 2) * SUBPIXELS;
        let rot = if x > WORLD_WIDTH - half_width || x < half_width {
            reflected_horizontally(p.rot as int)
        } else if y > WORLD_HEIGHT - half_height || y < half_height {
            reflected_vertically(p.rot as int)
        } else {
            p.rot as int
        };
        Entity {
            position: Some(Position { x: x as i64, y: y as i64, rot: rot as i64 }),
            renderable: Some(
                Renderable {
                    img_rotation: ((r.img_rotation + travel(a.rotation_speed as int, micros))
                        % (FULL_TURN as int)) as i64,
                    ..r
                },
            ),
            asteroid: Some(crate::components::Asteroid { quadrant: quadrant_of(x, y), ..a }),
            ..e
        }
    } else {
        e
    }
}

/// Distance covered along one axis: `speed` split by the trigonometric `factor`, then
/// travelled for `micros` microseconds.
pub(crate) fn stride_of(speed: i32, factor: i64, micros: u32) -> (r: i128)
    requires
        -TRIG_SCALE <= factor <= TRIG_SCALE,
    ensures
        r == stride(speed as int, factor as int, micros as int),
        -0x1_0000_0000_0000_0000 <= r <= 0x1_0000_0000_0000_0000,
{
    assert(-0x8000_0000 * 1000 <= speed * factor <= 0x8000_0000 * 1000) by (nonlinear_arith)
        requires
            -0x8000_0000 <= speed < 0x8000_0000,
            -1000 <= factor <= 1000,
    ;
    let v = scale(speed as i128, factor as i128, TRIG_SCALE as i128);
    proof {
        crate::geometry::lemma_scaled_bound(speed as int, factor as int, TRIG_SCALE as int);
        assert(crate::geometry::abs(v as int) <= 0x8000_0000);
        assert(-0x8000_0000 * 0x1_0000_0000 <= v * micros <= 0x8000_0000 * 0x1_0000_0000) by (nonlinear_arith)
            requires
                -0x8000_0000 <= v <= 0x8000_0000,
                0 <= micros < 0x1_0000_0000,
        ;
    }
    let d = scale(v, micros as i128, MICROS_PER_SECOND as i128);
    proof {
        crate::geometry::lemma_scaled_bound(v as int, micros as int, MICROS_PER_SECOND as int);
    }
    d
}

/// One movement step of a single entity (see `asteroid_moved`).
pub fn move_asteroid(e: Entity, delta_time: DeltaTime) -> (r: Entity)
    requires
        e.wf(),
    ensures
        r == asteroid_moved(e, delta_time.0 as int),
        r.wf(),
{
    match (e.position, e.renderable, e.asteroid) {
        (Some(p), Some(r), Some(a)) => {
            let s = sine(p.rot);
            let c = cosine(p.rot);
            proof {
                crate::geometry::lemma_trig_bounded(p.rot as int);
            }
            let x = saturate(p.x as i128 + stride_of(a.speed, s, delta_time.0));
            let y = saturate(p.y as i128 - stride_of(a.speed, c, delta_time.0));
            let half_width: i64 = (r.output_width / 2) as i64 * SUBPIXELS;
            let half_height: i64 = (r.output_height / 2) as i64 * SUBPIXELS;
            let rot = if x > WORLD_WIDTH - half_width || x < half_width {
                reflect_horizontal(p.rot)
            } else if y > WORLD_HEIGHT - half_height || y < half_height {
                reflect_vertical(p.rot)
            } else {
                p.rot
            };
            let spin = wrap_into(
                r.img_rotation as i128 + travel_of(a.rotation_speed, delta_time.0),
                FULL_TURN as i128,
            ) as i64;
            let mut moved = e;
            moved.position = Some(Position { x, y, rot });
            moved.renderable = Some(Renderable { img_rotation: spin, ..r });
            moved.asteroid = Some(crate::components::Asteroid { quadrant: quadrant_at(x, y), ..a });
            moved
        },
        _ => e,
    }
}

impl AsteroidMovement {
    /// Moves every asteroid that has a position and an image (see `asteroid_moved`).
    pub fn run(&self, ecs: &mut World, delta_time: DeltaTime)
        requires
            old(ecs).wf(),
        ensures
            final(ecs).wf(),
            final(ecs)@ == old(ecs)@.map_values(|e: Entity| asteroid_moved(e, delta_time.0 as int)),
    {
        let ghost start = ecs@;
        let mut i: usize = 0;
        while i < ecs.entities.len()
            invariant
                ecs.wf(),
                ecs@.len() == start.len(),
                0 <= i <= start.len(),
                forall|j: int| 0 <= j < i ==> #[trigger] ecs@[j] == asteroid_moved(start[j], delta_time.0 as int),
                forall|j: int| i <= j < start.len() ==> #[trigger] ecs@[j] == start[j],
            decreases start.len() - i,
        {
            let e = ecs.entities[i];
            let moved = move_asteroid(e, delta_time);
            ecs.entities.set(i, moved);
            i += 1;
        }
        assert(ecs@ =~= start.map_values(|e: Entity| asteroid_moved(e, delta_time.0 as int)));
    }
}

/// Collisions apply when there is game state and none of it makes the ship invincible.
pub open spec fn collisions_on(s: Seq<Entity>) -> bool {
    &&& exists|i: int| 0 <= i < s.len() && (#[trigger] s[i]).game_data is Some
    &&& forall|i: int|
        0 <= i < s.len() && (#[trigger] s[i]).game_data is Some ==> !s[i].game_data->Some_0.invincible_player
}

/// Entity `j` is a ship touching entity `i`, an asteroid recorded in the ship's quadrant:
/// their centres are closer than half the sum of their widths.
pub open spec fn ship_hits(s: Seq<Entity>, j: int, i: int) -> bool {
    &&& 0 <= j < s.len()
    &&& 0 <= i < s.len()
    &&& is_ship(s[j])
    &&& s[i].position is Some
    &&& s[i].renderable is Some
    &&& s[i].asteroid is Some
    &&& s[i].asteroid->Some_0.quadrant == quadrant_of(
        s[j].position->Some_0.x as int,
        s[j].position->Some_0.y as int,
    )
    &&& within_half(
        s[j].position->Some_0.x as int,
        s[j].position->Some_0.y as int,
        s[i].position->Some_0.x as int,
        s[i].position->Some_0.y as int,
        s[j].renderable->Some_0.output_width + s[i].renderable->Some_0.output_width,
    )
}

/// Number of asteroids among the first `k` entities that ship `j` touches.
pub open spec fn hits_upto(s: Seq<Entity>, j: int, k: int) -> nat
    decreases k,
{
    if k <= 0 {
        0
    } else {
        hits_upto(s, j, k - 1) + if ship_hits(s, j, k - 1) {
            1nat
        } else {
            0nat
        }
    }
}

/// Health `h` after `n` hits, never below the smallest `i32`.
pub open spec fn worn(h: int, n: int) -> int {
    if h - n < i32::MIN {
        i32::MIN as int
    } else {
        h - n
    }
}

/// Some ship among the first `j` entities touches entity `i`.
pub open spec fn struck_before(s: Seq<Entity>, i: int, j: int) -> bool {
    exists|k: int| 0 <= k < j && #[trigger] ship_hits(s, k, i)
}

/// Ship `j` was hit and its health fell below 1.
pub open spec fn ship_down(s: Seq<Entity>, j: int) -> bool {
    is_ship(s[j]) && hits_upto(s, j, s.len() as int) > 0 && worn(
        s[j].player->Some_0.health as int,
        hits_upto(s, j, s.len() as int) as int,
    ) < 1
}

/// Entity `i` after the pass that lets the first `j` ships meet the asteroids: each
/// asteroid a ship touches is marked for deletion, each such ship loses one health
/// per asteroid, and a ship whose health falls below 1 is marked for deletion.
pub open spec fn after_ships(s: Seq<Entity>, i: int, j: int) -> Entity {
    Entity {
        deleted: s[i].deleted || struck_before(s, i, j) || (i < j && ship_down(s, i)),
        player: if i < j && is_ship(s[i]) {
            Some(
                Player {
                    health: worn(
                        s[i].player->Some_0.health as int,
                        hits_upto(s, i, s.len() as int) as int,
                    ) as i32,
                    ..s[i].player->Some_0
                },
            )
        } else {
            s[i].player
        },
        ..s[i]
    }
}

/// The world after the ship-asteroid pass.
pub open spec fn after_collisions(s: Seq<Entity>) -> Seq<Entity> {
    Seq::new(s.len(), |i: int| after_ships(s, i, s.len() as int))
}

/// Whether any game state makes the ship invincible, or there is no game state.
fn collisions_enabled(ecs: &World) -> (r: bool)
    ensures
        r == collisions_on(ecs@),
{
    let mut seen = false;
    let mut i: usize = 0;
    while i < ecs.entities.len()
        invariant
            0 <= i <= ecs@.len(),
            seen == exists|k: int| 0 <= k < i && (#[trigger] ecs@[k]).game_data is Some,
            forall|k: int|
                0 <= k < i && (#[trigger] ecs@[k]).game_data is Some
                    ==> !ecs@[k].game_data->Some_0.invincible_player,
        decreases ecs@.len() - i,
    {
        match ecs.entities[i].game_data {
            Some(g) => {
                if g.invincible_player {
                    return false;
                }
                seen = true;
            },
            None => {},
        }
        i += 1;
    }
    seen
}

impl AsteroidCollider {
    /// Lets the ship meet the asteroids, unless invincibility is on or there is no
    /// game state (see `after_collisions`). Marked entities stay until `maintain`.
    pub fn run(&self, ecs: &mut World)
        requires
            old(ecs).wf(),
        ensures
            final(ecs).wf(),
            collisions_on(old(ecs)@) ==> final(ecs)@ == after_collisions(old(ecs)@),
            !collisions_on(old(ecs)@) ==> final(ecs)@ == old(ecs)@,
    {
        if !collisions_enabled(ecs) {
            return;
        }
        let ghost start = ecs@;
        let n = ecs.entities.len();
        let mut j: usize = 0;
        while j < n
            invariant
                ecs.wf(),
                n == start.len(),
                ecs@.len() == n,
                0 <= j <= n,
                forall|k: int| 0 <= k < n ==> #[trigger] ecs@[k] == after_ships(start, k, j as int),
            decreases n - j,
        {
            let e = ecs.entities[j];
            assert(e == after_ships(start, j as int, j as int));
            match (e.position, e.renderable, e.player) {
                (Some(pp), Some(pr), Some(pl)) => {
                    assert(is_ship(start[j as int]));
                    let q = quadrant_at(pp.x, pp.y);
                    let mut health: i32 = pl.health;
                    let mut i: usize = 0;
                    while i < n
                        invariant
                            ecs.wf(),
                            n == start.len(),
                            ecs@.len() == n,
                            0 <= j < n,
                            0 <= i <= n,
                            is_ship(start[j as int]),
                            pp == start[j as int].position->Some_0,
                            pr == start[j as int].renderable->Some_0,
                            pl == start[j as int].player->Some_0,
                            q == quadrant_of(pp.x as int, pp.y as int),
                            health == worn(pl.health as int, hits_upto(start, j as int, i as int) as int),
                            forall|k: int|
                                0 <= k < n ==> #[trigger] ecs@[k] == (Entity {
                                    deleted: after_ships(start, k, j as int).deleted || (k < i && ship_hits(start, j as int, k))
                                        || (k == j && hits_upto(start, j as int, i as int) > 0 && worn(
                                        pl.health as int,
                                        hits_upto(start, j as int, i as int) as int,
                                    ) < 1),
                                    ..after_ships(start, k, j as int)
                                }),
                        decreases n - i,
                    {
                        let a = ecs.entities[i];
                        let mut hit = false;
                        match (a.position, a.renderable, a.asteroid) {
                            (Some(ap), Some(ar), Some(aa)) => {
                                if aa.quadrant == q && closer_than_half(
                                    pp.x,
                                    pp.y,
                                    ap.x,
                                    ap.y,
                                    pr.output_width as u64 + ar.output_width as u64,
                                ) {
                                    hit = true;
                                }
                            },
                            _ => {},
                        }
                        assert(hit == ship_hits(start, j as int, i as int));
                        if hit {
                            ecs.mark_deleted(i);
                            if health > i32::MIN {
                                health = health - 1;
                            }
                            if health < 1 {
                                ecs.mark_deleted(j);
                            }
                        }
                        i += 1;
                    }
                    let mut e2 = ecs.entities[j];
                    e2.player = Some(Player { health, ..pl });
                    ecs.entities.set(j, e2);
                    proof {
                        assert forall|k: int| 0 <= k < n implies #[trigger] ecs@[k] == after_ships(start, k, j + 1) by {
                            if ship_hits(start, j as int, k) {
                                assert(struck_before(start, k, j + 1));
                            }
                            if struck_before(start, k, j as int) {
                                let w = choose|w: int| 0 <= w < j && #[trigger] ship_hits(start, w, k);
                                assert(struck_before(start, k, j + 1));
                            }
                            if struck_before(start, k, j + 1) {
                                let w = choose|w: int| 0 <= w < j + 1 && #[trigger] ship_hits(start, w, k);
                                if w < j {
                                    assert(struck_before(start, k, j as int));
                                }
                            }
                        }
                    }
                },
                _ => {
                    proof {
                        assert(!is_ship(start[j as int]));
                        assert forall|k: int| 0 <= k < n implies #[trigger] ecs@[k] == after_ships(start, k, j + 1) by {
                            if struck_before(start, k, j + 1) {
                                let w = choose|w: int| 0 <= w < j + 1 && #[trigger] ship_hits(start, w, k);
                                assert(w != j);
                                assert(struck_before(start, k, j as int));
                            }
                            if struck_before(start, k, j as int) {
                                let w = choose|w: int| 0 <= w < j && #[trigger] ship_hits(start, w, k);
                                assert(struck_before(start, k, j + 1));
                            }
                        }
                    }
                },
            }
            j += 1;
        }
        assert(ecs@ =~= after_collisions(start));
    }
}

} // verus!
