use vstd::prelude::*;

use crate::asteroid::{stride, stride_of};
use crate::components::{DeltaTime, GameData, Position, Renderable};
use crate::geometry::{
    clamp_i64, closer_than_half, cosine, cosine_of, saturate, sine, sine_of, within_half,
    WORLD_HEIGHT, WORLD_WIDTH,
};
use crate::world::{Entity, World};

verus! {

/// Moves the lasers and drops those that leave the screen.
pub struct LaserMovement;

/// Destroys lasers and the asteroids they meet, and awards score.
pub struct LaserDamage;

/// Score awarded per hit and per level.
pub const POINTS_PER_LEVEL: u64 = 10;

/// `e` after one movement step, if it is a laser with a position and an image: it
/// travels along its heading, is marked for deletion once it is off screen, and its
/// image points along its heading. Other entities are left as they are.
pub open spec fn laser_moved(e: Entity, micros: int) -> Entity {
    if e.position is Some && e.renderable is Some && e.laser is Some {
        let p = e.position->Some_0;
        let l = e.laser->Some_0;
        let x = clamp_i64(p.x + stride(l.speed as int, sine_of(p.rot as int), micros));
        let y = clamp_i64(p.y - stride(l.speed as int, cosine_of(p.rot as int), micros));
        Entity {
            position: Some(Position { x: x as i64, y: y as i64, rot: p.rot }),
            renderable: Some(Renderable { img_rotation: p.rot, ..e.renderable->Some_0 }),
            deleted: e.deleted || x > WORLD_WIDTH || x < 0 || y > WORLD_HEIGHT || y < 0,
            ..e
        }
    } else {
        e
    }
}

/// One movement step of a single entity (see `laser_moved`).
pub fn move_laser(e: Entity, delta_time: DeltaTime) -> (r: Entity)
    requires
        e.wf(),
    ensures
        r == laser_moved(e, delta_time.0 as int),
        r.wf(),
{
    match (e.position, e.renderable, e.laser) {
        (Some(p), Some(r), Some(l)) => {
            let s = sine(p.rot);
            let c = cosine(p.rot);
            proof {
                crate::geometry::lemma_trig_bounded(p.rot as int);
            }
            let x = saturate(p.x as i128 + stride_of(l.speed, s, delta_time.0));
            let y = saturate(p.y as i128 - stride_of(l.speed, c, delta_time.0));
            let mut moved = e;
            moved.position = Some(Position { x, y, rot: p.rot });
            moved.renderable = Some(Renderable { img_rotation: p.rot, ..r });
            if x > WORLD_WIDTH || x < 0 || y > WORLD_HEIGHT || y < 0 {
                moved.deleted = true;
            }
            moved
        },
        _ => e,
    }
}

impl LaserMovement {
    /// Moves every laser that has a position and an image (see `laser_moved`).
    pub fn run(&self, ecs: &mut World, delta_time: DeltaTime)
        requires
            old(ecs).wf(),
        ensures
            final(ecs).wf(),
            final(ecs)@ == old(ecs)@.map_values(|e: Entity| laser_moved(e, delta_time.0 as int)),
    {
        let ghost start = ecs@;
        let mut i: usize = 0;
        while i < ecs.entities.len()
            invariant
                ecs.wf(),
                ecs@.len() == start.len(),
                0 <= i <= start.len(),
                forall|j: int| 0 <= j < i ==> #[trigger] ecs@[j] == laser_moved(start[j], delta_time.0 as int),
                forall|j: int| i <= j < start.len() ==> #[trigger] ecs@[j] == start[j],
            decreases start.len() - i,
        {
            let e = ecs.entities[i];
            let moved = move_laser(e, delta_time);
            ecs.entities.set(i, moved);
            i += 1;
        }
        assert(ecs@ =~= start.map_values(|e: Entity| laser_moved(e, delta_time.0 as int)));
    }
}

/// Entity `l`, a laser, touches entity `a`, an asteroid: their centres are closer than
/// half the asteroid's width.
pub open spec fn laser_hits(s: Seq<Entity>, l: int, a: int) -> bool {
    &&& 0 <= l < s.len()
    &&& 0 <= a < s.len()
    &&& s[l].position is Some
    &&& s[l].renderable is Some
    &&& s[l].laser is Some
    &&& s[a].position is Some
    &&& s[a].renderable is Some
    &&& s[a].asteroid is Some
    &&& within_half(
        s[l].position->Some_0.x as int,
        s[l].position->Some_0.y as int,
        s[a].position->Some_0.x as int,
        s[a].position->Some_0.y as int,
        s[a].renderable->Some_0.output_width as int,
    )
}

/// Number of asteroids among the first `k` entities that laser `l` touches.
pub open spec fn laser_hits_upto(s: Seq<Entity>, l: int, k: int) -> nat
    decreases k,
{
    if k <= 0 {
        0
    } else {
        laser_hits_upto(s, l, k - 1) + if laser_hits(s, l, k - 1) {
            1nat
        } else {
            0nat
        }
    }
}

/// Number of laser-asteroid contacts involving the first `k` lasers.
pub open spec fn contacts_upto(s: Seq<Entity>, k: int) -> nat
    decreases k,
{
    if k <= 0 {
        0
    } else {
        contacts_upto(s, k - 1) + laser_hits_upto(s, k - 1, s.len() as int)
    }
}

/// Entity `i` takes part in a contact as the laser or as the asteroid.
pub open spec fn in_contact(s: Seq<Entity>, i: int) -> bool {
    (exists|a: int| #[trigger] laser_hits(s, i, a)) || (exists|l: int| #[trigger] laser_hits(s, l, i))
}

/// Score after `contacts` hits at `level`, held to the largest `u32`.
pub open spec fn scored(score: int, level: int, contacts: int) -> int {
    let total = score + POINTS_PER_LEVEL * level * contacts;
    if total > u32::MAX {
        u32::MAX as int
    } else {
        total
    }
}

/// Entity `i` after the laser pass: marked for deletion if it took part in a
/// contact, and, if it holds game state, its score raised by POINTS_PER_LEVEL times
/// its level for each contact.
pub open spec fn after_lasers(s: Seq<Entity>, i: int) -> Entity {
    Entity {
        deleted: s[i].deleted || in_contact(s, i),
        game_data: match s[i].game_data {
            Some(g) => Some(
                GameData {
                    score: scored(g.score as int, g.level as int, contacts_upto(s, s.len() as int) as int) as u32,
                    ..g
                },
            ),
            None => None,
        },
        ..s[i]
    }
}

/// The world after the laser pass.
pub open spec fn after_laser_pass(s: Seq<Entity>) -> Seq<Entity> {
    Seq::new(s.len(), |i: int| after_lasers(s, i))
}

/// Whether laser `l` touches asteroid `a`, when both are what they must be.
fn laser_touches(l: &Entity, a: &Entity) -> (r: bool)
    ensures
        r == (l.position is Some && l.renderable is Some && l.laser is Some && a.position is Some
            && a.renderable is Some && a.asteroid is Some && within_half(
            l.position->Some_0.x as int,
            l.position->Some_0.y as int,
            a.position->Some_0.x as int,
            a.position->Some_0.y as int,
            a.renderable->Some_0.output_width as int,
        )),
{
    match (l.position, l.renderable, l.laser, a.position, a.renderable, a.asteroid) {
        (Some(lp), Some(_), Some(_), Some(ap), Some(ar), Some(_)) => {
            closer_than_half(lp.x, lp.y, ap.x, ap.y, ar.output_width as u64)
        },
        _ => false,
    }
}

impl LaserDamage {
    /// Lets every laser meet every asteroid (see `after_laser_pass`). Marked
    /// entities stay until `maintain`.
    pub fn run(&self, ecs: &mut World)
        requires
            old(ecs).wf(),
        ensures
            final(ecs).wf(),
            final(ecs)@ == after_laser_pass(old(ecs)@),
    {
        let ghost start = ecs@;
        let n = ecs.entities.len();
        let mut contacts: u64 = 0;
        let mut l: usize = 0;
        while l < n
            invariant
                ecs.wf(),
                n == start.len(),
                ecs@.len() == n,
                0 <= l <= n,
                contacts == if contacts_upto(start, l as int) < u64::MAX {
                    contacts_upto(start, l as int)
                } else {
                    u64::MAX as nat
                },
                forall|k: int|
                    0 <= k < n ==> #[trigger] ecs@[k] == (Entity {
                        deleted: start[k].deleted || (k < l && exists|b: int| #[trigger] laser_hits(start, k, b))
                            || (exists|m: int| 0 <= m < l && laser_hits(start, m, k)),
                        ..start[k]
                    }),
            decreases n - l,
        {
            let mut a: usize = 0;
            while a < n
                invariant
                    ecs.wf(),
                    n == start.len(),
                    ecs@.len() == n,
                    0 <= l < n,
                    0 <= a <= n,
                    contacts == if contacts_upto(start, l as int) + laser_hits_upto(start, l as int, a as int) < u64::MAX {
                        contacts_upto(start, l as int) + laser_hits_upto(start, l as int, a as int)
                    } else {
                        u64::MAX as nat
                    },
                    forall|k: int|
                        0 <= k < n ==> #[trigger] ecs@[k] == (Entity {
                            deleted: start[k].deleted || (k < l && exists|b: int| #[trigger] laser_hits(start, k, b))
                                || (exists|m: int| 0 <= m < l && laser_hits(start, m, k))
                                || (k == l && exists|b: int| 0 <= b < a && laser_hits(start, k, b))
                                || (k < a && laser_hits(start, l as int, k)),
                            ..start[k]
                        }),
                decreases n - a,
            {
                let le = ecs.entities[l];
                let ae = ecs.entities[a];
                let hit = laser_touches(&le, &ae);
                assert(hit == laser_hits(start, l as int, a as int));
                if hit {
                    ecs.mark_deleted(l);
                    ecs.mark_deleted(a);
                    if contacts < u64::MAX {
                        contacts = contacts + 1;
                    }
                }
                proof {
                    assert forall|k: int| 0 <= k < n implies #[trigger] ecs@[k] == (Entity {
                        deleted: start[k].deleted || (k < l && exists|b: int| #[trigger] laser_hits(start, k, b))
                            || (exists|m: int| 0 <= m < l && laser_hits(start, m, k))
                            || (k == l && exists|b: int| 0 <= b < a + 1 && laser_hits(start, k, b))
                            || (k < a + 1 && laser_hits(start, l as int, k)),
                        ..start[k]
                    }) by {
                        if hit && k == l {
                            assert(0 <= a < a + 1 && laser_hits(start, k, a as int));
                        }
                    }
                }
                a += 1;
            }
            proof {
                assert forall|k: int| 0 <= k < n implies #[trigger] ecs@[k] == (Entity {
                    deleted: start[k].deleted || (k < l + 1 && exists|b: int| #[trigger] laser_hits(start, k, b))
                        || (exists|m: int| 0 <= m < l + 1 && laser_hits(start, m, k)),
                    ..start[k]
                }) by {
                    if k < n && laser_hits(start, l as int, k) {
                        assert(0 <= l < l + 1 && laser_hits(start, l as int, k));
                    }
                    if exists|m: int| 0 <= m < l + 1 && laser_hits(start, m, k) {
                        let m = choose|m: int| 0 <= m < l + 1 && laser_hits(start, m, k);
                        if m == l {
                            assert(k < n && laser_hits(start, l as int, k));
                        } else {
                            assert(0 <= m < l && laser_hits(start, m, k));
                        }
                    }
                    if k == l && exists|b: int| laser_hits(start, k, b) {
                        let b = choose|b: int| laser_hits(start, k, b);
                        assert(0 <= b < n);
                    }
                }
            }
            l += 1;
        }
        let ghost marked = ecs@;
        let mut i: usize = 0;
        while i < n
            invariant
                ecs.wf(),
                n == start.len(),
                ecs@.len() == n,
                0 <= i <= n,
                contacts == if contacts_upto(start, n as int) < u64::MAX {
                    contacts_upto(start, n as int)
                } else {
                    u64::MAX as nat
                },
                forall|k: int| 0 <= k < i ==> #[trigger] ecs@[k] == after_lasers(start, k),
                forall|k: int| i <= k < n ==> #[trigger] ecs@[k] == marked[k],
                forall|k: int|
                    0 <= k < n ==> #[trigger] marked[k] == (Entity {
                        deleted: start[k].deleted || (k < n && exists|b: int| #[trigger] laser_hits(start, k, b))
                            || (exists|m: int| 0 <= m < n && laser_hits(start, m, k)),
                        ..start[k]
                    }),
            decreases n - i,
        {
            let mut e = ecs.entities[i];
            proof {
                if exists|b: int| laser_hits(start, i as int, b) {
                    let b = choose|b: int| laser_hits(start, i as int, b);
                    assert(0 <= i < n && laser_hits(start, i as int, b));
                }
                if exists|m: int| laser_hits(start, m, i as int) {
                    let m = choose|m: int| laser_hits(start, m, i as int);
                    assert(0 <= m < n && laser_hits(start, m, i as int));
                }
            }
            match e.game_data {
                Some(g) => {
                    assert(POINTS_PER_LEVEL * g.level * contacts <= 10 * 0xffff_ffff * 0xffff_ffff_ffff_ffff) by (nonlinear_arith)
                        requires
                            0 <= g.level <= 0xffff_ffff,
                            0 <= contacts <= 0xffff_ffff_ffff_ffff,
                    ;
                    assert(0 <= POINTS_PER_LEVEL * g.level) by (nonlinear_arith)
                        requires
                            0 <= g.level,
                    ;
                    let total: u128 = g.score as u128 + POINTS_PER_LEVEL as u128 * g.level as u128
                        * contacts as u128;
                    proof {
                        let c = contacts_upto(start, n as int) as int;
                        assert(POINTS_PER_LEVEL * g.level * contacts <= 10 * 0xffff_ffff * 0xffff_ffff_ffff_ffff) by (nonlinear_arith)
                            requires
                                0 <= g.level <= 0xffff_ffff,
                                0 <= contacts <= 0xffff_ffff_ffff_ffff,
                        ;
                        if contacts_upto(start, n as int) >= u64::MAX && g.level > 0 {
                            assert(POINTS_PER_LEVEL * g.level * c >= u32::MAX) by (nonlinear_arith)
                                requires
                                    g.level >= 1,
                                    c >= 0xffff_ffff_ffff_ffff,
                            ;
                            assert(POINTS_PER_LEVEL * g.level * contacts >= u32::MAX) by (nonlinear_arith)
                                requires
                                    g.level >= 1,
                                    contacts == 0xffff_ffff_ffff_ffff,
                            ;
                        }
                        if g.level == 0 {
                            assert(POINTS_PER_LEVEL * g.level * c == 0) by (nonlinear_arith)
                                requires
                                    g.level == 0,
                            ;
                            assert(POINTS_PER_LEVEL * g.level * contacts == 0) by (nonlinear_arith)
                                requires
                                    g.level == 0,
                            ;
                        }
                    }
                    let score: u32 = if total > u32::MAX as u128 {
                        u32::MAX
                    } else {
                        total as u32
                    };
                    e.game_data = Some(GameData { score, ..g });
                },
                None => {},
            }
            ecs.entities.set(i, e);
            i += 1;
        }
        assert(ecs@ =~= after_laser_pass(start));
    }
}

} // verus!
