use vstd::prelude::*;

use crate::components::{
    Asteroid, GameData, Laser, Player, Position, Renderable, Texture, Vec2, FRICTION_SCALE,
};
use crate::components::DeltaTime;
use crate::geometry::{
    clamp_i64, component, cosine, cosine_of, damped, is_ceil_sqrt, length_sq, limit_length,
    limited, quadrant_at, quadrant_of, saturate, scale, scaled, sine, sine_of, travel, travel_of,
    wrap_into, Quadrant, FULL_TURN, SUBPIXELS, TRIG_SCALE, WORLD_HEIGHT, WORLD_WIDTH,
};
use crate::input_manager::{is_key_pressed, key_up, pressed, InputState};
use crate::rng::random_in;
use crate::world::{count_with, ComponentKind, Entity, World};

verus! {

/// Health never grows past this.
pub const PLAYER_MAX_HEALTH: i32 = 10;

/// No laser is fired while this many are alive.
pub const MAX_LASERS: usize = 200;

/// Asteroids created by the mass-spawn command.
pub const MASS_SPAWN: u64 = 1000;

/// Asteroid diameters are drawn from [MIN_ASTEROID_SIZE, MAX_ASTEROID_SIZE) pixels.
pub const MIN_ASTEROID_SIZE: i64 = 40;

pub const MAX_ASTEROID_SIZE: i64 = 110;

/// Asteroid speeds are drawn from [MIN_ASTEROID_SPEED, MAX_ASTEROID_SPEED) world units per second.
pub const MIN_ASTEROID_SPEED: i64 = 70000;

pub const MAX_ASTEROID_SPEED: i64 = 250000;

/// Asteroid spins are drawn from [-MAX_ASTEROID_SPIN, MAX_ASTEROID_SPIN) thousandths of a
/// degree per second.
pub const MAX_ASTEROID_SPIN: i64 = 400000;

/// The quadrant of a position.
pub fn get_player_quadrant(pos: &Position) -> (r: Quadrant)
    ensures
        r == quadrant_of(pos.x as int, pos.y as int),
{
    quadrant_at(pos.x, pos.y)
}

/// Where asteroids of a new wave come from, given the player's quadrant and a roll in
/// 0..4: on 0 and 1 the diagonally opposite quadrant, on 2 the other quadrant of the
/// same row, on 3 the other quadrant of the same column.
pub open spec fn spawn_quadrant_for(player: Quadrant, roll: int) -> Quadrant {
    match player {
        Quadrant::TopLeft => if roll < 2 {
            Quadrant::BottomRight
        } else if roll < 3 {
            Quadrant::TopRight
        } else {
            Quadrant::BottomLeft
        },
        Quadrant::TopRight => if roll < 2 {
            Quadrant::BottomLeft
        } else if roll < 3 {
            Quadrant::TopLeft
        } else {
            Quadrant::BottomRight
        },
        Quadrant::BottomLeft => if roll < 2 {
            Quadrant::TopRight
        } else if roll < 3 {
            Quadrant::BottomRight
        } else {
            Quadrant::TopLeft
        },
        Quadrant::BottomRight => if roll < 2 {
            Quadrant::TopLeft
        } else if roll < 3 {
            Quadrant::BottomLeft
        } else {
            Quadrant::TopRight
        },
    }
}

/// The spawn quadrant for the player's quadrant and a roll in 0..4; never the
/// player's own.
pub fn spawn_quadrant(player: Quadrant, roll: i64) -> (r: Quadrant)
    ensures
        r == spawn_quadrant_for(player, roll as int),
        r != player,
{
    match player {
        Quadrant::TopLeft => if roll < 2 {
            Quadrant::BottomRight
        } else if roll < 3 {
            Quadrant::TopRight
        } else {
            Quadrant::BottomLeft
        },
        Quadrant::TopRight => if roll < 2 {
            Quadrant::BottomLeft
        } else if roll < 3 {
            Quadrant::TopLeft
        } else {
            Quadrant::BottomRight
        },
        Quadrant::BottomLeft => if roll < 2 {
            Quadrant::TopRight
        } else if roll < 3 {
            Quadrant::BottomRight
        } else {
            Quadrant::TopLeft
        },
        Quadrant::BottomRight => if roll < 2 {
            Quadrant::TopLeft
        } else if roll < 3 {
            Quadrant::BottomLeft
        } else {
            Quadrant::TopRight
        },
    }
}

/// A point on screen whose quadrant is `q`, and a heading in [0, 360) degrees.
pub open spec fn spawn_point_in(p: Position, q: Quadrant) -> bool {
    &&& 0 <= p.x < WORLD_WIDTH
    &&& 0 <= p.y < WORLD_HEIGHT
    &&& 0 <= p.rot < FULL_TURN
    &&& quadrant_of(p.x as int, p.y as int) == q
}

/// The spawn position for offsets (x, y) into quadrant `q` and a heading.
pub fn spawn_position_in(q: Quadrant, x: i64, y: i64, rot: i64) -> (r: Position)
    requires
        0 <= x < WORLD_WIDTH / 2,
        0 <= y < WORLD_HEIGHT / 2,
        0 <= rot < FULL_TURN,
    ensures
        spawn_point_in(r, q),
        r.x == (if q == Quadrant::TopRight || q == Quadrant::BottomRight { WORLD_WIDTH / 2 } else { 0 })
            + x,
        r.y == (if q == Quadrant::BottomLeft || q == Quadrant::BottomRight { WORLD_HEIGHT / 2 } else { 0 })
            + y,
        r.rot == rot,
{
    let left: i64 = if q == Quadrant::TopRight || q == Quadrant::BottomRight {
        WORLD_WIDTH / 2
    } else {
        0
    };
    let top: i64 = if q == Quadrant::BottomLeft || q == Quadrant::BottomRight {
        WORLD_HEIGHT / 2
    } else {
        0
    };
    Position { x: left + x, y: top + y, rot }
}

/// A random position for a new asteroid, in a quadrant other than the player's.
pub fn generate_spawn_position(player_pos: &Position) -> (r: Position)
    ensures
        spawn_point_in(r, quadrant_of(r.x as int, r.y as int)),
        quadrant_of(r.x as int, r.y as int) != quadrant_of(player_pos.x as int, player_pos.y as int),
{
    let player_quadrant = get_player_quadrant(player_pos);
    let roll = random_in(0, 4);
    let q = spawn_quadrant(player_quadrant, roll);
    let x = random_in(0, WORLD_WIDTH / 2);
    let y = random_in(0, WORLD_HEIGHT / 2);
    let rot = random_in(0, FULL_TURN);
    spawn_position_in(q, x, y, rot)
}

/// One of the three asteroid images, at random.
pub fn get_random_asteroid_texture_name() -> (r: Texture)
    ensures
        r.is_asteroid(),
{
    let n = random_in(1, 4);
    if n == 1 {
        Texture::Asteroid1
    } else if n == 2 {
        Texture::Asteroid2
    } else {
        Texture::Asteroid3
    }
}

/// `v` moved into [lo, hi]; where the range is empty, `hi`.
pub open spec fn clamp_into(v: int, lo: int, hi: int) -> int {
    let above = if v < lo { lo } else { v };
    if above > hi { hi } else { above }
}

/// The asteroid entity created at `pos` (already kept on screen) with the given
/// diameter in pixels, speed, spin and image.
pub open spec fn asteroid_entity(pos: Position, size: u32, speed: i32, spin: i32, texture: Texture) -> Entity {
    Entity {
        position: Some(pos),
        renderable: Some(Renderable {
            texture,
            img_width: 215,
            img_height: 215,
            output_width: size,
            output_height: size,
            img_rotation: 0,
        }),
        player: None,
        asteroid: Some(Asteroid {
            rotation_speed: spin,
            speed,
            friction: FRICTION_SCALE,
            quadrant: quadrant_of(pos.x as int, pos.y as int),
        }),
        laser: None,
        game_data: None,
        deleted: false,
    }
}

/// `position` moved so that an asteroid of `size` pixels lies wholly on screen.
pub open spec fn kept_on_screen(position: Position, size: u32) -> Position {
    let half = size * (SUBPIXELS / 2);
    Position {
        x: clamp_into(position.x as int, half, WORLD_WIDTH - half) as i64,
        y: clamp_into(position.y as int, half, WORLD_HEIGHT - half) as i64,
        rot: position.rot,
    }
}

/// Adds an asteroid of `asteroid_size` pixels at `position`, moved so that it lies
/// wholly on screen, with a random asteroid image.
pub fn create_asteroid(
    ecs: &mut World,
    position: Position,
    asteroid_size: u32,
    asteroid_speed: i32,
    asteroid_rotation_speed: i32,
)
    requires
        old(ecs).wf(),
        -FULL_TURN <= position.rot <= 2 * FULL_TURN,
    ensures
        final(ecs).wf(),
        exists|t: Texture|
            t.is_asteroid() && final(ecs)@ == old(ecs)@.push(
                asteroid_entity(
                    kept_on_screen(position, asteroid_size),
                    asteroid_size,
                    asteroid_speed,
                    asteroid_rotation_speed,
                    t,
                ),
            ),
{
    let half: i64 = asteroid_size as i64 * (SUBPIXELS / 2);
    let x0 = if position.x < half { half } else { position.x };
    let x = if x0 > WORLD_WIDTH - half { WORLD_WIDTH - half } else { x0 };
    let y0 = if position.y < half { half } else { position.y };
    let y = if y0 > WORLD_HEIGHT - half { WORLD_HEIGHT - half } else { y0 };
    let pos = Position { x, y, rot: position.rot };
    let texture = get_random_asteroid_texture_name();
    let mut e = Entity::empty();
    e.position = Some(pos);
    e.renderable = Some(
        Renderable {
            texture,
            img_width: 215,
            img_height: 215,
            output_width: asteroid_size,
            output_height: asteroid_size,
            img_rotation: 0,
        },
    );
    e.asteroid = Some(
        Asteroid {
            rotation_speed: asteroid_rotation_speed,
            speed: asteroid_speed,
            friction: FRICTION_SCALE,
            quadrant: quadrant_at(x, y),
        },
    );
    ecs.create(e);
    assert(final(ecs)@ == old(ecs)@.push(
        asteroid_entity(
            kept_on_screen(position, asteroid_size),
            asteroid_size,
            asteroid_speed,
            asteroid_rotation_speed,
            texture,
        ),
    ));
}

/// The laser fired from `from`.
pub open spec fn laser_entity(from: Position) -> Entity {
    Entity {
        position: Some(from),
        renderable: Some(Renderable {
            texture: Texture::Laser,
            img_width: 64,
            img_height: 153,
            output_width: 20,
            output_height: 50,
            img_rotation: 0,
        }),
        player: None,
        asteroid: None,
        laser: Some(Laser { speed: 500000 }),
        game_data: None,
        deleted: false,
    }
}

/// Fires a laser from `player_position`, unless MAX_LASERS lasers are alive
/// already, in which case nothing happens.
pub fn fire_laser(ecs: &mut World, player_position: Position)
    requires
        old(ecs).wf(),
    ensures
        final(ecs).wf(),
        count_with(old(ecs)@, ComponentKind::Laser) >= MAX_LASERS ==> final(ecs)@ == old(ecs)@,
        count_with(old(ecs)@, ComponentKind::Laser) < MAX_LASERS ==> final(ecs)@ == old(ecs)@.push(
            laser_entity(player_position),
        ),
{
    if ecs.count(ComponentKind::Laser) >= MAX_LASERS {
        return;
    }
    let mut e = Entity::empty();
    e.position = Some(player_position);
    e.renderable = Some(
        Renderable {
            texture: Texture::Laser,
            img_width: 64,
            img_height: 153,
            output_width: 20,
            output_height: 50,
            img_rotation: 0,
        },
    );
    e.laser = Some(Laser { speed: 500000 });
    ecs.create(e);
}

/// The ship of a fresh world, at the centre of the screen.
pub open spec fn initial_player() -> Entity {
    Entity {
        position: Some(Position { x: 960000, y: 540000, rot: 0 }),
        renderable: Some(Renderable {
            texture: Texture::Rocket,
            img_width: 276,
            img_height: 364,
            output_width: 60,
            output_height: 80,
            img_rotation: 0,
        }),
        player: Some(Player {
            impulse: Vec2 { x: 0, y: 0 },
            current_speed: Vec2 { x: 0, y: 0 },
            rotation_speed: 200000,
            max_speed: 200000,
            friction: 9995,
            health: 3,
        }),
        asteroid: None,
        laser: None,
        game_data: None,
        deleted: false,
    }
}

/// The game state of a fresh world: no score, first wave, ship not invincible.
pub open spec fn initial_game_data() -> Entity {
    Entity {
        position: None,
        renderable: None,
        player: None,
        asteroid: None,
        laser: None,
        game_data: Some(GameData { score: 0, level: 1, invincible_player: false }),
        deleted: false,
    }
}

/// The entities of a fresh world: the ship, one asteroid with image `t`, the game state.
pub open spec fn initial_world(t: Texture) -> Seq<Entity> {
    seq![
        initial_player(),
        asteroid_entity(Position { x: 500000, y: 235000, rot: 45000 }, 100, 200000, 200000, t),
        initial_game_data(),
    ]
}

/// Adds the entities of a fresh world.
pub fn load_world(ecs: &mut World)
    requires
        old(ecs).wf(),
    ensures
        final(ecs).wf(),
        exists|t: Texture| t.is_asteroid() && final(ecs)@ == old(ecs)@ + initial_world(t),
{
    let mut ship = Entity::empty();
    ship.position = Some(Position { x: WORLD_WIDTH / 2, y: WORLD_HEIGHT / 2, rot: 0 });
    ship.renderable = Some(
        Renderable {
            texture: Texture::Rocket,
            img_width: 276,
            img_height: 364,
            output_width: 60,
            output_height: 80,
            img_rotation: 0,
        },
    );
    ship.player = Some(
        Player {
            impulse: Vec2 { x: 0, y: 0 },
            current_speed: Vec2 { x: 0, y: 0 },
            rotation_speed: 200000,
            max_speed: 200000,
            friction: 9995,
            health: 3,
        },
    );
    ecs.create(ship);

    let rock_pos = Position { x: 500000, y: 235000, rot: 45000 };
    let texture = get_random_asteroid_texture_name();
    let mut rock = Entity::empty();
    rock.position = Some(rock_pos);
    rock.renderable = Some(
        Renderable {
            texture,
            img_width: 215,
            img_height: 215,
            output_width: 100,
            output_height: 100,
            img_rotation: 0,
        },
    );
    rock.asteroid = Some(
        Asteroid {
            rotation_speed: 200000,
            speed: 200000,
            friction: FRICTION_SCALE,
            quadrant: quadrant_at(rock_pos.x, rock_pos.y),
        },
    );
    ecs.create(rock);

    let mut state = Entity::empty();
    state.game_data = Some(GameData { score: 0, level: 1, invincible_player: false });
    ecs.create(state);
    assert(final(ecs)@ =~= old(ecs)@ + initial_world(texture));
}

/// Replaces the world by a fresh one when no entity holds a ship.
pub fn reload_world_if_no_players(ecs: &mut World)
    requires
        old(ecs).wf(),
    ensures
        final(ecs).wf(),
        count_with(old(ecs)@, ComponentKind::Player) == 0 ==> exists|t: Texture|
            t.is_asteroid() && final(ecs)@ == initial_world(t),
        count_with(old(ecs)@, ComponentKind::Player) > 0 ==> final(ecs)@ == old(ecs)@,
{
    if ecs.count(ComponentKind::Player) < 1 {
        ecs.delete_all();
        load_world(ecs);
        assert(forall|t: Texture| Seq::<Entity>::empty() + initial_world(t) == initial_world(t)) by {
            assert forall|t: Texture| Seq::<Entity>::empty() + initial_world(t) == initial_world(t) by {
                assert(Seq::<Entity>::empty() + initial_world(t) =~= initial_world(t));
            }
        }
    }
}

/// An entity as a new wave starts: the wave counter goes up by one (staying at the
/// largest level once there) and the ship heals by one, up to PLAYER_MAX_HEALTH.
pub open spec fn next_wave(e: Entity) -> Entity {
    Entity {
        game_data: match e.game_data {
            Some(g) => Some(
                GameData { level: if g.level < u32::MAX { (g.level + 1) as u32 } else { g.level }, ..g },
            ),
            None => None,
        },
        player: match e.player {
            Some(p) => Some(
                Player {
                    health: if p.health < PLAYER_MAX_HEALTH { (p.health + 1) as i32 } else { p.health },
                    ..p
                },
            ),
            None => None,
        },
        ..e
    }
}

/// The level of the last entity of `s` holding game state; 0 when none does.
pub open spec fn last_level(s: Seq<Entity>) -> nat
    decreases s.len(),
{
    if s.len() == 0 {
        0
    } else if s.last().game_data is Some {
        s.last().game_data->Some_0.level as nat
    } else {
        last_level(s.drop_last())
    }
}

/// `e` is an asteroid spawned away from `player_pos`: at a point of another quadrant
/// (moved so that it lies wholly on screen), with a diameter, speed and spin drawn
/// from their ranges, and an asteroid image.
pub open spec fn spawned_asteroid(e: Entity, player_pos: Position) -> bool {
    exists|p: Position, size: u32, speed: i32, spin: i32, t: Texture|
        {
            &&& spawn_point_in(p, quadrant_of(p.x as int, p.y as int))
            &&& quadrant_of(p.x as int, p.y as int) != quadrant_of(player_pos.x as int, player_pos.y as int)
            &&& quadrant_of(kept_on_screen(p, size).x as int, kept_on_screen(p, size).y as int)
                == quadrant_of(p.x as int, p.y as int)
            &&& MIN_ASTEROID_SIZE <= size < MAX_ASTEROID_SIZE
            &&& MIN_ASTEROID_SPEED <= speed < MAX_ASTEROID_SPEED
            &&& -MAX_ASTEROID_SPIN <= spin < MAX_ASTEROID_SPIN
            &&& t.is_asteroid()
            &&& e == asteroid_entity(kept_on_screen(p, size), size, speed, spin, t)
        }
}

/// The world before the new asteroids are added: unchanged for a mass spawn,
/// advanced by one wave otherwise.
pub open spec fn before_spawn(s: Seq<Entity>, forced: bool) -> Seq<Entity> {
    if forced {
        s
    } else {
        s.map_values(|e: Entity| next_wave(e))
    }
}

/// How many asteroids are spawned: MASS_SPAWN for a mass spawn, otherwise twice the
/// wave level reached.
pub open spec fn spawn_count(s: Seq<Entity>, forced: bool) -> int {
    if forced {
        MASS_SPAWN as int
    } else {
        2 * last_level(before_spawn(s, forced)) as int
    }
}

/// Adds one random asteroid away from `player_pos`.
fn spawn_one(ecs: &mut World, player_pos: &Position)
    requires
        old(ecs).wf(),
    ensures
        final(ecs).wf(),
        final(ecs)@.len() == old(ecs)@.len() + 1,
        final(ecs)@.drop_last() == old(ecs)@,
        spawned_asteroid(final(ecs)@.last(), *player_pos),
{
    let spawn_position = generate_spawn_position(player_pos);
    let asteroid_speed = random_in(MIN_ASTEROID_SPEED, MAX_ASTEROID_SPEED) as i32;
    let asteroid_rotation_speed = random_in(-MAX_ASTEROID_SPIN, MAX_ASTEROID_SPIN) as i32;
    let asteroid_size = random_in(MIN_ASTEROID_SIZE, MAX_ASTEROID_SIZE) as u32;
    create_asteroid(ecs, spawn_position, asteroid_size, asteroid_speed, asteroid_rotation_speed);
    proof {
        let t = choose|t: Texture|
            t.is_asteroid() && final(ecs)@ == old(ecs)@.push(
                asteroid_entity(
                    kept_on_screen(spawn_position, asteroid_size),
                    asteroid_size,
                    asteroid_speed,
                    asteroid_rotation_speed,
                    t,
                ),
            );
        assert(final(ecs)@.drop_last() =~= old(ecs)@);
        let p = spawn_position;
        let half = asteroid_size * (SUBPIXELS / 2);
        assert(40 <= asteroid_size < 110);
        assert(SUBPIXELS / 2 == 500);
        assert(half == asteroid_size * 500);
        assert(20000 <= half <= 55000);
        let cx = clamp_into(p.x as int, half, WORLD_WIDTH - half);
        let cy = clamp_into(p.y as int, half, WORLD_HEIGHT - half);
        assert(cx < WORLD_WIDTH / 2 <==> p.x < WORLD_WIDTH / 2);
        assert(cy < WORLD_HEIGHT / 2 <==> p.y < WORLD_HEIGHT / 2);
        assert(kept_on_screen(p, asteroid_size).x == cx);
        assert(kept_on_screen(p, asteroid_size).y == cy);
        assert(quadrant_of(kept_on_screen(p, asteroid_size).x as int, kept_on_screen(p, asteroid_size).y as int)
            == quadrant_of(p.x as int, p.y as int));
        assert(spawned_asteroid(final(ecs)@.last(), *player_pos)) by {
            assert({
                &&& spawn_point_in(p, quadrant_of(p.x as int, p.y as int))
                &&& quadrant_of(p.x as int, p.y as int) != quadrant_of(player_pos.x as int, player_pos.y as int)
                &&& quadrant_of(kept_on_screen(p, asteroid_size).x as int, kept_on_screen(p, asteroid_size).y as int)
                    == quadrant_of(p.x as int, p.y as int)
                &&& MIN_ASTEROID_SIZE <= asteroid_size < MAX_ASTEROID_SIZE
                &&& MIN_ASTEROID_SPEED <= asteroid_speed < MAX_ASTEROID_SPEED
                &&& -MAX_ASTEROID_SPIN <= asteroid_rotation_speed < MAX_ASTEROID_SPIN
                &&& t.is_asteroid()
                &&& final(ecs)@.last() == asteroid_entity(kept_on_screen(p, asteroid_size), asteroid_size, asteroid_speed, asteroid_rotation_speed, t)
            });
        }
    }
}

/// Spawns asteroids away from the player. Unless `forced`, first advances the wave
/// (see `next_wave`) and then spawns twice the new level; when `forced`, spawns
/// MASS_SPAWN asteroids and leaves the rest alone.
pub fn spawn_asteroids(ecs: &mut World, player_pos: &Position, forced: bool)
    requires
        old(ecs).wf(),
    ensures
        final(ecs).wf(),
        final(ecs)@.len() == old(ecs)@.len() + spawn_count(old(ecs)@, forced),
        final(ecs)@.take(old(ecs)@.len() as int) == before_spawn(old(ecs)@, forced),
        forall|i: int|
            old(ecs)@.len() <= i < final(ecs)@.len() ==> spawned_asteroid(
                #[trigger] final(ecs)@[i],
                *player_pos,
            ),
{
    let ghost start = ecs@;
    let mut amount: u64 = MASS_SPAWN;
    if !forced {
        let mut i: usize = 0;
        let mut level: u32 = 0;
        let mut seen = false;
        while i < ecs.entities.len()
            invariant
                ecs.wf(),
                ecs@.len() == start.len(),
                0 <= i <= start.len(),
                forall|j: int| 0 <= j < i ==> #[trigger] ecs@[j] == next_wave(start[j]),
                forall|j: int| i <= j < start.len() ==> #[trigger] ecs@[j] == start[j],
                level == last_level(start.take(i as int).map_values(|e: Entity| next_wave(e))),
            decreases start.len() - i,
        {
            let mut e = ecs.entities[i];
            match e.game_data {
                Some(g) => {
                    let mut g2 = g;
                    if g.level < u32::MAX {
                        g2.level = g.level + 1;
                    }
                    e.game_data = Some(g2);
                    level = g2.level;
                },
                None => {},
            }
            match e.player {
                Some(p) => {
                    let mut healed = p;
                    if p.health < PLAYER_MAX_HEALTH {
                        healed.health = p.health + 1;
                    }
                    e.player = Some(healed);
                },
                None => {},
            }
            assert(e == next_wave(start[i as int]));
            proof {
                let m = start.take(i + 1).map_values(|e: Entity| next_wave(e));
                assert(m.drop_last() =~= start.take(i as int).map_values(|e: Entity| next_wave(e)));
                assert(m.last() == next_wave(start[i as int]));
            }
            ecs.entities.set(i, e);
            i += 1;
        }
        proof {
            assert(start.take(i as int) =~= start);
            assert(ecs@ =~= before_spawn(start, forced));
        }
        amount = 2 * level as u64;
    }
    let ghost base = ecs@;
    let mut k: u64 = 0;
    while k < amount
        invariant
            ecs.wf(),
            ecs@.len() == base.len() + k,
            base.len() == start.len(),
            ecs@.take(start.len() as int) == base,
            k <= amount,
            forall|i: int|
                start.len() <= i < ecs@.len() ==> spawned_asteroid(#[trigger] ecs@[i], *player_pos),
        decreases amount - k,
    {
        let ghost before = ecs@;
        spawn_one(ecs, player_pos);
        proof {
            assert(ecs@.take(start.len() as int) =~= before.take(start.len() as int));
            assert forall|i: int| start.len() <= i < ecs@.len() implies spawned_asteroid(
                #[trigger] ecs@[i],
                *player_pos,
            ) by {
                if i < before.len() {
                    assert(ecs@[i] == ecs@.drop_last()[i]);
                }
            }
        }
        k += 1;
    }
    proof {
        assert(base =~= before_spawn(start, forced)) by {
            if forced {
                assert(start.take(start.len() as int) =~= start);
            }
        }
    }
}

/// The ship's velocity after friction and this tick's thrust, before the speed limit.
pub open spec fn drifted(p: Player) -> (int, int) {
    (
        scaled(p.current_speed.x as int, p.friction as int, FRICTION_SCALE as int) + p.impulse.x,
        scaled(p.current_speed.y as int, p.friction as int, FRICTION_SCALE as int) + p.impulse.y,
    )
}

/// `v` is the velocity of `p` after one integration step: friction applied, thrust
/// added, and the result held to the speed limit with its direction kept.
pub open spec fn integrated(p: Player, v: Vec2) -> bool {
    exists|len: int|
        is_ceil_sqrt(length_sq(drifted(p).0, drifted(p).1), len) && (v.x as int, v.y as int)
            == limited(drifted(p).0, drifted(p).1, p.max_speed as int, len)
}

/// Velocity integration: applies friction and the gathered thrust to the ship's
/// velocity, holds its length to `max_speed`, moves the ship by it (y grows
/// downwards), and clears the thrust.
pub fn update_movement(pos: &mut Position, player: &mut Player, delta_time: DeltaTime)
    requires
        old(player).wf(),
    ensures
        final(player).wf(),
        integrated(*old(player), final(player).current_speed),
        length_sq(final(player).current_speed.x as int, final(player).current_speed.y as int)
            <= old(player).max_speed * old(player).max_speed,
        *final(player) == (Player {
            current_speed: final(player).current_speed,
            impulse: Vec2 { x: 0, y: 0 },
            ..*old(player)
        }),
        final(pos).x == clamp_i64(
            old(pos).x + travel(final(player).current_speed.x as int, delta_time.0 as int),
        ),
        final(pos).y == clamp_i64(
            old(pos).y - travel(final(player).current_speed.y as int, delta_time.0 as int),
        ),
        final(pos).rot == old(pos).rot,
{
    let p = *player;
    let vx = damped(p.current_speed.x, p.friction) + p.impulse.x as i128;
    let vy = damped(p.current_speed.y, p.friction) + p.impulse.y as i128;
    let limited_speed = limit_length(vx, vy, p.max_speed as i128);
    let speed = Vec2 { x: limited_speed.0 as i32, y: limited_speed.1 as i32 };
    proof {
        let len = choose|len: int|
            is_ceil_sqrt(length_sq(vx as int, vy as int), len) && (
            limited_speed.0 as int,
            limited_speed.1 as int,
        ) == limited(vx as int, vy as int, p.max_speed as int, len);
        assert(drifted(p) == (vx as int, vy as int));
        assert((speed.x as int, speed.y as int) == limited(
            drifted(p).0,
            drifted(p).1,
            p.max_speed as int,
            len,
        ));
    }
    let dx = travel_of(speed.x, delta_time.0);
    let dy = travel_of(speed.y, delta_time.0);
    pos.x = saturate(pos.x as i128 + dx);
    pos.y = saturate(pos.y as i128 - dy);
    player.current_speed = speed;
    player.impulse = Vec2 { x: 0, y: 0 };
}

/// The heading after turning right and/or left for `micros` microseconds at `rate`,
/// brought into [0, 360) degrees.
pub open spec fn turned(rot: int, rate: int, micros: int, right: bool, left: bool) -> int {
    (rot + (if right { travel(rate, micros) } else { 0 }) - (if left { travel(rate, micros) } else { 0 }))
        % (FULL_TURN as int)
}

/// (pos2, player2, rend2) is the ship (pos, player, rend) after one tick of control:
/// turned, its velocity integrated, moved and wrapped around the screen edges, thrust
/// gathered along the new heading when `thrust`, and its image turned with it.
pub open spec fn control_step(
    pos: Position,
    player: Player,
    rend: Renderable,
    pos2: Position,
    player2: Player,
    rend2: Renderable,
    right: bool,
    left: bool,
    thrust: bool,
    micros: int,
) -> bool {
    &&& pos2.rot == turned(pos.rot as int, player.rotation_speed as int, micros, right, left)
    &&& integrated(player, player2.current_speed)
    &&& pos2.x == clamp_i64(pos.x + travel(player2.current_speed.x as int, micros)) % (WORLD_WIDTH as int)
    &&& pos2.y == clamp_i64(pos.y - travel(player2.current_speed.y as int, micros)) % (WORLD_HEIGHT as int)
    &&& player2 == (Player {
        current_speed: player2.current_speed,
        impulse: if thrust {
            Vec2 {
                x: component(player.max_speed as int, sine_of(pos2.rot as int)) as i32,
                y: component(player.max_speed as int, cosine_of(pos2.rot as int)) as i32,
            }
        } else {
            Vec2 { x: 0, y: 0 }
        },
        ..player
    })
    &&& rend2 == (Renderable { img_rotation: pos2.rot, ..rend })
}

/// One tick of ship control: turn, integrate the velocity, gather thrust along the
/// new heading (it takes effect next tick), wrap the position around the screen
/// edges, and turn the image with the ship.
pub fn control_player(
    pos: &mut Position,
    player: &mut Player,
    renderable: &mut Renderable,
    rotate_right: bool,
    rotate_left: bool,
    thrust: bool,
    delta_time: DeltaTime,
)
    requires
        old(player).wf(),
    ensures
        final(player).wf(),
        control_step(
            *old(pos),
            *old(player),
            *old(renderable),
            *final(pos),
            *final(player),
            *final(renderable),
            rotate_right,
            rotate_left,
            thrust,
            delta_time.0 as int,
        ),
        length_sq(final(player).current_speed.x as int, final(player).current_speed.y as int)
            <= old(player).max_speed * old(player).max_speed,
        0 <= final(pos).x < WORLD_WIDTH,
        0 <= final(pos).y < WORLD_HEIGHT,
{
    let turn = travel_of(player.rotation_speed, delta_time.0);
    let mut rot: i128 = pos.rot as i128;
    if rotate_right {
        rot = rot + turn;
    }
    if rotate_left {
        rot = rot - turn;
    }
    let heading = wrap_into(rot, FULL_TURN as i128) as i64;
    pos.rot = heading;
    update_movement(pos, player, delta_time);
    if thrust {
        let s = sine(heading);
        let c = cosine(heading);
        proof {
            crate::geometry::lemma_trig_bounded(heading as int);
            let m = player.max_speed as int;
            assert(-0x8000_0000 * 1000 <= m * s <= 0x8000_0000 * 1000) by (nonlinear_arith)
                requires
                    0 <= m < 0x8000_0000,
                    -1000 <= s <= 1000,
                ;
            assert(-0x8000_0000 * 1000 <= m * c <= 0x8000_0000 * 1000) by (nonlinear_arith)
                requires
                    0 <= m < 0x8000_0000,
                    -1000 <= c <= 1000,
                ;
        }
        let ix = scale(s as i128, player.max_speed as i128, TRIG_SCALE as i128);
        let iy = scale(c as i128, player.max_speed as i128, TRIG_SCALE as i128);
        proof {
            let m = player.max_speed as int;
            crate::geometry::lemma_scaled_bound(s as int, m, TRIG_SCALE as int);
            crate::geometry::lemma_scaled_bound(c as int, m, TRIG_SCALE as int);
            assert(crate::geometry::abs(s * m) <= 1000 * m) by (nonlinear_arith)
                requires
                    0 <= m,
                    -1000 <= s <= 1000,
                ;
            assert(crate::geometry::abs(c * m) <= 1000 * m) by (nonlinear_arith)
                requires
                    0 <= m,
                    -1000 <= c <= 1000,
                ;
            assert(-m <= ix <= m);
            assert(-m <= iy <= m);
            assert(scaled(s as int, m, 1000) == scaled(m, s as int, 1000));
            assert(scaled(c as int, m, 1000) == scaled(m, c as int, 1000));
        }
        player.impulse = Vec2 { x: ix as i32, y: iy as i32 };
    }
    pos.x = wrap_into(pos.x as i128, WORLD_WIDTH as i128) as i64;
    pos.y = wrap_into(pos.y as i128, WORLD_HEIGHT as i128) as i64;
    renderable.img_rotation = heading;
}

/// `keys` with the key `k` released, if it was down.
pub open spec fn released(keys: Map<Seq<char>, bool>, k: Seq<char>) -> Map<Seq<char>, bool> {
    if pressed(keys, k) {
        keys.insert(k, false)
    } else {
        keys
    }
}

/// `e` is a ship that can be steered: it has a position and an image.
pub open spec fn is_ship(e: Entity) -> bool {
    e.player is Some && e.position is Some && e.renderable is Some
}

pub open spec fn has_ship(s: Seq<Entity>) -> bool {
    exists|i: int| 0 <= i < s.len() && #[trigger] is_ship(s[i])
}

/// `e` with its invincibility switch flipped, if it holds game state.
pub open spec fn toggled(e: Entity) -> Entity {
    match e.game_data {
        Some(g) => Entity {
            game_data: Some(GameData { invincible_player: !g.invincible_player, ..g }),
            ..e
        },
        None => e,
    }
}

/// Flips the invincibility switch of every game state.
pub fn toggle_invincibility(ecs: &mut World)
    requires
        old(ecs).wf(),
    ensures
        final(ecs).wf(),
        final(ecs)@ == old(ecs)@.map_values(|e: Entity| toggled(e)),
{
    let ghost start = ecs@;
    let mut i: usize = 0;
    while i < ecs.entities.len()
        invariant
            ecs.wf(),
            ecs@.len() == start.len(),
            0 <= i <= start.len(),
            forall|j: int| 0 <= j < i ==> #[trigger] ecs@[j] == toggled(start[j]),
            forall|j: int| i <= j < start.len() ==> #[trigger] ecs@[j] == start[j],
        decreases start.len() - i,
    {
        let mut e = ecs.entities[i];
        match e.game_data {
            Some(g) => {
                let mut g2 = g;
                g2.invincible_player = !g.invincible_player;
                e.game_data = Some(g2);
            },
            None => {},
        }
        ecs.entities.set(i, e);
        i += 1;
    }
    assert(ecs@ =~= start.map_values(|e: Entity| toggled(e)));
}

proof fn lemma_no_player_no_ship(s: Seq<Entity>)
    requires
        count_with(s, ComponentKind::Player) == 0,
    ensures
        !has_ship(s),
{
    if has_ship(s) {
        let i = choose|i: int| 0 <= i < s.len() && #[trigger] is_ship(s[i]);
        broadcast use vstd::seq_lib::group_filter_ensures;
        assert(s.filter(|e: Entity| e.has(ComponentKind::Player)).contains(s[i]));
    }
}

/// The reload step: a world without any ship component is replaced by a fresh one.
pub open spec fn reloaded(s: Seq<Entity>, r: Seq<Entity>) -> bool {
    &&& count_with(s, ComponentKind::Player) == 0 ==> exists|t: Texture|
        t.is_asteroid() && r == initial_world(t)
    &&& count_with(s, ComponentKind::Player) > 0 ==> r == s
}

/// `r` is `s` after `spawn_asteroids(s, from, forced)`.
pub open spec fn spawned(s: Seq<Entity>, r: Seq<Entity>, from: Position, forced: bool) -> bool {
    &&& r.len() == s.len() + spawn_count(s, forced)
    &&& r.take(s.len() as int) == before_spawn(s, forced)
    &&& forall|i: int| s.len() <= i < r.len() ==> spawned_asteroid(#[trigger] r[i], from)
}

/// The position (heading cleared) of the last entity holding a ship component and a
/// position; the origin when there is none.
pub open spec fn ship_position(s: Seq<Entity>) -> Position
    decreases s.len(),
{
    if s.len() == 0 {
        Position { x: 0, y: 0, rot: 0 }
    } else if s.last().player is Some && s.last().position is Some {
        Position { x: s.last().position->Some_0.x, y: s.last().position->Some_0.y, rot: 0 }
    } else {
        ship_position(s.drop_last())
    }
}

/// `e2` is `e` after one tick of control when `e` is a ship; otherwise `e` itself.
pub open spec fn steered(e: Entity, e2: Entity, right: bool, left: bool, thrust: bool, micros: int) -> bool {
    if is_ship(e) {
        &&& is_ship(e2)
        &&& e2 == (Entity { position: e2.position, player: e2.player, renderable: e2.renderable, ..e })
        &&& control_step(
            e.position->Some_0,
            e.player->Some_0,
            e.renderable->Some_0,
            e2.position->Some_0,
            e2.player->Some_0,
            e2.renderable->Some_0,
            right,
            left,
            thrust,
            micros,
        )
    } else {
        e2 == e
    }
}

/// Every ship of `s` steered, the other entities unchanged.
pub open spec fn steered_all(s: Seq<Entity>, r: Seq<Entity>, right: bool, left: bool, thrust: bool, micros: int) -> bool {
    &&& r.len() == s.len()
    &&& forall|i: int| 0 <= i < s.len() ==> steered(#[trigger] s[i], r[i], right, left, thrust, micros)
}

/// `k` is the first ship of `s`.
pub open spec fn first_ship(s: Seq<Entity>, k: int) -> bool {
    &&& 0 <= k < s.len()
    &&& is_ship(s[k])
    &&& forall|j: int| 0 <= j < k ==> !#[trigger] is_ship(s[j])
}

/// `r` is `s` after `fire_laser(s, from)`.
pub open spec fn fired_from(s: Seq<Entity>, r: Seq<Entity>, from: Position) -> bool {
    &&& count_with(s, ComponentKind::Laser) >= MAX_LASERS ==> r == s
    &&& count_with(s, ComponentKind::Laser) < MAX_LASERS ==> r == s.push(laser_entity(from))
}

/// The world after each phase of `update`, from `s` to `r`, given the keys at the
/// start of the frame: reload, new wave, steering, firing from the first ship,
/// invincibility switch, mass spawn.
pub open spec fn frame_phases(
    s: Seq<Entity>,
    r: Seq<Entity>,
    keys: Map<Seq<char>, bool>,
    micros: int,
    w1: Seq<Entity>,
    w2: Seq<Entity>,
    w3: Seq<Entity>,
    w4: Seq<Entity>,
    w5: Seq<Entity>,
) -> bool {
    &&& reloaded(s, w1)
    &&& count_with(w1, ComponentKind::Asteroid) == 0 ==> spawned(w1, w2, ship_position(w1), false)
    &&& count_with(w1, ComponentKind::Asteroid) > 0 ==> w2 == w1
    &&& steered_all(w2, w3, pressed(keys, "D"@), pressed(keys, "A"@), pressed(keys, "W"@), micros)
    &&& (pressed(keys, " "@) && has_ship(w2)) ==> exists|k: int|
        first_ship(w3, k) && fired_from(w3, w4, w3[k].position->Some_0)
    &&& !(pressed(keys, " "@) && has_ship(w2)) ==> w4 == w3
    &&& pressed(keys, "i"@) ==> w5 == w4.map_values(|e: Entity| toggled(e))
    &&& !pressed(keys, "i"@) ==> w5 == w4
    &&& pressed(keys, "o"@) ==> spawned(w5, r, ship_position(w1), true)
    &&& !pressed(keys, "o"@) ==> r == w5
}

/// `r` is `s` after `update` with the keys `keys` and `micros` elapsed: some run of
/// the phases (the random draws decide which) leads from one to the other.
pub open spec fn updated(s: Seq<Entity>, r: Seq<Entity>, keys: Map<Seq<char>, bool>, micros: int) -> bool {
    exists|w1: Seq<Entity>, w2: Seq<Entity>, w3: Seq<Entity>, w4: Seq<Entity>, w5: Seq<Entity>|
        frame_phases(s, r, keys, micros, w1, w2, w3, w4, w5)
}

/// The keys after `update` on the world `s`: " " released if it was down and a ship
/// can be steered, then "i" and "o" released if down.
pub open spec fn keys_after_update(keys: Map<Seq<char>, bool>, s: Seq<Entity>) -> Map<Seq<char>, bool> {
    released(
        released(
            if pressed(keys, " "@) && (has_ship(s) || count_with(s, ComponentKind::Player) == 0) {
                released(keys, " "@)
            } else {
                keys
            },
            "i"@,
        ),
        "o"@,
    )
}

/// One frame of play before the systems run: reload the world if the ship is gone,
/// start a new wave if no asteroid is left, steer every ship from the keys ("D" and
/// "A" turn, "W" thrusts), fire a laser from the first ship on " ", flip
/// invincibility on "i" and spawn MASS_SPAWN asteroids on "o" (new asteroids avoid
/// the quadrant the ship was in at the start of the frame). The three command keys
/// are released once acted on; " " is acted on when a ship can be steered.
pub fn update(ecs: &mut World, input_manager: &mut InputState, delta_time: DeltaTime)
    requires
        old(ecs).wf(),
    ensures
        final(ecs).wf(),
        updated(old(ecs)@, final(ecs)@, old(input_manager)@, delta_time.0 as int),
        final(input_manager)@ == keys_after_update(old(input_manager)@, old(ecs)@),
{
    let ghost keys = input_manager@;
    proof {
        reveal_strlit(" ");
        reveal_strlit("i");
        reveal_strlit("o");
        assert(" "@[0] != "i"@[0] && " "@[0] != "o"@[0] && "i"@[0] != "o"@[0]);
        assert(" "@ != "i"@ && " "@ != "o"@ && "i"@ != "o"@);
    }
    let ghost ships = has_ship(ecs@) || count_with(ecs@, ComponentKind::Player) == 0;
    proof {
        if count_with(ecs@, ComponentKind::Player) == 0 {
            lemma_no_player_no_ship(ecs@);
        }
    }
    reload_world_if_no_players(ecs);
    let ghost w1 = ecs@;
    proof {
        if !has_ship(ecs@) {
            let t = choose|t: Texture| t.is_asteroid() && ecs@ == initial_world(t);
            assert(is_ship(initial_world(t)[0]));
        }
        assert(has_ship(ecs@) == ships);
    }

    let mut current_player_pos = Position { x: 0, y: 0, rot: 0 };
    let mut i: usize = 0;
    while i < ecs.entities.len()
        invariant
            0 <= i <= ecs@.len(),
            ecs@ == w1,
            current_player_pos == ship_position(w1.take(i as int)),
            current_player_pos.rot == 0,
        decreases ecs@.len() - i,
    {
        let e = ecs.entities[i];
        proof {
            assert(w1.take(i + 1).drop_last() =~= w1.take(i as int));
            assert(w1.take(i + 1).last() == w1[i as int]);
        }
        if e.player.is_some() {
            match e.position {
                Some(p) => {
                    current_player_pos.x = p.x;
                    current_player_pos.y = p.y;
                },
                None => {},
            }
        }
        i += 1;
    }
    assert(w1.take(i as int) =~= w1);

    if ecs.count(ComponentKind::Asteroid) < 1 {
        let ghost before = ecs@;
        spawn_asteroids(ecs, &current_player_pos, false);
        proof {
            let n = before.len() as int;
            assert forall|j: int| 0 <= j < ecs@.len() implies #[trigger] is_ship(ecs@[j]) == (j < n
                && is_ship(before[j])) by {
                if j < n {
                    assert(ecs@[j] == ecs@.take(n)[j]);
                    assert(ecs@.take(n)[j] == next_wave(before[j]));
                } else {
                    assert(spawned_asteroid(ecs@[j], current_player_pos));
                }
            }
            if has_ship(before) {
                let k = choose|k: int| 0 <= k < before.len() && #[trigger] is_ship(before[k]);
                assert(is_ship(ecs@[k]));
            }
        }
    }
    let ghost w2 = ecs@;

    let rotate_right = is_key_pressed(input_manager, "D");
    let rotate_left = is_key_pressed(input_manager, "A");
    let thrust = is_key_pressed(input_manager, "W");
    let fire_requested = is_key_pressed(input_manager, " ");

    let mut fired = false;
    let mut player_pos = Position { x: 0, y: 0, rot: 0 };
    let mut i: usize = 0;
    while i < ecs.entities.len()
        invariant
            ecs.wf(),
            ecs@.len() == w2.len(),
            0 <= i <= w2.len(),
            forall|j: int| 0 <= j < w2.len() ==> #[trigger] is_ship(ecs@[j]) == is_ship(w2[j]),
            forall|j: int|
                0 <= j < i ==> steered(
                    #[trigger] w2[j],
                    ecs@[j],
                    rotate_right,
                    rotate_left,
                    thrust,
                    delta_time.0 as int,
                ),
            forall|j: int| i <= j < w2.len() ==> #[trigger] ecs@[j] == w2[j],
            fired == (fire_requested && exists|j: int| 0 <= j < i && #[trigger] is_ship(w2[j])),
            fired ==> exists|k: int|
                0 <= k < i && first_ship(ecs@, k) && player_pos == ecs@[k].position->Some_0,
        decreases w2.len() - i,
    {
        let ghost before = ecs@;
        let mut e = ecs.entities[i];
        assert(e.wf());
        match (e.position, e.player, e.renderable) {
            (Some(start_pos), Some(start_player), Some(start_rend)) => {
                let mut pos = start_pos;
                let mut player = start_player;
                let mut renderable = start_rend;
                control_player(
                    &mut pos,
                    &mut player,
                    &mut renderable,
                    rotate_right,
                    rotate_left,
                    thrust,
                    delta_time,
                );
                let ghost was_fired = fired;
                if fire_requested && !fired {
                    fired = true;
                    player_pos = pos;
                }
                e.position = Some(pos);
                e.player = Some(player);
                e.renderable = Some(renderable);
                ecs.entities.set(i, e);
                proof {
                    if fired && !was_fired {
                        assert forall|j: int| 0 <= j < i implies !#[trigger] is_ship(ecs@[j]) by {
                            assert(is_ship(ecs@[j]) == is_ship(w2[j]));
                        }
                        assert(first_ship(ecs@, i as int));
                    } else if fired {
                        let k = choose|k: int|
                            0 <= k < i && first_ship(before, k) && player_pos == before[k].position->Some_0;
                        assert forall|j: int| 0 <= j < k implies !#[trigger] is_ship(ecs@[j]) by {
                            assert(ecs@[j] == before[j]);
                        }
                        assert(first_ship(ecs@, k));
                    }
                }
            },
            _ => {},
        }
        proof {
            if is_ship(w2[i as int]) {
                assert(fired == fire_requested);
                assert(0 <= i < i + 1 && is_ship(w2[i as int]));
            }
            assert forall|j: int| 0 <= j < i + 1 && #[trigger] is_ship(w2[j]) implies fired == fire_requested by {
                if j < i {
                    assert(0 <= j < i && is_ship(w2[j]));
                }
            }
        }
        i += 1;
    }
    let ghost w3 = ecs@;
    assert(fired == (fire_requested && has_ship(w2)));
    assert(steered_all(w2, w3, rotate_right, rotate_left, thrust, delta_time.0 as int));
    if fired {
        key_up(input_manager, " ".to_owned());
        fire_laser(ecs, player_pos);
    }
    let ghost w4 = ecs@;
    if is_key_pressed(input_manager, "i") {
        key_up(input_manager, "i".to_owned());
        toggle_invincibility(ecs);
    }
    let ghost w5 = ecs@;
    if is_key_pressed(input_manager, "o") {
        key_up(input_manager, "o".to_owned());
        spawn_asteroids(ecs, &current_player_pos, true);
    }
    proof {
        assert(frame_phases(old(ecs)@, ecs@, keys, delta_time.0 as int, w1, w2, w3, w4, w5));
    }
}

} // verus!
