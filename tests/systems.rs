use space_shooter::asteroid::{AsteroidCollider, AsteroidMovement};
use space_shooter::components::{
    Asteroid, DeltaTime, GameData, Laser, Player, Position, Renderable, Texture, Vec2,
};
use space_shooter::frame::run_frame;
use space_shooter::game::update;
use space_shooter::geometry::{Quadrant, WORLD_HEIGHT, WORLD_WIDTH};
use space_shooter::input_manager::InputState;
use space_shooter::laser::{LaserDamage, LaserMovement};
use space_shooter::world::{ComponentKind, Entity, World};

fn ship(x: i64, y: i64, health: i32) -> Entity {
    let mut e = Entity::empty();
    e.position = Some(Position { x, y, rot: 0 });
    e.renderable = Some(Renderable {
        texture: Texture::Rocket,
        img_width: 276,
        img_height: 364,
        output_width: 60,
        output_height: 80,
        img_rotation: 0,
    });
    e.player = Some(Player {
        impulse: Vec2 { x: 0, y: 0 },
        current_speed: Vec2 { x: 0, y: 0 },
        rotation_speed: 200000,
        max_speed: 200000,
        friction: 9995,
        health,
    });
    e
}

fn rock(x: i64, y: i64, rot: i64, size: u32, speed: i32, quadrant: Quadrant) -> Entity {
    let mut e = Entity::empty();
    e.position = Some(Position { x, y, rot });
    e.renderable = Some(Renderable {
        texture: Texture::Asteroid2,
        img_width: 215,
        img_height: 215,
        output_width: size,
        output_height: size,
        img_rotation: 0,
    });
    e.asteroid = Some(Asteroid { rotation_speed: 90000, speed, friction: 10000, quadrant });
    e
}

fn shot(x: i64, y: i64, rot: i64) -> Entity {
    let mut e = Entity::empty();
    e.position = Some(Position { x, y, rot });
    e.renderable = Some(Renderable {
        texture: Texture::Laser,
        img_width: 64,
        img_height: 153,
        output_width: 20,
        output_height: 50,
        img_rotation: 0,
    });
    e.laser = Some(Laser { speed: 500000 });
    e
}

fn state(level: u32, invincible: bool) -> Entity {
    let mut e = Entity::empty();
    e.game_data = Some(GameData { score: 0, level, invincible_player: invincible });
    e
}

#[test]
fn asteroid_travels_along_heading_and_spins() {
    let mut w = World::new();
    w.create(rock(500000, 500000, 90000, 100, 100000, Quadrant::TopLeft));
    AsteroidMovement.run(&mut w, DeltaTime(1000000));
    let e = w.entities[0];
    assert_eq!(e.position.unwrap(), Position { x: 600000, y: 500000, rot: 90000 });
    assert_eq!(e.renderable.unwrap().img_rotation, 90000);
    assert_eq!(e.asteroid.unwrap().quadrant, Quadrant::TopLeft);
}

#[test]
fn asteroid_bounces_off_edges() {
    let mut w = World::new();
    // Heading up, reaching the top edge: vertical bounce, 180 - 0.
    w.create(rock(500000, 60000, 0, 100, 100000, Quadrant::TopLeft));
    // Heading right into the right edge: horizontal bounce, 360 - 90.
    w.create(rock(WORLD_WIDTH - 60000, 500000, 90000, 100, 100000, Quadrant::TopRight));
    // Heading down-left past the bottom edge: 540 - 225.
    w.create(rock(500000, WORLD_HEIGHT - 52000, 225000, 100, 10000, Quadrant::BottomLeft));
    AsteroidMovement.run(&mut w, DeltaTime(1000000));
    assert_eq!(w.entities[0].position.unwrap().rot, 180000);
    assert_eq!(w.entities[0].position.unwrap().y, -40000);
    assert_eq!(w.entities[1].position.unwrap().rot, 270000);
    assert_eq!(w.entities[2].position.unwrap().rot, 315000);
}

#[test]
fn lasers_leaving_the_screen_are_deleted() {
    let mut w = World::new();
    w.create(shot(1000, 1000, 0));
    w.create(shot(500000, 500000, 90000));
    LaserMovement.run(&mut w, DeltaTime(100000));
    assert!(w.entities[0].deleted);
    assert_eq!(w.entities[0].position.unwrap().y, 1000 - 50000);
    assert!(!w.entities[1].deleted);
    assert_eq!(w.entities[1].position.unwrap().x, 550000);
    assert_eq!(w.entities[1].renderable.unwrap().img_rotation, 90000);
    w.maintain();
    assert_eq!(w.count(ComponentKind::Laser), 1);
}

#[test]
fn last_health_lost_removes_ship_and_reloads() {
    let mut w = World::new();
    w.create(ship(960000, 540000, 1));
    w.create(rock(980000, 550000, 0, 50, 0, Quadrant::BottomRight));
    w.create(state(2, false));
    AsteroidCollider.run(&mut w);
    assert!(w.entities[0].deleted);
    assert!(w.entities[1].deleted);
    assert_eq!(w.entities[0].player.unwrap().health, 0);
    w.maintain();
    assert_eq!(w.count(ComponentKind::Player), 0);
    let mut keys = InputState::new();
    update(&mut w, &mut keys, DeltaTime(0));
    assert_eq!(w.count(ComponentKind::Player), 1);
    assert_eq!(w.len(), 3);
    let g = w.entities.iter().find_map(|e| e.game_data).unwrap();
    assert_eq!(g.level, 1);
}

#[test]
fn invincible_ship_is_untouched() {
    let mut w = World::new();
    w.create(ship(960000, 540000, 1));
    w.create(rock(960000, 540000, 0, 50, 0, Quadrant::BottomRight));
    w.create(state(2, true));
    AsteroidCollider.run(&mut w);
    assert!(w.entities.iter().all(|e| !e.deleted));
    assert_eq!(w.entities[0].player.unwrap().health, 1);
}

#[test]
fn asteroid_in_other_quadrant_is_ignored() {
    let mut w = World::new();
    w.create(ship(960000, 540000, 3));
    w.create(rock(959000, 540000, 0, 50, 0, Quadrant::BottomLeft));
    w.create(state(1, false));
    AsteroidCollider.run(&mut w);
    assert!(w.entities.iter().all(|e| !e.deleted));
    assert_eq!(w.entities[0].player.unwrap().health, 3);
}

#[test]
fn each_hit_costs_one_health() {
    let mut w = World::new();
    w.create(ship(960000, 540000, 3));
    w.create(rock(970000, 560000, 0, 50, 0, Quadrant::BottomRight));
    w.create(rock(990000, 540000, 0, 50, 0, Quadrant::BottomRight));
    w.create(rock(1100000, 540000, 0, 50, 0, Quadrant::BottomRight));
    w.create(state(1, false));
    AsteroidCollider.run(&mut w);
    assert_eq!(w.entities[0].player.unwrap().health, 1);
    assert!(!w.entities[0].deleted);
    assert!(w.entities[1].deleted);
    assert!(w.entities[2].deleted);
    assert!(!w.entities[3].deleted);
}

#[test]
fn laser_hit_scores_per_level() {
    let mut w = World::new();
    w.create(state(3, false));
    w.create(rock(500000, 500000, 0, 100, 0, Quadrant::TopLeft));
    w.create(shot(540000, 500000, 0));
    w.create(shot(560000, 500000, 0));
    LaserDamage.run(&mut w);
    assert!(w.entities[1].deleted);
    assert!(w.entities[2].deleted);
    assert!(!w.entities[3].deleted);
    assert_eq!(w.entities[0].game_data.unwrap().score, 30);
}

#[test]
fn two_hits_score_twice() {
    let mut w = World::new();
    w.create(state(2, false));
    w.create(rock(500000, 500000, 0, 100, 0, Quadrant::TopLeft));
    w.create(shot(500000, 500000, 0));
    w.create(shot(510000, 500000, 0));
    LaserDamage.run(&mut w);
    assert_eq!(w.entities[0].game_data.unwrap().score, 40);
    w.maintain();
    assert_eq!(w.len(), 1);
}

#[test]
fn frame_leaves_nothing_marked() {
    let mut w = World::new();
    let mut keys = InputState::new();
    run_frame(&mut w, &mut keys, DeltaTime(16000));
    assert_eq!(w.count(ComponentKind::Player), 1);
    assert_eq!(w.count(ComponentKind::GameData), 1);
    for _ in 0..30 {
        run_frame(&mut w, &mut keys, DeltaTime(16000));
        assert!(w.entities.iter().all(|e| !e.deleted));
        assert_eq!(w.count(ComponentKind::Player), 1);
    }
}
