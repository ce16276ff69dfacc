use space_shooter::components::{
    Asteroid, DeltaTime, GameData, Player, Position, Renderable, Texture, Vec2,
};
use space_shooter::game::{
    create_asteroid, fire_laser, generate_spawn_position, get_player_quadrant,
    get_random_asteroid_texture_name, load_world, reload_world_if_no_players, spawn_asteroids,
    spawn_position_in, spawn_quadrant, update, update_movement, control_player, toggle_invincibility, MAX_LASERS,
};
use space_shooter::geometry::{quadrant_at, Quadrant, WORLD_HEIGHT, WORLD_WIDTH};
use space_shooter::input_manager::{is_key_pressed, key_down, InputState};
use space_shooter::world::{ComponentKind, Entity, World};

fn ship(x: i64, y: i64, health: i32) -> Entity {
    let mut e = Entity::empty();
    e.position = Some(Position { x, y, rot: 0 });
    e.renderable = Some(Renderable {
        texture: Texture::Rocket,
        img_width: 276,
        img_height: 364,
        output_width: 60,
        output_height: 80,
        img_rotation: 0,
    });
    e.player = Some(Player {
        impulse: Vec2 { x: 0, y: 0 },
        current_speed: Vec2 { x: 0, y: 0 },
        rotation_speed: 200000,
        max_speed: 200000,
        friction: 9995,
        health,
    });
    e
}

fn state(level: u32) -> Entity {
    let mut e = Entity::empty();
    e.game_data = Some(GameData { score: 0, level, invincible_player: false });
    e
}

fn game_data(w: &World) -> GameData {
    w.entities.iter().find_map(|e| e.game_data).unwrap()
}

fn ship_player(w: &World) -> Player {
    w.entities.iter().find_map(|e| e.player).unwrap()
}

#[test]
fn player_quadrant_from_position() {
    let p = Position { x: 100, y: WORLD_HEIGHT - 1, rot: 0 };
    assert_eq!(get_player_quadrant(&p), Quadrant::BottomLeft);
    let p = Position { x: WORLD_WIDTH / 2, y: WORLD_HEIGHT / 2 - 1, rot: 0 };
    assert_eq!(get_player_quadrant(&p), Quadrant::TopRight);
}

#[test]
fn spawn_quadrant_table() {
    assert_eq!(spawn_quadrant(Quadrant::TopLeft, 0), Quadrant::BottomRight);
    assert_eq!(spawn_quadrant(Quadrant::TopLeft, 1), Quadrant::BottomRight);
    assert_eq!(spawn_quadrant(Quadrant::TopLeft, 2), Quadrant::TopRight);
    assert_eq!(spawn_quadrant(Quadrant::TopLeft, 3), Quadrant::BottomLeft);
    assert_eq!(spawn_quadrant(Quadrant::BottomRight, 0), Quadrant::TopLeft);
    assert_eq!(spawn_quadrant(Quadrant::BottomRight, 2), Quadrant::BottomLeft);
    assert_eq!(spawn_quadrant(Quadrant::BottomRight, 3), Quadrant::TopRight);
    assert_eq!(spawn_quadrant(Quadrant::TopRight, 0), Quadrant::BottomLeft);
    assert_eq!(spawn_quadrant(Quadrant::BottomLeft, 0), Quadrant::TopRight);
}

#[test]
fn spawn_positions_avoid_the_player_quadrant() {
    let player = Position { x: 100000, y: 100000, rot: 0 };
    let mut seen = std::collections::HashSet::new();
    for _ in 0..200 {
        let p = generate_spawn_position(&player);
        assert!(0 <= p.x && p.x < WORLD_WIDTH);
        assert!(0 <= p.y && p.y < WORLD_HEIGHT);
        assert!(0 <= p.rot && p.rot < 360000);
        let q = quadrant_at(p.x, p.y);
        assert_ne!(q, Quadrant::TopLeft);
        seen.insert(p.x);
    }
    assert!(seen.len() > 1);
}

#[test]
fn asteroid_textures_vary() {
    let mut seen = std::collections::HashSet::new();
    for _ in 0..200 {
        let t = get_random_asteroid_texture_name();
        assert!(matches!(t, Texture::Asteroid1 | Texture::Asteroid2 | Texture::Asteroid3));
        seen.insert(t.texture_name());
    }
    assert!(seen.len() > 1);
}

#[test]
fn created_asteroid_is_kept_on_screen() {
    let mut w = World::new();
    create_asteroid(&mut w, Position { x: 0, y: WORLD_HEIGHT + 5, rot: 45000 }, 100, 90000, -3000);
    let e = w.entities[0];
    let p = e.position.unwrap();
    assert_eq!(p.x, 50000);
    assert_eq!(p.y, WORLD_HEIGHT - 50000);
    assert_eq!(p.rot, 45000);
    let r = e.renderable.unwrap();
    assert_eq!((r.output_width, r.output_height), (100, 100));
    let a = e.asteroid.unwrap();
    assert_eq!(a.speed, 90000);
    assert_eq!(a.rotation_speed, -3000);
    assert_eq!(a.quadrant, Quadrant::BottomLeft);
}

#[test]
fn lasers_are_capped() {
    let mut w = World::new();
    let from = Position { x: 5, y: 6, rot: 7 };
    for _ in 0..MAX_LASERS {
        fire_laser(&mut w, from);
    }
    assert_eq!(w.count(ComponentKind::Laser), 200);
    fire_laser(&mut w, from);
    assert_eq!(w.count(ComponentKind::Laser), 200);
    assert_eq!(w.len(), 200);
    assert_eq!(w.entities[0].position.unwrap(), from);
    assert_eq!(w.entities[0].laser.unwrap().speed, 500000);
}

#[test]
fn fire_command_at_cap_creates_no_laser() {
    let mut w = World::new();
    w.create(ship(960000, 540000, 3));
    w.create(state(1));
    let mut rock = Entity::empty();
    rock.position = Some(Position { x: 100000, y: 100000, rot: 0 });
    rock.renderable = Some(Renderable {
        texture: Texture::Asteroid1,
        img_width: 215,
        img_height: 215,
        output_width: 50,
        output_height: 50,
        img_rotation: 0,
    });
    rock.asteroid = Some(Asteroid { rotation_speed: 0, speed: 0, friction: 10000, quadrant: Quadrant::TopLeft });
    w.create(rock);
    for _ in 0..200 {
        fire_laser(&mut w, Position { x: 1, y: 1, rot: 0 });
    }
    let mut keys = InputState::new();
    key_down(&mut keys, " ".to_string());
    update(&mut w, &mut keys, DeltaTime(0));
    assert_eq!(w.count(ComponentKind::Laser), 200);
    assert!(!is_key_pressed(&keys, " "));
}

#[test]
fn fire_command_creates_one_laser_and_releases_key() {
    let mut w = World::new();
    load_world(&mut w);
    let mut keys = InputState::new();
    key_down(&mut keys, " ".to_string());
    update(&mut w, &mut keys, DeltaTime(0));
    assert_eq!(w.count(ComponentKind::Laser), 1);
    assert!(!is_key_pressed(&keys, " "));
    update(&mut w, &mut keys, DeltaTime(0));
    assert_eq!(w.count(ComponentKind::Laser), 1);
}

#[test]
fn fresh_world_contents() {
    let mut w = World::new();
    load_world(&mut w);
    assert_eq!(w.len(), 3);
    let p = w.entities[0];
    assert_eq!(p.position.unwrap(), Position { x: 960000, y: 540000, rot: 0 });
    assert_eq!(p.player.unwrap().health, 3);
    let a = w.entities[1];
    assert_eq!(a.position.unwrap(), Position { x: 500000, y: 235000, rot: 45000 });
    assert_eq!(a.asteroid.unwrap().quadrant, Quadrant::TopLeft);
    assert_eq!(game_data(&w), GameData { score: 0, level: 1, invincible_player: false });
}

#[test]
fn reload_only_without_player() {
    let mut w = World::new();
    w.create(state(7));
    reload_world_if_no_players(&mut w);
    assert_eq!(w.len(), 3);
    assert_eq!(game_data(&w).level, 1);
    w.create(state(9));
    reload_world_if_no_players(&mut w);
    assert_eq!(w.len(), 4);
}

#[test]
fn wave_three_cleared_spawns_eight() {
    let mut w = World::new();
    w.create(ship(100000, 100000, 2));
    w.create(state(3));
    let player_pos = Position { x: 100000, y: 100000, rot: 0 };
    spawn_asteroids(&mut w, &player_pos, false);
    assert_eq!(game_data(&w).level, 4);
    assert_eq!(ship_player(&w).health, 3);
    assert_eq!(w.count(ComponentKind::Asteroid), 8);
    for e in w.entities.iter().skip(2) {
        let p = e.position.unwrap();
        assert_ne!(quadrant_at(p.x, p.y), Quadrant::TopLeft);
        let size = e.renderable.unwrap().output_width;
        assert!((40..110).contains(&size));
        let a = e.asteroid.unwrap();
        assert!((70000..250000).contains(&a.speed));
        assert!((-400000..400000).contains(&a.rotation_speed));
    }
}

#[test]
fn update_starts_next_wave_when_field_is_empty() {
    let mut w = World::new();
    w.create(ship(100000, 100000, 2));
    w.create(state(3));
    let mut keys = InputState::new();
    update(&mut w, &mut keys, DeltaTime(0));
    assert_eq!(game_data(&w).level, 4);
    assert_eq!(w.count(ComponentKind::Asteroid), 8);
}

#[test]
fn health_capped_at_ten() {
    let mut w = World::new();
    w.create(ship(100000, 100000, 10));
    w.create(state(1));
    spawn_asteroids(&mut w, &Position { x: 0, y: 0, rot: 0 }, false);
    assert_eq!(ship_player(&w).health, 10);
    assert_eq!(w.count(ComponentKind::Asteroid), 4);
}

#[test]
fn mass_spawn_skips_wave_progression() {
    let mut w = World::new();
    w.create(ship(100000, 100000, 2));
    w.create(state(3));
    spawn_asteroids(&mut w, &Position { x: 0, y: 0, rot: 0 }, true);
    assert_eq!(w.count(ComponentKind::Asteroid), 1000);
    assert_eq!(game_data(&w).level, 3);
    assert_eq!(ship_player(&w).health, 2);
}

#[test]
fn mass_spawn_key() {
    let mut w = World::new();
    load_world(&mut w);
    let mut keys = InputState::new();
    key_down(&mut keys, "o".to_string());
    update(&mut w, &mut keys, DeltaTime(0));
    assert_eq!(w.count(ComponentKind::Asteroid), 1001);
    assert!(!is_key_pressed(&keys, "o"));
}

#[test]
fn invincibility_key_toggles() {
    let mut w = World::new();
    load_world(&mut w);
    let mut keys = InputState::new();
    key_down(&mut keys, "i".to_string());
    update(&mut w, &mut keys, DeltaTime(0));
    assert!(game_data(&w).invincible_player);
    assert!(!is_key_pressed(&keys, "i"));
    toggle_invincibility(&mut w);
    assert!(!game_data(&w).invincible_player);
}

#[test]
fn speed_is_limited_and_moves_ship() {
    let mut pos = Position { x: 500000, y: 500000, rot: 0 };
    let mut player = Player {
        impulse: Vec2 { x: 0, y: 0 },
        current_speed: Vec2 { x: 300000, y: 400000 },
        rotation_speed: 0,
        max_speed: 200000,
        friction: 10000,
        health: 3,
    };
    update_movement(&mut pos, &mut player, DeltaTime(1000000));
    assert_eq!(player.current_speed, Vec2 { x: 120000, y: 160000 });
    assert_eq!(pos.x, 620000);
    assert_eq!(pos.y, 340000);
    assert_eq!(player.impulse, Vec2 { x: 0, y: 0 });
}

#[test]
fn speed_never_exceeds_limit_for_many_impulses() {
    let mut pos = Position { x: 0, y: 0, rot: 0 };
    let mut player = Player {
        impulse: Vec2 { x: 0, y: 0 },
        current_speed: Vec2 { x: 0, y: 0 },
        rotation_speed: 0,
        max_speed: 200000,
        friction: 9995,
        health: 3,
    };
    for k in 0..50i32 {
        player.impulse = Vec2 { x: 200000 - 7000 * k, y: -200000 + 3000 * k };
        update_movement(&mut pos, &mut player, DeltaTime(16000));
        let v = player.current_speed;
        assert!((v.x as i64) * (v.x as i64) + (v.y as i64) * (v.y as i64) <= 200000i64 * 200000);
    }
}

#[test]
fn friction_slows_the_ship() {
    let mut pos = Position { x: 0, y: 0, rot: 0 };
    let mut player = Player {
        impulse: Vec2 { x: 10, y: 0 },
        current_speed: Vec2 { x: 10000, y: -10000 },
        rotation_speed: 0,
        max_speed: 200000,
        friction: 9995,
        health: 3,
    };
    update_movement(&mut pos, &mut player, DeltaTime(0));
    assert_eq!(player.current_speed, Vec2 { x: 10005, y: -9995 });
}

#[test]
fn ship_wraps_around_screen_edges() {
    let mut pos = Position { x: WORLD_WIDTH - 1000, y: 1000, rot: 0 };
    let mut player = Player {
        impulse: Vec2 { x: 0, y: 0 },
        current_speed: Vec2 { x: 100000, y: 100000 },
        rotation_speed: 90000,
        max_speed: 200000,
        friction: 10000,
        health: 3,
    };
    let mut r = Renderable {
        texture: Texture::Rocket,
        img_width: 1,
        img_height: 1,
        output_width: 60,
        output_height: 80,
        img_rotation: 0,
    };
    control_player(&mut pos, &mut player, &mut r, true, false, true, DeltaTime(1000000));
    assert_eq!(pos.x, 99000);
    assert_eq!(pos.y, WORLD_HEIGHT - 99000);
    assert_eq!(pos.rot, 90000);
    assert_eq!(r.img_rotation, 90000);
    // Thrust along the new heading (right) takes effect next tick.
    assert_eq!(player.impulse, Vec2 { x: 200000, y: 0 });
    control_player(&mut pos, &mut player, &mut r, false, true, false, DeltaTime(2000000));
    assert_eq!(pos.rot, 270000);
    assert!(0 <= pos.x && pos.x < WORLD_WIDTH);
    assert!(0 <= pos.y && pos.y < WORLD_HEIGHT);
}

#[test]
fn spawn_position_offsets_into_quadrant() {
    let p = spawn_position_in(Quadrant::BottomRight, 5, 7, 9);
    assert_eq!(p, Position { x: WORLD_WIDTH / 2 + 5, y: WORLD_HEIGHT / 2 + 7, rot: 9 });
    let p = spawn_position_in(Quadrant::TopLeft, 5, 7, 9);
    assert_eq!(p, Position { x: 5, y: 7, rot: 9 });
    assert_eq!(quadrant_at(p.x, p.y), Quadrant::TopLeft);
}

#[test]
fn frame_keys_released_after_use() {
    let mut w = World::new();
    let mut keys = InputState::new();
    key_down(&mut keys, "W".to_string());
    key_down(&mut keys, "i".to_string());
    key_down(&mut keys, " ".to_string());
    space_shooter::frame::run_frame(&mut w, &mut keys, DeltaTime(16000));
    assert!(is_key_pressed(&keys, "W"));
    assert!(!is_key_pressed(&keys, "i"));
    assert!(!is_key_pressed(&keys, " "));
    assert!(game_data(&w).invincible_player);
    assert_eq!(w.count(ComponentKind::Laser), 1);
    // Thrust gathered this frame along the heading (up).
    assert_eq!(ship_player(&w).impulse, Vec2 { x: 0, y: 200000 });
}
