use space_shooter::components::{GameData, Laser, Position};
use space_shooter::world::{ComponentKind, Entity, World};

fn laser_at(x: i64) -> Entity {
    let mut e = Entity::empty();
    e.position = Some(Position { x, y: 0, rot: 0 });
    e.laser = Some(Laser { speed: 1 });
    e
}

#[test]
fn create_count_and_maintain() {
    let mut w = World::new();
    assert_eq!(w.len(), 0);
    assert_eq!(w.create(laser_at(1)), 0);
    assert_eq!(w.create(laser_at(2)), 1);
    let mut g = Entity::empty();
    g.game_data = Some(GameData { score: 0, level: 1, invincible_player: false });
    assert_eq!(w.create(g), 2);
    assert_eq!(w.count(ComponentKind::Laser), 2);
    assert_eq!(w.count(ComponentKind::GameData), 1);
    assert_eq!(w.count(ComponentKind::Player), 0);
    assert_eq!(w.get(1).unwrap().position.unwrap().x, 2);
    assert!(w.get(3).is_none());
    w.mark_deleted(0);
    assert_eq!(w.len(), 3);
    assert!(w.entities[0].deleted);
    w.maintain();
    assert_eq!(w.len(), 2);
    assert_eq!(w.entities[0].position.unwrap().x, 2);
    assert_eq!(w.count(ComponentKind::Laser), 1);
}

#[test]
fn deleting_twice_removes_once() {
    let mut w = World::new();
    for x in 0..5 {
        w.create(laser_at(x));
    }
    w.mark_deleted(2);
    w.mark_deleted(2);
    w.mark_deleted(99);
    w.maintain();
    let xs: Vec<i64> = w.entities.iter().map(|e| e.position.unwrap().x).collect();
    assert_eq!(xs, vec![0, 1, 3, 4]);
    assert!(w.entities.iter().all(|e| !e.deleted));
}

#[test]
fn delete_all_empties_the_store() {
    let mut w = World::new();
    w.create(laser_at(1));
    w.delete_all();
    assert_eq!(w.len(), 0);
}
