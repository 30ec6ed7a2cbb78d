use dungeon_gen::{new_map_rooms_and_corridors, new_map_test, xy_idx, TileType};

#[test]
fn two_room_map_has_the_default_size() {
    assert_eq!(new_map_rooms_and_corridors().len(), 80 * 50);
}

#[test]
fn two_room_map_holds_two_rooms_and_a_corridor() {
    let map = new_map_rooms_and_corridors();
    for y in 0..50 {
        for x in 0..80 {
            let in_room1 = 20 < x && x <= 30 && 15 < y && y <= 30;
            let in_room2 = 35 < x && x <= 45 && 15 < y && y <= 30;
            let in_corridor = y == 23 && 25 <= x && x <= 40;
            let expected = if in_room1 || in_room2 || in_corridor {
                TileType::Floor
            } else {
                TileType::Wall
            };
            assert_eq!(map[xy_idx(x, y)], expected);
        }
    }
}

#[test]
fn two_room_map_counts_its_floor() {
    let map = new_map_rooms_and_corridors();
    let floor = map.iter().filter(|t| **t == TileType::Floor).count();
    assert_eq!(floor, 150 + 150 + 5);
}

#[test]
fn two_room_map_is_always_the_same() {
    assert_eq!(new_map_rooms_and_corridors(), new_map_rooms_and_corridors());
}

#[test]
fn test_map_has_solid_boundaries() {
    let map = new_map_test();
    assert_eq!(map.len(), 80 * 50);
    for x in 0..80 {
        assert_eq!(map[xy_idx(x, 0)], TileType::Wall);
        assert_eq!(map[xy_idx(x, 49)], TileType::Wall);
    }
    for y in 0..50 {
        assert_eq!(map[xy_idx(0, y)], TileType::Wall);
        assert_eq!(map[xy_idx(79, y)], TileType::Wall);
    }
}

#[test]
fn test_map_keeps_its_middle_free() {
    for _ in 0..20 {
        let map = new_map_test();
        assert_eq!(map[xy_idx(40, 25)], TileType::Floor);
    }
}

#[test]
fn test_map_scatters_at_most_four_hundred_walls() {
    let map = new_map_test();
    let mut inner_walls = 0;
    for y in 1..49 {
        for x in 1..79 {
            if map[xy_idx(x, y)] == TileType::Wall {
                inner_walls += 1;
            }
        }
    }
    assert!(inner_walls <= 400);
    assert!(inner_walls > 100);
}

#[test]
fn scattered_wall_lands_on_its_cell() {
    let mut map = vec![TileType::Floor; 80 * 50];
    dungeon_gen::scatter_wall(&mut map, 3, 4);
    assert_eq!(map[xy_idx(3, 4)], TileType::Wall);
    assert_eq!(map.iter().filter(|t| **t == TileType::Wall).count(), 1);
    dungeon_gen::scatter_wall(&mut map, 79, 49);
    assert_eq!(map[3999], TileType::Wall);
    assert_eq!(map.iter().filter(|t| **t == TileType::Wall).count(), 2);
}

#[test]
fn scattered_wall_spares_the_middle() {
    let mut map = vec![TileType::Floor; 80 * 50];
    dungeon_gen::scatter_wall(&mut map, 40, 25);
    assert!(map.iter().all(|t| *t == TileType::Floor));
}
