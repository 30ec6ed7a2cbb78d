use dungeon_gen::{generate, origin_span, sample_room, Level, Rect, TileType};
use rltk::RandomNumberGenerator;

fn default_level(seed: u64) -> Level {
    let mut rng = RandomNumberGenerator::seeded(seed);
    generate(80, 50, 30, 6, 10, &mut rng)
}

fn on_path(prev: &Rect, next: &Rect, horizontal_first: bool, x: i32, y: i32) -> bool {
    let (px, py) = prev.center();
    let (nx, ny) = next.center();
    let in_columns = px.min(nx) <= x && x <= px.max(nx);
    let in_rows = py.min(ny) <= y && y <= py.max(ny);
    if horizontal_first {
        (y == ny && in_columns) || (x == px && in_rows)
    } else {
        (x == nx && in_rows) || (y == py && in_columns)
    }
}

fn joined(level: &Level, prev: &Rect, next: &Rect, horizontal_first: bool) -> bool {
    let grid = level.grid();
    for y in 0..grid.height() {
        for x in 0..grid.width() {
            if on_path(prev, next, horizontal_first, x, y)
                && (x, y) != (0, 0)
                && grid.get(x, y) != TileType::Floor
            {
                return false;
            }
        }
    }
    true
}

#[test]
fn origin_span_is_the_room_left_after_size_and_margin() {
    assert_eq!(origin_span(80, 6), 73);
    assert_eq!(origin_span(50, 10), 39);
    assert_eq!(origin_span(8, 6), 1);
}

#[test]
fn origin_span_is_never_negative() {
    assert_eq!(origin_span(7, 6), 0);
    assert_eq!(origin_span(6, 6), 0);
    assert_eq!(origin_span(0, 1), 0);
    assert_eq!(origin_span(0, i32::MAX), 0);
    assert_eq!(origin_span(i32::MAX, 1), i32::MAX - 2);
}

#[test]
fn sampled_room_keeps_size_and_margin() {
    let mut rng = RandomNumberGenerator::seeded(11);
    for _ in 0..500 {
        let room = sample_room(80, 50, 6, 10, &mut rng).unwrap();
        let w = room.x2 - room.x1;
        let h = room.y2 - room.y1;
        assert!(6 <= w && w <= 10);
        assert!(6 <= h && h <= 10);
        assert!(0 <= room.x1 && room.x2 <= 78);
        assert!(0 <= room.y1 && room.y2 <= 48);
    }
}

#[test]
fn sampled_rooms_vary_in_size_and_place() {
    let mut rng = RandomNumberGenerator::seeded(3);
    let rooms: Vec<Rect> = (0..200).map(|_| sample_room(80, 50, 6, 10, &mut rng).unwrap()).collect();
    for size in 6..11 {
        assert!(rooms.iter().any(|r| r.x2 - r.x1 == size));
        assert!(rooms.iter().any(|r| r.y2 - r.y1 == size));
    }
    assert!(rooms.iter().any(|r| r.x1 != rooms[0].x1));
    assert!(rooms.iter().any(|r| r.y1 != rooms[0].y1));
    assert!(rooms.iter().any(|r| r.x1 > 40));
    assert!(rooms.iter().any(|r| r.y1 > 25));
    assert!(rooms.iter().any(|r| 0 < r.x1 && r.x1 < 10));
    assert!(rooms.iter().any(|r| 0 < r.y1 && r.y1 < 10));
    assert!(rooms.iter().any(|r| r.x2 < 60));
    assert!(rooms.iter().any(|r| r.y2 < 30));
}

#[test]
fn sampled_room_of_a_single_size_and_place() {
    let mut rng = RandomNumberGenerator::seeded(5);
    for _ in 0..20 {
        let room = sample_room(8, 8, 6, 6, &mut rng).unwrap();
        assert_eq!(room, Rect { x1: 0, x2: 6, y1: 0, y2: 6 });
    }
}

#[test]
fn no_room_is_sampled_where_none_fits() {
    let mut rng = RandomNumberGenerator::seeded(5);
    for _ in 0..20 {
        assert_eq!(sample_room(7, 50, 6, 10, &mut rng), None);
        assert_eq!(sample_room(80, 7, 6, 10, &mut rng), None);
        assert_eq!(sample_room(0, 0, 1, 1, &mut rng), None);
    }
}

#[test]
fn generated_grid_has_the_asked_size() {
    for (width, height) in [(80, 50), (20, 30), (1, 1), (0, 0), (0, 5), (13, 7)] {
        let mut rng = RandomNumberGenerator::seeded(1);
        let level = generate(width, height, 10, 3, 5, &mut rng);
        assert_eq!(level.grid().width(), width);
        assert_eq!(level.grid().height(), height);
        assert_eq!(level.grid().len(), (width * height) as usize);
        assert_eq!(level.grid().tiles().len(), (width * height) as usize);
    }
}

#[test]
fn generated_rooms_keep_apart() {
    for seed in 0..20 {
        let level = default_level(seed);
        let rooms = level.rooms();
        assert!(rooms.len() >= 2);
        for (i, a) in rooms.iter().enumerate() {
            for (j, b) in rooms.iter().enumerate() {
                if i != j {
                    assert!(!a.intersect(b));
                }
            }
        }
    }
}

#[test]
fn generated_rooms_keep_size_and_margin() {
    for seed in 0..20 {
        let level = default_level(seed);
        for room in level.rooms().iter() {
            assert!(level.admits(room));
            let w = room.x2 - room.x1;
            let h = room.y2 - room.y1;
            assert!(6 <= w && w <= 10);
            assert!(6 <= h && h <= 10);
        }
    }
}

#[test]
fn generated_room_interiors_are_floor() {
    for seed in 0..20 {
        let level = default_level(seed);
        for room in level.rooms().iter() {
            for y in room.y1 + 1..=room.y2 {
                for x in room.x1 + 1..=room.x2 {
                    assert_eq!(level.grid().get(x, y), TileType::Floor);
                }
            }
        }
    }
}

#[test]
fn generated_rooms_are_joined_in_order() {
    for seed in 0..20 {
        let level = default_level(seed);
        let rooms = level.rooms();
        for k in 1..rooms.len() {
            let prev = &rooms[k - 1];
            let next = &rooms[k];
            assert!(joined(&level, prev, next, true) || joined(&level, prev, next, false));
        }
    }
}

#[test]
fn generated_floor_is_rooms_and_corridors_only() {
    for seed in 0..20 {
        let level = default_level(seed);
        let rooms = level.rooms();
        let grid = level.grid();
        for (x, y, tile) in grid.cells() {
            if tile == TileType::Floor {
                let in_room = rooms
                    .iter()
                    .any(|r| r.x1 < x && x <= r.x2 && r.y1 < y && y <= r.y2);
                let in_corridor = (1..rooms.len()).any(|k| {
                    on_path(&rooms[k - 1], &rooms[k], true, x, y)
                        || on_path(&rooms[k - 1], &rooms[k], false, x, y)
                });
                assert!(in_room || in_corridor);
            }
        }
    }
}

#[test]
fn no_attempt_leaves_a_grid_of_walls() {
    let mut rng = RandomNumberGenerator::seeded(9);
    let level = generate(80, 50, 0, 6, 10, &mut rng);
    assert_eq!(level.rooms().len(), 0);
    assert_eq!(level.grid().len(), 4000);
    assert!(level.grid().tiles().iter().all(|t| *t == TileType::Wall));
}

#[test]
fn same_seed_gives_the_same_level() {
    for seed in [0, 1, 42, 2024] {
        let first = default_level(seed);
        let second = default_level(seed);
        assert_eq!(first.grid().tiles(), second.grid().tiles());
        assert_eq!(first.rooms(), second.rooms());
    }
}

#[test]
fn different_seeds_give_different_levels() {
    let levels: Vec<Level> = (0..5).map(default_level).collect();
    assert!(levels.iter().any(|l| l.grid().tiles() != levels[0].grid().tiles()));
}

#[test]
fn generated_edges_stay_walls() {
    for seed in 0..20 {
        let level = default_level(seed);
        let grid = level.grid();
        for x in 0..80 {
            assert_eq!(grid.get(x, 0), TileType::Wall);
            assert_eq!(grid.get(x, 49), TileType::Wall);
        }
        for y in 0..50 {
            assert_eq!(grid.get(0, y), TileType::Wall);
            assert_eq!(grid.get(79, y), TileType::Wall);
        }
    }
}

#[test]
fn far_edges_stay_walls_even_with_rooms_of_one_cell() {
    for seed in 0..20 {
        let mut rng = RandomNumberGenerator::seeded(seed);
        let level = generate(12, 9, 40, 1, 2, &mut rng);
        let grid = level.grid();
        assert!(level.rooms().len() >= 2);
        for x in 0..12 {
            assert_eq!(grid.get(x, 8), TileType::Wall);
        }
        for y in 0..9 {
            assert_eq!(grid.get(11, y), TileType::Wall);
        }
        assert_eq!(grid.get(0, 0), TileType::Wall);
    }
}

#[test]
fn every_attempt_is_spent_whether_or_not_a_room_is_placed() {
    for seed in 0..10 {
        let mut rng = RandomNumberGenerator::seeded(seed);
        let level = generate(80, 50, 5, 6, 10, &mut rng);
        assert!(level.rooms().len() >= 1);
        assert!(level.rooms().len() <= 5);
    }
    let mut rng = RandomNumberGenerator::seeded(4);
    let crowded = generate(12, 12, 200, 6, 6, &mut rng);
    assert_eq!(crowded.rooms().len(), 1);
}

#[test]
fn too_small_a_grid_gets_no_room() {
    let mut rng = RandomNumberGenerator::seeded(8);
    let level = generate(7, 7, 50, 6, 10, &mut rng);
    assert_eq!(level.rooms().len(), 0);
    assert_eq!(level.grid().len(), 49);
    assert!(level.grid().tiles().iter().all(|t| *t == TileType::Wall));
}

#[test]
fn first_attempt_always_places_a_room_that_fits() {
    for seed in 0..10 {
        let mut rng = RandomNumberGenerator::seeded(seed);
        let level = generate(80, 50, 1, 6, 10, &mut rng);
        assert_eq!(level.rooms().len(), 1);
        let room = level.rooms()[0];
        let floor = level.grid().tiles().iter().filter(|t| **t == TileType::Floor).count();
        assert_eq!(floor as i32, (room.x2 - room.x1) * (room.y2 - room.y1));
    }
}

#[test]
fn new_level_is_blank() {
    let level = Level::new(9, 6);
    assert_eq!(level.rooms().len(), 0);
    assert_eq!(level.grid().len(), 54);
    assert!(level.grid().tiles().iter().all(|t| *t == TileType::Wall));
    assert_eq!(level.into_grid().len(), 54);
}

#[test]
fn level_admits_rooms_within_the_margin_only() {
    let level = Level::new(20, 10);
    assert!(level.admits(&Rect::new(0, 0, 18, 8)));
    assert!(!level.admits(&Rect::new(0, 0, 19, 8)));
    assert!(!level.admits(&Rect::new(0, 0, 18, 9)));
    assert!(!level.admits(&Rect::new(-1, 0, 5, 5)));
    assert!(!level.admits(&Rect::new(0, -1, 5, 5)));
    assert!(!level.admits(&Rect { x1: 5, x2: 5, y1: 1, y2: 4 }));
    assert!(!Level::new(1, 1).admits(&Rect::new(0, 0, 1, 1)));
}

#[test]
fn level_rejects_a_room_that_touches_another() {
    let mut level = Level::new(40, 20);
    level.add_room(Rect::new(2, 2, 5, 5), true);
    assert!(!level.accepts(&Rect::new(7, 2, 5, 5)));
    assert!(!level.accepts(&Rect::new(4, 4, 2, 2)));
    assert!(!level.accepts(&Rect::new(7, 7, 3, 3)));
    assert!(level.accepts(&Rect::new(8, 2, 5, 5)));
    assert!(level.accepts(&Rect::new(2, 8, 5, 5)));
}

#[test]
fn first_room_gets_no_corridor() {
    let mut level = Level::new(20, 20);
    level.add_room(Rect::new(2, 3, 4, 5), true);
    let floors: Vec<(i32, i32)> = level
        .grid()
        .cells()
        .iter()
        .filter(|c| c.2 == TileType::Floor)
        .map(|c| (c.0, c.1))
        .collect();
    assert_eq!(floors.len(), 20);
    assert!(floors.iter().all(|(x, y)| 2 < *x && *x <= 6 && 3 < *y && *y <= 8));
    assert_eq!(level.rooms(), &vec![Rect::new(2, 3, 4, 5)]);
}

fn two_rooms(horizontal_first: bool) -> Level {
    let mut level = Level::new(30, 20);
    level.add_room(Rect::new(2, 2, 4, 4), false);
    level.add_room(Rect::new(20, 10, 4, 4), horizontal_first);
    level
}

fn expect_floor(level: &Level, bend: (i32, i32)) {
    let first = Rect::new(2, 2, 4, 4);
    let second = Rect::new(20, 10, 4, 4);
    assert_eq!(first.center(), (4, 4));
    assert_eq!(second.center(), (22, 12));
    for (x, y, tile) in level.grid().cells() {
        let in_room = (first.x1 < x && x <= first.x2 && first.y1 < y && y <= first.y2)
            || (second.x1 < x && x <= second.x2 && second.y1 < y && y <= second.y2);
        let in_row = y == bend.1 && 4 <= x && x <= 22;
        let in_column = x == bend.0 && 4 <= y && y <= 12;
        let expected = if in_room || in_row || in_column { TileType::Floor } else { TileType::Wall };
        assert_eq!(tile, expected);
    }
}

#[test]
fn horizontal_first_corridor_bends_in_the_column_of_the_earlier_room() {
    let level = two_rooms(true);
    expect_floor(&level, (4, 12));
    assert_eq!(level.rooms().len(), 2);
}

#[test]
fn vertical_first_corridor_bends_in_the_column_of_the_later_room() {
    let level = two_rooms(false);
    expect_floor(&level, (22, 4));
    assert_eq!(level.rooms().len(), 2);
}

#[test]
fn corridor_through_the_first_cell_leaves_it_a_wall() {
    let mut level = Level::new(12, 12);
    level.add_room(Rect::new(0, 0, 1, 1), true);
    level.add_room(Rect::new(5, 5, 1, 1), true);
    let grid = level.grid();
    assert_eq!(Rect::new(0, 0, 1, 1).center(), (0, 0));
    assert_eq!(grid.get(0, 0), TileType::Wall);
    for y in 1..=5 {
        assert_eq!(grid.get(0, y), TileType::Floor);
    }
    for x in 0..=5 {
        assert_eq!(grid.get(x, 5), TileType::Floor);
    }
}

#[test]
fn both_corridor_shapes_are_drawn() {
    let mut seen_horizontal = false;
    let mut seen_vertical = false;
    for seed in 0..20 {
        let level = default_level(seed);
        let rooms = level.rooms();
        for k in 1..rooms.len() {
            let horizontal = joined(&level, &rooms[k - 1], &rooms[k], true);
            let vertical = joined(&level, &rooms[k - 1], &rooms[k], false);
            if horizontal && !vertical {
                seen_horizontal = true;
            }
            if vertical && !horizontal {
                seen_vertical = true;
            }
        }
    }
    assert!(seen_horizontal && seen_vertical);
}

#[test]
fn levels_compare_by_grid_and_rooms() {
    assert_eq!(two_rooms(true), two_rooms(true));
    assert_ne!(two_rooms(true), two_rooms(false));
    assert_eq!(default_level(7), default_level(7));
}
