use dungeon_gen::Rect;

#[test]
fn test_does_intersect_touching_corner() {
    let rect1 = Rect::new(1, 1, 3, 5);
    let rect2 = Rect::new(4, 6, 6, 1);
    assert_eq!(rect1.intersect(&rect2), true);
}

#[test]
fn test_does_intersect_past_right_edge() {
    let rect1 = Rect::new(1, 1, 3, 5);
    let rect2 = Rect::new(5, 6, 6, 1);
    assert_eq!(rect1.intersect(&rect2), false);
}

#[test]
fn test_does_intersect_past_bottom_edge() {
    let rect1 = Rect::new(1, 1, 3, 5);
    let rect2 = Rect::new(4, 7, 7, 1);
    assert_eq!(rect1.intersect(&rect2), false);
}

#[test]
fn test_center_odd_sum() {
    let rect = Rect::new(1, 1, 3, 5);
    assert_eq!(rect.center(), (2, 3));
}

#[test]
fn test_center_even_sum() {
    let rect = Rect::new(1, 1, 4, 6);
    assert_eq!(rect.center(), (3, 4));
}

#[test]
fn new_sets_the_four_bounds() {
    let rect = Rect::new(3, -4, 5, 6);
    assert_eq!(rect.x1, 3);
    assert_eq!(rect.y1, -4);
    assert_eq!(rect.x2, 8);
    assert_eq!(rect.y2, 2);
    assert_eq!(rect, Rect { x1: 3, x2: 8, y1: -4, y2: 2 });
}

#[test]
fn new_reaches_the_largest_coordinate() {
    let rect = Rect::new(i32::MAX - 1, i32::MAX - 2, 1, 2);
    assert_eq!(rect.x2, i32::MAX);
    assert_eq!(rect.y2, i32::MAX);
}

#[test]
fn intersect_is_symmetric() {
    let rects = [
        Rect::new(1, 1, 3, 5),
        Rect::new(4, 6, 6, 1),
        Rect::new(5, 6, 6, 1),
        Rect::new(4, 7, 7, 1),
        Rect::new(-3, -3, 2, 2),
        Rect::new(0, 0, 10, 10),
        Rect { x1: 5, x2: 2, y1: 7, y2: 1 },
    ];
    for a in rects.iter() {
        for b in rects.iter() {
            assert_eq!(a.intersect(b), b.intersect(a));
        }
    }
}

#[test]
fn intersect_counts_a_shared_edge() {
    let left = Rect::new(0, 0, 4, 4);
    let right = Rect::new(4, 0, 4, 4);
    let apart = Rect::new(5, 0, 4, 4);
    assert!(left.intersect(&right));
    assert!(!left.intersect(&apart));
    assert!(left.intersect(&left));
}

#[test]
fn intersect_sees_a_nested_rectangle() {
    let outer = Rect::new(0, 0, 10, 10);
    let inner = Rect::new(3, 3, 2, 2);
    assert!(outer.intersect(&inner));
    assert!(inner.intersect(&outer));
}

#[test]
fn center_follows_the_origin_and_size_formula() {
    for x in -5..6 {
        for y in -5..6 {
            for w in 1..7 {
                for h in 1..7 {
                    let rect = Rect::new(x, y, w, h);
                    let expected = ((2 * x + w).div_euclid(2), (2 * y + h).div_euclid(2));
                    assert_eq!(rect.center(), expected);
                }
            }
        }
    }
}

#[test]
fn center_rounds_down_below_zero() {
    let rect = Rect { x1: -3, x2: 0, y1: -8, y2: -3 };
    assert_eq!(rect.center(), (-2, -6));
}

#[test]
fn center_does_not_overflow_at_the_extremes() {
    let high = Rect { x1: i32::MAX - 1, x2: i32::MAX, y1: i32::MAX, y2: i32::MAX };
    assert_eq!(high.center(), (i32::MAX - 1, i32::MAX));
    let low = Rect { x1: i32::MIN, x2: i32::MIN + 1, y1: i32::MIN, y2: i32::MIN };
    assert_eq!(low.center(), (i32::MIN, i32::MIN));
    let wide = Rect { x1: i32::MIN, x2: i32::MAX, y1: 0, y2: 1 };
    assert_eq!(wide.center(), (-1, 0));
}
