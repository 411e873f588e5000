use stock_chart::mapper::{index_to_x, moved_beyond, pixel_to_index, Point};

#[test]
fn no_column_outside_the_region() {
    assert_eq!(pixel_to_index(59, 60, 1740, 100), None);
    assert_eq!(pixel_to_index(1741, 60, 1740, 100), None);
    assert_eq!(pixel_to_index(-1, 60, 1740, 100), None);
    assert_eq!(pixel_to_index(i32::MIN, 60, 1740, 100), None);
    assert_eq!(pixel_to_index(i32::MAX, 60, 1740, 100), None);
}

#[test]
fn no_column_without_records() {
    assert_eq!(pixel_to_index(60, 60, 1740, 0), None);
    assert_eq!(pixel_to_index(900, 60, 1740, 0), None);
    assert_eq!(pixel_to_index(0, 60, 1740, 0), None);
}

#[test]
fn every_position_in_the_region_has_a_column() {
    for count in [1usize, 2, 3, 7, 100, 1681, 5000] {
        for x in 60..=1740 {
            let index = pixel_to_index(x, 60, 1740, count);
            assert!(matches!(index, Some(i) if i < count));
        }
    }
}

#[test]
fn left_edge_is_the_first_column() {
    assert_eq!(pixel_to_index(60, 60, 1740, 1), Some(0));
    assert_eq!(pixel_to_index(60, 60, 1740, 124), Some(0));
    assert_eq!(pixel_to_index(-5, -5, 5, 3), Some(0));
}

#[test]
fn right_edge_is_the_last_column() {
    assert_eq!(pixel_to_index(1740, 60, 1740, 124), Some(123));
    assert_eq!(pixel_to_index(1739, 60, 1740, 124), Some(123));
    assert_eq!(pixel_to_index(1740, 60, 1740, 1), Some(0));
    assert_eq!(pixel_to_index(5, -5, 5, 3), Some(2));
}

#[test]
fn middle_of_the_region_is_the_middle_column() {
    assert_eq!(pixel_to_index(900, 60, 1740, 124), Some(62));
    assert_eq!(pixel_to_index(900, 60, 1740, 125), Some(62));
    assert_eq!(pixel_to_index(900, 60, 1740, 1), Some(0));
}

#[test]
fn columns_have_equal_width() {
    assert_eq!(pixel_to_index(0, 0, 100, 10), Some(0));
    assert_eq!(pixel_to_index(9, 0, 100, 10), Some(0));
    assert_eq!(pixel_to_index(10, 0, 100, 10), Some(1));
    assert_eq!(pixel_to_index(55, 0, 100, 10), Some(5));
    assert_eq!(pixel_to_index(99, 0, 100, 10), Some(9));
    assert_eq!(pixel_to_index(100, 0, 100, 10), Some(9));
}

#[test]
fn region_of_no_width_has_its_columns_in_one_place() {
    assert_eq!(pixel_to_index(7, 7, 7, 5), Some(0));
    assert_eq!(pixel_to_index(8, 7, 7, 5), None);
    assert_eq!(pixel_to_index(7, 8, 7, 5), None);
}

#[test]
fn widest_region_and_most_columns() {
    assert_eq!(pixel_to_index(i32::MAX, i32::MIN, i32::MAX, usize::MAX), Some(usize::MAX - 1));
    assert_eq!(pixel_to_index(i32::MIN, i32::MIN, i32::MAX, usize::MAX), Some(0));
    assert_eq!(pixel_to_index(-1, i32::MIN, i32::MAX, 2), Some(0));
    assert_eq!(pixel_to_index(0, i32::MIN, i32::MAX, 2), Some(1));
}

#[test]
fn centre_of_a_column() {
    assert_eq!(index_to_x(0, 0, 100, 10), Some(5));
    assert_eq!(index_to_x(9, 0, 100, 10), Some(95));
    assert_eq!(index_to_x(0, 60, 1740, 1), Some(900));
    assert_eq!(index_to_x(3, 60, 1740, 0), None);
    assert_eq!(index_to_x(10, 0, 100, 10), None);
    assert_eq!(index_to_x(0, 100, 0, 10), None);
    assert_eq!(index_to_x(0, 7, 7, 3), Some(7));
}

#[test]
fn centre_of_a_column_selects_the_column() {
    for count in [1usize, 2, 5, 124, 840] {
        for index in 0..count {
            let x = index_to_x(index, 60, 1740, count).unwrap();
            assert_eq!(pixel_to_index(x, 60, 1740, count), Some(index));
        }
    }
}

#[test]
fn pointer_threshold_is_a_straight_line_distance() {
    let origin = Point { x: 100, y: 100 };
    assert!(!moved_beyond(origin, Point { x: 100, y: 100 }, 5));
    assert!(!moved_beyond(origin, Point { x: 103, y: 104 }, 5));
    assert!(!moved_beyond(origin, Point { x: 105, y: 100 }, 5));
    assert!(moved_beyond(origin, Point { x: 104, y: 104 }, 5));
    assert!(moved_beyond(origin, Point { x: 100, y: 94 }, 5));
    assert!(moved_beyond(origin, Point { x: 101, y: 100 }, 0));
    assert!(!moved_beyond(origin, origin, 0));
}

#[test]
fn pointer_threshold_at_the_limits() {
    let low = Point { x: i32::MIN, y: i32::MIN };
    let high = Point { x: i32::MAX, y: i32::MAX };
    assert!(moved_beyond(low, high, u32::MAX));
    assert!(!moved_beyond(low, Point { x: i32::MAX, y: i32::MIN }, u32::MAX));
}
