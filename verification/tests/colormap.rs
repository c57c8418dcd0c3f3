use cadrum::color::Rgb;
use cadrum::colormap::ColorMap;

fn rgb(c: [u8; 3]) -> Rgb {
    Rgb { r: c[0], g: c[1], b: c[2] }
}

const COLORS: [[u8; 3]; 6] = [
    [255, 0, 0],
    [0, 255, 0],
    [0, 0, 255],
    [255, 255, 0],
    [255, 0, 255],
    [0, 255, 255],
];

#[test]
fn set_and_get_six_face_colors() {
    let faces: [u64; 6] = [101, 102, 103, 104, 105, 106];
    let mut map = ColorMap::new();
    for (face, color) in faces.iter().zip(COLORS.iter()) {
        map.set(*face, rgb(*color));
    }
    assert_eq!(map.len(), 6);
    for (face, expected) in faces.iter().zip(COLORS.iter()) {
        assert_eq!(map.get(*face), Some(rgb(*expected)));
    }
    assert_eq!(map.get(999), None);
}

#[test]
fn set_replaces_previous_color() {
    let mut map = ColorMap::new();
    map.set(7, rgb([1, 2, 3]));
    map.set(7, rgb([4, 5, 6]));
    assert_eq!(map.len(), 1);
    assert_eq!(map.get(7), Some(rgb([4, 5, 6])));
}

#[test]
fn paint_colors_every_listed_face_only() {
    let mut map = ColorMap::new();
    map.set(1, rgb([9, 9, 9]));
    map.set(50, rgb([8, 8, 8]));
    map.paint(&[1, 2, 3], rgb([255, 0, 0]));
    assert_eq!(map.len(), 4);
    assert_eq!(map.get(1), Some(rgb([255, 0, 0])));
    assert_eq!(map.get(2), Some(rgb([255, 0, 0])));
    assert_eq!(map.get(3), Some(rgb([255, 0, 0])));
    assert_eq!(map.get(50), Some(rgb([8, 8, 8])));
}

#[test]
fn remap_by_order_moves_colors_to_copied_faces() {
    let before: [u64; 6] = [11, 12, 13, 14, 15, 16];
    let after: [u64; 6] = [21, 22, 23, 24, 25, 26];
    let mut map = ColorMap::new();
    for (face, color) in before.iter().zip(COLORS.iter()) {
        map.set(*face, rgb(*color));
    }
    let moved = map.remap_by_order(&before, &after);
    assert_eq!(moved.len(), 6);
    for (face, expected) in after.iter().zip(COLORS.iter()) {
        assert_eq!(moved.get(*face), Some(rgb(*expected)));
    }
    for face in before.iter() {
        assert_eq!(moved.get(*face), None);
    }
}

#[test]
fn remap_by_order_skips_uncolored_and_extra_faces() {
    let mut map = ColorMap::new();
    map.set(1, rgb([1, 1, 1]));
    map.set(3, rgb([3, 3, 3]));
    let moved = map.remap_by_order(&[1, 2, 3], &[10, 20, 30, 40]);
    assert_eq!(moved.len(), 2);
    assert_eq!(moved.get(10), Some(rgb([1, 1, 1])));
    assert_eq!(moved.get(20), None);
    assert_eq!(moved.get(30), Some(rgb([3, 3, 3])));
    assert_eq!(moved.get(40), None);
}

#[test]
fn remap_by_order_last_position_wins() {
    let mut map = ColorMap::new();
    map.set(1, rgb([1, 1, 1]));
    map.set(2, rgb([2, 2, 2]));
    let moved = map.remap_by_order(&[1, 2], &[5, 5]);
    assert_eq!(moved.get(5), Some(rgb([2, 2, 2])));
}

#[test]
fn remap_after_clean_keeps_merged_colors() {
    // two boxes, green faces 1..=6 and blue faces 7..=12, merged by clean
    let mut map = ColorMap::new();
    map.paint(&[1, 2, 3, 4, 5, 6], rgb([0, 255, 0]));
    map.paint(&[7, 8, 9, 10, 11, 12], rgb([0, 0, 255]));
    // new face 100 merged old faces 1 and 7, new face 101 came from 2
    let mapping: [u64; 6] = [100, 1, 100, 7, 101, 2];
    let cleaned = map.remap_after_clean(&mapping);
    assert_eq!(cleaned.len(), 2);
    assert_eq!(cleaned.get(100), Some(rgb([0, 255, 0])));
    assert_eq!(cleaned.get(101), Some(rgb([0, 255, 0])));
}

#[test]
fn clean_takes_first_colored_source() {
    let mut map = ColorMap::new();
    map.set(7, rgb([0, 0, 255]));
    // old face 99 has no colour: the colour comes from the next pair
    let cleaned = map.remap_after_clean(&[100, 99, 100, 7, 200, 98]);
    assert_eq!(cleaned.len(), 1);
    assert_eq!(cleaned.get(100), Some(rgb([0, 0, 255])));
    assert_eq!(cleaned.get(200), None);
}

#[test]
fn extend_prefers_later_colors() {
    let mut a = ColorMap::new();
    a.set(1, rgb([1, 1, 1]));
    a.set(2, rgb([2, 2, 2]));
    let mut b = ColorMap::new();
    b.set(2, rgb([20, 20, 20]));
    b.set(3, rgb([30, 30, 30]));
    a.extend(&b);
    assert_eq!(a.len(), 3);
    assert_eq!(a.get(1), Some(rgb([1, 1, 1])));
    assert_eq!(a.get(2), Some(rgb([20, 20, 20])));
    assert_eq!(a.get(3), Some(rgb([30, 30, 30])));
}

#[test]
fn is_empty_and_remove() {
    let mut map = ColorMap::new();
    assert!(map.is_empty());
    map.set(4, rgb([4, 4, 4]));
    map.set(5, rgb([5, 5, 5]));
    assert!(!map.is_empty());
    assert_eq!(map.remove(4), Some(rgb([4, 4, 4])));
    assert_eq!(map.remove(4), None);
    assert_eq!(map.get(4), None);
    assert_eq!(map.get(5), Some(rgb([5, 5, 5])));
    assert_eq!(map.remove(5), Some(rgb([5, 5, 5])));
    assert!(map.is_empty());
}

#[test]
fn keys_lists_each_colored_face_once() {
    let mut map = ColorMap::new();
    map.paint(&[30, 10, 20, 10], rgb([1, 2, 3]));
    let mut keys = map.keys();
    keys.sort();
    assert_eq!(keys, vec![10, 20, 30]);
    assert!(ColorMap::new().keys().is_empty());
}
