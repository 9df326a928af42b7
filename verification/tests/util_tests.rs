use tilecore::common::{Point, Rect};
use tilecore::util::{add_points, bytes_eq, clamp, generate_uvs};

#[test]
fn clamp_pulls_into_range() {
    assert_eq!(clamp(5, 0, 10), 5);
    assert_eq!(clamp(-3, 0, 10), 0);
    assert_eq!(clamp(99, 0, 10), 10);
    assert_eq!(clamp(7, 7, 7), 7);
}

#[test]
fn add_points_sums_componentwise() {
    let pts = [
        Point { x: 1, y: 2 },
        Point { x: 3, y: 4 },
        Point { x: -5, y: 6 },
    ];
    assert_eq!(add_points(&pts), Point { x: -1, y: 12 });
    assert_eq!(add_points(&[]), Point { x: 0, y: 0 });
}

#[test]
fn bytes_eq_compares_contents() {
    assert!(bytes_eq(b"abc", b"abc"));
    assert!(!bytes_eq(b"abc", b"abd"));
    assert!(!bytes_eq(b"abc", b"ab"));
    assert!(bytes_eq(b"", b""));
}

#[test]
fn uvs_cover_the_image_row_major() {
    let uvs = generate_uvs(64, 32, 16, 16);
    assert_eq!(uvs.len(), 8);
    assert_eq!(uvs[0], Rect { x: 0, y: 0, w: 16, h: 16 });
    assert_eq!(uvs[3], Rect { x: 48, y: 0, w: 16, h: 16 });
    assert_eq!(uvs[4], Rect { x: 0, y: 16, w: 16, h: 16 });
    assert_eq!(uvs[7], Rect { x: 48, y: 16, w: 16, h: 16 });
}

#[test]
fn uvs_of_an_empty_image_are_empty() {
    assert_eq!(generate_uvs(0, 0, 16, 16).len(), 0);
    assert_eq!(generate_uvs(8, 8, 16, 16).len(), 0);
}
