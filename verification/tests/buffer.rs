use scene_mesh::buffer::{draw_range, DrawRange, VertexBuffer};
use scene_mesh::scene::animation;

#[test]
fn draw_range_counts_in_vertices() {
    assert_eq!(draw_range(0, 36), DrawRange { first: 0, count: 36 });
    assert_eq!(draw_range(144, 18), DrawRange { first: 18, count: 18 });
    assert_eq!(draw_range(8 * 1000, 0), DrawRange { first: 1000, count: 0 });
    assert_eq!(draw_range(15, 1), DrawRange { first: 1, count: 1 });
    assert_eq!(draw_range(-1, 1), DrawRange { first: 0, count: 1 });
    assert_eq!(draw_range(-17, -3), DrawRange { first: -2, count: -3 });
    assert_eq!(draw_range(i32::MIN, 0), DrawRange { first: i32::MIN / 8, count: 0 });
}

#[test]
fn vertex_buffer_takes_no_negative_count() {
    let mut b = VertexBuffer::new();
    assert_eq!(b.extend(3), Some(DrawRange { first: 0, count: 3 }));
    assert_eq!(b.extend(-1), None);
    assert_eq!(b.extend(i32::MIN), None);
    assert_eq!(b.len, 24);
    assert_eq!(b.ranges.len(), 1);
}

#[test]
fn vertex_buffer_starts_empty() {
    let b = VertexBuffer::new();
    assert!(b.ranges.is_empty());
    assert_eq!(b.len, 0);
    assert_eq!(b.vertex_start(), 0);
}

#[test]
fn vertex_buffer_lays_objects_end_to_end() {
    let mut b = VertexBuffer::new();
    let mut starts = Vec::new();
    for count in [18, 0, 180, 180, 204] {
        starts.push(b.vertex_start());
        assert!(b.extend(count).is_some());
    }
    assert_eq!(starts, vec![0, 144, 144, 1584, 3024]);
    assert_eq!(
        b.ranges,
        vec![
            DrawRange { first: 0, count: 18 },
            DrawRange { first: 18, count: 0 },
            DrawRange { first: 18, count: 180 },
            DrawRange { first: 198, count: 180 },
            DrawRange { first: 378, count: 204 },
        ]
    );
    assert_eq!(b.len, 8 * 582);
    for i in 0..b.ranges.len() {
        for j in i + 1..b.ranges.len() {
            assert!(b.ranges[i].first + b.ranges[i].count <= b.ranges[j].first);
        }
    }
}

#[test]
fn vertex_buffer_does_not_grow_past_what_i32_counts() {
    let mut b = VertexBuffer::new();
    let most = i32::MAX / 8;
    assert_eq!(b.extend(most), Some(DrawRange { first: 0, count: most }));
    assert_eq!(b.len, 8 * most);
    assert_eq!(b.extend(1), None);
    assert_eq!(b.len, 8 * most);
    assert_eq!(b.ranges.len(), 1);
    assert_eq!(b.extend(0), Some(DrawRange { first: most, count: 0 }));
    let mut c = VertexBuffer::new();
    assert_eq!(c.extend(most + 1), None);
    assert!(c.ranges.is_empty());
}

#[test]
fn animation_follows_what_is_wanted() {
    assert!(!animation(true, 0));
    assert!(!animation(false, 0));
    assert!(animation(false, 1));
    assert!(animation(true, 1));
    assert!(animation(true, 2));
    assert!(!animation(false, 2));
    assert!(animation(true, -1));
    assert!(!animation(false, -1));
}
