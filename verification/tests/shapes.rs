use scene_mesh::chair::Chair;
use scene_mesh::desk::Desk;
use scene_mesh::extrusion::Extrusion;
use scene_mesh::matrix::{vec3, Vec3};
use scene_mesh::render::{prisms, rectangular_prism, star, Cuboid, Facet, StarPoint};
use scene_mesh::revolution::{revolution_slice, Revolution};
use scene_mesh::room::Room;

fn count<S>(facets: &[Facet<S>]) -> usize {
    facets.iter().map(|f| f.corners.len()).sum()
}

fn raised(points: &[Vec3<i32>], by: i32) -> Vec<Vec3<i32>> {
    points.iter().map(|p| vec3(p.x, p.y + by, p.z)).collect()
}

fn corner_line(n: i32) -> Vec<Vec3<i32>> {
    (0..n).map(|i| vec3(i, 0, i * i)).collect()
}

#[test]
fn extrusion_new_is_not_yet_in_a_buffer() {
    let e = Extrusion::new(corner_line(3), vec3(0, 1, 0), vec3(5, 8, 5));
    assert_eq!(e.points, corner_line(3));
    assert_eq!(e.extrusion, vec3(0, 1, 0));
    assert_eq!(e.translate, vec3(5, 8, 5));
    assert_eq!(e.vert_start, 0);
    assert_eq!(e.num_verts, 0);
}

#[test]
fn extrusion_of_a_star_of_five_points() {
    let outline = star(5);
    assert_eq!(outline.len(), 18);
    let base: Vec<Vec3<f32>> = outline
        .iter()
        .map(|point| {
            let theta = std::f32::consts::PI / 5.0;
            match *point {
                StarPoint::Inner(i) => {
                    let a = f32::from(i) * theta * 2.0;
                    vec3(0.3 * a.cos(), 0.0, 0.3 * a.sin())
                }
                StarPoint::Outer(i) => {
                    let a = f32::from(i) * theta * 2.0 + 1.0;
                    vec3(1.0 * a.cos(), 0.0, 1.0 * a.sin())
                }
                StarPoint::Center => vec3(0.0, 0.0, 0.0),
            }
        })
        .collect();
    let top: Vec<Vec3<f32>> = base.iter().map(|p| vec3(p.x, p.y + 0.5, p.z)).collect();
    let mut e = Extrusion::new(base.clone(), vec3(0.0, 0.5, 0.0), vec3(5.0, 8.0, 5.0));
    let facets = e.buffer_data(0, &top);
    let n = base.len();
    assert_eq!(count(&facets), 2 * 3 * (n - 2) + 6 * n);
    assert_eq!(count(&facets), 204);
    assert_eq!(e.num_verts, 204);
    assert_eq!(facets.len(), 16 + 18 + 16);
}

#[test]
fn extrusion_vertex_count_follows_the_number_of_points() {
    for n in 2..30 {
        let base = corner_line(n);
        let top = raised(&base, 1);
        let mut e = Extrusion::new(base, vec3(0, 1, 0), vec3(0, 0, 0));
        let facets = e.buffer_data(8 * n, &top);
        let n = n as usize;
        assert_eq!(count(&facets), 2 * 3 * (n - 2) + 6 * n);
        assert_eq!(e.num_verts as usize, count(&facets));
        assert_eq!(e.vert_start as usize, 8 * n);
    }
}

#[test]
fn extrusion_is_bottom_sides_top() {
    let base = corner_line(4);
    let top = raised(&base, 10);
    let mut e = Extrusion::new(base.clone(), vec3(0, 10, 0), vec3(0, 0, 0));
    let facets = e.buffer_data(0, &top);
    assert_eq!(facets.len(), 2 + 4 + 2);
    // bottom
    assert_eq!(facets[0].corners, vec![base[0], base[1], base[2]]);
    assert_eq!(facets[1].corners, vec![base[1], base[2], base[3]]);
    // sides: a ring, one on each edge, the last from the last point to the first
    for (i, next) in [(0, 1), (1, 2), (2, 3), (3, 0)] {
        assert_eq!(facets[2 + i].outline, vec![top[i], base[i], base[next], top[next]]);
        assert_eq!(
            facets[2 + i].corners,
            vec![top[i], base[i], base[next], base[next], top[next], top[i]]
        );
    }
    // top
    assert_eq!(facets[6].corners, vec![top[0], top[1], top[2]]);
    assert_eq!(facets[7].corners, vec![top[1], top[2], top[3]]);
    // the polygon itself stays
    assert_eq!(e.points, base);
}

#[test]
fn extrusion_of_two_points_has_two_sides_and_no_caps() {
    let base = corner_line(2);
    let top = raised(&base, 1);
    let mut e = Extrusion::new(base.clone(), vec3(0, 1, 0), vec3(0, 0, 0));
    let facets = e.buffer_data(0, &top);
    assert_eq!(facets.len(), 2);
    assert_eq!(facets[0].outline, vec![top[0], base[0], base[1], top[1]]);
    assert_eq!(facets[1].outline, vec![top[1], base[1], base[0], top[0]]);
    assert_eq!(e.num_verts, 12);
}

#[test]
fn extrusion_of_fewer_than_two_points_is_empty() {
    for n in 0..2 {
        let base = corner_line(n);
        let top = raised(&base, 1);
        let mut e = Extrusion::new(base, vec3(0, 1, 0), vec3(0, 0, 0));
        assert!(e.buffer_data(16, &top).is_empty());
        assert_eq!(e.num_verts, 0);
        assert_eq!(e.vert_start, 16);
    }
}

#[test]
fn revolution_new_is_not_yet_in_a_buffer() {
    let r = Revolution::new(corner_line(2), 200, vec3(1, 2, 3));
    assert_eq!(r.path, corner_line(2));
    assert_eq!(r.resolution, 200);
    assert_eq!(r.translate, vec3(1, 2, 3));
    assert_eq!(r.vert_start, 0);
    assert_eq!(r.num_verts, 0);
}

#[test]
fn revolution_slice_is_triangle_quads_triangle() {
    let path = vec![vec3(1, 10, 0), vec3(2, 20, 0), vec3(3, 30, 0)];
    let rotated = vec![vec3(0, 10, 1), vec3(0, 20, 2), vec3(0, 30, 3)];
    let facets = revolution_slice(&path, &rotated, 0);
    assert_eq!(facets.len(), 4);
    assert_eq!(facets[0].corners, vec![path[0], rotated[0], vec3(0, 10, 0)]);
    assert_eq!(facets[1].outline, vec![path[0], rotated[0], rotated[1], path[1]]);
    assert_eq!(facets[2].outline, vec![path[1], rotated[1], rotated[2], path[2]]);
    assert_eq!(facets[3].corners, vec![path[2], rotated[2], vec3(0, 30, 0)]);
    assert_eq!(count(&facets), 6 * 3);
}

#[test]
fn revolution_slice_of_one_point_is_two_triangles() {
    let facets = revolution_slice(&[vec3(1, 5, 0)], &[vec3(0, 5, 1)], 0);
    assert_eq!(facets.len(), 2);
    assert_eq!(facets[0].corners, vec![vec3(1, 5, 0), vec3(0, 5, 1), vec3(0, 5, 0)]);
    assert_eq!(facets[1].corners, facets[0].corners);
}

#[test]
fn revolution_joins_each_step_to_the_one_before() {
    let path = vec![vec3(1, 0, 0), vec3(2, 1, 0)];
    let rotated = vec![
        vec![vec3(0, 0, 1), vec3(0, 1, 2)],
        vec![vec3(-1, 0, 0), vec3(-2, 1, 0)],
        vec![vec3(0, 0, -1), vec3(0, 1, -2)],
        vec![vec3(1, 0, 0), vec3(2, 1, 0)],
    ];
    let mut r = Revolution::new(path.clone(), 4, vec3(0, 0, 0));
    let facets = r.buffer_data(80, &rotated);
    assert_eq!(facets.len(), 4 * 3);
    assert_eq!(count(&facets), 6 * 2 * 4);
    assert_eq!(r.num_verts, 48);
    assert_eq!(r.vert_start, 80);
    assert_eq!(facets[1].outline, vec![path[0], rotated[0][0], rotated[0][1], path[1]]);
    for s in 1..4 {
        assert_eq!(
            facets[3 * s + 1].outline,
            vec![rotated[s - 1][0], rotated[s][0], rotated[s][1], rotated[s - 1][1]]
        );
        assert_eq!(facets[3 * s].corners, vec![rotated[s - 1][0], rotated[s][0], vec3(0, 0, 0)]);
        assert_eq!(
            facets[3 * s + 2].corners,
            vec![rotated[s - 1][1], rotated[s][1], vec3(0, 1, 0)]
        );
    }
}

#[test]
fn revolution_without_steps_is_empty() {
    let mut r = Revolution::new(Vec::<Vec3<i32>>::new(), 0, vec3(0, 0, 0));
    assert!(r.buffer_data(8, &Vec::new()).is_empty());
    assert_eq!(r.num_verts, 0);
    assert_eq!(r.vert_start, 8);
}

#[test]
fn room_new_is_not_yet_in_a_buffer() {
    let r = Room::new(10.0_f32, 9.0, 8.0);
    assert_eq!((r.room_width, r.room_height, r.room_depth), (10.0, 9.0, 8.0));
    assert_eq!((r.vert_start, r.num_verts), (0, 0));
}

#[test]
fn room_is_two_walls_and_a_floor() {
    let mut room = Room::new(7, 5, 3);
    let facets = room.buffer_data(24);
    let ltl = vec3(0, 5, 7);
    let lbr = vec3(0, 0, 7);
    let mb = vec3(0, 0, 0);
    let mt = vec3(0, 5, 0);
    let rbr = vec3(3, 0, 0);
    let rtr = vec3(3, 5, 0);
    let mf = vec3(3, 0, 7);
    let outlines: Vec<Vec<Vec3<i32>>> = facets.iter().map(|f| f.outline.clone()).collect();
    assert_eq!(
        outlines,
        vec![vec![ltl, lbr, mb, mt], vec![mt, mb, rbr, rtr], vec![mb, lbr, mf, rbr]]
    );
    assert_eq!(count(&facets), 18);
    assert_eq!(room.num_verts, 18);
    assert_eq!(room.vert_start, 24);
    assert_eq!((room.room_width, room.room_height, room.room_depth), (7, 5, 3));
}

fn cuboid(n: i32) -> Cuboid<i32> {
    Cuboid { left: -n, right: n, bottom: -2 * n, top: 2 * n, front: -3 * n, back: 3 * n }
}

fn outlines(facets: &[Facet<i32>]) -> Vec<Vec<Vec3<i32>>> {
    facets.iter().map(|f| f.outline.clone()).collect()
}

#[test]
fn prisms_are_the_boxes_one_after_the_other() {
    let facets = prisms(&[cuboid(1), cuboid(5)]);
    assert_eq!(facets.len(), 12);
    assert_eq!(count(&facets), 72);
    assert_eq!(outlines(&facets[..6]), outlines(&rectangular_prism(-1, 1, -2, 2, -3, 3)));
    assert_eq!(outlines(&facets[6..]), outlines(&rectangular_prism(-5, 5, -10, 10, -15, 15)));
    assert!(prisms::<i32>(&[]).is_empty());
}

#[test]
fn chair_new_is_not_yet_in_a_buffer() {
    let c = Chair::new(1.0_f32, 2.0, 3.0, 4.0, 5.0, 6.0, vec3(7.0, 8.0, 9.0));
    assert_eq!((c.top_width, c.top_height, c.top_depth), (1.0, 2.0, 3.0));
    assert_eq!((c.leg_width, c.leg_height, c.leg_depth), (4.0, 5.0, 6.0));
    assert_eq!(c.translate, vec3(7.0, 8.0, 9.0));
    assert_eq!((c.vert_start, c.num_verts), (0, 0));
}

#[test]
fn chair_is_a_seat_and_four_legs() {
    let mut c = Chair::new(1, 1, 1, 1, 1, 1, vec3(0, 0, 0));
    let parts = [cuboid(9), cuboid(1), cuboid(2), cuboid(3), cuboid(4)];
    let facets = c.buffer_data(40, &parts);
    assert_eq!(facets.len(), 30);
    assert_eq!(count(&facets), 180);
    assert_eq!((c.vert_start, c.num_verts), (40, 180));
    for (i, part) in parts.iter().enumerate() {
        assert_eq!(
            outlines(&facets[6 * i..6 * i + 6]),
            outlines(&rectangular_prism(
                part.left,
                part.right,
                part.bottom,
                part.top,
                part.front,
                part.back
            ))
        );
    }
}

#[test]
fn desk_new_is_not_yet_in_a_buffer() {
    let d = Desk::new(4.0_f32, 4.0, 0.2, 0.2, 0.2, 3.0, vec3(5.0, 0.0, 5.0));
    assert_eq!((d.top_width, d.top_height, d.top_depth), (4.0, 4.0, 0.2));
    assert_eq!((d.leg_width, d.leg_height, d.leg_depth), (0.2, 0.2, 3.0));
    assert_eq!(d.translate, vec3(5.0, 0.0, 5.0));
    assert_eq!((d.vert_start, d.num_verts), (0, 0));
}

#[test]
fn desk_is_a_top_and_four_legs() {
    let mut d = Desk::new(1, 1, 1, 1, 1, 1, vec3(0, 0, 0));
    let parts = [cuboid(9), cuboid(1), cuboid(1), cuboid(1), cuboid(1)];
    let facets = d.buffer_data(0, &parts);
    assert_eq!(facets.len(), 30);
    assert_eq!(count(&facets), 180);
    assert_eq!((d.vert_start, d.num_verts), (0, 180));
    assert_eq!(outlines(&facets[..6]), outlines(&rectangular_prism(-9, 9, -18, 18, -27, 27)));
    assert_eq!(outlines(&facets[24..]), outlines(&rectangular_prism(-1, 1, -2, 2, -3, 3)));
}

#[test]
fn extrusion_sides_close_the_ring() {
    for n in 2..12 {
        let base = corner_line(n);
        let top = raised(&base, 3);
        let mut e = Extrusion::new(base.clone(), vec3(0, 3, 0), vec3(0, 0, 0));
        let facets = e.buffer_data(0, &top);
        let n = n as usize;
        let caps = n.saturating_sub(2);
        let sides = &facets[caps..caps + n];
        for (i, side) in sides.iter().enumerate() {
            let next = (i + 1) % n;
            assert_eq!(side.outline, vec![top[i], base[i], base[next], top[next]]);
        }
        // every point starts one side and ends one side
        for i in 0..n {
            assert_eq!(sides.iter().filter(|s| s.outline[1] == base[i]).count(), 1);
            assert_eq!(sides.iter().filter(|s| s.outline[2] == base[i]).count(), 1);
        }
    }
}
