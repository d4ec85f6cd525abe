use engine::primitive::{triangulate_polygon, Winding};
use engine::primitive::{
    circle_indices, cube_indices, cube_vertex_corners, fan_triangulate, line_indices,
    rectangle_indices, sphere_indices, triangle_indices,
};

#[test]
fn triangle_and_rectangle_indices() {
    assert_eq!(triangle_indices(), vec![0, 1, 2]);
    assert_eq!(rectangle_indices(), vec![0, 1, 2, 2, 3, 0]);
    assert_eq!(line_indices(), vec![0, 1]);
}

#[test]
fn cube_has_two_triangles_per_face() {
    let indices = cube_indices();
    assert_eq!(indices.len(), 36);
    assert_eq!(&indices[0..6], &[0, 1, 2, 2, 3, 0]);
    assert_eq!(&indices[30..36], &[20, 21, 22, 22, 23, 20]);
    let corners = cube_vertex_corners();
    assert_eq!(corners.len(), 24);
    assert_eq!(&corners[4..8], &[4, 7, 6, 5]);
    assert_eq!(&corners[20..24], &[0, 3, 7, 4]);
}

#[test]
fn circle_indices_fan_around_the_centre() {
    assert_eq!(circle_indices(8).len(), 24);
    assert_eq!(circle_indices(1), vec![0, 1, 2, 0, 2, 3, 0, 3, 1]);
    assert_eq!(circle_indices(4), vec![0, 1, 2, 0, 2, 3, 0, 3, 4, 0, 4, 1]);
}

#[test]
fn fan_triangulate_covers_polygon() {
    assert_eq!(fan_triangulate(5), vec![0, 1, 2, 0, 2, 3, 0, 3, 4]);
    assert_eq!(fan_triangulate(3), vec![0, 1, 2]);
    assert!(fan_triangulate(2).is_empty());
}

#[test]
fn sphere_indices_cover_the_grid() {
    let indices = sphere_indices(2, 3);
    assert_eq!(indices.len(), 36);
    assert_eq!(&indices[0..6], &[0, 4, 1, 1, 4, 5]);
    assert_eq!(&indices[30..36], &[6, 10, 7, 7, 10, 11]);
    assert_eq!(sphere_indices(0, 0).len(), 36);
    assert_eq!(sphere_indices(32, 32).len(), 6 * 32 * 32);
}

#[test]
fn triangulate_polygon_clips_ears_along_the_outline() {
    let all_ears = |_: usize, _: usize, _: usize, _: &[usize]| true;
    assert_eq!(
        triangulate_polygon(5, Winding::CounterClockwise, all_ears),
        vec![4, 0, 1, 4, 1, 2, 2, 3, 4]
    );
    assert_eq!(
        triangulate_polygon(5, Winding::Clockwise, all_ears),
        vec![0, 4, 3, 0, 3, 2, 2, 1, 0]
    );
    assert_eq!(triangulate_polygon(3, Winding::CounterClockwise, all_ears), vec![0, 1, 2]);
}

#[test]
fn triangulate_polygon_falls_back_to_a_fan_and_skips_degenerate_outlines() {
    let no_ears = |_: usize, _: usize, _: usize, _: &[usize]| false;
    assert_eq!(
        triangulate_polygon(5, Winding::CounterClockwise, no_ears),
        vec![0, 1, 2, 0, 2, 3, 0, 3, 4]
    );
    assert!(triangulate_polygon(5, Winding::Degenerate, no_ears).is_empty());
    let only_corner_two = |_: usize, corner: usize, _: usize, _: &[usize]| corner == 2;
    assert_eq!(
        triangulate_polygon(4, Winding::CounterClockwise, only_corner_two),
        vec![1, 2, 3, 0, 1, 3]
    );
}

fn cross_yz(a: (f32, f32), b: (f32, f32), c: (f32, f32)) -> f32 {
    (b.0 - a.0) * (c.1 - a.1) - (b.1 - a.1) * (c.0 - a.0)
}

#[test]
fn triangulate_polygon_clips_a_clockwise_outline_with_a_reflex_corner() {
    let points: [(f32, f32); 5] = [(-0.7, 0.7), (-0.4, 0.5), (0.7, 0.5), (0.0, -0.6), (-0.5, -0.4)];
    let is_ear = |prev: usize, curr: usize, next: usize, outline: &[usize]| {
        let (a, b, c) = (points[prev], points[curr], points[next]);
        if cross_yz(a, b, c) <= f32::EPSILON {
            return false;
        }
        outline.iter().filter(|i| **i != prev && **i != curr && **i != next).all(|i| {
            let p = points[*i];
            !(cross_yz(a, b, p) >= -f32::EPSILON
                && cross_yz(b, c, p) >= -f32::EPSILON
                && cross_yz(c, a, p) >= -f32::EPSILON)
        })
    };
    assert_eq!(
        triangulate_polygon(5, Winding::Clockwise, is_ear),
        vec![0, 4, 3, 3, 2, 1, 3, 1, 0]
    );
}

#[test]
fn polygon_of_fewer_than_three_points_has_no_triangle() {
    let never = |_: usize, _: usize, _: usize, _: &[usize]| -> bool { panic!("no corner to test") };
    assert!(triangulate_polygon(0, Winding::Degenerate, never).is_empty());
    assert!(triangulate_polygon(2, Winding::CounterClockwise, never).is_empty());
    assert!(triangulate_polygon(2, Winding::Clockwise, never).is_empty());
}
