use raytracer::csg::{Operator, SurfaceSource};

const ALL: [Operator; 3] = [Operator::Union, Operator::Intersection, Operator::Difference];

#[test]
fn csg_inside_truth_table() {
    for a in [false, true] {
        for b in [false, true] {
            assert_eq!(Operator::Union.is_inside(a, b), a || b);
            assert_eq!(Operator::Intersection.is_inside(a, b), a && b);
            assert_eq!(Operator::Difference.is_inside(a, b), a && !b);
        }
    }
}

fn inside_cube(center: (f64, f64, f64), length: f64, p: (f64, f64, f64)) -> bool {
    let h = length / 2.0;
    (p.0 - center.0).abs() <= h && (p.1 - center.1).abs() <= h && (p.2 - center.2).abs() <= h
}

fn inside_sphere(center: (f64, f64, f64), radius: f64, p: (f64, f64, f64)) -> bool {
    let d = (p.0 - center.0).powi(2) + (p.1 - center.1).powi(2) + (p.2 - center.2).powi(2);
    d <= radius * radius
}

#[test]
fn csg_difference_carves_sphere_out_of_cube() {
    let c = (1.0, 2.0, 3.0);
    let carved = |p| Operator::Difference.is_inside(inside_cube(c, 10.0, p), inside_sphere(c, 4.0, p));
    // Inside the sphere: excluded although inside the cube.
    assert!(!carved(c));
    assert!(!carved((c.0 + 3.0, c.1, c.2)));
    assert!(!carved((c.0, c.1 - 2.0, c.2 + 2.0)));
    // In the cube, outside the sphere: included.
    assert!(carved((c.0 + 4.5, c.1, c.2)));
    assert!(carved((c.0 + 4.0, c.1 + 4.0, c.2 + 4.0)));
    // Outside the cube: excluded.
    assert!(!carved((c.0 + 6.0, c.1, c.2)));
}

#[test]
fn csg_hit_filters() {
    assert!(Operator::Union.keeps_a_hit(false));
    assert!(!Operator::Union.keeps_a_hit(true));
    assert!(Operator::Intersection.keeps_a_hit(true));
    assert!(!Operator::Intersection.keeps_a_hit(false));
    assert!(Operator::Difference.keeps_a_hit(false));
    assert!(!Operator::Difference.keeps_a_hit(true));
    assert!(Operator::Union.keeps_b_hit(false));
    assert!(Operator::Intersection.keeps_b_hit(true));
    // The back wall of the carved region: B hits inside A.
    assert!(Operator::Difference.keeps_b_hit(true));
    assert!(!Operator::Difference.keeps_b_hit(false));
}

#[test]
fn csg_kept_hits_positions() {
    let inside = vec![true, false, false, true, false];
    assert_eq!(Operator::Union.kept_hits(true, &inside), vec![1, 2, 4]);
    assert_eq!(Operator::Intersection.kept_hits(true, &inside), vec![0, 3]);
    assert_eq!(Operator::Difference.kept_hits(true, &inside), vec![1, 2, 4]);
    assert_eq!(Operator::Difference.kept_hits(false, &inside), vec![0, 3]);
    for op in ALL {
        assert_eq!(op.kept_hits(true, &vec![]), Vec::<usize>::new());
    }
}

#[test]
fn csg_on_surface() {
    // Union: on A's surface and outside B.
    assert!(Operator::Union.is_on_surface(true, true, false, false));
    assert!(!Operator::Union.is_on_surface(true, true, false, true));
    // Intersection: on B's surface and inside A.
    assert!(Operator::Intersection.is_on_surface(false, true, true, true));
    assert!(!Operator::Intersection.is_on_surface(false, false, true, true));
    // Difference: on B's surface inside A.
    assert!(Operator::Difference.is_on_surface(false, true, true, true));
    assert!(!Operator::Difference.is_on_surface(true, true, false, true));
}

#[test]
fn csg_surface_source() {
    for op in ALL {
        assert_eq!(op.surface_source(true, true), SurfaceSource::A);
        assert_eq!(op.surface_source(true, false), SurfaceSource::A);
        assert_eq!(op.surface_source(false, true), SurfaceSource::B);
        assert_eq!(op.surface_source(false, false), SurfaceSource::Neither);
    }
}
