use raytracer::antialias::{AntiAliaser, SubPixelShader, SubPixels};
use raytracer::pixmap::RaytracerPixmap;

/// Gray levels; samples come from a function of the sub-pixel position.
struct Gray<F: Fn(usize, usize) -> i64> {
    scene: F,
    calls: Vec<(usize, usize)>,
}

fn differ(threshold: i64) -> impl Fn(i64, i64) -> bool {
    move |a, b| (a - b).abs() > threshold
}

fn average(a: i64, b: i64, c: i64, d: i64) -> i64 {
    (a + b + c + d) / 4
}

impl<F: Fn(usize, usize) -> i64> SubPixelShader<i64> for Gray<F> {
    fn select_pixel(&mut self, _x: usize, _y: usize) {}

    fn sample(&mut self, sub_x: usize, sub_y: usize) -> i64 {
        self.calls.push((sub_x, sub_y));
        (self.scene)(sub_x, sub_y)
    }
}

#[test]
fn default_level_gives_nine_by_nine_grid() {
    let aa = AntiAliaser::new(None);
    assert_eq!(aa.level(), 3);
    assert_eq!(aa.size(), 9);
    assert_eq!(AntiAliaser::new(Some(0)).size(), 2);
    assert_eq!(AntiAliaser::new(Some(1)).size(), 3);
}

#[test]
fn sub_pixel_grid_get_set_clear() {
    let mut g: SubPixels<i64> = SubPixels::new(3);
    assert_eq!(g.get(2, 1), None);
    g.set(2, 1, 5);
    assert_eq!(g.get(2, 1), Some(5));
    assert_eq!(g.get(1, 2), None);
    g.clear();
    assert_eq!(g.get(2, 1), None);
}

#[test]
fn flat_region_costs_no_ray() {
    let aa = AntiAliaser::new(None);
    let source = RaytracerPixmap::new(3, 3, 40i64);
    let mut grid = aa.create_sub_pixel_buffer();
    let mut shader = Gray { scene: |_, _| 40, calls: vec![] };
    let mut rays = 0u64;
    let c = aa.get_anti_aliased_pixel(0, 0, &mut grid, &mut rays, &source, &mut shader, &differ(1), &average);
    assert_eq!(c, 40);
    assert_eq!(rays, 0);
    assert!(shader.calls.is_empty());
}

#[test]
fn edge_is_refined_and_each_sample_traced_once() {
    let aa = AntiAliaser::new(Some(1));
    // Left column dark, right column bright.
    let source = RaytracerPixmap::from_pixels(2, 2, vec![0i64, 100, 0, 100]).unwrap();
    let mut grid = aa.create_sub_pixel_buffer();
    let mut shader = Gray { scene: |x, _| if x == 0 { 0 } else { 100 }, calls: vec![] };
    let mut rays = 0u64;
    let c = aa.get_anti_aliased_pixel(0, 0, &mut grid, &mut rays, &source, &mut shader, &differ(10), &average);
    // The 3x3 grid has 9 points, 4 of them seeded.
    assert_eq!(rays, 5);
    assert_eq!(shader.calls.len(), 5);
    let mut calls = shader.calls.clone();
    calls.sort();
    calls.dedup();
    assert_eq!(calls.len(), 5);
    // Quadrants: (0,100,0,100)/4 = 50 twice on the left, 100 on the right.
    assert_eq!(c, (50 + 100 + 50 + 100) / 4);
}

#[test]
fn level_zero_never_subdivides() {
    let aa = AntiAliaser::new(Some(0));
    let source = RaytracerPixmap::from_pixels(2, 2, vec![0i64, 100, 0, 100]).unwrap();
    let mut grid = aa.create_sub_pixel_buffer();
    let mut shader = Gray { scene: |_, _| 0, calls: vec![] };
    let mut rays = 0u64;
    let c = aa.get_anti_aliased_pixel(0, 0, &mut grid, &mut rays, &source, &mut shader, &differ(10), &average);
    assert_eq!(c, 50);
    assert_eq!(rays, 0);
}

#[test]
fn line_copies_last_pixel() {
    let aa = AntiAliaser::new(Some(2));
    let source = RaytracerPixmap::from_pixels(3, 2, vec![10i64, 10, 77, 10, 10, 77]).unwrap();
    let mut grid = aa.create_sub_pixel_buffer();
    let mut shader = Gray { scene: |_, _| 0, calls: vec![] };
    let mut rays = 0u64;
    let line = aa.anti_alias_line_vec(0, &mut grid, &mut rays, &source, &mut shader, &differ(1000), &average);
    assert_eq!(line, vec![10, (10 + 77 + 10 + 77) / 4, 77]);
    assert_eq!(rays, 0);

    let mut dest = RaytracerPixmap::new(3, 2, -1i64);
    aa.anti_alias_line(0, &mut grid, &mut rays, &source, &mut dest, &mut shader, &differ(1000), &average);
    assert_eq!(dest.get_pixel_color(0, 0), 10);
    assert_eq!(dest.get_pixel_color(2, 0), 77);
    assert_eq!(dest.get_pixel_color(0, 1), -1);
}
