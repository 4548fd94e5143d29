use raytracer::frame::{line_ranges, FrameContext, RenderedLine};

fn line(frame: usize, y: usize, pixels: Vec<u8>, size: (usize, usize)) -> RenderedLine<u8> {
    RenderedLine { frame, line: y, rendered_line: pixels, anti_aliased: true, size }
}

#[test]
fn frame_applies_current_lines() {
    let mut f = FrameContext::new(7, 3, 2, 0u8);
    assert_eq!(f.frame(), 7);
    assert!(f.apply_line(&line(7, 1, vec![1, 2, 3], (3, 2))));
    assert_eq!(f.pixmap().get_pixel_color(0, 1), 1);
    assert_eq!(f.pixmap().get_pixel_color(2, 1), 3);
    assert_eq!(f.pixmap().get_pixel_color(2, 0), 0);
    assert!(f.line_anti_aliased(1));
    assert!(!f.line_anti_aliased(0));
}

#[test]
fn frame_drops_stale_lines() {
    let mut f = FrameContext::new(7, 3, 2, 0u8);
    // Another frame.
    assert!(!f.apply_line(&line(6, 0, vec![9, 9, 9], (3, 2))));
    // A frame of another size.
    assert!(!f.apply_line(&line(7, 0, vec![9, 9, 9, 9], (4, 2))));
    // A line out of range, or of the wrong length.
    assert!(!f.apply_line(&line(7, 2, vec![9, 9, 9], (3, 2))));
    assert!(!f.apply_line(&line(7, 0, vec![9, 9], (3, 2))));
    for y in 0..2 {
        for x in 0..3 {
            assert_eq!(f.pixmap().get_pixel_color(x, y), 0);
        }
        assert!(!f.line_anti_aliased(y));
    }
}

#[test]
fn frame_line_anti_aliased_flag() {
    let mut f = FrameContext::new(0, 1, 3, 0u8);
    assert!(f.set_line_anti_aliased(2, true));
    assert!(!f.set_line_anti_aliased(2, true));
    assert!(f.line_anti_aliased(2));
    assert!(f.set_line_anti_aliased(2, false));
}

#[test]
fn line_ranges_cover_lines() {
    assert_eq!(line_ranges(10, 4), vec![(0, 4), (4, 8), (8, 10)]);
    assert_eq!(line_ranges(8, 4), vec![(0, 4), (4, 8)]);
    assert_eq!(line_ranges(3, 10), vec![(0, 3)]);
    assert_eq!(line_ranges(0, 5), Vec::<(usize, usize)>::new());
    assert_eq!(line_ranges(3, 1), vec![(0, 1), (1, 2), (2, 3)]);
}
