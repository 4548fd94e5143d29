use raytracer::pixmap::{EasyPixbuf, RaytracerPixmap};

#[test]
fn pixmap_new_fills() {
    let p = RaytracerPixmap::new(3, 2, 7u8);
    assert_eq!(p.get_width(), 3);
    assert_eq!(p.get_height(), 2);
    for y in 0..2 {
        for x in 0..3 {
            assert_eq!(p.get_pixel_color(x, y), 7);
        }
    }
}

#[test]
fn pixmap_set_is_row_major() {
    let mut p = RaytracerPixmap::new(3, 2, 0u32);
    p.set_pixel_color(2, 0, 5);
    p.set_pixel_color(0, 1, 9);
    assert_eq!(p.get_pixel_color(2, 0), 5);
    assert_eq!(p.get_pixel_color(0, 1), 9);
    assert_eq!(p.get_pixel_color(1, 0), 0);
    assert_eq!(p.get_pixel_color(2, 1), 0);
    p.fill_with_color(4);
    assert_eq!(p.get_pixel_color(2, 1), 4);
}

#[test]
fn pixmap_from_pixels() {
    let p = RaytracerPixmap::from_pixels(2, 2, vec![1, 2, 3, 4]).unwrap();
    assert_eq!(p.get_pixel_color(1, 0), 2);
    assert_eq!(p.get_pixel_color(0, 1), 3);
    assert!(RaytracerPixmap::from_pixels(2, 2, vec![1, 2, 3]).is_none());
    assert!(RaytracerPixmap::<u8>::from_pixels(0, 5, vec![]).is_some());
    assert!(RaytracerPixmap::<u8>::from_pixels(usize::MAX, 2, vec![]).is_none());
}

#[test]
fn easy_pixbuf_new_keeps_geometry() {
    let buf = EasyPixbuf::new(2, 2, 8, 4, vec![0u8; 16]);
    assert_eq!(buf.get_width(), 2);
    assert_eq!(buf.get_height(), 2);
}

#[test]
fn easy_pixbuf_pixel_slice_uses_stride() {
    // Two pixels per row, four channels, a row stride of ten bytes.
    let bytes: Vec<u8> = (0..20).collect();
    let buf = EasyPixbuf::new(2, 2, 10, 4, bytes);
    assert_eq!(buf.get_pixel_slice(0, 0), &[0, 1, 2, 3]);
    assert_eq!(buf.get_pixel_slice(1, 0), &[4, 5, 6, 7]);
    assert_eq!(buf.get_pixel_slice(1, 1), &[14, 15, 16, 17]);
}

#[test]
fn easy_pixbuf_pixel_slice_mut_writes_in_place() {
    let mut buf = EasyPixbuf::new(2, 2, 8, 4, vec![0u8; 16]);
    {
        let px = buf.get_pixel_slice_mut(1, 1);
        px[0] = 10;
        px[1] = 20;
        px[2] = 30;
    }
    assert_eq!(buf.get_pixel_slice(1, 1), &[10, 20, 30, 0]);
    let bytes = buf.into_pixels();
    assert_eq!(&bytes[12..16], &[10, 20, 30, 0]);
    assert!(bytes[..12].iter().all(|b| *b == 0));
}
