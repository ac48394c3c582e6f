use cgfs::canvas::{Canvas, Rgb8};

#[test]
fn packs_channels_as_rrggbb() {
    assert_eq!(Rgb8::new(255, 0, 0).to_u32(), 0x00ff_0000);
    assert_eq!(Rgb8::new(0, 255, 0).to_u32(), 0x0000_ff00);
    assert_eq!(Rgb8::new(0, 0, 255).to_u32(), 0x0000_00ff);
    assert_eq!(Rgb8::new(0x12, 0x34, 0x56).to_u32(), 0x0012_3456);
}

#[test]
fn full_saturation_never_wraps() {
    assert_eq!(Rgb8::new(255, 255, 255).to_u32(), 0x00ff_ffff);
}

#[test]
fn new_canvas_is_black() {
    let c = Canvas::new(4, 3);
    assert_eq!(c.width(), 4);
    assert_eq!(c.height(), 3);
    assert_eq!(c.buffer().len(), 12);
    assert!(c.buffer().iter().all(|&p| p == 0));
}

#[test]
fn empty_canvas() {
    let mut c = Canvas::new(0, 0);
    c.put_pixel(0, 0, &Rgb8::new(1, 2, 3));
    c.clear_canvas(&Rgb8::new(1, 2, 3));
    assert!(c.buffer().is_empty());
}

#[test]
fn clear_paints_every_pixel() {
    let mut c = Canvas::new(5, 2);
    c.clear_canvas(&Rgb8::new(255, 255, 255));
    assert_eq!(c.buffer().len(), 10);
    assert!(c.buffer().iter().all(|&p| p == 0x00ff_ffff));
}

#[test]
fn origin_is_centre_of_canvas() {
    let mut c = Canvas::new(4, 4);
    c.put_pixel(0, 0, &Rgb8::new(1, 2, 3));
    // column 4 / 2 + 0 = 2, row 4 / 2 - 0 - 1 = 1
    let mut expected = vec![0u32; 16];
    expected[2 + 4 * 1] = 0x0001_0203;
    assert_eq!(c.buffer(), &expected[..]);
}

#[test]
fn y_grows_upward() {
    let mut c = Canvas::new(4, 4);
    c.put_pixel(-2, 1, &Rgb8::new(0, 0, 9));
    c.put_pixel(1, -2, &Rgb8::new(0, 0, 7));
    assert_eq!(c.buffer()[0], 9);
    assert_eq!(c.buffer()[3 + 4 * 3], 7);
    assert_eq!(c.buffer().iter().filter(|&&p| p != 0).count(), 2);
}

#[test]
fn off_surface_points_are_ignored() {
    let mut c = Canvas::new(4, 4);
    let red = Rgb8::new(255, 0, 0);
    c.put_pixel(2, 0, &red);
    c.put_pixel(-3, 0, &red);
    c.put_pixel(0, 2, &red);
    c.put_pixel(0, -3, &red);
    c.put_pixel(i32::MAX, i32::MIN, &red);
    c.put_pixel(i32::MIN, i32::MAX, &red);
    assert!(c.buffer().iter().all(|&p| p == 0));
}

#[test]
fn odd_sized_canvas_corners() {
    let mut c = Canvas::new(3, 3);
    let w = Rgb8::new(0, 0, 1);
    // on a 3 by 3 canvas the rows hold y = 0, -1, -2 from the top
    c.put_pixel(-1, 0, &w);
    c.put_pixel(0, -1, &w);
    c.put_pixel(1, -2, &w);
    c.put_pixel(0, 1, &w);
    assert_eq!(c.buffer(), &[1, 0, 0, 0, 1, 0, 0, 0, 1][..]);
}

#[test]
fn tiny_red_h() {
    let mut c = Canvas::new(600, 600);
    let red = Rgb8::new(255, 0, 0);
    let points = [(-1, 1), (-1, 0), (-1, -1), (0, 0), (1, 1), (1, 0), (1, -1)];
    for &(x, y) in points.iter() {
        c.put_pixel(x, y, &red);
    }
    assert_eq!(c.buffer().iter().filter(|&&p| p == 0x00ff_0000).count(), 7);
    let at = |x: i32, y: i32| c.buffer()[(300 + x + 600 * (300 - y - 1)) as usize];
    for &(x, y) in points.iter() {
        assert_eq!(at(x, y), 0x00ff_0000);
    }
    assert_eq!(at(0, 1), 0);
    assert_eq!(at(0, -1), 0);
}

#[test]
fn render_asks_once_per_pixel_with_centred_coordinates() {
    let mut c = Canvas::new(4, 2);
    let calls = std::cell::RefCell::new(Vec::new());
    c.render(|x, y| {
        calls.borrow_mut().push((x, y));
        Rgb8::new((x + 10) as u8, (y + 10) as u8, 0)
    });
    let calls = calls.into_inner();
    assert_eq!(calls.len(), 8);
    let mut sorted = calls.clone();
    sorted.sort();
    sorted.dedup();
    assert_eq!(sorted.len(), 8);
    // top-left pixel is (-2, 0), bottom-right is (1, -1)
    assert_eq!(c.buffer()[0], Rgb8::new(8, 10, 0).to_u32());
    assert_eq!(c.buffer()[7], Rgb8::new(11, 9, 0).to_u32());
}

#[test]
fn render_agrees_with_put_pixel() {
    let shade = |x: i32, y: i32| Rgb8::new((x + 3) as u8, (y + 3) as u8, 42);
    let mut a = Canvas::new(5, 3);
    a.render(shade);
    let mut b = Canvas::new(5, 3);
    for x in -2..3 {
        for y in -2..2 {
            b.put_pixel(x, y, &shade(x, y));
        }
    }
    assert_eq!(a.buffer(), b.buffer());
    assert!(a.buffer().iter().all(|&p| p & 0xff == 42));
}
