use raytracer::pixel::Rgba;
use raytracer::texture::{checkerboard, dummy_texture, wrap_index, Texture};

fn px(r: u8, g: u8, b: u8) -> Rgba {
    Rgba { r, g, b, a: 255 }
}

#[test]
fn dummy_texture_is_empty() {
    let t = dummy_texture();
    assert_eq!(t.width(), 0);
    assert_eq!(t.height(), 0);
}

#[test]
fn new_accepts_matching_buffer() {
    let pixels = vec![px(1, 0, 0), px(2, 0, 0), px(3, 0, 0), px(4, 0, 0)];
    let t = Texture::new(2, 2, pixels).unwrap();
    assert_eq!(t.width(), 2);
    assert_eq!(t.height(), 2);
    assert_eq!(t.get_pixel(0, 0), px(1, 0, 0));
    assert_eq!(t.get_pixel(1, 0), px(2, 0, 0));
    assert_eq!(t.get_pixel(0, 1), px(3, 0, 0));
    assert_eq!(t.get_pixel(1, 1), px(4, 0, 0));
}

#[test]
fn new_rejects_short_buffer() {
    let pixels = vec![px(1, 0, 0), px(2, 0, 0), px(3, 0, 0)];
    assert!(Texture::new(2, 2, pixels).is_none());
}

#[test]
fn new_rejects_long_buffer() {
    let pixels = vec![px(1, 0, 0), px(2, 0, 0), px(3, 0, 0)];
    assert!(Texture::new(1, 2, pixels).is_none());
}

#[test]
fn get_pixel_is_row_major() {
    let mut pixels = Vec::new();
    for i in 0..6u8 {
        pixels.push(px(i, 0, 0));
    }
    let t = Texture::new(3, 2, pixels).unwrap();
    assert_eq!(t.get_pixel(2, 1), px(5, 0, 0));
    assert_eq!(t.get_pixel(0, 1), px(3, 0, 0));
    assert_eq!(t.get_pixel(2, 0), px(2, 0, 0));
}

#[test]
fn wrap_index_in_range_is_identity() {
    assert_eq!(wrap_index(0, 4), 0);
    assert_eq!(wrap_index(3, 4), 3);
    assert_eq!(wrap_index(0, 1), 0);
}

#[test]
fn wrap_index_tiles_forward() {
    assert_eq!(wrap_index(4, 4), 0);
    assert_eq!(wrap_index(5, 4), 1);
    assert_eq!(wrap_index(7, 1), 0);
}

#[test]
fn wrap_index_tiles_backward() {
    assert_eq!(wrap_index(-1, 4), 3);
    assert_eq!(wrap_index(-4, 4), 0);
    assert_eq!(wrap_index(-5, 4), 3);
    assert_eq!(wrap_index(-9, 4), 3);
}

#[test]
fn wrap_index_extreme_inputs() {
    assert_eq!(wrap_index(i32::MIN, 3), 1);
    assert_eq!(wrap_index(i32::MAX, i32::MAX as u32), 0);
    assert_eq!(wrap_index(i32::MIN, i32::MAX as u32), i32::MAX as u32 - 1);
}

#[test]
fn checkerboard_single_pixel_cells_alternate() {
    let even = px(250, 250, 250);
    let odd = px(5, 5, 5);
    let t = checkerboard(1, 3, 2, even, odd).unwrap();
    assert_eq!(t.width(), 3);
    assert_eq!(t.height(), 2);
    for y in 0..2 {
        for x in 0..3 {
            let want = if (x + y) % 2 == 0 { even } else { odd };
            assert_eq!(t.get_pixel(x, y), want);
        }
    }
}

#[test]
fn checkerboard_wide_cells() {
    let even = px(200, 200, 200);
    let odd = px(20, 20, 20);
    let t = checkerboard(2, 4, 4, even, odd).unwrap();
    for y in 0..4 {
        for x in 0..4 {
            let want = if (x / 2 + y / 2) % 2 == 0 { even } else { odd };
            assert_eq!(t.get_pixel(x, y), want);
        }
    }
    assert_eq!(t.get_pixel(0, 0), even);
    assert_eq!(t.get_pixel(2, 0), odd);
    assert_eq!(t.get_pixel(0, 2), odd);
    assert_eq!(t.get_pixel(2, 2), even);
}

#[test]
fn checkerboard_rejects_unaddressable_size() {
    let c = px(0, 0, 0);
    assert!(checkerboard(1, u32::MAX, u32::MAX, c, c).is_none());
}

#[test]
fn wrap_index_is_periodic() {
    for c in [-7i32, -1, 0, 1, 6] {
        assert_eq!(wrap_index(c, 5), wrap_index(c + 5, 5));
    }
}
