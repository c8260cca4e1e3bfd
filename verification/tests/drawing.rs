use macroquad::color::Color;
use macroquad::texture::Image;

use tinyraycaster::screen::{draw_image, draw_pixel, draw_rect, image_is_well_formed, ppm_text};

fn image(w: u16, h: u16, px: [u8; 4]) -> Image {
    let mut bytes = Vec::new();
    for _ in 0..(w as usize * h as usize) {
        bytes.extend_from_slice(&px);
    }
    Image { bytes, width: w, height: h }
}

fn pixel(img: &Image, x: usize, y: usize) -> [u8; 4] {
    let i = 4 * (y * img.width as usize + x);
    [img.bytes[i], img.bytes[i + 1], img.bytes[i + 2], img.bytes[i + 3]]
}

const WHITE: [u8; 4] = [255, 255, 255, 255];
const RED: [u8; 4] = [255, 0, 0, 255];

#[test]
fn pixel_inside_and_outside() {
    let mut img = image(3, 2, WHITE);
    draw_pixel(&mut img, 2, 1, RED);
    assert_eq!(pixel(&img, 2, 1), RED);
    assert_eq!(pixel(&img, 1, 1), WHITE);
    let before = img.bytes.clone();
    draw_pixel(&mut img, 3, 0, RED);
    draw_pixel(&mut img, 0, 2, RED);
    assert_eq!(img.bytes, before);
}

#[test]
fn pixel_bytes_survive_color_round_trip() {
    let mut img = image(1, 1, WHITE);
    for v in 0..=255u8 {
        draw_pixel(&mut img, 0, 0, [v, 255 - v, v / 3, 128]);
        assert_eq!(pixel(&img, 0, 0), [v, 255 - v, v / 3, 128]);
    }
    let c: [u8; 4] = Color::from_rgba(12, 34, 56, 78).into();
    assert_eq!(c, [12, 34, 56, 78]);
}

#[test]
fn rect_is_clipped() {
    let mut img = image(4, 3, WHITE);
    draw_rect(&mut img, 2, 1, 5, 5, RED);
    for y in 0..3 {
        for x in 0..4 {
            let inside = x >= 2 && y >= 1;
            assert_eq!(pixel(&img, x, y), if inside { RED } else { WHITE });
        }
    }
    let mut img2 = image(2, 2, WHITE);
    draw_rect(&mut img2, 0, 0, 0, 2, RED);
    assert_eq!(img2.bytes, image(2, 2, WHITE).bytes);
}

#[test]
fn image_copied_at_offset() {
    let mut buf = image(3, 3, WHITE);
    let mut src = image(2, 2, [1, 2, 3, 4]);
    draw_pixel(&mut src, 1, 0, [9, 9, 9, 9]);
    draw_image(&mut buf, 2, 1, &src);
    assert_eq!(pixel(&buf, 2, 1), [1, 2, 3, 4]);
    assert_eq!(pixel(&buf, 2, 2), [1, 2, 3, 4]);
    assert_eq!(pixel(&buf, 1, 1), WHITE);
    assert_eq!(pixel(&buf, 0, 0), WHITE);
    draw_image(&mut buf, 0, 0, &src);
    assert_eq!(pixel(&buf, 1, 0), [9, 9, 9, 9]);
    assert_eq!(pixel(&buf, 0, 1), [1, 2, 3, 4]);
}

#[test]
fn ppm_of_small_image() {
    let mut img = image(2, 2, [0, 0, 0, 255]);
    draw_pixel(&mut img, 1, 0, [255, 10, 7, 0]);
    let text = String::from_utf8(ppm_text(&img)).unwrap();
    assert_eq!(text, "P3\n2 2\n255\n0 0 0\n255 10 7 0 0 0\n0 0 0 ");
    let empty = image(0, 0, WHITE);
    assert_eq!(String::from_utf8(ppm_text(&empty)).unwrap(), "P3\n0 0\n255\n");
}

#[test]
fn untouched_image_needs_no_pixel_data() {
    let mut img = Image { bytes: Vec::new(), width: 2, height: 2 };
    draw_pixel(&mut img, 2, 0, RED);
    draw_rect(&mut img, 0, 5, 3, 3, RED);
    draw_rect(&mut img, 0, 0, 0, 3, RED);
    let src = image(1, 1, RED);
    draw_image(&mut img, 3, 0, &src);
    assert!(img.bytes.is_empty());
}

#[test]
fn well_formed_images() {
    assert!(image_is_well_formed(&image(3, 2, WHITE)));
    assert!(image_is_well_formed(&image(0, 5, WHITE)));
    assert!(!image_is_well_formed(&Image { bytes: vec![0; 8], width: 1, height: 1 }));
    assert!(!image_is_well_formed(&Image { bytes: Vec::new(), width: 2, height: 2 }));
}
