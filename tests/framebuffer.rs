use tinyraytracer::color::Rgba8;
use tinyraytracer::framebuffer::{Background, RgbaBuffer};
use tinyraytracer::ieee32::Ieee32;

fn v(x: f32) -> Ieee32 {
    Ieee32::from_bits(x.to_bits())
}

fn gradient(width: u32, height: u32) -> Vec<u8> {
    let mut s = Vec::new();
    for y in 0..height {
        for x in 0..width {
            s.extend_from_slice(&[x as u8, y as u8, (x + y) as u8, 255]);
        }
    }
    s
}

#[test]
fn filled_buffer_has_its_size_and_color() {
    let c = Rgba8::new(0, 0, 0, 255);
    let b = RgbaBuffer::filled(3, 2, c).unwrap();
    assert_eq!(b.width(), 3);
    assert_eq!(b.height(), 2);
    assert_eq!(b.pixel(2, 1), Some(c));
    assert_eq!(b.pixel(3, 0), None);
    assert_eq!(b.pixel(0, 2), None);
    assert_eq!(b.samples(), [0, 0, 0, 255].repeat(6));
}

#[test]
fn samples_round_trip_through_a_buffer() {
    let s = gradient(4, 3);
    let b = RgbaBuffer::from_samples(4, 3, s.clone()).unwrap();
    assert_eq!(b.width(), 4);
    assert_eq!(b.height(), 3);
    assert_eq!(b.pixel(3, 2), Some(Rgba8::new(3, 2, 5, 255)));
    assert_eq!(b.pixel(1, 0), Some(Rgba8::new(1, 0, 1, 255)));
    assert_eq!(b.samples(), s);
}

#[test]
fn samples_of_the_wrong_length_are_refused() {
    assert!(RgbaBuffer::from_samples(4, 3, vec![0; 47]).is_none());
    assert!(RgbaBuffer::from_samples(4, 3, vec![0; 49]).is_none());
    assert!(RgbaBuffer::from_samples(0, 3, Vec::new()).is_some());
}

#[test]
fn write_frame_fills_pixels_row_major() {
    let mut b = RgbaBuffer::filled(3, 2, Rgba8::new(0, 0, 0, 255)).unwrap();
    let colors: Vec<Rgba8> = (0..6u8).map(|i| Rgba8::new(i, 10 * i, 20 * i, 255)).collect();
    b.write_frame(&colors);
    assert_eq!(b.pixel(0, 0), Some(colors[0]));
    assert_eq!(b.pixel(2, 0), Some(colors[2]));
    assert_eq!(b.pixel(0, 1), Some(colors[3]));
    assert_eq!(b.pixel(2, 1), Some(colors[5]));
    assert_eq!(b.width(), 3);
    assert_eq!(b.height(), 2);
}

#[test]
fn flat_background_ignores_direction() {
    let c = Rgba8::new(50, 180, 200, 255);
    let bg = Background::Flat(c);
    assert_eq!(bg.sample(v(0.0), v(0.0)), c);
    assert_eq!(bg.sample(v(1.0e6), v(-3.0)), c);
}

#[test]
fn panorama_background_truncates_positions() {
    let bg = Background::Image(RgbaBuffer::from_samples(4, 3, gradient(4, 3)).unwrap());
    assert_eq!(bg.sample(v(2.9), v(1.2)), Rgba8::new(2, 1, 3, 255));
    assert_eq!(bg.sample(v(0.0), v(0.0)), Rgba8::new(0, 0, 0, 255));
    assert_eq!(bg.sample(v(3.0), v(2.0)), Rgba8::new(3, 2, 5, 255));
}
