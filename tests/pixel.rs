use chip8::pixel::Pixel;

#[test]
fn individual_pixel_initialization_test() {
    let pixel = Pixel::new(10, 20, true);

    assert_eq!(10, pixel.x);
    assert_eq!(20, pixel.y);
    assert_eq!(true, pixel.on);
}

#[test]
fn pixel_set_and_turn_off_keep_position() {
    let mut pixel = Pixel::new(3, 4, false);
    pixel.set(true);
    assert!(pixel.on);
    pixel.turn_off();
    assert!(!pixel.on);
    assert_eq!((3, 4), (pixel.x, pixel.y));
}
