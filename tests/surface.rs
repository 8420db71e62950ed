use owned_handler::display::{
    draw_circle, get_display, DisconnectedSpi, DummySpi, ExampleDisplay, Pixel, PixelSurface,
};
use owned_handler::error::CommError;

fn px(x: i32, y: i32, luma: u8) -> Pixel {
    Pixel { x, y, luma }
}

#[test]
fn circle_outline_then_transmit() {
    let mut display = ExampleDisplay::new(DummySpi::new());
    draw_circle(&mut display, 22, 22, 20, 255);
    assert!(display.flush().is_ok());
    assert_eq!(display.pixel(22, 32), Some(255));
    assert_eq!(display.pixel(0, 0), Some(0));
    assert_eq!(display.pixel(32, 32), Some(0));
}

#[test]
fn circle_outline_stays_in_its_square() {
    let mut display = ExampleDisplay::new(DummySpi::new());
    draw_circle(&mut display, 22, 22, 20, 200);
    let mut lit = 0;
    for y in 0..64 {
        for x in 0..64 {
            let v = display.pixel(x, y).unwrap();
            if v != 0 {
                assert_eq!(v, 200);
                assert!((22..42).contains(&x) && (22..42).contains(&y));
                lit += 1;
            }
        }
    }
    assert!(lit > 0);
}

#[test]
fn off_surface_writes_are_dropped() {
    let mut display = ExampleDisplay::new(DummySpi::new());
    display.draw_iter(&vec![px(-1, 0, 9), px(0, -1, 9), px(64, 0, 9), px(0, 64, 9), px(i32::MIN, i32::MAX, 9)]);
    for y in 0..64 {
        for x in 0..64 {
            assert_eq!(display.pixel(x, y), Some(0));
        }
    }
    assert_eq!(display.pixel(64, 0), None);
    assert_eq!(display.pixel(-1, 5), None);
}

#[test]
fn write_then_read_back() {
    let mut display = ExampleDisplay::new(DummySpi::new());
    display.draw_pixel(px(0, 0, 1));
    display.draw_pixel(px(63, 63, 2));
    display.draw_pixel(px(5, 7, 3));
    assert_eq!(display.pixel(0, 0), Some(1));
    assert_eq!(display.pixel(63, 63), Some(2));
    assert_eq!(display.pixel(5, 7), Some(3));
    assert_eq!(display.pixel(7, 5), Some(0));
}

#[test]
fn later_write_wins() {
    let mut display = ExampleDisplay::new(DummySpi::new());
    display.draw_iter(&vec![px(10, 10, 4), px(10, 10, 8)]);
    assert_eq!(display.pixel(10, 10), Some(8));
}

#[test]
fn size_is_sixty_four_square() {
    let display = ExampleDisplay::new(DummySpi::new());
    assert_eq!(display.size(), (64, 64));
}

#[test]
fn transmit_failure_is_reported() {
    let display = ExampleDisplay::new(DisconnectedSpi::new());
    assert_eq!(display.flush(), Err(CommError));
}

#[test]
fn erased_display_keeps_contents_and_link() {
    let mut display = ExampleDisplay::new(DummySpi::new());
    display.draw_pixel(px(1, 2, 3));
    let mut erased = get_display(display);
    erased.draw_iter(&vec![px(3, 3, 7)]);
    assert_eq!(PixelSurface::flush(&erased), Ok(()));
    let dead = get_display(ExampleDisplay::new(DisconnectedSpi::new()));
    assert_eq!(PixelSurface::flush(&dead), Err(CommError));
}

#[test]
fn erased_display_follows_a_call_sequence_alike() {
    let mut plain = ExampleDisplay::new(DummySpi::new());
    let mut erased = get_display(ExampleDisplay::new(DummySpi::new()));
    let batches = vec![
        vec![px(1, 1, 10), px(70, 1, 11)],
        vec![px(1, 1, 12), px(63, 0, 13)],
        vec![px(-5, -5, 14)],
    ];
    for batch in &batches {
        plain.draw_iter(batch);
        erased.draw_iter(batch);
        assert_eq!(PixelSurface::flush(&plain), PixelSurface::flush(&erased));
    }
    assert_eq!(plain.pixel(1, 1), Some(12));
    assert_eq!(plain.pixel(63, 0), Some(13));
}
