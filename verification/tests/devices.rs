use uxn::console::Console;
use uxn::error::UxnError;
use uxn::screen::Screen;
use uxn::system::System;
use uxn::varvara::{read_bytes, read_short, write_short, Device, Varvara};

fn bus() -> Box<Varvara> {
    Box::new(Varvara::new())
}

#[test]
fn console_queues_its_output() {
    let mut console = Console::new();
    assert_eq!(console.notify_deo(&[], &[], 0x18, b'h'), Ok(()));
    assert_eq!(console.notify_deo(&[], &[], 0x18, b'i'), Ok(()));
    assert_eq!(console.take_output(), vec![b'h', b'i']);
    assert_eq!(console.take_output(), vec![]);
}

#[test]
fn console_has_one_port() {
    let mut console = Console::new();
    assert_eq!(
        console.notify_deo(&[], &[], 0x19, 0),
        Err(UxnError::UnknownPort)
    );
    assert_eq!(
        console.notify_deo2(&[], &[], 0x18, 0),
        Err(UxnError::UnknownPort)
    );
    assert_eq!(console.take_output(), vec![]);
}

#[test]
fn short_is_stored_high_byte_first() {
    let mut mem = [0u8; 256];
    assert_eq!(write_short(&mut mem, 0x10, 0x1234), Ok(()));
    assert_eq!(mem[0x10], 0x12);
    assert_eq!(mem[0x11], 0x34);
    assert_eq!(read_short(&mem, 0x10), Ok(0x1234));
}

#[test]
fn short_wraps_at_the_last_port() {
    let mut mem = [0u8; 256];
    assert_eq!(write_short(&mut mem, 0xff, 0xabcd), Ok(()));
    assert_eq!(mem[0xff], 0xab);
    assert_eq!(mem[0x00], 0xcd);
    assert_eq!(read_short(&mem, 0xff), Ok(0xabcd));
}

#[test]
fn short_needs_both_bytes_in_bounds() {
    let mut mem = [0u8; 4];
    assert_eq!(write_short(&mut mem, 3, 0x0102), Err(UxnError::OutOfBounds));
    assert_eq!(mem, [0u8; 4]);
    assert_eq!(read_short(&mem, 4), Err(UxnError::OutOfBounds));
    assert_eq!(write_short(&mut mem, 2, 0x0102), Ok(()));
    assert_eq!(mem, [0, 0, 1, 2]);
}

#[test]
fn reads_a_run_of_bytes() {
    let mem = [1u8, 2, 3, 4, 5];
    assert_eq!(read_bytes(&mem, 1, 3), Ok(&mem[1..4]));
    assert_eq!(read_bytes(&mem, 5, 0), Ok(&mem[5..5]));
    assert_eq!(read_bytes(&mem, 3, 3), Err(UxnError::OutOfBounds));
}

#[test]
fn byte_write_reaches_the_console() {
    let mut bus = bus();
    assert_eq!(bus.deo(0x18, 0x41), Ok(()));
    assert_eq!(bus.io[0x18], 0x41);
    assert_eq!(bus.dei(0x18), 0x41);
    assert_eq!(bus.console.take_output(), vec![0x41]);
}

#[test]
fn write_to_an_unknown_port_still_lands_in_the_io_page() {
    let mut bus = bus();
    assert_eq!(bus.deo(0x19, 0x41), Err(UxnError::UnknownPort));
    assert_eq!(bus.io[0x19], 0x41);
    assert_eq!(bus.deo(0x40, 0x42), Err(UxnError::UnknownPort));
    assert_eq!(bus.io[0x40], 0x42);
    assert_eq!(bus.deo2(0x40, 0x4344), Err(UxnError::UnknownPort));
    assert_eq!(bus.dei2(0x40), 0x4344);
    assert_eq!(bus.deo2(0x18, 0x4546), Err(UxnError::UnknownPort));
    assert_eq!(bus.dei2(0x18), 0x4546);
}

#[test]
fn system_byte_ports() {
    let mut bus = bus();
    assert_eq!(bus.deo(0x0e, 1), Err(UxnError::UnimplementedFeature));
    assert_eq!(bus.deo(0x0f, 1), Err(UxnError::UnimplementedFeature));
    assert_eq!(bus.deo(0x00, 1), Err(UxnError::UnknownPort));
    assert_eq!(bus.deo(0x08, 1), Err(UxnError::UnknownPort));
}

#[test]
fn short_write_across_two_devices_is_refused() {
    let mut bus = bus();
    assert_eq!(
        bus.deo2(0x0f, 0x1234),
        Err(UxnError::CrossDeviceShortWrite)
    );
    assert_eq!(
        bus.deo2(0x2f, 0x1234),
        Err(UxnError::CrossDeviceShortWrite)
    );
    assert_eq!(
        bus.deo2(0xff, 0x1234),
        Err(UxnError::CrossDeviceShortWrite)
    );
    assert_eq!(bus.io[0x0f], 0);
    assert_eq!(bus.io[0x10], 0);
    assert_eq!(bus.io[0xff], 0);
    assert_eq!(bus.io[0x00], 0);
}

#[test]
fn read_short_wraps_at_the_last_port() {
    let mut bus = bus();
    bus.io[0xff] = 0x12;
    bus.io[0x00] = 0x34;
    assert_eq!(bus.dei2(0xff), 0x1234);
}

#[test]
fn default_palette() {
    let system = System::new();
    assert_eq!(system.index_to_0rgb(0), Some(0xFFFFFF));
    assert_eq!(system.index_to_0rgb(1), Some(0x000000));
    assert_eq!(system.index_to_0rgb(2), Some(0x77ddbb));
    assert_eq!(system.index_to_0rgb(3), Some(0xff6622));
    assert_eq!(system.index_to_0rgb(4), None);
}

#[test]
fn palette_is_set_from_three_shorts() {
    let mut bus = bus();
    assert_eq!(bus.deo2(0x08, 0x2ce9), Ok(()));
    assert_eq!(bus.deo2(0x0a, 0x01c0), Ok(()));
    assert_eq!(bus.deo2(0x0c, 0x2ce5), Ok(()));
    assert_eq!(bus.system.index_to_0rgb(0), Some(0x220022));
    assert_eq!(bus.system.index_to_0rgb(1), Some(0xcc11cc));
    assert_eq!(bus.system.index_to_0rgb(2), Some(0xeeccee));
    assert_eq!(bus.system.index_to_0rgb(3), Some(0x990055));
}

#[test]
fn other_system_shorts_leave_the_palette() {
    let mut bus = bus();
    assert_eq!(bus.deo2(0x02, 0xffff), Ok(()));
    assert_eq!(bus.system.index_to_0rgb(0), Some(0xFFFFFF));
    assert_eq!(bus.dei2(0x02), 0xffff);
}

#[test]
fn system_needs_the_color_ports_in_the_io_page() {
    let mut system = System::new();
    assert_eq!(
        system.notify_deo2(&[0u8; 8], &[], 0x08, 0),
        Err(UxnError::OutOfBounds)
    );
    assert_eq!(system.index_to_0rgb(0), Some(0xFFFFFF));
}

#[test]
fn new_screen_is_blank() {
    let screen = Screen::new();
    assert_eq!(screen.buffer().len(), 512 * 320);
    assert!(screen.buffer().iter().all(|p| *p == 0));
}

#[test]
fn pixel_is_painted_at_the_position() {
    let mut bus = bus();
    assert_eq!(bus.deo2(0x28, 3), Ok(()));
    assert_eq!(bus.deo2(0x2a, 2), Ok(()));
    assert_eq!(bus.deo(0x2e, 0x42), Ok(()));
    assert_eq!(bus.screen.buffer()[3 + 512 * 2], 2);
    assert_eq!(
        bus.screen.buffer().iter().filter(|p| **p != 0).count(),
        1
    );
    bus.screen.clear();
    assert!(bus.screen.buffer().iter().all(|p| *p == 0));
}

#[test]
fn pixel_outside_the_screen_is_refused() {
    let mut bus = bus();
    assert_eq!(bus.deo2(0x2a, 320), Ok(()));
    assert_eq!(bus.deo(0x2e, 0x01), Err(UxnError::OutOfBounds));
    assert!(bus.screen.buffer().iter().all(|p| *p == 0));
}

#[test]
fn screen_ports() {
    let mut bus = bus();
    assert_eq!(bus.deo(0x20, 1), Err(UxnError::UnknownPort));
    assert_eq!(bus.deo2(0x20, 1), Err(UxnError::UnknownPort));
    assert_eq!(bus.deo2(0x2e, 1), Err(UxnError::UnknownPort));
}

#[test]
fn sprite_of_one_bit_per_pixel() {
    let mut bus = bus();
    let sprite = [0x80u8, 0x40, 0x20, 0x10, 0x08, 0x04, 0x02, 0xff];
    bus.main[0x0200..0x0208].copy_from_slice(&sprite);
    assert_eq!(bus.deo2(0x28, 8), Ok(()));
    assert_eq!(bus.deo2(0x2a, 16), Ok(()));
    assert_eq!(bus.deo2(0x2c, 0x0200), Ok(()));
    // foreground 1, background 2
    assert_eq!(bus.deo(0x2f, 0x09), Ok(()));
    let pixels = bus.screen.buffer();
    for row in 0..8 {
        for col in 0..8 {
            let expected = if sprite[row] & (0x80 >> col) != 0 { 1 } else { 2 };
            assert_eq!(pixels[8 + col + 512 * (16 + row)], expected);
        }
    }
    assert_eq!(pixels[7 + 512 * 16], 0);
    assert_eq!(pixels[16 + 512 * 16], 0);
    assert_eq!(pixels[8 + 512 * 15], 0);
    assert_eq!(pixels[8 + 512 * 24], 0);
    assert_eq!(pixels.iter().filter(|p| **p != 0).count(), 64);
}

#[test]
fn sprite_of_two_bits_per_pixel() {
    let mut bus = bus();
    let first = [0xf0u8, 0xf0, 0xf0, 0xf0, 0x00, 0x00, 0x00, 0x00];
    let second = [0xccu8, 0xcc, 0x00, 0x00, 0xcc, 0xcc, 0x00, 0x00];
    bus.main[0x0300..0x0308].copy_from_slice(&first);
    bus.main[0x0308..0x0310].copy_from_slice(&second);
    assert_eq!(bus.deo2(0x2c, 0x0300), Ok(()));
    // blend 1: colors 0, 1, 2, 3
    assert_eq!(bus.deo(0x2f, 0x81), Ok(()));
    let pixels = bus.screen.buffer();
    for row in 0..8 {
        for col in 0..8 {
            let high = first[row] & (0x80 >> col) != 0;
            let low = second[row] & (0x80 >> col) != 0;
            let expected = match (high, low) {
                (false, false) => 0,
                (false, true) => 1,
                (true, false) => 2,
                (true, true) => 3,
            };
            assert_eq!(pixels[col + 512 * row], expected);
        }
    }
    assert_eq!(pixels[0], 3);
    assert_eq!(pixels[2], 2);
    assert_eq!(pixels[4 + 512 * 4], 1);
    assert_eq!(pixels[7 + 512 * 7], 0);
}

#[test]
fn sprite_blend_picks_the_colors() {
    let mut bus = bus();
    bus.main[0x0300] = 0x80;
    bus.main[0x0308] = 0x40;
    assert_eq!(bus.deo2(0x2c, 0x0300), Ok(()));
    // blend 6: colors 1, 2, 3, 1
    assert_eq!(bus.deo(0x2f, 0x86), Ok(()));
    let pixels = bus.screen.buffer();
    assert_eq!(pixels[0], 3);
    assert_eq!(pixels[1], 2);
    assert_eq!(pixels[2], 1);
    assert_eq!(pixels[512], 1);
}

#[test]
fn sprite_that_does_not_fit_is_refused() {
    let mut bus = bus();
    assert_eq!(bus.deo2(0x2a, 313), Ok(()));
    assert_eq!(bus.deo(0x2f, 0x01), Err(UxnError::OutOfBounds));
    assert_eq!(bus.deo2(0x2a, 0), Ok(()));
    assert_eq!(bus.deo2(0x2c, 0xfff9), Ok(()));
    assert_eq!(bus.deo(0x2f, 0x01), Err(UxnError::OutOfBounds));
    assert_eq!(bus.deo2(0x2c, 0xfff8), Ok(()));
    assert_eq!(bus.deo(0x2f, 0x81), Err(UxnError::OutOfBounds));
    assert!(bus.screen.buffer().iter().all(|p| *p == 0));
    assert_eq!(bus.deo(0x2f, 0x01), Ok(()));
}

#[test]
fn screen_becomes_colors() {
    let mut bus = bus();
    assert_eq!(bus.deo(0x2e, 0x03), Ok(()));
    let rgb = bus.rgb_buffer();
    assert_eq!(rgb.len(), 512 * 320);
    assert_eq!(rgb[0], 0xff6622);
    assert_eq!(rgb[1], 0xFFFFFF);
}

#[test]
fn image_is_loaded_at_the_program_start() {
    let mut bus = bus();
    bus.load(&[1, 2, 3]);
    assert_eq!(bus.main[0x00ff], 0);
    assert_eq!(bus.main[0x0100..0x0104], [1, 2, 3, 0]);
    let long = vec![7u8; 0x10000];
    bus.load(&long);
    assert_eq!(bus.main[0x00ff], 0);
    assert_eq!(bus.main[0x0100], 7);
    assert_eq!(bus.main[0xffff], 7);
}

#[derive(Debug, PartialEq)]
struct Idle {
    seen: u8,
}

impl Device for Idle {
    fn wf(&self) -> bool {
        true
    }
}

#[test]
fn device_that_defines_no_notification_takes_no_notice() {
    let mut idle = Idle { seen: 3 };
    assert_eq!(idle.notify_deo(&[1, 2], &[3, 4], 0x18, 0x41), Ok(()));
    assert_eq!(idle.notify_deo2(&[1, 2], &[3, 4], 0x18, 0x4142), Ok(()));
    assert_eq!(idle, Idle { seen: 3 });
}
