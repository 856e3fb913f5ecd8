use vga_text::{Buffer, Color, ColorCode, ScreenChar, HEIGHT, WIDTH};
use volatile::Volatile;

#[test]
fn color_code_packs_background_high() {
    assert_eq!(ColorCode::new(Color::Yellow, Color::Black).value(), 0x0e);
    assert_eq!(ColorCode::new(Color::White, Color::Blue).value(), 0x1f);
    assert_eq!(ColorCode::new(Color::Black, Color::White).value(), 0xf0);
    assert_eq!(ColorCode::new(Color::LightCyan, Color::Red).value(), 0x4b);
}

#[test]
fn color_indices_follow_palette() {
    assert_eq!(Color::Black.code(), 0);
    assert_eq!(Color::Brown.code(), 6);
    assert_eq!(Color::DarkGray.code(), 8);
    assert_eq!(Color::Pink.code(), 13);
    assert_eq!(Color::White.code(), 15);
}

#[test]
fn screen_char_word_layout() {
    let sc = ScreenChar { ascii_character: b'A', color_code: ColorCode::new(Color::Yellow, Color::Black) };
    assert_eq!(sc.to_word(), 0x0e41);
    assert_eq!(ScreenChar::from_word(0x0e41), sc);
    assert_eq!(ScreenChar::from_word(0x1f20).ascii_character, 0x20);
    assert_eq!(ScreenChar::from_word(0x1f20).color_code, ColorCode::new(Color::White, Color::Blue));
}

#[test]
fn buffer_read_write_cells() {
    let cells: &'static mut [[Volatile<u16>; WIDTH]; HEIGHT] =
        Box::leak(Box::new(core::array::from_fn(|r| core::array::from_fn(|c| Volatile::new((r * WIDTH + c) as u16 & 0xff)))));
    let mut b = Buffer::new(cells);
    assert_eq!(b.read(0, 5).ascii_character, 5);
    assert_eq!(b.read(1, 0).ascii_character, 80);
    let sc = ScreenChar { ascii_character: b'Q', color_code: ColorCode::new(Color::Green, Color::Black) };
    b.write(24, 79, sc);
    assert_eq!(b.read(24, 79), sc);
    assert_eq!(b.read(24, 78).ascii_character, ((24 * WIDTH + 78) & 0xff) as u8);
}
