use vga_text::{Buffer, Color, ColorCode, Writer, _print, HEIGHT, WIDTH};
use volatile::Volatile;

#[test]
fn print_goes_through_the_lock() {
    let cells: &'static mut [[Volatile<u16>; WIDTH]; HEIGHT] =
        Box::leak(Box::new(core::array::from_fn(|_| core::array::from_fn(|_| Volatile::new(0u16)))));
    let code = ColorCode::new(Color::Yellow, Color::Black);
    let m = spin::Mutex::new(Writer::new(code, Buffer::new(cells)));
    _print(&m, "ok\n");
    _print(&m, "go");
    let w = m.lock();
    assert_eq!(w.read_cell(23, 0).ascii_character, b'o');
    assert_eq!(w.read_cell(23, 1).ascii_character, b'k');
    assert_eq!(w.read_cell(24, 0).ascii_character, b'g');
    assert_eq!(w.read_cell(24, 1).ascii_character, b'o');
    assert_eq!(w.column_position(), 2);
}
