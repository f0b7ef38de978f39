use staros_drivers::display::double_buffer::DoubleBuffer;
use staros_drivers::display::framebuffer::{Framebuffer, PixelFormat};

#[test]
fn rect_border_paints_only_the_bands() {
    let fb = Framebuffer::new(0, 8, 8, 8, PixelFormat::Argb8888);
    let mut db = DoubleBuffer::new(&fb, vec![0u32; 64]).ok().unwrap();
    db.draw_rect_border(1, 1, 5, 4, 1, 7);
    let px = db.back_buffer();
    assert_eq!(px[1 * 8 + 1], 7);
    assert_eq!(px[1 * 8 + 5], 7);
    assert_eq!(px[4 * 8 + 3], 7);
    assert_eq!(px[2 * 8 + 1], 7);
    assert_eq!(px[2 * 8 + 3], 0);
    assert_eq!(px[0], 0);
    assert_eq!(px[5 * 8 + 3], 0);
    assert_eq!(px.iter().filter(|&&p| p == 7).count(), 14);
}
