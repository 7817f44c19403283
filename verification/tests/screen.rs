use portal_engine::screen::Screen;

#[test]
fn new_screen_has_no_pixels() {
    let s = Screen::new();
    assert!(s.screen_buffer.is_empty());
    assert_eq!(s.screen_buffer_size, 0);
}

#[test]
fn init_allocates_zeroed_pixels() {
    let mut s = Screen::new();
    s.init_screen(1024, 768);
    assert_eq!(s.screen_buffer_size, 1024 * 768);
    assert_eq!(s.screen_buffer.len(), 1024 * 768);
    assert!(s.screen_buffer.iter().all(|p| *p == 0));
    s.init_screen(0, 10);
    assert_eq!(s.screen_buffer.len(), 0);
}

#[test]
fn pixels_are_set_inside_the_buffer_only() {
    let mut s = Screen::new();
    s.init_screen(2, 2);
    assert!(s.put_pixel(3, 0xdeadbeef));
    assert!(!s.put_pixel(4, 1));
    assert_eq!(s.screen_buffer, vec![0, 0, 0, 0xdeadbeef]);
}

#[test]
fn frame_bytes_are_in_memory_order() {
    let mut s = Screen::new();
    s.init_screen(2, 1);
    s.put_pixel(0, 0x44332211);
    s.put_pixel(1, 0xAABBCCDD);
    let f = s.render(2, 1);
    assert_eq!(f.pitch, 8);
    assert_eq!((f.width, f.height), (2, 1));
    assert_eq!(f.bytes, vec![0x11, 0x22, 0x33, 0x44, 0xDD, 0xCC, 0xBB, 0xAA]);
    let mut native: Vec<u8> = Vec::new();
    for p in &s.screen_buffer {
        native.extend_from_slice(&p.to_le_bytes());
    }
    assert_eq!(f.bytes, native);
}

#[test]
fn pitch_is_four_bytes_a_pixel() {
    let mut s = Screen::new();
    s.init_screen(1024, 2);
    let f = s.render(1024, 2);
    assert_eq!(f.pitch, 4096);
    assert_eq!(f.bytes.len(), 1024 * 2 * 4);
    assert!(f.bytes.iter().all(|b| *b == 0));
}
