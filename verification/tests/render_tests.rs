use invaders::frame::{Frame, new_frame, BACKGROUND, NUM_COLS, NUM_ROWS};
use invaders::render::{frame_writes, Renderer};

#[test]
fn first_render_writes_every_cell_exactly_once() {
    let mut r = Renderer::new(4, 3);
    let frame = Frame::new(4, 3);
    let writes = r.receive(frame);
    assert_eq!(writes.len(), 12);
    // strictly ascending column-major order means no cell twice
    for w in writes.windows(2) {
        assert!(w[0].x < w[1].x || (w[0].x == w[1].x && w[0].y < w[1].y));
    }
    // and every write carries the frame's (background) glyph
    for w in &writes {
        assert!(w.x < 4 && w.y < 3);
        assert_eq!(w.glyph, BACKGROUND);
    }
}

#[test]
fn unchanged_frame_twice_produces_zero_writes() {
    let mut r = Renderer::new(5, 4);
    let mut first = Frame::new(5, 4);
    first.set(2, 1, 'A');
    let writes1 = r.receive(first);
    assert_eq!(writes1.len(), 20);

    let mut second = Frame::new(5, 4);
    second.set(2, 1, 'A');
    let writes2 = r.receive(second);
    assert_eq!(writes2.len(), 0);
}

#[test]
fn diff_emits_only_changed_cells() {
    let mut r = Renderer::new(5, 4);
    let blank = Frame::new(5, 4);
    let _ = r.receive(blank);

    let mut next = Frame::new(5, 4);
    next.set(3, 2, 'A');
    next.set(0, 0, '|');
    let writes = r.receive(next);
    assert_eq!(writes.len(), 2);
    assert_eq!((writes[0].x, writes[0].y, writes[0].glyph), (0, 0, '|'));
    assert_eq!((writes[1].x, writes[1].y, writes[1].glyph), (3, 2, 'A'));

    // reverting one cell yields exactly one write, restoring background
    let third = Frame::new(5, 4);
    let writes3 = r.receive(third);
    assert_eq!(writes3.len(), 2);
    assert_eq!((writes3[0].x, writes3[0].y, writes3[0].glyph), (0, 0, BACKGROUND));
    assert_eq!((writes3[1].x, writes3[1].y, writes3[1].glyph), (3, 2, BACKGROUND));
}

#[test]
fn frame_writes_forced_ignores_equality() {
    let a = Frame::new(2, 2);
    let b = Frame::new(2, 2);
    let writes = frame_writes(&a, &b, true);
    assert_eq!(writes.len(), 4);
    let writes = frame_writes(&a, &b, false);
    assert_eq!(writes.len(), 0);
}

#[test]
fn default_frame_dimensions() {
    let f = new_frame();
    assert_eq!(f.width, NUM_COLS);
    assert_eq!(f.height, NUM_ROWS);
    for x in 0..NUM_COLS {
        for y in 0..NUM_ROWS {
            assert_eq!(f.get(x, y), BACKGROUND);
        }
    }
}

#[test]
fn out_of_range_write_is_rejected() {
    let mut f = Frame::new(3, 3);
    f.set(3, 0, 'A');
    f.set(0, 3, 'A');
    for x in 0..3 {
        for y in 0..3 {
            assert_eq!(f.get(x, y), BACKGROUND);
        }
    }
    f.set(2, 2, 'A');
    assert_eq!(f.get(2, 2), 'A');
}
