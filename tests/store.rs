use canvadot::canvas::{
    blank_cells, get_canvas_spec, process_written_cell, CellWrite, StoreError, CANVAS_BYTES,
    HEIGHT, RECORD_SIZE, WIDTH,
};
use canvadot::color::Color;
use canvadot::position::Position;
use canvadot::user::User;

fn user(id: i32) -> User {
    User::new(id, String::new(), String::from("u"), String::new(), 0, 0, true)
}

#[test]
fn record_layout() {
    let w = process_written_cell(&user(0x0403_0201), Position::new(3, 2), Color::new(9, 8, 7)).unwrap();
    assert_eq!(w.offset, (2 * 1920 + 3) * 7);
    assert_eq!(w.bytes, vec![9, 8, 7, 1, 2, 3, 4]);
    let w = process_written_cell(&user(-2), Position::new(0, 0), Color::new(0, 0, 0)).unwrap();
    assert_eq!(w.bytes, vec![0, 0, 0, 0xfe, 0xff, 0xff, 0xff]);
}

#[test]
fn out_of_bounds_positions() {
    for p in [
        Position::new(1920, 0),
        Position::new(0, 1080),
        Position::new(-1, 0),
        Position::new(0, -1),
    ] {
        let e = process_written_cell(&user(1), p, Color::new(1, 1, 1)).unwrap_err();
        assert!(matches!(e, StoreError::OutOfBounds));
        assert_eq!(e.message(), "Coordinates out of bounds.");
    }
    let last = process_written_cell(&user(1), Position::new(1919, 1079), Color::new(1, 1, 1)).unwrap();
    assert_eq!(last.offset + RECORD_SIZE, CANVAS_BYTES as u64);
    assert_eq!((WIDTH, HEIGHT), (1920, 1080));
}

#[test]
fn blank_canvas_is_zero() {
    let cells = blank_cells();
    assert_eq!(cells.len(), 1920 * 1080 * 7);
    assert!(cells.iter().all(|b| *b == 0));
}

#[test]
fn pixels_file() {
    let mut canvas = get_canvas_spec(blank_cells());
    let author = user(10);
    canvas.write_cell(&author, Position::new(2, 0), Color::new(10, 10, 10)).unwrap();
    let pixel = canvas.read_cell(Position::new(2, 0)).unwrap();
    assert_eq!(pixel, vec![10, 10, 10, 10, 0, 0, 0]);
}

#[test]
fn two_cells_do_not_touch_each_other() {
    let a = user(1);
    let b = user(2);
    let p = Position::new(5, 10);
    let q = Position::new(6, 10);
    for first_p in [true, false] {
        let mut canvas = get_canvas_spec(blank_cells());
        if first_p {
            canvas.write_cell(&a, p, Color::new(1, 2, 3)).unwrap();
            canvas.write_cell(&b, q, Color::new(4, 5, 6)).unwrap();
        } else {
            canvas.write_cell(&b, q, Color::new(4, 5, 6)).unwrap();
            canvas.write_cell(&a, p, Color::new(1, 2, 3)).unwrap();
        }
        assert_eq!(canvas.read_cell(p).unwrap(), vec![1, 2, 3, 1, 0, 0, 0]);
        assert_eq!(canvas.read_cell(q).unwrap(), vec![4, 5, 6, 2, 0, 0, 0]);
        assert_eq!(canvas.cells.len(), CANVAS_BYTES);
    }
}

#[test]
fn same_cell_last_write_wins() {
    let mut canvas = get_canvas_spec(blank_cells());
    let p = Position::new(0, 0);
    canvas.write_cell(&user(1), p, Color::new(1, 1, 1)).unwrap();
    canvas.write_cell(&user(2), p, Color::new(2, 2, 2)).unwrap();
    assert_eq!(canvas.read_cell(p).unwrap(), vec![2, 2, 2, 2, 0, 0, 0]);
}

#[test]
fn short_snapshot_fails_with_io_error() {
    let mut canvas = get_canvas_spec(vec![0; 10]);
    let w = CellWrite { offset: 7, bytes: vec![1; 7] };
    assert!(matches!(canvas.apply(&w), Err(StoreError::IoFailure(_))));
    assert_eq!(canvas.cells, vec![0; 10]);
    assert!(matches!(canvas.read_cell(Position::new(1, 0)), Err(StoreError::IoFailure(_))));
    assert!(matches!(canvas.read_cell(Position::new(0, 2000)), Err(StoreError::OutOfBounds)));
    let ok = CellWrite { offset: 3, bytes: vec![9; 7] };
    canvas.apply(&ok).unwrap();
    assert_eq!(canvas.cells, vec![0, 0, 0, 9, 9, 9, 9, 9, 9, 9]);
}

#[test]
fn snapshot_text() {
    let spec = get_canvas_spec(vec![0, 10, 255]);
    assert_eq!((spec.columns(), spec.rows()), (1920, 1080));
    assert_eq!(spec.to_string(), "1920,1080,0 10 255");
}
