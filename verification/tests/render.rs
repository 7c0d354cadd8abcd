use grid_engine::cmd::{DrawCmd, PaintColor};
use grid_engine::ctrl::Grid;
use grid_engine::codec::u64_to_be_bytes;
use grid_engine::renderer::is_highlighted;
use grid_engine::schema::{Align, Column, ColumnType};
use grid_engine::GridError;

fn col(id: &str, col_type: ColumnType, size: usize) -> Column {
    Column {
        id: id.to_string(),
        name: id.to_string(),
        description: String::new(),
        col_type,
        data_offset: 0,
        size,
        precision: 0,
        hidden: false,
        align: Align::Unset,
        highlight: false,
        suppress_zero: false,
        format: String::new(),
    }
}

fn encode_f64(v: f64) -> Vec<u8> {
    u64_to_be_bytes(v.to_bits())
}

fn tape_grid() -> Grid {
    Grid::new(
        "tape".to_string(),
        vec![
            col("price", ColumnType::Number, 8),
            col("size", ColumnType::Number, 8),
            col("time", ColumnType::Timestamp, 8),
        ],
    )
    .unwrap()
}

fn tape_row(price: f64, size: f64, time_ms: f64) -> Vec<u8> {
    let mut row = encode_f64(price);
    row.extend_from_slice(&encode_f64(size));
    row.extend_from_slice(&encode_f64(time_ms));
    row
}

#[test]
fn fresh_cell_is_highlighted_within_threshold() {
    let now: i64 = 1_600_000_000_000;
    assert!(is_highlighted(now, now - 50));
    assert!(!is_highlighted(now, now - 150));
    assert!(is_highlighted(now, now - 100));
}

#[test]
fn render_clears_then_paints_within_the_viewport() {
    let grid = tape_grid();
    let mut data = tape_row(101.25, 3.0, 0.0);
    data.extend_from_slice(&tape_row(101.5, 1.0, 0.0));
    let cmds = grid.render(data, 24, 0, 0, 300, 100, 1_000).unwrap();
    // The backdrop fill, then the content fill on the pixel centers; all
    // coordinates are half-pixels.
    assert_eq!(
        cmds[0],
        DrawCmd::FillRect { x: 0, y: 0, w: 600, h: 200, color: PaintColor::Background }
    );
    assert_eq!(
        cmds[1],
        DrawCmd::FillRect { x: 1, y: 1, w: 600, h: 200, color: PaintColor::ContentArea }
    );
    // One clip pair wraps the text pass.
    let begins = cmds
        .iter()
        .filter(|c| matches!(c, DrawCmd::ClipBegin { .. }))
        .count();
    let ends = cmds.iter().filter(|c| matches!(c, DrawCmd::ClipEnd)).count();
    assert_eq!(begins, 1);
    assert_eq!(ends, 1);
    assert_eq!(*cmds.last().unwrap(), DrawCmd::ClipEnd);
}

#[test]
fn render_is_idempotent_under_a_frozen_clock() {
    let grid = tape_grid();
    let data = tape_row(101.25, 3.0, 995.0);
    let now: i64 = 1_000;
    let a = grid.render(data.clone(), 24, 0, 0, 300, 100, now).unwrap();
    let b = grid.render(data, 24, 0, 0, 300, 100, now).unwrap();
    assert_eq!(a, b);
}

#[test]
fn render_rejects_a_misaligned_buffer_before_painting() {
    let grid = tape_grid();
    let r = grid.render(vec![0u8; 23], 24, 0, 0, 300, 100, 0);
    assert_eq!(r.err(), Some(GridError::MisalignedBuffer));
}

#[test]
fn render_rejects_a_stride_the_schema_overruns() {
    let grid = tape_grid();
    // The schema needs 24 bytes per row; a stride of 16 cannot hold it.
    let r = grid.render(vec![0u8; 32], 16, 0, 0, 300, 100, 0);
    assert_eq!(r.err(), Some(GridError::OutOfBounds));
}

#[test]
fn sparkline_series_store_is_keyed_by_text_cells() {
    let mut grid = Grid::new(
        "g".to_string(),
        vec![
            col("sym", ColumnType::Text, 4),
            col("trend", ColumnType::Sparkline, 8),
        ],
    )
    .unwrap();
    assert!(!grid.has_sparks());
    grid.set_sparks(vec![("ABC".to_string(), vec![100, 50, 75, 0, 25, 200])]);
    assert!(grid.has_sparks());

    // A frame whose sparkline cell names the stored series paints its
    // segments; the cell's fixed-width bytes hold the key text.
    let mut data = b"ABC\0".to_vec();
    data.extend_from_slice(b"ABC\0\0\0\0\0");
    let cmds = grid.render(data, 12, 0, 0, 300, 100, 0).unwrap();
    let segs = cmds
        .iter()
        .filter(|c| {
            matches!(
                c,
                DrawCmd::Line {
                    color: PaintColor::SparkRed | PaintColor::SparkGreen | PaintColor::SparkGray,
                    ..
                }
            )
        })
        .count();
    assert!(segs > 0);
}

#[test]
fn unknown_series_key_paints_no_sparkline() {
    let mut grid = Grid::new(
        "g".to_string(),
        vec![
            col("sym", ColumnType::Text, 4),
            col("trend", ColumnType::Sparkline, 8),
        ],
    )
    .unwrap();
    grid.set_sparks(vec![("XYZ".to_string(), vec![1, 2, 3])]);
    let mut data = b"ABC\0".to_vec();
    data.extend_from_slice(b"ABC\0\0\0\0\0");
    let cmds = grid.render(data, 12, 0, 0, 300, 100, 0).unwrap();
    let segs = cmds
        .iter()
        .filter(|c| {
            matches!(
                c,
                DrawCmd::Line {
                    color: PaintColor::SparkRed | PaintColor::SparkGreen | PaintColor::SparkGray,
                    ..
                }
            )
        })
        .count();
    assert_eq!(segs, 0);
}

#[test]
fn fresh_rows_paint_the_recency_overlay() {
    let mut highlight_col = col("price", ColumnType::Number, 8);
    highlight_col.highlight = true;
    let grid = Grid::new(
        "g".to_string(),
        vec![
            highlight_col,
            col("size", ColumnType::Number, 8),
            col("time", ColumnType::Timestamp, 8),
        ],
    )
    .unwrap();
    let now: i64 = 1_600_000_000_000;
    let fresh = tape_row(1.0, 2.0, (now - 50) as f64);
    let cmds = grid.render(fresh, 24, 0, 0, 400, 100, now).unwrap();
    let overlays = cmds
        .iter()
        .filter(|c| matches!(c, DrawCmd::FillRect { color: PaintColor::Overlay, .. }))
        .count();
    assert_eq!(overlays, 1);

    let stale = tape_row(1.0, 2.0, (now - 150) as f64);
    let cmds = grid.render(stale, 24, 0, 0, 400, 100, now).unwrap();
    let overlays = cmds
        .iter()
        .filter(|c| matches!(c, DrawCmd::FillRect { color: PaintColor::Overlay, .. }))
        .count();
    assert_eq!(overlays, 0);
}
