use grid_engine::cmd::{DrawCmd, PaintColor};
use grid_engine::codec::u64_to_be_bytes;
use grid_engine::dob::{calc_bid_ask_ratio, DOB};
use grid_engine::ds::DataSource;
use grid_engine::schema::{Align, Column, ColumnType};

fn col(id: &str, col_type: ColumnType, size: usize) -> Column {
    Column {
        id: id.to_string(),
        name: id.to_string(),
        description: String::new(),
        col_type,
        data_offset: 0,
        size,
        precision: 0,
        hidden: false,
        align: Align::Unset,
        highlight: false,
        suppress_zero: false,
        format: String::new(),
    }
}

fn encode_f64(v: f64) -> Vec<u8> {
    u64_to_be_bytes(v.to_bits())
}

fn book_cols() -> Vec<Column> {
    vec![
        col("price", ColumnType::Number, 8),
        col("size", ColumnType::Number, 8),
        col("cumSize", ColumnType::Number, 8),
        col("time", ColumnType::Timestamp, 8),
    ]
}

fn book_row(price: f64, size: f64, cum: f64, time_ms: f64) -> Vec<u8> {
    let mut row = encode_f64(price);
    row.extend_from_slice(&encode_f64(size));
    row.extend_from_slice(&encode_f64(cum));
    row.extend_from_slice(&encode_f64(time_ms));
    row
}

fn cum_col() -> Column {
    let mut c = col("cumSize", ColumnType::Number, 8);
    c.data_offset = 16;
    c
}

#[test]
fn depth_ratio_shares_the_larger_side() {
    // Bid max cumulative 80, ask max 120, on a 400-wide shared canvas whose
    // panels are each 200 wide: the scale is 400 / 120 / 2, carried exactly
    // as the pair 200 / 120 (the half-panel width per unit of the maximum).
    let bids = DataSource::new(book_row(100.0, 80.0, 80.0, 0.0), 32, None).unwrap();
    let asks = DataSource::new(book_row(101.0, 120.0, 120.0, 0.0), 32, None).unwrap();
    let r = calc_bid_ask_ratio(&bids, &asks, 200, &cum_col());
    assert_eq!(r.num, 200);
    assert_eq!(r.den, 120);
}

#[test]
fn empty_book_has_zero_ratio_and_no_bars() {
    let bids = DataSource::new(Vec::new(), 32, None).unwrap();
    let asks = DataSource::new(Vec::new(), 32, None).unwrap();
    let r = calc_bid_ask_ratio(&bids, &asks, 400, &cum_col());
    assert_eq!(r.den, 0);

    let dob = DOB::new("book".to_string(), book_cols()).unwrap();
    let cmds = dob
        .render(Vec::new(), Vec::new(), 32, 0, 0, 600, 200, 0)
        .unwrap();
    let bars = cmds
        .iter()
        .filter(|c| {
            matches!(
                c,
                DrawCmd::FillRect { color: PaintColor::BidBar | PaintColor::AskBar, .. }
            )
        })
        .count();
    assert_eq!(bars, 0);
}

#[test]
fn maximal_cumulative_bar_spans_its_panel() {
    // A 600-wide book splits into two 300-wide panels.  With bid max 80 and
    // ask max 120 the shared scale is 300 / 120; the ask side's maximal row
    // spans its whole panel and the bid row two thirds of its own.  All
    // command coordinates are half-pixels.
    let dob = DOB::new("book".to_string(), book_cols()).unwrap();
    let bids = book_row(100.0, 80.0, 80.0, 0.0);
    let asks = book_row(101.0, 120.0, 120.0, 0.0);
    let cmds = dob.render(bids, asks, 32, 0, 0, 600, 200, 0).unwrap();
    let bid_bar = cmds
        .iter()
        .find(|c| matches!(c, DrawCmd::FillRect { color: PaintColor::BidBar, .. }))
        .unwrap();
    let ask_bar = cmds
        .iter()
        .find(|c| matches!(c, DrawCmd::FillRect { color: PaintColor::AskBar, .. }))
        .unwrap();
    // Bid bar: 80 * 300 / 120 == 200 px, growing left from the panel's right
    // edge at 299.5; ask bar: 120 * 300 / 120 == 300 px from its panel's
    // left edge at 301.5.
    assert_eq!(
        *bid_bar,
        DrawCmd::FillRect { x: 199, y: 81, w: 400, h: 80, color: PaintColor::BidBar }
    );
    assert_eq!(
        *ask_bar,
        DrawCmd::FillRect { x: 603, y: 81, w: 600, h: 80, color: PaintColor::AskBar }
    );
}

#[test]
fn book_frame_paints_a_bar_per_side() {
    let dob = DOB::new("book".to_string(), book_cols()).unwrap();
    let bids = book_row(100.0, 80.0, 80.0, 0.0);
    let asks = book_row(101.0, 120.0, 120.0, 0.0);
    let cmds = dob.render(bids, asks, 32, 0, 0, 600, 200, 0).unwrap();
    let bid_bars = cmds
        .iter()
        .filter(|c| matches!(c, DrawCmd::FillRect { color: PaintColor::BidBar, .. }))
        .count();
    let ask_bars = cmds
        .iter()
        .filter(|c| matches!(c, DrawCmd::FillRect { color: PaintColor::AskBar, .. }))
        .count();
    assert_eq!(bid_bars, 1);
    assert_eq!(ask_bars, 1);
}

#[test]
fn ask_schema_mirrors_the_bid_schema() {
    let dob = DOB::new("book".to_string(), book_cols()).unwrap();
    let b = &dob.bid_schema.cols;
    let a = &dob.ask_schema.cols;
    assert_eq!(a.len(), b.len());
    for k in 0..a.len() {
        let mirror = &b[b.len() - 1 - k];
        assert_eq!(a[k].id, mirror.id);
        // The ask side keeps the bid side's byte offsets: both panels decode
        // the same row layout.
        assert_eq!(a[k].data_offset, mirror.data_offset);
        assert_eq!(a[k].align, Align::Left);
    }
}

#[test]
fn schemas_normalize_on_install() {
    let dob = DOB::new("book".to_string(), book_cols()).unwrap();
    let offsets: Vec<usize> = dob.bid_schema.cols.iter().map(|c| c.data_offset).collect();
    assert_eq!(offsets, [0, 8, 16, 24]);
}
