use grid_engine::cell::CellText;
use grid_engine::codec::{double_to_i64, encode_values, ms_to_secs, num_size, u64_to_be_bytes};
use grid_engine::ds::DataSource;
use grid_engine::schema::{
    assert_schema, normalize_schema, Align, Column, ColumnType, Schema,
};
use grid_engine::GridError;

fn col(id: &str, col_type: ColumnType, size: usize) -> Column {
    Column {
        id: id.to_string(),
        name: id.to_string(),
        description: String::new(),
        col_type,
        data_offset: 0,
        size,
        precision: 0,
        hidden: false,
        align: Align::Unset,
        highlight: false,
        suppress_zero: false,
        format: String::new(),
    }
}

fn encode_f64(v: f64) -> Vec<u8> {
    u64_to_be_bytes(v.to_bits())
}

#[test]
fn test_u8_slice_to_f64() {
    let buf: Vec<u8> = vec![64, 143, 64, 0, 0, 0, 0, 0];
    let ds = DataSource::new(buf, 8, None).unwrap();
    let c = col("v", ColumnType::Number, 8);
    let bits = ds.get_value_f64(0, &c).unwrap().unwrap();
    let x = f64::from_bits(bits);
    assert_eq!(x, 1000.0);
}

#[test]
fn test_f64_to_u8_slice() {
    let buf = u64_to_be_bytes(1000.0f64.to_bits());
    assert_eq!(buf, [64, 143, 64, 0, 0, 0, 0, 0]);
}

#[test]
fn offsets_accumulate_in_declared_order() {
    let mut schema = Schema {
        cols: vec![
            col("a", ColumnType::Number, 8),
            col("b", ColumnType::Text, 4),
            col("c", ColumnType::Number, 8),
        ],
    };
    assert!(normalize_schema(&mut schema).is_ok());
    assert_eq!(schema.cols[0].data_offset, 0);
    assert_eq!(schema.cols[1].data_offset, 8);
    assert_eq!(schema.cols[2].data_offset, 12);
    assert!(assert_schema(&schema));
}

#[test]
fn malformed_columns_are_rejected() {
    let mut missing_id = Schema { cols: vec![col("", ColumnType::Number, 8)] };
    assert_eq!(normalize_schema(&mut missing_id), Err(GridError::MalformedSchema));

    let mut bad_number_size = Schema { cols: vec![col("a", ColumnType::Number, 4)] };
    assert_eq!(normalize_schema(&mut bad_number_size), Err(GridError::MalformedSchema));

    let mut empty_text = Schema { cols: vec![col("a", ColumnType::Text, 0)] };
    assert_eq!(normalize_schema(&mut empty_text), Err(GridError::MalformedSchema));
}

#[test]
fn row_count_is_buffer_length_over_stride() {
    let ds = DataSource::new(vec![0u8; 48], 16, None).unwrap();
    assert_eq!(ds.row_count, 3);
    assert_eq!(ds.data_width, 16);
}

#[test]
fn misaligned_buffer_is_rejected() {
    assert_eq!(
        DataSource::new(vec![0u8; 47], 16, None).err(),
        Some(GridError::MisalignedBuffer)
    );
    assert_eq!(
        DataSource::new(vec![0u8; 8], 0, None).err(),
        Some(GridError::MisalignedBuffer)
    );
}

#[test]
fn out_of_bounds_cell_is_fatal() {
    let ds = DataSource::new(vec![0u8; 16], 8, None).unwrap();
    let mut c = col("v", ColumnType::Number, 8);
    c.data_offset = 12;
    assert_eq!(ds.get_cell_index(0, &c), Err(GridError::OutOfBounds));
    assert_eq!(ds.get_value_f64(0, &c), Err(GridError::OutOfBounds));
    // A row at or past the row count is the recoverable "no value" case.
    c.data_offset = 0;
    assert_eq!(ds.get_value_f64(2, &c), Ok(None));
}

#[test]
fn cell_index_locates_the_cell() {
    let ds = DataSource::new(vec![0u8; 32], 16, None).unwrap();
    let mut c = col("v", ColumnType::Number, 8);
    c.data_offset = 8;
    assert_eq!(ds.get_cell_index(1, &c), Ok(24));
    assert_eq!(num_size(), 8);
}

#[test]
fn text_cells_trim_trailing_nul_padding() {
    let mut data = b"AB\0\0".to_vec();
    data.extend_from_slice(&encode_f64(1.5));
    let ds = DataSource::new(data, 12, None).unwrap();
    let t = col("sym", ColumnType::Text, 4);
    assert_eq!(ds.get_value_str(0, &t).unwrap(), "AB");
    // Beyond the row count the cell reads as empty text.
    assert_eq!(ds.get_value_str(5, &t).unwrap(), "");
}

#[test]
fn number_cells_format_at_precision_with_zero_suppression() {
    let mut c = col("px", ColumnType::Number, 8);
    c.precision = 3;
    assert_eq!(
        c.format_value(1000.0f64.to_bits()),
        CellText::Num { bits: 1000.0f64.to_bits(), precision: 3 }
    );
    c.suppress_zero = true;
    assert_eq!(c.format_value(0.0f64.to_bits()), CellText::Empty);
    assert_eq!(c.format_value((-0.0f64).to_bits()), CellText::Empty);
    c.suppress_zero = false;
    assert_eq!(
        c.format_value(0.0f64.to_bits()),
        CellText::Num { bits: 0.0f64.to_bits(), precision: 3 }
    );
}

#[test]
fn timestamp_cells_format_as_clock_time() {
    // 12:34:56 UTC on the epoch day, in milliseconds.
    let ms = 45_296_000.0f64;
    let c = col("time", ColumnType::Timestamp, 8);
    match c.format_value(ms.to_bits()) {
        CellText::Time(s) => assert_eq!(s, "12:34:56 PM"),
        other => panic!("expected a time text, got {:?}", other),
    }
}

#[test]
fn declared_time_pattern_overrides_the_default() {
    let ms = 45_296_000.0f64;
    let mut c = col("time", ColumnType::Timestamp, 8);
    c.format = "%H:%M".to_string();
    match c.format_value(ms.to_bits()) {
        CellText::Time(s) => assert_eq!(s, "12:34"),
        other => panic!("expected a time text, got {:?}", other),
    }
}

#[test]
fn sparkline_cells_render_no_text() {
    let c = col("trend", ColumnType::Sparkline, 8);
    assert_eq!(c.format_value(1.0f64.to_bits()), CellText::Empty);
    assert_eq!(c.precision(), 0);
}

#[test]
fn numeric_array_input_encodes_to_the_byte_form() {
    let values: Vec<u64> = vec![1000.0f64.to_bits(), 0.5f64.to_bits()];
    let bytes = encode_values(&values);
    assert_eq!(bytes.len(), 16);
    assert_eq!(&bytes[0..8], [64, 143, 64, 0, 0, 0, 0, 0]);
    let ds = DataSource::new(bytes, 16, None).unwrap();
    let mut c = col("v", ColumnType::Number, 8);
    c.data_offset = 8;
    let bits = ds.get_value_f64(0, &c).unwrap().unwrap();
    assert_eq!(f64::from_bits(bits), 0.5);
}

#[test]
fn double_truncation_matches_the_host_cast() {
    let cases: &[f64] = &[
        0.0,
        -0.0,
        0.5,
        -0.5,
        1.0,
        -3.7,
        1000.0,
        45_296_000.0,
        -45_296_000.9,
        9.007199254740992e15,
        1e300,
        -1e300,
        f64::INFINITY,
        f64::NEG_INFINITY,
        f64::NAN,
        f64::MIN_POSITIVE,
    ];
    for &v in cases {
        assert_eq!(double_to_i64(v.to_bits()), v as i64, "truncating {}", v);
    }
}

#[test]
fn milliseconds_truncate_toward_zero_seconds() {
    assert_eq!(ms_to_secs(1_500), 1);
    assert_eq!(ms_to_secs(-1_500), -1);
    assert_eq!(ms_to_secs(999), 0);
    assert_eq!(ms_to_secs(-999), 0);
    assert_eq!(ms_to_secs(45_296_000), 45_296);
}
