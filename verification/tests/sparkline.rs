use grid_engine::sparkline::{color_index, sparks_max, sparks_min, SparkColor, Sparkline};

static DATA: &[i64] = &[100, 50, 75, 0, 25, 200];

#[test]
fn test_sparks_min() {
    let x = sparks_min(&DATA.to_vec());
    assert_eq!(x, 0);
}

#[test]
fn test_sparks_max() {
    let x = sparks_max(&DATA.to_vec());
    assert_eq!(x, 200);
}

#[test]
fn test_sparkline_dimensions() {
    let mut sp = Sparkline::new();
    let margin = 5;
    sp.init(10, 20, 300, 400, margin, &DATA.to_vec());
    assert_eq!(sp.x, 15);
    assert_eq!(sp.y, 25);
    assert_eq!(sp.width, 300 - 2 * margin);
    assert_eq!(sp.height, 400 - 2 * margin);
}

#[test]
fn test_sparkline_empty_data() {
    let mut sp = Sparkline::new();
    let margin = 5;
    sp.init(10, 20, 300, 400, margin, &Vec::new());
    assert_eq!(sp.min, 0);
    assert_eq!(sp.max, 0);
    assert_eq!(sp.range_y, 0);
    assert_eq!(sp.step_x, 0);
    assert_eq!(sp.x, 15);
    assert_eq!(sp.y, 20 + 200);
}

#[test]
fn test_sparkline_with_data() {
    let mut sp = Sparkline::new();
    let margin = 5;
    sp.init(10, 20, 300, 400, margin, &DATA.to_vec());
    assert_eq!(DATA.len(), 6);
    assert_eq!(sp.range_y, 200);
    assert_eq!(sp.step_x, (300 - 2 * margin) / 5);
}

#[test]
fn test_sparkline_y_values() {
    let mut sp = Sparkline::new();
    let margin = 0;
    sp.init(10, 20, 300, 400, margin, &DATA.to_vec());
    assert_eq!(DATA.len(), 6);
    let ys: Vec<i64> = DATA.iter().map(|&v| sp.pos_y(v)).collect();
    assert_eq!(ys, [220, 320, 270, 420, 370, 20]);
}

#[test]
fn test_color_against_first_sample() {
    assert_eq!(color_index(100, 50), SparkColor::Red);
    assert_eq!(color_index(100, 150), SparkColor::Green);
    assert_eq!(color_index(100, 100), SparkColor::Gray);
}

#[test]
fn test_render_splits_on_reference_crossing() {
    // Against the first sample 100: four falling samples stroke red, and the
    // final rise to 200 crosses the reference line, splitting into a red
    // half and a green half.  The very first step also splits, its first
    // half keeping the initial gray.
    let mut sp = Sparkline::new();
    let segs = sp.render(10, 20, 300, 400, &DATA.to_vec());
    let colors: Vec<SparkColor> = segs.iter().map(|g| g.color).collect();
    assert_eq!(
        colors,
        [
            SparkColor::Gray,
            SparkColor::Red,
            SparkColor::Red,
            SparkColor::Red,
            SparkColor::Red,
            SparkColor::Red,
            SparkColor::Green,
        ]
    );
}

#[test]
fn test_render_short_series_strokes_nothing() {
    let mut sp = Sparkline::new();
    assert!(sp.render(10, 20, 300, 400, &vec![7]).is_empty());
    assert!(sp.render(10, 20, 300, 400, &Vec::new()).is_empty());
}

#[test]
fn test_render_flat_series_strokes_center_line() {
    let mut sp = Sparkline::new();
    let segs = sp.render(10, 20, 300, 400, &vec![5, 5, 5]);
    assert_eq!(segs.len(), 1);
    assert_eq!(segs[0].color, SparkColor::Gray);
    assert_eq!(segs[0].y1, 20 + 400 / 2);
    assert_eq!(segs[0].y2, 20 + 400 / 2);
    assert_eq!(segs[0].x1, 15);
    assert_eq!(segs[0].x2, 15 + 290);
}
