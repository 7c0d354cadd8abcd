//! The sparkline sub-renderer: a small multi-segment trend line inside a cell.
//!
//! A series of one sample or none renders nothing; a series whose samples are
//! all equal renders a single flat gray line at the vertical center.
//! Otherwise every sample maps to a y position inside the inner box and the
//! walk over consecutive samples strokes one segment each, green above the
//! first sample's value, red below it, gray at it — always against the first
//! sample, never the previous one.  A segment that crosses the first sample's
//! reference line is split at the interpolated crossing so each half keeps
//! its own color.
//!
//! Coordinates are whole pixels; samples are plain integer units chosen by
//! the feeder.  The bounds required below are what keeps the fixed-width
//! arithmetic exact.

use vstd::prelude::*;

use vstd::arithmetic::div_mod::lemma_fundamental_div_mod;
use vstd::arithmetic::mul::{lemma_mul_inequality, lemma_mul_is_commutative, lemma_mul_nonnegative, lemma_mul_upper_bound};

verus! {

/// The inner margin between the cell rectangle and the trend line's box.
pub const SPARK_MARGIN: i64 = 5;

/// Pixel coordinates handed to the sparkline stay within this bound.
pub const COORD_LIMIT: i64 = 4_000_000;

/// Sample magnitudes stay within this bound.
pub const SAMPLE_LIMIT: i64 = 2_147_483_648;

/// The stroke color of one trend segment.
#[derive(Debug, Clone, Copy, PartialEq, Eq, Structural)]
pub enum SparkColor {
    Red,
    Green,
    Gray,
}

impl Default for SparkColor {
    fn default() -> (r: Self)
        ensures
            r == SparkColor::Gray,
    {
        SparkColor::Gray
    }
}

/// The color of a segment ending at value `v`: compared against the series'
/// first value `v0`, never the previous sample.
pub open spec fn spec_color(v0: i64, v: i64) -> SparkColor {
    if v < v0 {
        SparkColor::Red
    } else if v > v0 {
        SparkColor::Green
    } else {
        SparkColor::Gray
    }
}

/// The color of a segment ending at value `v` against first value `v0`.
pub fn color_index(v0: i64, v: i64) -> (r: SparkColor)
    ensures
        r == spec_color(v0, v),
{
    if v < v0 {
        SparkColor::Red
    } else if v > v0 {
        SparkColor::Green
    } else {
        SparkColor::Gray
    }
}

/// The least sample of a non-empty series.
pub open spec fn seq_min(s: Seq<i64>) -> i64
    recommends
        s.len() > 0,
    decreases s.len(),
{
    if s.len() <= 1 {
        s[0]
    } else {
        let rest = seq_min(s.drop_last());
        if s.last() < rest {
            s.last()
        } else {
            rest
        }
    }
}

/// The greatest sample of a non-empty series.
pub open spec fn seq_max(s: Seq<i64>) -> i64
    recommends
        s.len() > 0,
    decreases s.len(),
{
    if s.len() <= 1 {
        s[0]
    } else {
        let rest = seq_max(s.drop_last());
        if s.last() > rest {
            s.last()
        } else {
            rest
        }
    }
}

/// Law: the least sample lies at or below every sample, the greatest at or
/// above, so in particular the least never exceeds the greatest.
pub proof fn lemma_min_max_bound_all(s: Seq<i64>, i: int)
    requires
        0 <= i < s.len(),
    ensures
        seq_min(s) <= s[i],
        s[i] <= seq_max(s),
        seq_min(s) <= seq_max(s),
    decreases s.len(),
{
    if s.len() > 1 {
        if i < s.len() - 1 {
            lemma_min_max_bound_all(s.drop_last(), i);
        } else {
            lemma_min_max_bound_all(s.drop_last(), 0);
        }
    }
}

/// When every sample lies within a band, so do the least and the greatest.
pub proof fn lemma_min_max_in_band(s: Seq<i64>, lo: int, hi: int)
    requires
        s.len() > 0,
        forall|i: int| 0 <= i < s.len() ==> lo <= #[trigger] s[i] <= hi,
    ensures
        lo <= seq_min(s) <= hi,
        lo <= seq_max(s) <= hi,
    decreases s.len(),
{
    if s.len() > 1 {
        lemma_min_max_in_band(s.drop_last(), lo, hi);
    }
}

/// The least sample of a series.
pub fn sparks_min(data: &Vec<i64>) -> (r: i64)
    requires
        data@.len() > 0,
    ensures
        r == seq_min(data@),
{
    let mut r: i64 = data[0];
    let mut i: usize = 1;
    while i < data.len()
        invariant
            1 <= i <= data@.len(),
            r == seq_min(data@.take(i as int)),
        decreases data@.len() - i,
    {
        let v: i64 = data[i];
        proof {
            assert(data@.take(i + 1).drop_last() =~= data@.take(i as int));
            assert(data@.take(i + 1).last() == data@[i as int]);
        }
        if v < r {
            r = v;
        }
        i += 1;
    }
    proof {
        assert(data@.take(data@.len() as int) =~= data@);
    }
    r
}

/// The greatest sample of a series.
pub fn sparks_max(data: &Vec<i64>) -> (r: i64)
    requires
        data@.len() > 0,
    ensures
        r == seq_max(data@),
{
    let mut r: i64 = data[0];
    let mut i: usize = 1;
    while i < data.len()
        invariant
            1 <= i <= data@.len(),
            r == seq_max(data@.take(i as int)),
        decreases data@.len() - i,
    {
        let v: i64 = data[i];
        proof {
            assert(data@.take(i + 1).drop_last() =~= data@.take(i as int));
            assert(data@.take(i + 1).last() == data@[i as int]);
        }
        if v > r {
            r = v;
        }
        i += 1;
    }
    proof {
        assert(data@.take(data@.len() as int) =~= data@);
    }
    r
}

/// The magnitude of an integer.
pub open spec fn abs_int(a: int) -> int {
    if a >= 0 {
        a
    } else {
        -a
    }
}

/// Division rounding toward zero, as the host language's integer division
/// rounds.
pub open spec fn trunc_div(a: int, b: int) -> int
    recommends
        b != 0,
{
    let q = abs_int(a) / abs_int(b);
    if (a >= 0) == (b >= 0) {
        q
    } else {
        -q
    }
}

/// Division of `a` by `b`, rounded toward zero.
fn div_trunc(a: i64, b: i64) -> (r: i64)
    requires
        b != 0,
        -0x4000_0000_0000_0000 <= a <= 0x4000_0000_0000_0000,
    ensures
        r == trunc_div(a as int, b as int),
        -abs_int(a as int) <= r <= abs_int(a as int),
{
    let ma: u64 = if a >= 0 {
        a as u64
    } else {
        (-a) as u64
    };
    let mb: u64 = if b >= 0 {
        b as u64
    } else if b == i64::MIN {
        0x8000_0000_0000_0000u64
    } else {
        (-b) as u64
    };
    let q: u64 = ma / mb;
    proof {
        vstd::arithmetic::div_mod::lemma_div_nonincreasing(ma as int, mb as int);
        vstd::arithmetic::div_mod::lemma_div_pos_is_pos(ma as int, mb as int);
    }
    assert(q <= ma);
    if (a >= 0) == (b >= 0) {
        q as i64
    } else {
        -(q as i64)
    }
}

/// Every coordinate of the segment stays well inside the fixed-width range.
pub open spec fn seg_in_range(g: SparkSeg) -> bool {
    &&& -0x100_0000_0000_0000 <= g.x1 <= 0x100_0000_0000_0000
    &&& -0x100_0000_0000_0000 <= g.y1 <= 0x100_0000_0000_0000
    &&& -0x100_0000_0000_0000 <= g.x2 <= 0x100_0000_0000_0000
    &&& -0x100_0000_0000_0000 <= g.y2 <= 0x100_0000_0000_0000
}

/// One stroked segment of the trend line.
#[derive(Debug, Clone, Copy, PartialEq, Eq, Structural)]
pub struct SparkSeg {
    pub x1: i64,
    pub y1: i64,
    pub x2: i64,
    pub y2: i64,
    pub color: SparkColor,
}

/// The sparkline's computed geometry: the inner box after the margin is
/// applied, the sample range and the x step between samples.
#[derive(Debug, Clone, Copy, PartialEq, Eq, Structural)]
pub struct Sparkline {
    pub x: i64,
    pub y: i64,
    pub width: i64,
    pub height: i64,
    pub margin: i64,
    pub min: i64,
    pub max: i64,
    pub range_y: i64,
    pub step_x: i64,
}

/// The bounds under which the sparkline arithmetic stays exact: coordinates
/// within the pixel limit, the margin inside the box, samples within the
/// sample limit.
pub open spec fn spark_input_ok(
    x: i64,
    y: i64,
    width: i64,
    height: i64,
    margin: i64,
    sparks: Seq<i64>,
) -> bool {
    &&& 0 <= x <= COORD_LIMIT
    &&& 0 <= y <= COORD_LIMIT
    &&& 0 <= margin
    &&& 2 * margin <= width <= COORD_LIMIT
    &&& 2 * margin <= height <= COORD_LIMIT
    &&& forall|i: int| 0 <= i < sparks.len() ==> -SAMPLE_LIMIT <= #[trigger] sparks[i] <= SAMPLE_LIMIT
}

/// What [`Sparkline::init`] computes from the cell box and the series.
pub open spec fn spark_inited(
    pre: Sparkline,
    post: Sparkline,
    x: i64,
    y: i64,
    width: i64,
    height: i64,
    margin: i64,
    sparks: Seq<i64>,
) -> bool {
    let long = sparks.len() > 1;
    &&& post.margin == margin
    &&& post.width == width - 2 * margin
    &&& post.height == height - 2 * margin
    &&& post.x == x + margin
    &&& post.min == (if long {
        seq_min(sparks)
    } else {
        pre.min
    })
    &&& post.max == (if long {
        seq_max(sparks)
    } else {
        pre.max
    })
    &&& post.range_y == (if long {
        seq_max(sparks) - seq_min(sparks)
    } else {
        pre.range_y as int
    })
    &&& post.step_x == (if long {
        (width - 2 * margin) as int / (sparks.len() - 1)
    } else {
        pre.step_x as int
    })
    &&& post.y == (if post.range_y == 0 {
        y + height / 2
    } else {
        y + margin
    })
}

/// The y position a sample maps to inside the inner box: the bottom of the
/// box minus the sample's share of the range.
pub open spec fn spec_pos_y(s: Sparkline, v: i64) -> int {
    s.y + s.height - ((v - s.min) * s.height) / (s.range_y as int)
}

impl Sparkline {
    /// Fresh geometry, everything zero until `init` runs.
    pub fn new() -> (s: Sparkline)
        ensures
            s == (Sparkline {
                x: 0i64,
                y: 0i64,
                width: 0i64,
                height: 0i64,
                margin: 0i64,
                min: 0i64,
                max: 0i64,
                range_y: 0i64,
                step_x: 0i64,
            }),
    {
        Sparkline { x: 0, y: 0, width: 0, height: 0, margin: 0, min: 0, max: 0, range_y: 0, step_x: 0 }
    }

    /// Computes the inner box and, for a series of two or more samples, the
    /// range and x step.  With no range to draw, the y position shifts to the
    /// vertical center of the cell box.
    pub fn init(&mut self, x: i64, y: i64, width: i64, height: i64, margin: i64, sparks: &Vec<i64>)
        requires
            spark_input_ok(x, y, width, height, margin, sparks@),
        ensures
            spark_inited(*old(self), *final(self), x, y, width, height, margin, sparks@),
    {
        self.margin = margin;
        self.width = width - 2 * margin;
        self.height = height - 2 * margin;
        self.x = x + margin;
        self.y = y + margin;

        if sparks.len() > 1 {
            proof {
                lemma_min_max_bound_all(sparks@, 0);
                lemma_min_max_in_band(sparks@, -SAMPLE_LIMIT as int, SAMPLE_LIMIT as int);
            }
            self.min = sparks_min(sparks);
            self.max = sparks_max(sparks);
            self.range_y = self.max - self.min;
            let n1: u64 = (sparks.len() - 1) as u64;
            self.step_x = ((self.width as u64) / n1) as i64;
            proof {
                vstd::arithmetic::div_mod::lemma_div_nonincreasing(
                    self.width as int,
                    n1 as int,
                );
                vstd::arithmetic::div_mod::lemma_div_pos_is_pos(self.width as int, n1 as int);
            }
        }
        if self.range_y == 0 {
            self.y = y + height / 2;
        }
    }

    /// The y position sample `v` maps to; see [`spec_pos_y`].
    pub fn pos_y(&self, v: i64) -> (r: i64)
        requires
            1 <= self.range_y,
            0 <= self.y <= 2 * COORD_LIMIT,
            0 <= self.height <= COORD_LIMIT,
            -SAMPLE_LIMIT <= self.min <= v <= SAMPLE_LIMIT,
        ensures
            r == spec_pos_y(*self, v),
    {
        let dv: u64 = (v - self.min) as u64;
        proof {
            lemma_mul_upper_and_nonneg(dv as int, self.height as int);
        }
        let num: u64 = dv * (self.height as u64);
        let q: u64 = num / (self.range_y as u64);
        proof {
            vstd::arithmetic::div_mod::lemma_div_nonincreasing(num as int, self.range_y as int);
            vstd::arithmetic::div_mod::lemma_div_pos_is_pos(num as int, self.range_y as int);
        }
        self.y + self.height - (q as i64)
    }
}

/// A segment with the given endpoints and color.
pub open spec fn spec_seg(x1: int, y1: int, x2: int, y2: int, c: SparkColor) -> SparkSeg {
    SparkSeg { x1: x1 as i64, y1: y1 as i64, x2: x2 as i64, y2: y2 as i64, color: c }
}

/// The segments the walk from sample `i` onward strokes, entering the step
/// with the pen at (`last_x`, `last_y`) and the previous segment's color
/// `last_c`.  Each step strokes to the next sample's position in the color
/// picked against the first sample `v0`; a step whose color changes while its
/// y moves is split at the interpolated crossing of the `v0` reference line
/// `y0`, the first half keeping the previous color.
pub open spec fn spec_spark_segs(
    s: Sparkline,
    v0: i64,
    y0: int,
    sparks: Seq<i64>,
    i: int,
    last_x: int,
    last_y: int,
    last_c: SparkColor,
) -> Seq<SparkSeg>
    decreases sparks.len() - i,
{
    if i < 1 || i >= sparks.len() {
        Seq::empty()
    } else {
        let v = sparks[i];
        let next_y = spec_pos_y(s, v);
        let next_c = spec_color(v0, v);
        let next_x = last_x + s.step_x;
        let rest = spec_spark_segs(s, v0, y0, sparks, i + 1, next_x, next_y, next_c);
        if next_y != last_y && next_c != last_c {
            let x0 = last_x - trunc_div((last_x - next_x) * (y0 - last_y), next_y - last_y);
            seq![
                spec_seg(last_x, last_y, x0, y0, last_c),
                spec_seg(x0, y0, next_x, next_y, next_c),
            ] + rest
        } else {
            seq![spec_seg(last_x, last_y, next_x, next_y, next_c)] + rest
        }
    }
}

/// What rendering a series of two or more samples strokes, after `init`
/// leaves the geometry `s`: a single flat gray line at the vertical center
/// when the range is zero, the color-split walk over consecutive samples
/// otherwise.
pub open spec fn spec_spark_render(s: Sparkline, sparks: Seq<i64>) -> Seq<SparkSeg> {
    if s.range_y == 0 {
        seq![spec_seg(s.x as int, s.y as int, s.x + s.width, s.y as int, SparkColor::Gray)]
    } else {
        let v0 = sparks[0];
        let y0 = spec_pos_y(s, v0);
        spec_spark_segs(s, v0, y0, sparks, 1, s.x as int, y0, SparkColor::Gray)
    }
}

/// A sample between the range's ends maps into the inner box.
proof fn lemma_pos_y_in_box(s: Sparkline, v: i64)
    requires
        1 <= s.range_y,
        0 <= s.height,
        s.min <= v <= s.max,
        s.range_y == s.max - s.min,
    ensures
        s.y <= spec_pos_y(s, v) <= s.y + s.height,
{
    let dv = v - s.min;
    let h = s.height as int;
    let rg = s.range_y as int;
    lemma_mul_nonnegative(dv, h);
    vstd::arithmetic::div_mod::lemma_div_pos_is_pos(dv * h, rg);
    lemma_mul_inequality(dv, rg, h);
    vstd::arithmetic::div_mod::lemma_div_is_ordered(dv * h, rg * h, rg);
    vstd::arithmetic::div_mod::lemma_div_multiples_vanish(h, rg);
}

impl Sparkline {
    /// Renders the series into the cell box at (`x`, `y`): computes the inner
    /// geometry and strokes the trend segments.  One sample or none strokes
    /// nothing and leaves the geometry untouched.
    pub fn render(&mut self, x: i64, y: i64, width: i64, height: i64, sparks: &Vec<i64>) -> (segs:
        Vec<SparkSeg>)
        requires
            spark_input_ok(x, y, width, height, SPARK_MARGIN, sparks@),
        ensures
            sparks@.len() <= 1 ==> *final(self) == *old(self) && segs@ == Seq::<SparkSeg>::empty(),
            sparks@.len() > 1 ==> spark_inited(
                *old(self),
                *final(self),
                x,
                y,
                width,
                height,
                SPARK_MARGIN,
                sparks@,
            ) && segs@ == spec_spark_render(*final(self), sparks@),
            forall|j: int| 0 <= j < segs@.len() ==> seg_in_range(#[trigger] segs@[j]),
    {
        if sparks.len() <= 1 {
            return Vec::new();
        }
        self.init(x, y, width, height, SPARK_MARGIN, sparks);
        proof {
            lemma_min_max_bound_all(sparks@, 0);
            lemma_min_max_in_band(sparks@, -SAMPLE_LIMIT as int, SAMPLE_LIMIT as int);
        }
        if self.range_y == 0 {
            let mut segs: Vec<SparkSeg> = Vec::new();
            segs.push(
                SparkSeg {
                    x1: self.x,
                    y1: self.y,
                    x2: self.x + self.width,
                    y2: self.y,
                    color: SparkColor::Gray,
                },
            );
            proof {
                assert(segs@ =~= spec_spark_render(*self, sparks@));
            }
            return segs;
        }
        let ghost sp = *self;
        let n = sparks.len();
        proof {
            lemma_fundamental_div_mod(sp.width as int, n as int - 1);
            vstd::arithmetic::div_mod::lemma_mod_bound(sp.width as int, n as int - 1);
            lemma_mul_is_commutative(n as int - 1, sp.step_x as int);
            vstd::arithmetic::div_mod::lemma_div_pos_is_pos(sp.width as int, n as int - 1);
        }
        let v0: i64 = sparks[0];
        proof {
            lemma_pos_y_in_box(sp, v0);
        }
        let y0: i64 = self.pos_y(v0);
        let ghost full = spec_spark_segs(
            sp,
            v0,
            y0 as int,
            sparks@,
            1,
            sp.x as int,
            y0 as int,
            SparkColor::Gray,
        );
        let mut last_x: i64 = self.x;
        let mut last_y: i64 = y0;
        let mut next_x: i64 = self.x;
        let mut last_c: SparkColor = SparkColor::Gray;
        let mut segs: Vec<SparkSeg> = Vec::new();
        let mut i: usize = 1;
        while i < n
            invariant
                *self == sp,
                n == sparks@.len(),
                n > 1,
                1 <= i <= n,
                spark_input_ok(x, y, width, height, SPARK_MARGIN, sparks@),
                sp.range_y >= 1,
                sp.range_y == sp.max - sp.min,
                0 <= sp.y <= 2 * COORD_LIMIT,
                0 <= sp.height <= COORD_LIMIT,
                0 <= sp.width <= COORD_LIMIT,
                0 <= sp.x <= 2 * COORD_LIMIT,
                0 <= sp.step_x,
                -SAMPLE_LIMIT <= sp.min <= sp.max <= SAMPLE_LIMIT,
                sp.min == seq_min(sparks@),
                sp.max == seq_max(sparks@),
                (n - 1) * sp.step_x <= sp.width,
                v0 == sparks@[0],
                y0 as int == spec_pos_y(sp, v0),
                sp.y <= y0 <= sp.y + sp.height,
                next_x == last_x,
                last_x as int == sp.x + (i - 1) * sp.step_x,
                sp.x <= last_x <= sp.x + sp.width,
                last_y as int == spec_pos_y(sp, sparks@[i - 1]),
                sp.y <= last_y <= sp.y + sp.height,
                last_c == spec_color(v0, sparks@[i - 1]),
                forall|j: int| 0 <= j < segs@.len() ==> seg_in_range(#[trigger] segs@[j]),
                full == segs@ + spec_spark_segs(
                    sp,
                    v0,
                    y0 as int,
                    sparks@,
                    i as int,
                    last_x as int,
                    last_y as int,
                    last_c,
                ),
            decreases n - i,
        {
            let ghost segs_pre = segs@;
            let ghost last_x_pre = last_x as int;
            let v: i64 = sparks[i];
            proof {
                lemma_min_max_bound_all(sparks@, i as int);
                lemma_pos_y_in_box(sp, v);
                lemma_mul_inequality(i as int, n as int - 1, sp.step_x as int);
                assert((i as int) * sp.step_x == (i - 1) * sp.step_x + sp.step_x)
                    by (nonlinear_arith);
                lemma_mul_nonnegative(i as int - 1, sp.step_x as int);
            }
            let next_y: i64 = self.pos_y(v);
            let next_c: SparkColor = color_index(v0, v);
            next_x = next_x + self.step_x;
            if next_y != last_y && next_c != last_c {
                proof {
                    lemma_seg_product_in_range(
                        last_x as int,
                        next_x as int,
                        y0 as int,
                        last_y as int,
                    );
                }
                let num: i64 = (last_x - next_x) * (y0 - last_y);
                let x0: i64 = last_x - div_trunc(num, next_y - last_y);
                segs.push(SparkSeg { x1: last_x, y1: last_y, x2: x0, y2: y0, color: last_c });
                segs.push(SparkSeg { x1: x0, y1: y0, x2: next_x, y2: next_y, color: next_c });
                proof {
                    assert(segs@ =~= segs_pre + seq![
                        spec_seg(last_x_pre, last_y as int, x0 as int, y0 as int, last_c),
                        spec_seg(x0 as int, y0 as int, next_x as int, next_y as int, next_c),
                    ]);
                    assert(full =~= segs@ + spec_spark_segs(
                        sp,
                        v0,
                        y0 as int,
                        sparks@,
                        i + 1,
                        next_x as int,
                        next_y as int,
                        next_c,
                    ));
                }
            } else {
                segs.push(
                    SparkSeg { x1: last_x, y1: last_y, x2: next_x, y2: next_y, color: next_c },
                );
                proof {
                    assert(segs@ =~= segs_pre + seq![
                        spec_seg(last_x_pre, last_y as int, next_x as int, next_y as int, next_c),
                    ]);
                    assert(full =~= segs@ + spec_spark_segs(
                        sp,
                        v0,
                        y0 as int,
                        sparks@,
                        i + 1,
                        next_x as int,
                        next_y as int,
                        next_c,
                    ));
                }
            }
            last_x = next_x;
            last_y = next_y;
            last_c = next_c;
            i += 1;
        }
        proof {
            assert(full =~= segs@);
        }
        segs
    }
}

/// The interpolation product of a one-step x delta and an in-box y delta
/// stays well inside the fixed-width range.
proof fn lemma_seg_product_in_range(last_x: int, next_x: int, y0: int, last_y: int)
    requires
        -COORD_LIMIT <= last_x - next_x <= 0,
        -COORD_LIMIT <= y0 - last_y <= COORD_LIMIT,
    ensures
        -(COORD_LIMIT as int) * (COORD_LIMIT as int) <= (last_x - next_x) * (y0 - last_y) <= (
        COORD_LIMIT as int) * (COORD_LIMIT as int),
{
    let a = last_x - next_x;
    let b = y0 - last_y;
    lemma_mul_upper_bound(-a, COORD_LIMIT as int, abs_int(b), COORD_LIMIT as int);
    assert(a * b == if b >= 0 { -((-a) * b) } else { (-a) * (-b) }) by (nonlinear_arith);
}

/// The product of a sample delta and a box height stays well inside the
/// fixed-width range, and is not negative.
proof fn lemma_mul_upper_and_nonneg(dv: int, h: int)
    requires
        0 <= dv <= 2 * SAMPLE_LIMIT,
        0 <= h <= COORD_LIMIT,
    ensures
        0 <= dv * h <= 2 * SAMPLE_LIMIT * COORD_LIMIT,
{
    lemma_mul_nonnegative(dv, h);
    vstd::arithmetic::mul::lemma_mul_upper_bound(dv, 2 * SAMPLE_LIMIT as int, h, COORD_LIMIT as int);
}

} // verus!
