//! The depth-of-book widget: two mirrored panels over one shared depth scale.
//!
//! The bid panel keeps the installed schema; the ask panel shows the same
//! columns reversed and left aligned.  Both panels render the ordinary grid
//! pass, and between the data and the header each paints its cumulative
//! depth pyramid: one translucent bar per row, scaled by a ratio derived
//! from the greater of the two sides' maximum cumulative sizes.  Cumulative
//! sums never decrease by row and rows arrive sorted, so each side's maximum
//! is its last row's value.

use vstd::prelude::*;

use crate::cmd::{views_of, DrawCmd, DrawCmdV, PaintColor};
use crate::codec::{double_to_i64, double_trunc, NUM_SIZE};
use crate::ds::DataSource;
use crate::renderer::{
    rect_v, spec_calc_col_width, spec_cell_bits, spec_clip_begin, spec_data_cmds, spec_gridlines,
    spec_header_cmds, spec_rows_left, GridRenderer, GRID_LIMIT, HEADER_LINES,
};
use crate::schema::{
    assert_schema, normalize_schema, row_stride, schema_fits, schema_fits_check,
    schema_normalized, schema_valid, size_prefix_sum, visible_index_seq, Align, Column, Schema,
};
use crate::GridError;

verus! {

/// The two sides of the book.
#[derive(Debug, Clone, Copy, PartialEq, Eq, Structural)]
pub enum Side {
    Bid,
    Ask,
}

/// The shared depth scale: a bar for cumulative size `c` is `c * num / den`
/// pixels long.  A zero denominator marks an empty book: no bars are drawn.
#[derive(Debug, Clone, Copy, PartialEq, Eq, Structural)]
pub struct DepthRatio {
    pub num: i64,
    pub den: i64,
}

/// A truncated cumulative value clamped to the unsigned 32-bit range, as the
/// depth scale reads it.
pub open spec fn clamp_cum(v: i64) -> int {
    if v < 0 {
        0
    } else if v > 0xffff_ffff {
        0xffff_ffff
    } else {
        v as int
    }
}

/// A side's maximum cumulative size: its last row's cumulative cell (rows
/// arrive sorted and sums never decrease), zero for an empty side.
pub open spec fn spec_max_cum(ds: DataSource<'_>, col: Column) -> int {
    if ds.row_count == 0 {
        0
    } else {
        clamp_cum(double_trunc(spec_cell_bits(ds, ds.row_count - 1, col)))
    }
}

/// The depth scale both sides share: one panel's client width per unit of
/// the greater side's maximum, so a maximal row's bar spans its whole panel.
/// Each panel is half the shared canvas, so this is the half-width scale:
/// the whole canvas's client width over twice the maximum.  The zero scale
/// marks an empty book.
pub open spec fn spec_calc_ratio(
    bids: DataSource<'_>,
    asks: DataSource<'_>,
    client_width: int,
    col: Column,
) -> DepthRatio {
    let m = if spec_max_cum(bids, col) >= spec_max_cum(asks, col) {
        spec_max_cum(bids, col)
    } else {
        spec_max_cum(asks, col)
    };
    if m > 0 {
        DepthRatio { num: client_width as i64, den: m as i64 }
    } else {
        DepthRatio { num: client_width as i64, den: 0i64 }
    }
}

/// A side's maximum cumulative size; see [`spec_max_cum`].
pub fn get_max_cum_size(ds: &DataSource<'_>, col: &Column) -> (r: u32)
    requires
        ds.wf(),
        col.data_offset + col.size <= ds.data_width,
        col.size == NUM_SIZE,
    ensures
        r == spec_max_cum(*ds, *col),
{
    if ds.row_count == 0 {
        return 0;
    }
    let row = ds.row_count - 1;
    proof {
        ds.lemma_row_start(row as int);
    }
    let bits: u64 = match ds.get_value_f64(row, col) {
        Ok(Some(b)) => b,
        _ => vstd::pervasive::unreached(),
    };
    let t = double_to_i64(bits);
    if t < 0 {
        0
    } else if t > 0xffff_ffff {
        0xffff_ffffu32
    } else {
        t as u32
    }
}

/// The depth scale both sides share; `client_width` is one (half-canvas)
/// panel's client width.  See [`spec_calc_ratio`].
pub fn calc_bid_ask_ratio(
    bids: &DataSource<'_>,
    asks: &DataSource<'_>,
    client_width: i64,
    col: &Column,
) -> (r: DepthRatio)
    requires
        bids.wf(),
        asks.wf(),
        col.data_offset + col.size <= bids.data_width,
        col.data_offset + col.size <= asks.data_width,
        col.size == NUM_SIZE,
        0 <= client_width <= GRID_LIMIT,
    ensures
        r == spec_calc_ratio(*bids, *asks, client_width as int, *col),
{
    let mb = get_max_cum_size(bids, col);
    let ma = get_max_cum_size(asks, col);
    let m: u32 = if mb >= ma {
        mb
    } else {
        ma
    };
    if m > 0 {
        DepthRatio { num: client_width, den: m as i64 }
    } else {
        DepthRatio { num: client_width, den: 0 }
    }
}

/// The length in pixels of one row's depth bar.
pub open spec fn spec_bar_len(ds: DataSource<'_>, col: Column, row: int, ratio: DepthRatio) -> int
    recommends
        ratio.den > 0,
{
    clamp_cum(double_trunc(spec_cell_bits(ds, row, col))) * (ratio.num as int) / (
    ratio.den as int)
}

/// What the depth pyramid paints from data row `ri` on: one bar per row
/// above the bottom edge, bid bars growing left from the panel's right edge,
/// ask bars growing right from its left edge.
pub open spec fn spec_pyramid_rows(
    s: GridRenderer,
    ds: DataSource<'_>,
    side: Side,
    ratio: DepthRatio,
    col: Column,
    ri: int,
) -> Seq<DrawCmdV>
    decreases spec_rows_left(s, ds.row_count as int) - ri,
{
    let rl = spec_rows_left(s, ds.row_count as int);
    if ri >= rl || s.spec_get_y(ri + HEADER_LINES as int) >= s.spec_bottom() {
        Seq::empty()
    } else {
        let len = spec_bar_len(ds, col, s.top_index + ri, ratio);
        let y = s.spec_get_y(ri + HEADER_LINES as int);
        let x = match side {
            Side::Bid => s.spec_right() - 2 * len,
            Side::Ask => s.spec_left(),
        };
        let color = match side {
            Side::Bid => PaintColor::BidBar,
            Side::Ask => PaintColor::AskBar,
        };
        seq![rect_v(x, y, 2 * len, 2 * s.row_height, color)] + spec_pyramid_rows(
            s,
            ds,
            side,
            ratio,
            col,
            ri + 1,
        )
    }
}

/// What the depth pyramid paints: nothing for an empty side or the zero
/// scale, one bar per shown row otherwise.
pub open spec fn spec_pyramid(
    s: GridRenderer,
    ds: DataSource<'_>,
    side: Side,
    ratio: DepthRatio,
    col: Column,
) -> Seq<DrawCmdV> {
    if ds.row_count == 0 || ratio.den <= 0 {
        Seq::empty()
    } else {
        spec_pyramid_rows(s, ds, side, ratio, col, 0)
    }
}

/// The depth pyramid of one panel; see [`spec_pyramid`].
pub fn render_pyramid(
    gr: &GridRenderer,
    ds: &DataSource<'_>,
    side: Side,
    ratio: DepthRatio,
    col: &Column,
) -> (cmds: Vec<DrawCmd>)
    requires
        gr.wf(),
        ds.wf(),
        col.data_offset + col.size <= ds.data_width,
        col.size == NUM_SIZE,
        0 <= ratio.num <= GRID_LIMIT,
        0 <= ratio.den,
    ensures
        views_of(cmds@) == spec_pyramid(*gr, *ds, side, ratio, *col),
{
    let mut cmds: Vec<DrawCmd> = Vec::new();
    if ds.row_count == 0 || ratio.den == 0 {
        proof {
            assert(views_of(cmds@) =~= spec_pyramid(*gr, *ds, side, ratio, *col));
        }
        return cmds;
    }
    let ghost s = *gr;
    let ghost rl = spec_rows_left(s, ds.row_count as int);
    let ghost full = spec_pyramid_rows(s, *ds, side, ratio, *col, 0);
    let mut ri: usize = 0;
    let mut stop = false;
    while !stop
        invariant
            s == *gr,
            s.wf(),
            ds.wf(),
            ds.row_count > 0,
            ratio.den >= 1,
            0 <= ratio.num <= GRID_LIMIT,
            col.data_offset + col.size <= ds.data_width,
            col.size == NUM_SIZE,
            rl == spec_rows_left(s, ds.row_count as int),
            !stop ==> ri <= rl,
            0 <= (ri as int + HEADER_LINES) * (s.row_height as int) <= 2 * GRID_LIMIT,
            full == spec_pyramid_rows(s, *ds, side, ratio, *col, 0),
            full == views_of(cmds@) + (if stop {
                Seq::<DrawCmdV>::empty()
            } else {
                spec_pyramid_rows(s, *ds, side, ratio, *col, ri as int)
            }),
        decreases (if stop {
            0int
        } else {
            rl - ri + 1
        }),
    {
        proof {
            assert((ri as int + HEADER_LINES) * 1 <= (ri as int + HEADER_LINES) * (
            gr.row_height as int)) by (nonlinear_arith)
                requires
                    gr.row_height >= 1,
                    ri as int + HEADER_LINES >= 0,
            ;
        }
        let y = gr.get_y(ri + HEADER_LINES);
        let have_row: bool = gr.top_index < ds.row_count && ri < ds.row_count - gr.top_index;
        if y < gr.bottom() && have_row {
            let row = gr.top_index + ri;
            proof {
                ds.lemma_row_start(row as int);
            }
            let bits: u64 = match ds.get_value_f64(row, col) {
                Ok(Some(b)) => b,
                _ => vstd::pervasive::unreached(),
            };
            let t = double_to_i64(bits);
            let cum: i64 = if t < 0 {
                0
            } else if t > 0xffff_ffff {
                0xffff_ffff
            } else {
                t
            };
            proof {
                vstd::arithmetic::mul::lemma_mul_nonnegative(cum as int, ratio.num as int);
                vstd::arithmetic::mul::lemma_mul_upper_bound(
                    cum as int,
                    0xffff_ffff,
                    ratio.num as int,
                    GRID_LIMIT as int,
                );
                vstd::arithmetic::div_mod::lemma_div_pos_is_pos(
                    cum as int * ratio.num as int,
                    ratio.den as int,
                );
                vstd::arithmetic::div_mod::lemma_div_nonincreasing(
                    cum as int * ratio.num as int,
                    ratio.den as int,
                );
            }
            let len: i64 = ((cum as u64 * ratio.num as u64) / (ratio.den as u64)) as i64;
            let x: i64 = match side {
                Side::Bid => gr.right() - 2 * len,
                Side::Ask => gr.left(),
            };
            let color = match side {
                Side::Bid => PaintColor::BidBar,
                Side::Ask => PaintColor::AskBar,
            };
            let ghost pre = views_of(cmds@);
            cmds.push(DrawCmd::FillRect { x, y, w: 2 * len, h: 2 * gr.row_height, color });
            proof {
                let bv = rect_v(
                    x as int,
                    y as int,
                    2 * spec_bar_len(*ds, *col, row as int, ratio),
                    2 * s.row_height,
                    color,
                );
                assert(views_of(cmds@) =~= pre.push(bv));
                assert(pre.push(bv) + spec_pyramid_rows(s, *ds, side, ratio, *col, ri + 1) =~= pre
                    + (seq![bv] + spec_pyramid_rows(s, *ds, side, ratio, *col, ri + 1)));
                assert((ri as int + 1 + HEADER_LINES) * s.row_height == (ri as int + HEADER_LINES)
                    * s.row_height + s.row_height) by (nonlinear_arith);
            }
            ri += 1;
        } else {
            stop = true;
        }
    }
    proof {
        assert(full =~= views_of(cmds@));
    }
    cmds
}

/// What one book panel paints: the grid pass with the depth pyramid painted
/// between the data and the header, inside the clip.
pub open spec fn spec_panel(
    s: GridRenderer,
    cols: Seq<Column>,
    ds: DataSource<'_>,
    side: Side,
    ratio: DepthRatio,
    col: Column,
    now: i64,
) -> Seq<DrawCmdV> {
    let vis = visible_index_seq(cols, cols.len() as int);
    spec_gridlines(s, vis.len() as int, spec_rows_left(s, ds.row_count as int)) + seq![
        spec_clip_begin(s),
    ] + spec_data_cmds(s, cols, ds, now, 0) + spec_pyramid(s, ds, side, ratio, col)
        + spec_header_cmds(s, cols, vis, 0) + seq![DrawCmdV::ClipEnd]
}

/// One book panel: the grid pass with the depth pyramid inside the clip;
/// see [`spec_panel`].
fn render_panel(
    gr: &mut GridRenderer,
    schema: &Schema,
    ds: &DataSource<'_>,
    side: Side,
    ratio: DepthRatio,
    col: &Column,
    top_index: usize,
    now: i64,
) -> (r: Result<Vec<DrawCmd>, GridError>)
    requires
        old(gr).wf(),
        ds.wf(),
        ds.sparks is None,
        col.data_offset + col.size <= ds.data_width,
        col.size == NUM_SIZE,
        0 <= ratio.num <= GRID_LIMIT,
        0 <= ratio.den,
    ensures
        final(gr).wf(),
        r is Ok <==> visible_index_seq(schema.cols@, schema.cols@.len() as int).len() > 0
            && schema_valid(schema.cols@) && schema_fits(schema.cols@, ds.data_width as int),
        r matches Err(e) ==> e == (if visible_index_seq(
            schema.cols@,
            schema.cols@.len() as int,
        ).len() == 0 || !schema_valid(schema.cols@) {
            GridError::MalformedSchema
        } else {
            GridError::OutOfBounds
        }),
        *final(gr) == (GridRenderer { top_index, col_width: final(gr).col_width, ..*old(gr) }),
        r is Ok ==> final(gr).col_width == spec_calc_col_width(
            *old(gr),
            visible_index_seq(schema.cols@, schema.cols@.len() as int).len() as int,
        ),
        r matches Ok(cmds) ==> views_of(cmds@) == spec_panel(
            *final(gr),
            schema.cols@,
            *ds,
            side,
            ratio,
            *col,
            now,
        ),
{
    gr.set_top_index(top_index);
    if !assert_schema(schema) {
        return Err(GridError::MalformedSchema);
    }
    match gr.calc_col_width(schema) {
        Ok(()) => (),
        Err(e) => {
            return Err(e);
        },
    }
    if !schema_fits_check(schema, ds.data_width) {
        return Err(GridError::OutOfBounds);
    }
    let mut cmds = gr.render_gridlines(schema, ds);
    let ghost after_grid = views_of(cmds@);
    cmds.push(gr.clip_begin());
    let ghost after_clip = views_of(cmds@);
    let mut data_cmds = gr.render_data(schema, ds, now);
    let ghost datav = views_of(data_cmds@);
    cmds.append(&mut data_cmds);
    let ghost after_data = views_of(cmds@);
    let mut pyr_cmds = render_pyramid(gr, ds, side, ratio, col);
    let ghost pyrv = views_of(pyr_cmds@);
    cmds.append(&mut pyr_cmds);
    let ghost after_pyr = views_of(cmds@);
    let mut head_cmds = gr.render_header(schema);
    let ghost headv = views_of(head_cmds@);
    cmds.append(&mut head_cmds);
    cmds.push(gr.clip_end());
    proof {
        assert(after_clip =~= after_grid.push(spec_clip_begin(*gr)));
        assert(after_data =~= after_clip + datav);
        assert(after_pyr =~= after_data + pyrv);
        assert(views_of(cmds@) =~= (after_pyr + headv).push(DrawCmdV::ClipEnd));
        assert(views_of(cmds@) =~= spec_panel(*gr, schema.cols@, *ds, side, ratio, *col, now));
    }
    Ok(cmds)
}

/// `c` is the first column of the schema whose id names the cumulative size.
pub open spec fn is_cum_col(cols: Seq<Column>, c: Column) -> bool {
    exists|i: int|
        0 <= i < cols.len() && cols[i] == c && cols[i].id@ == "cumSize"@ && (forall|j: int|
            0 <= j < i ==> cols[j].id@ != "cumSize"@)
}

/// At most one column is the first with the cumulative-size id.
pub proof fn lemma_cum_col_unique(cols: Seq<Column>, a: Column, b: Column)
    requires
        is_cum_col(cols, a),
        is_cum_col(cols, b),
    ensures
        a == b,
{
    let ia = choose|i: int|
        0 <= i < cols.len() && cols[i] == a && cols[i].id@ == "cumSize"@ && (forall|j: int|
            0 <= j < i ==> cols[j].id@ != "cumSize"@);
    let ib = choose|i: int|
        0 <= i < cols.len() && cols[i] == b && cols[i].id@ == "cumSize"@ && (forall|j: int|
            0 <= j < i ==> cols[j].id@ != "cumSize"@);
    if ia < ib {
        assert(cols[ia].id@ != "cumSize"@);
    }
    if ib < ia {
        assert(cols[ib].id@ != "cumSize"@);
    }
}

/// What a book frame paints: the bid panel, then the ask panel, both scaled
/// by the shared depth ratio.
pub open spec fn spec_dob_cmds(
    s_b: GridRenderer,
    s_a: GridRenderer,
    cols_b: Seq<Column>,
    cols_a: Seq<Column>,
    ds_b: DataSource<'_>,
    ds_a: DataSource<'_>,
    cum: Column,
    now: i64,
) -> Seq<DrawCmdV> {
    let ratio = spec_calc_ratio(ds_b, ds_a, s_b.spec_client_width(), cum);
    spec_panel(s_b, cols_b, ds_b, Side::Bid, ratio, cum, now) + spec_panel(
        s_a,
        cols_a,
        ds_a,
        Side::Ask,
        ratio,
        cum,
        now,
    )
}

/// The depth-of-book widget: the installed bid schema, its mirrored ask
/// schema, and the virtualized top row index.
pub struct DOB {
    pub id: String,
    pub bid_schema: Schema,
    pub ask_schema: Schema,
    pub top_index: usize,
}

impl DOB {
    /// The widget invariant: a well-formed, normalized bid schema, and an
    /// ask schema that mirrors it — the same columns reversed, left aligned,
    /// their byte offsets untouched (both panels decode the same row
    /// layout).
    pub open spec fn wf(self) -> bool {
        let b = self.bid_schema.cols@;
        let a = self.ask_schema.cols@;
        &&& schema_valid(b)
        &&& schema_normalized(b)
        &&& a.len() == b.len()
        &&& (forall|k: int|
            0 <= k < a.len() ==> #[trigger] a[k] == (Column {
                align: Align::Left,
                ..b[b.len() - 1 - k]
            }))
    }

    /// Installs the schema: assigns the byte offsets, rejects a malformed
    /// column list, and mirrors the columns for the ask panel.
    pub fn new(id: String, cols: Vec<Column>) -> (r: Result<DOB, GridError>)
        ensures
            r matches Ok(d) ==> {
                &&& d.wf()
                &&& d.id@ == id@
                &&& d.top_index == 0
                &&& d.bid_schema.cols@.len() == cols@.len()
                &&& (forall|i: int|
                    0 <= i < cols@.len() ==> #[trigger] d.bid_schema.cols@[i] == (Column {
                        data_offset: size_prefix_sum(cols@, i) as usize,
                        ..cols@[i]
                    }))
            },
            r is Ok <==> schema_valid(cols@) && size_prefix_sum(cols@, cols@.len() as int)
                <= usize::MAX,
            r matches Err(e) ==> e == GridError::MalformedSchema,
    {
        let mut bid_schema = Schema { cols };
        match row_stride(&bid_schema) {
            Some(_) => (),
            None => {
                return Err(GridError::MalformedSchema);
            },
        }
        match normalize_schema(&mut bid_schema) {
            Ok(()) => (),
            Err(e) => {
                return Err(e);
            },
        }
        let n = bid_schema.cols.len();
        let mut ask_cols: Vec<Column> = Vec::new();
        let mut k: usize = 0;
        while k < n
            invariant
                n == bid_schema.cols@.len(),
                k <= n,
                ask_cols@.len() == k,
                forall|j: int|
                    0 <= j < k ==> #[trigger] ask_cols@[j] == (Column {
                        align: Align::Left,
                        ..bid_schema.cols@[n - 1 - j]
                    }),
            decreases n - k,
        {
            let mut c = bid_schema.cols[n - 1 - k].duplicate();
            c.align = Align::Left;
            ask_cols.push(c);
            k += 1;
        }
        Ok(DOB { id, bid_schema, ask_schema: Schema { cols: ask_cols }, top_index: 0 })
    }

    /// Sets the first data row shown on the next frame.
    pub fn set_top_index(&mut self, top_index: usize)
        ensures
            *final(self) == (DOB { top_index, ..*old(self) }),
    {
        self.top_index = top_index;
    }

    /// Renders one book frame: two half-width panels side by side over the
    /// shared depth scale.  A misaligned buffer, a missing cumulative-size
    /// column, a schema that reaches past the stride or one with no visible
    /// column rejects the frame before anything is painted.
    pub fn render(
        &self,
        bids: Vec<u8>,
        asks: Vec<u8>,
        data_width: usize,
        left: i64,
        top: i64,
        width: i64,
        height: i64,
        now: i64,
    ) -> (r: Result<Vec<DrawCmd>, GridError>)
        requires
            self.wf(),
            0 <= left,
            0 <= top <= GRID_LIMIT,
            0 <= width <= GRID_LIMIT,
            0 <= height <= GRID_LIMIT,
            left + width / 2 + 1 <= GRID_LIMIT,
        ensures
            r is Ok <==> {
                &&& data_width > 0
                &&& (bids@.len() as int) % (data_width as int) == 0
                &&& (asks@.len() as int) % (data_width as int) == 0
                &&& (exists|c: Column| is_cum_col(self.bid_schema.cols@, c) && #[trigger] c.size
                    == NUM_SIZE)
                &&& schema_fits(self.bid_schema.cols@, data_width as int)
                &&& schema_fits(self.ask_schema.cols@, data_width as int)
                &&& visible_index_seq(
                    self.bid_schema.cols@,
                    self.bid_schema.cols@.len() as int,
                ).len() > 0
                &&& visible_index_seq(
                    self.ask_schema.cols@,
                    self.ask_schema.cols@.len() as int,
                ).len() > 0
            },
            r matches Err(e) ==> {
                let aligned = data_width > 0 && (bids@.len() as int) % (data_width as int) == 0
                    && (asks@.len() as int) % (data_width as int) == 0;
                let hascum = exists|c: Column|
                    is_cum_col(self.bid_schema.cols@, c) && #[trigger] c.size == NUM_SIZE;
                let fits = schema_fits(self.bid_schema.cols@, data_width as int) && schema_fits(
                    self.ask_schema.cols@,
                    data_width as int,
                );
                e == (if !aligned {
                    GridError::MisalignedBuffer
                } else if !hascum {
                    GridError::MalformedSchema
                } else if !fits {
                    GridError::OutOfBounds
                } else {
                    GridError::MalformedSchema
                })
            },
            r matches Ok(cmds) ==> exists|cum: Column, dsb: DataSource<'_>, dsa: DataSource<'_>|
                {
                    &&& is_cum_col(self.bid_schema.cols@, cum)
                    &&& dsb.data@ == bids@ && dsb.data_width == data_width && dsb.row_count
                        == bids@.len() as int / (data_width as int) && dsb.sparks is None
                    &&& dsa.data@ == asks@ && dsa.data_width == data_width && dsa.row_count
                        == asks@.len() as int / (data_width as int) && dsa.sparks is None
                    &&& views_of(cmds@) == #[trigger] spec_dob_cmds(
                        spec_panel_state(left, top, width, height, *self, Side::Bid),
                        spec_panel_state(left, top, width, height, *self, Side::Ask),
                        self.bid_schema.cols@,
                        self.ask_schema.cols@,
                        dsb,
                        dsa,
                        cum,
                        now,
                    )
                },
    {
        let ds_b = match DataSource::new(bids, data_width, None) {
            Ok(d) => d,
            Err(e) => {
                return Err(e);
            },
        };
        let ds_a = match DataSource::new(asks, data_width, None) {
            Ok(d) => d,
            Err(e) => {
                return Err(e);
            },
        };
        let half: i64 = ((width as u64) / 2) as i64;
        let mut bid_gr = GridRenderer::new(left, top, half, height);
        let mut ask_gr = GridRenderer::new(left + half + 1, top, half, height);
        let key = <String as vstd::string::StringExecFns>::from_str("cumSize");
        let cum = match self.bid_schema.get_col_by_id(&key) {
            Some(c) => c,
            None => {
                proof {
                    assert forall|c: Column| !is_cum_col(self.bid_schema.cols@, c) by {
                        if is_cum_col(self.bid_schema.cols@, c) {
                            let i = choose|i: int|
                                0 <= i < self.bid_schema.cols@.len() && self.bid_schema.cols@[i]
                                    == c && self.bid_schema.cols@[i].id@ == "cumSize"@ && (forall|
                                j: int,
                            |
                                    0 <= j < i ==> self.bid_schema.cols@[j].id@ != "cumSize"@);
                            assert(self.bid_schema.cols@[i].id@ != key@);
                        }
                    }
                }
                return Err(GridError::MalformedSchema);
            },
        };
        proof {
            assert(is_cum_col(self.bid_schema.cols@, *cum));
        }
        if cum.size != NUM_SIZE {
            proof {
                assert forall|c: Column|
                    !(is_cum_col(self.bid_schema.cols@, c) && c.size == NUM_SIZE) by {
                    if is_cum_col(self.bid_schema.cols@, c) {
                        lemma_cum_col_unique(self.bid_schema.cols@, c, *cum);
                    }
                }
            }
            return Err(GridError::MalformedSchema);
        }
        if !schema_fits_check(&self.bid_schema, data_width) {
            return Err(GridError::OutOfBounds);
        }
        if !schema_fits_check(&self.ask_schema, data_width) {
            return Err(GridError::OutOfBounds);
        }
        proof {
            let iw = choose|i: int|
                0 <= i < self.bid_schema.cols@.len() && self.bid_schema.cols@[i] == *cum
                    && self.bid_schema.cols@[i].id@ == key@ && (forall|j: int|
                    0 <= j < i ==> self.bid_schema.cols@[j].id@ != key@);
            assert(self.bid_schema.cols@[iw] == *cum);
            assert(cum.data_offset + cum.size <= data_width);
        }
        let ratio = calc_bid_ask_ratio(&ds_b, &ds_a, bid_gr.client_width(), cum);
        let cmds_b = match render_panel(
            &mut bid_gr,
            &self.bid_schema,
            &ds_b,
            Side::Bid,
            ratio,
            cum,
            self.top_index,
            now,
        ) {
            Ok(c) => c,
            Err(e) => {
                return Err(e);
            },
        };
        let cmds_a = match render_panel(
            &mut ask_gr,
            &self.ask_schema,
            &ds_a,
            Side::Ask,
            ratio,
            cum,
            self.top_index,
            now,
        ) {
            Ok(c) => c,
            Err(e) => {
                return Err(e);
            },
        };
        let mut cmds = cmds_b;
        let mut rest = cmds_a;
        let ghost bv = views_of(cmds@);
        let ghost av = views_of(rest@);
        cmds.append(&mut rest);
        proof {
            assert(views_of(cmds@) =~= bv + av);
            let sb = spec_panel_state(left, top, width, height, *self, Side::Bid);
            let sa = spec_panel_state(left, top, width, height, *self, Side::Ask);
            assert(bid_gr == sb);
            assert(ask_gr == sa);
            assert(ratio == spec_calc_ratio(ds_b, ds_a, sb.spec_client_width(), *cum));
            assert(views_of(cmds@) == spec_dob_cmds(
                sb,
                sa,
                self.bid_schema.cols@,
                self.ask_schema.cols@,
                ds_b,
                ds_a,
                *cum,
                now,
            ));
        }
        Ok(cmds)
    }
}

/// The renderer state a side's panel renders with: the bid panel over the
/// left half of the viewport, the ask panel over the right half, one pixel
/// past the middle.
pub open spec fn spec_panel_state(
    left: i64,
    top: i64,
    width: i64,
    height: i64,
    d: DOB,
    side: Side,
) -> GridRenderer {
    let half = (width as int) / 2;
    let cols = if side == Side::Bid {
        d.bid_schema.cols@
    } else {
        d.ask_schema.cols@
    };
    let base = GridRenderer {
        left: (if side == Side::Bid {
            left as int
        } else {
            left + half + 1
        }) as i64,
        top,
        width: half as i64,
        height,
        row_height: crate::renderer::ROW_HEIGHT,
        margin: crate::renderer::MARGIN,
        col_width: 0i64,
        top_index: 0usize,
    };
    GridRenderer {
        col_width: spec_calc_col_width(
            base,
            visible_index_seq(cols, cols.len() as int).len() as int,
        ) as i64,
        top_index: d.top_index,
        ..base
    }
}

} // verus!
