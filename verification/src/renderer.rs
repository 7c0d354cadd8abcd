//! The layout engine and per-cell rendering pipeline.
//!
//! Given a pixel viewport and a normalized schema, the renderer computes the
//! column width and every cell's place, then emits the frame's commands:
//! background and content fills, one vertical gridline per visible column
//! boundary (the trailing boundary included), one horizontal gridline per
//! row boundary capped at the data extent, the clipped pass of cell text
//! with recency highlights and sparklines, and the header row.
//!
//! Command coordinates are half-pixels (see [`crate::cmd`]); the geometry
//! methods below return half-pixel values, while stored fields and column
//! widths are whole pixels.

use vstd::prelude::*;

use crate::cell::{is_time_type, spec_format_value, CellText, CellTextV};
use crate::cmd::{views_of, DrawCmd, DrawCmdV, PaintColor};
use crate::codec::{be_u64_of, double_to_i64, double_trunc, NUM_SIZE};
use crate::ds::{cell_bytes, spec_cell_index, trim_nul, utf8_lossy_of, DataSource};
use crate::schema::{
    col_valid, lemma_first_by_type_none, lemma_first_by_type_some, lemma_visible_index_bounds,
    schema_fits, schema_fits_check, schema_valid, spec_first_by_type, visible_index_seq, Align,
    Column, ColumnType, Schema,
};
use crate::sparkline::{
    seg_in_range, spec_spark_render, seq_max, seq_min, SparkColor, SparkSeg, Sparkline,
    COORD_LIMIT, SAMPLE_LIMIT, SPARK_MARGIN,
};
use crate::GridError;

verus! {

/// Rows reserved for the header: the first data row renders below them.
pub const HEADER_LINES: usize = 1;

/// Milliseconds within which a timestamped row counts as fresh.
pub const HIGHLIGHT_DURATION: i64 = 100;

/// Default row height, in pixels.
pub const ROW_HEIGHT: i64 = 40;

/// Default viewport margin, in pixels.
pub const MARGIN: i64 = 0;

/// Columns never shrink below this width, in pixels.
pub const MIN_COL_WIDTH: i64 = 100;

/// Horizontal text padding inside a cell, in pixels.
pub const TEXT_PAD: i64 = 10;

/// Pixel coordinates handed to the renderer stay within this bound.
pub const GRID_LIMIT: i64 = 1_000_000;

/// A row is fresh when its timestamp lies within the threshold before `now`;
/// both are milliseconds since the epoch, sampled once per frame.
pub open spec fn spec_is_highlighted(now: i64, time: i64, threshold: i64) -> bool {
    now - time <= threshold
}

/// Whether a cell timestamped `time` is fresh at time `now`, at the default
/// threshold.
pub fn is_highlighted(now: i64, time: i64) -> (r: bool)
    ensures
        r == spec_is_highlighted(now, time, HIGHLIGHT_DURATION),
{
    (now as i128) - (time as i128) <= HIGHLIGHT_DURATION as i128
}

/// The layout engine: viewport geometry in pixels, plus the computed column
/// width and the virtualized top row index.
#[derive(Debug)]
pub struct GridRenderer {
    pub left: i64,
    pub top: i64,
    pub width: i64,
    pub height: i64,
    pub row_height: i64,
    pub margin: i64,
    /// Computed by `calc_col_width` before each pass.
    pub col_width: i64,
    /// The first data row shown, for virtualized scrolling.
    pub top_index: usize,
}

impl GridRenderer {
    /// The geometry bounds under which the layout arithmetic is exact.
    pub open spec fn wf(self) -> bool {
        &&& 0 <= self.left <= GRID_LIMIT
        &&& 0 <= self.top <= GRID_LIMIT
        &&& 0 <= self.margin
        &&& 2 * self.margin <= self.width <= GRID_LIMIT
        &&& 2 * self.margin <= self.height <= GRID_LIMIT
        &&& 1 <= self.row_height <= GRID_LIMIT
        &&& 0 <= self.col_width <= GRID_LIMIT
    }

    /// A renderer for the viewport, with the default row height and margin;
    /// the column width is computed per pass.
    pub fn new(left: i64, top: i64, width: i64, height: i64) -> (r: GridRenderer)
        requires
            0 <= left <= GRID_LIMIT,
            0 <= top <= GRID_LIMIT,
            0 <= width <= GRID_LIMIT,
            0 <= height <= GRID_LIMIT,
        ensures
            r == (GridRenderer {
                left,
                top,
                width,
                height,
                row_height: ROW_HEIGHT,
                margin: MARGIN,
                col_width: 0i64,
                top_index: 0usize,
            }),
            r.wf(),
    {
        GridRenderer {
            left,
            top,
            width,
            height,
            row_height: ROW_HEIGHT,
            margin: MARGIN,
            col_width: 0,
            top_index: 0,
        }
    }

    /// Sets the first data row shown.
    pub fn set_top_index(&mut self, top_index: usize)
        ensures
            *final(self) == (GridRenderer { top_index, ..*old(self) }),
    {
        self.top_index = top_index;
    }

    /// The content width in pixels: the viewport minus both margins.
    pub open spec fn spec_client_width(self) -> int {
        self.width - 2 * self.margin
    }

    /// The content height in pixels: the viewport minus both margins.
    pub open spec fn spec_client_height(self) -> int {
        self.height - 2 * self.margin
    }

    /// The left edge of the content area, on the pixel center (half-pixels).
    pub open spec fn spec_left(self) -> int {
        2 * (self.left + self.margin) + 1
    }

    /// The top edge of the content area, on the pixel center (half-pixels).
    pub open spec fn spec_top(self) -> int {
        2 * (self.top + self.margin) + 1
    }

    /// The right edge of the content area, on the pixel center (half-pixels).
    pub open spec fn spec_right(self) -> int {
        2 * (self.left + self.width - self.margin) - 1
    }

    /// The bottom edge of the content area, on the pixel center (half-pixels).
    pub open spec fn spec_bottom(self) -> int {
        2 * (self.top + self.height - self.margin) - 1
    }

    /// The vertical center line of the content area (half-pixels): the left
    /// edge plus the client width rounded to the nearest whole pixel.
    pub open spec fn spec_mid(self) -> int {
        self.spec_left() + 2 * ((self.spec_client_width() + 1) / 2)
    }

    /// The x of visible column `ci`'s left boundary (half-pixels).
    pub open spec fn spec_get_x(self, ci: int) -> int {
        self.spec_left() + 2 * (ci * self.col_width)
    }

    /// The y of row line `ri` (half-pixels); the header occupies line zero.
    pub open spec fn spec_get_y(self, ri: int) -> int {
        self.spec_top() + 2 * (ri * self.row_height)
    }

    /// Where gridlines stop (half-pixels): the content bottom capped at the
    /// extent of the data rows, a half pixel above the last row boundary.
    pub open spec fn spec_data_bottom(self, rows: int) -> int {
        let cap = self.top + self.height - self.margin - 1;
        let ext = self.top + (rows + HEADER_LINES) * self.row_height;
        2 * (if cap <= ext {
            cap
        } else {
            ext
        }) - 1
    }

    /// The content width in pixels.
    pub fn client_width(&self) -> (r: i64)
        requires
            self.wf(),
        ensures
            r == self.spec_client_width(),
    {
        self.width - 2 * self.margin
    }

    /// The content height in pixels.
    pub fn client_height(&self) -> (r: i64)
        requires
            self.wf(),
        ensures
            r == self.spec_client_height(),
    {
        self.height - 2 * self.margin
    }

    /// The computed column width in pixels.
    pub fn col_width(&self) -> (r: i64)
        ensures
            r == self.col_width,
    {
        self.col_width
    }

    /// The left edge of the content area (half-pixels).
    pub fn left(&self) -> (r: i64)
        requires
            self.wf(),
        ensures
            r == self.spec_left(),
    {
        2 * (self.left + self.margin) + 1
    }

    /// The top edge of the content area (half-pixels).
    pub fn top(&self) -> (r: i64)
        requires
            self.wf(),
        ensures
            r == self.spec_top(),
    {
        2 * (self.top + self.margin) + 1
    }

    /// The right edge of the content area (half-pixels).
    pub fn right(&self) -> (r: i64)
        requires
            self.wf(),
        ensures
            r == self.spec_right(),
    {
        2 * (self.left + self.width - self.margin) - 1
    }

    /// The bottom edge of the content area (half-pixels).
    pub fn bottom(&self) -> (r: i64)
        requires
            self.wf(),
        ensures
            r == self.spec_bottom(),
    {
        2 * (self.top + self.height - self.margin) - 1
    }

    /// The vertical center line of the content area (half-pixels).
    pub fn mid(&self) -> (r: i64)
        requires
            self.wf(),
        ensures
            r == self.spec_mid(),
    {
        let cw = self.client_width();
        2 * (self.left + self.margin) + 1 + 2 * ((cw + 1) / 2)
    }

    /// The x of visible column `ci`'s left boundary (half-pixels).
    pub fn get_x(&self, ci: usize) -> (r: i64)
        requires
            self.wf(),
            0 <= (ci as int) * (self.col_width as int) <= 2 * GRID_LIMIT,
        ensures
            r == self.spec_get_x(ci as int),
    {
        proof {
            vstd::arithmetic::mul::lemma_mul_nonnegative(ci as int, self.col_width as int);
        }
        let prod: i64 = mul_i64_bounded(ci, self.col_width);
        2 * (self.left + self.margin) + 1 + 2 * prod
    }

    /// The y of row line `ri` (half-pixels).
    pub fn get_y(&self, ri: usize) -> (r: i64)
        requires
            self.wf(),
            0 <= (ri as int) * (self.row_height as int) <= 2 * GRID_LIMIT,
        ensures
            r == self.spec_get_y(ri as int),
    {
        proof {
            vstd::arithmetic::mul::lemma_mul_nonnegative(ri as int, self.row_height as int);
        }
        let prod: i64 = mul_i64_bounded(ri, self.row_height);
        2 * (self.top + self.margin) + 1 + 2 * prod
    }

    /// Where gridlines stop for `rows` data rows (half-pixels).
    pub fn data_bottom(&self, rows: usize) -> (r: i64)
        requires
            self.wf(),
        ensures
            r == self.spec_data_bottom(rows as int),
    {
        let cap: i64 = self.top + self.height - self.margin - 1;
        if rows >= GRID_LIMIT as usize {
            proof {
                vstd::arithmetic::mul::lemma_mul_inequality(
                    GRID_LIMIT as int + HEADER_LINES,
                    rows as int + HEADER_LINES,
                    self.row_height as int,
                );
                assert((GRID_LIMIT as int + HEADER_LINES) * self.row_height >= (GRID_LIMIT as int
                    + HEADER_LINES) * 1) by (nonlinear_arith)
                    requires
                        self.row_height >= 1,
                ;
            }
            return 2 * cap - 1;
        }
        proof {
            vstd::arithmetic::mul::lemma_mul_nonnegative(
                rows as int + HEADER_LINES,
                self.row_height as int,
            );
            vstd::arithmetic::mul::lemma_mul_upper_bound(
                rows as int + HEADER_LINES,
                GRID_LIMIT as int + HEADER_LINES,
                self.row_height as int,
                GRID_LIMIT as int,
            );
        }
        let ext: i64 = self.top + ((rows + HEADER_LINES) as i64) * self.row_height;
        if cap <= ext {
            2 * cap - 1
        } else {
            2 * ext - 1
        }
    }

    /// Computes the column width for the pass: the client width shared evenly
    /// by the visible columns, never below the minimum.  A schema with no
    /// visible column is malformed.
    pub fn calc_col_width(&mut self, schema: &Schema) -> (r: Result<(), GridError>)
        requires
            old(self).wf(),
        ensures
            r is Ok <==> crate::schema::visible_index_seq(
                schema.cols@,
                schema.cols@.len() as int,
            ).len() > 0,
            r matches Ok(()) ==> *final(self) == (GridRenderer {
                col_width: spec_calc_col_width(
                    *old(self),
                    crate::schema::visible_index_seq(
                        schema.cols@,
                        schema.cols@.len() as int,
                    ).len() as int,
                ) as i64,
                ..*old(self)
            }),
            r matches Err(e) ==> e == GridError::MalformedSchema && *final(self) == *old(self),
            final(self).wf(),
    {
        let visible = schema.get_visible_row_count();
        if visible == 0 {
            return Err(GridError::MalformedSchema);
        }
        let share: i64 = ((self.client_width() as u64) / (visible as u64)) as i64;
        proof {
            vstd::arithmetic::div_mod::lemma_div_nonincreasing(
                self.spec_client_width(),
                visible as int,
            );
            vstd::arithmetic::div_mod::lemma_div_pos_is_pos(
                self.spec_client_width(),
                visible as int,
            );
        }
        self.col_width = if share < MIN_COL_WIDTH {
            MIN_COL_WIDTH
        } else {
            share
        };
        Ok(())
    }
}

/// The column width a pass uses: the client width shared evenly by `visible`
/// columns, never below the minimum.
pub open spec fn spec_calc_col_width(s: GridRenderer, visible: int) -> int
    recommends
        visible > 0,
{
    let share = s.spec_client_width() / visible;
    if share < MIN_COL_WIDTH {
        MIN_COL_WIDTH as int
    } else {
        share
    }
}

/// A fill-rectangle command value.
pub open spec fn rect_v(x: int, y: int, w: int, h: int, color: PaintColor) -> DrawCmdV {
    DrawCmdV::FillRect { x: x as i64, y: y as i64, w: w as i64, h: h as i64, color }
}

/// A line command value.
pub open spec fn line_v(x1: int, y1: int, x2: int, y2: int, color: PaintColor) -> DrawCmdV {
    DrawCmdV::Line { x1: x1 as i64, y1: y1 as i64, x2: x2 as i64, y2: y2 as i64, color }
}

/// A text command value.
pub open spec fn text_v(content: CellTextV, x: int, y: int, align: Align) -> DrawCmdV {
    DrawCmdV::Text { content, x: x as i64, y: y as i64, align }
}

/// What clearing paints: the backdrop over the whole viewport, then the
/// content area inside the margin.
pub open spec fn spec_clear(s: GridRenderer) -> Seq<DrawCmdV> {
    seq![
        rect_v(2 * s.left, 2 * s.top, 2 * s.width, 2 * s.height, PaintColor::Background),
        rect_v(
            s.spec_left(),
            s.spec_top(),
            2 * s.spec_client_width(),
            2 * s.spec_client_height(),
            PaintColor::ContentArea,
        ),
    ]
}

/// The data rows at or after the top index.
pub open spec fn spec_rows_left(s: GridRenderer, row_count: int) -> int {
    if s.top_index >= row_count {
        0
    } else {
        row_count - s.top_index
    }
}

/// The vertical gridlines from column boundary `ci` on: one per visible
/// column boundary inside the right edge, the trailing boundary after the
/// last column included, each from the top down to `last_y`.
pub open spec fn spec_vlines(s: GridRenderer, vis: int, last_y: int, ci: int) -> Seq<DrawCmdV>
    decreases vis + 1 - ci,
{
    if ci > vis {
        Seq::empty()
    } else if s.spec_get_x(ci) < s.spec_right() {
        seq![
            line_v(s.spec_get_x(ci), s.spec_top(), s.spec_get_x(ci), last_y, PaintColor::GridLine),
        ] + spec_vlines(s, vis, last_y, ci + 1)
    } else {
        Seq::empty()
    }
}

/// The horizontal gridlines from row line `ri` on: one per row boundary
/// above the bottom edge, up to one line past the data rows and the header.
pub open spec fn spec_hlines(s: GridRenderer, rows_left: int, ri: int) -> Seq<DrawCmdV>
    decreases rows_left + 2 - ri,
{
    if ri > rows_left + HEADER_LINES || s.spec_get_y(ri) >= s.spec_bottom() {
        Seq::empty()
    } else {
        seq![
            line_v(s.spec_left(), s.spec_get_y(ri), s.spec_right(), s.spec_get_y(ri), PaintColor::GridLine),
        ] + spec_hlines(s, rows_left, ri + 1)
    }
}

/// What the gridline pass paints: the clear fills, the vertical lines capped
/// at the data extent, the horizontal lines, and the explicit bottom and
/// right border lines.
pub open spec fn spec_gridlines(s: GridRenderer, vis: int, rows_left: int) -> Seq<DrawCmdV> {
    spec_clear(s) + spec_vlines(s, vis, s.spec_data_bottom(rows_left), 0) + spec_hlines(
        s,
        rows_left,
        0,
    ) + seq![
        line_v(s.spec_left(), s.spec_bottom(), s.spec_right(), s.spec_bottom(), PaintColor::GridLine),
        line_v(s.spec_right(), s.spec_top(), s.spec_right(), s.spec_bottom(), PaintColor::GridLine),
    ]
}

impl GridRenderer {
    /// Paints the backdrop and the content area; see [`spec_clear`].
    pub fn clear(&self) -> (cmds: Vec<DrawCmd>)
        requires
            self.wf(),
        ensures
            views_of(cmds@) == spec_clear(*self),
    {
        let mut cmds: Vec<DrawCmd> = Vec::new();
        cmds.push(
            DrawCmd::FillRect {
                x: 2 * self.left,
                y: 2 * self.top,
                w: 2 * self.width,
                h: 2 * self.height,
                color: PaintColor::Background,
            },
        );
        cmds.push(
            DrawCmd::FillRect {
                x: self.left(),
                y: self.top(),
                w: 2 * self.client_width(),
                h: 2 * self.client_height(),
                color: PaintColor::ContentArea,
            },
        );
        proof {
            assert(views_of(cmds@) =~= spec_clear(*self));
        }
        cmds
    }

    /// Paints the frame's gridlines; see [`spec_gridlines`].  The vertical
    /// lines stop at the extent of the data rows below the top index.
    pub fn render_gridlines(&self, schema: &Schema, ds: &DataSource) -> (cmds: Vec<DrawCmd>)
        requires
            self.wf(),
        ensures
            views_of(cmds@) == spec_gridlines(
                *self,
                crate::schema::visible_index_seq(schema.cols@, schema.cols@.len() as int).len()
                    as int,
                spec_rows_left(*self, ds.row_count as int),
            ),
    {
        let rows_left: usize = if self.top_index >= ds.row_count {
            0
        } else {
            ds.row_count - self.top_index
        };
        let vis = schema.get_visible_row_count();
        let mut cmds = self.clear();
        let last_y = self.data_bottom(rows_left);
        let ghost s = *self;
        let ghost base1 = views_of(cmds@);
        let ghost sv0 = spec_vlines(s, vis as int, last_y as int, 0);

        let mut ci: usize = 0;
        let mut stop = false;
        while ci < vis && !stop
            invariant
                s == *self,
                s.wf(),
                ci <= vis,
                last_y == s.spec_data_bottom(spec_rows_left(s, ds.row_count as int)),
                0 <= (ci as int) * (s.col_width as int) <= 2 * GRID_LIMIT,
                base1 + sv0 == views_of(cmds@) + (if stop {
                    Seq::<DrawCmdV>::empty()
                } else {
                    spec_vlines(s, vis as int, last_y as int, ci as int)
                }),
            decreases vis - ci + (if stop {
                0int
            } else {
                1
            }),
        {
            let x = self.get_x(ci);
            if x < self.right() {
                let ghost pre = views_of(cmds@);
                cmds.push(
                    DrawCmd::Line {
                        x1: x,
                        y1: self.top(),
                        x2: x,
                        y2: last_y,
                        color: PaintColor::GridLine,
                    },
                );
                proof {
                    let lv = line_v(
                        s.spec_get_x(ci as int),
                        s.spec_top(),
                        s.spec_get_x(ci as int),
                        last_y as int,
                        PaintColor::GridLine,
                    );
                    assert(views_of(cmds@) =~= pre.push(lv));
                    assert(pre.push(lv) + spec_vlines(s, vis as int, last_y as int, ci + 1) =~= pre
                        + (seq![lv] + spec_vlines(s, vis as int, last_y as int, ci + 1)));
                    assert(((ci + 1) as int) * s.col_width == (ci as int) * s.col_width
                        + s.col_width) by (nonlinear_arith);
                }
                ci += 1;
            } else {
                stop = true;
            }
        }
        if !stop {
            let x = self.get_x(ci);
            if x < self.right() {
                let ghost pre = views_of(cmds@);
                cmds.push(
                    DrawCmd::Line {
                        x1: x,
                        y1: self.top(),
                        x2: x,
                        y2: last_y,
                        color: PaintColor::GridLine,
                    },
                );
                proof {
                    let lv = line_v(
                        s.spec_get_x(ci as int),
                        s.spec_top(),
                        s.spec_get_x(ci as int),
                        last_y as int,
                        PaintColor::GridLine,
                    );
                    assert(views_of(cmds@) =~= pre.push(lv));
                    assert(pre.push(lv) =~= pre + seq![lv]);
                    assert(spec_vlines(s, vis as int, last_y as int, vis + 1) =~= Seq::<
                        DrawCmdV,
                    >::empty());
                }
            }
        }
        let ghost base2 = base1 + sv0;
        proof {
            assert(base2 == views_of(cmds@));
        }

        let mut ri: usize = 0;
        let mut hstop = false;
        while !hstop
            invariant
                s == *self,
                s.wf(),
                base2 == base1 + sv0,
                0 <= (ri as int) * (s.row_height as int) <= 2 * GRID_LIMIT,
                ri <= spec_rows_left(s, ds.row_count as int) + HEADER_LINES + 1,
                base2 + spec_hlines(s, spec_rows_left(s, ds.row_count as int), 0) == views_of(
                    cmds@,
                ) + (if hstop {
                    Seq::<DrawCmdV>::empty()
                } else {
                    spec_hlines(s, spec_rows_left(s, ds.row_count as int), ri as int)
                }),
            decreases spec_rows_left(s, ds.row_count as int) + 2 - ri + (if hstop {
                0int
            } else {
                1
            }),
        {
            let y = self.get_y(ri);
            let within: bool = if self.top_index >= ds.row_count {
                ri <= HEADER_LINES
            } else {
                ri <= ds.row_count - self.top_index || ri - (ds.row_count - self.top_index)
                    <= HEADER_LINES
            };
            if y < self.bottom() && within {
                let ghost pre = views_of(cmds@);
                cmds.push(
                    DrawCmd::Line {
                        x1: self.left(),
                        y1: y,
                        x2: self.right(),
                        y2: y,
                        color: PaintColor::GridLine,
                    },
                );
                proof {
                    let rl = spec_rows_left(s, ds.row_count as int);
                    let lv = line_v(
                        s.spec_left(),
                        s.spec_get_y(ri as int),
                        s.spec_right(),
                        s.spec_get_y(ri as int),
                        PaintColor::GridLine,
                    );
                    assert(views_of(cmds@) =~= pre.push(lv));
                    assert(pre.push(lv) + spec_hlines(s, rl, ri + 1) =~= pre + (seq![lv]
                        + spec_hlines(s, rl, ri + 1)));
                    assert(((ri + 1) as int) * s.row_height == (ri as int) * s.row_height
                        + s.row_height) by (nonlinear_arith);
                    assert((ri as int) * 1 <= (ri as int) * (s.row_height as int))
                        by (nonlinear_arith)
                        requires
                            s.row_height >= 1,
                            ri as int >= 0,
                    ;
                }
                ri += 1;
            } else {
                hstop = true;
            }
        }

        let ghost pre_b = views_of(cmds@);
        cmds.push(
            DrawCmd::Line {
                x1: self.left(),
                y1: self.bottom(),
                x2: self.right(),
                y2: self.bottom(),
                color: PaintColor::GridLine,
            },
        );
        cmds.push(
            DrawCmd::Line {
                x1: self.right(),
                y1: self.top(),
                x2: self.right(),
                y2: self.bottom(),
                color: PaintColor::GridLine,
            },
        );
        proof {
            assert(views_of(cmds@) =~= spec_gridlines(
                s,
                crate::schema::visible_index_seq(schema.cols@, schema.cols@.len() as int).len()
                    as int,
                spec_rows_left(s, ds.row_count as int),
            ));
        }
        cmds
    }
}

/// Every stored sparkline sample stays within the sample limit, so segment
/// arithmetic stays exact.
pub open spec fn sparks_bounded(ds: DataSource<'_>) -> bool {
    ds.sparks matches Some(m) ==> forall|k: u64|
        #[trigger] m@.contains_key(k) ==> forall|j: int|
            0 <= j < m@[k]@.len() ==> -SAMPLE_LIMIT <= #[trigger] m@[k]@[j] <= SAMPLE_LIMIT
}

/// The bit pattern of a numeric cell: its eight bytes decoded big-endian.
pub open spec fn spec_cell_bits(ds: DataSource<'_>, row: int, col: Column) -> u64 {
    let idx = spec_cell_index(ds.data_width as int, col.data_offset as int, row);
    be_u64_of(ds.data@.subrange(idx, idx + NUM_SIZE))
}

/// The characters of a text cell: its bytes, NUL padding trimmed, decoded.
pub open spec fn spec_cell_str(ds: DataSource<'_>, row: int, col: Column) -> Seq<char> {
    utf8_lossy_of(trim_nul(cell_bytes(ds, row, col)))
}

/// The paint of a sparkline segment color.
pub open spec fn spark_paint(c: SparkColor) -> PaintColor {
    match c {
        SparkColor::Red => PaintColor::SparkRed,
        SparkColor::Green => PaintColor::SparkGreen,
        SparkColor::Gray => PaintColor::SparkGray,
    }
}

/// The paint of a sparkline segment color.
pub fn spark_paint_of(c: SparkColor) -> (r: PaintColor)
    ensures
        r == spark_paint(c),
{
    match c {
        SparkColor::Red => PaintColor::SparkRed,
        SparkColor::Green => PaintColor::SparkGreen,
        SparkColor::Gray => PaintColor::SparkGray,
    }
}

/// The geometry a fresh sparkline computes for a series of two or more
/// samples inside the cell box at (`x`, `y`).
pub open spec fn spark_state_of(x: int, y: int, w: int, h: int, data: Seq<i64>) -> Sparkline
    recommends
        data.len() > 1,
{
    let mn = seq_min(data);
    let mx = seq_max(data);
    Sparkline {
        x: (x + SPARK_MARGIN) as i64,
        y: (if mx == mn {
            y + h / 2
        } else {
            y + SPARK_MARGIN
        }) as i64,
        width: (w - 2 * SPARK_MARGIN) as i64,
        height: (h - 2 * SPARK_MARGIN) as i64,
        margin: SPARK_MARGIN,
        min: mn,
        max: mx,
        range_y: (mx - mn) as i64,
        step_x: ((w - 2 * SPARK_MARGIN) / (data.len() - 1)) as i64,
    }
}

/// What a sparkline cell paints: nothing for a series of one sample or none,
/// nothing in a cell box too small to hold the inner margin, and the trend
/// segments (doubled into half-pixels) otherwise.
pub open spec fn spec_spark_cmds(x: int, y: int, w: int, h: int, data: Seq<i64>) -> Seq<DrawCmdV> {
    if data.len() <= 1 || w < 2 * SPARK_MARGIN || h < 2 * SPARK_MARGIN {
        Seq::empty()
    } else {
        spec_spark_render(spark_state_of(x, y, w, h, data), data).map_values(
            |g: SparkSeg| line_v(2 * g.x1, 2 * g.y1, 2 * g.x2, 2 * g.y2, spark_paint(g.color)),
        )
    }
}

/// The alignment a cell renders with: the column's declared alignment, else
/// left for text, center for the time types, right for numbers.
pub open spec fn spec_resolve_align(col: Column) -> Align {
    if col.align != Align::Unset {
        col.align
    } else if col.col_type == ColumnType::Text {
        Align::Left
    } else if is_time_type(col.col_type) {
        Align::Center
    } else {
        Align::Right
    }
}

/// The x a cell's text is anchored at (half-pixels): padded in from the
/// aligned edge, or the cell's center.
pub open spec fn spec_anchor_x(s: GridRenderer, x: int, a: Align) -> int {
    match a {
        Align::Right => x + 2 * s.col_width - 2 * TEXT_PAD,
        Align::Center => x + s.col_width,
        _ => x + 2 * TEXT_PAD,
    }
}

/// What one cell paints: a sparkline cell paints its series' segments; any
/// other cell paints the recency overlay when highlighted, then its text,
/// anchored in the cell and vertically centered in the row.
pub open spec fn spec_cell_cmds(
    s: GridRenderer,
    ds: DataSource<'_>,
    row: int,
    col: Column,
    x: int,
    y: int,
    hl: bool,
) -> Seq<DrawCmdV> {
    if col.col_type == ColumnType::Sparkline {
        match ds.sparks {
            Some(m) => if m@.contains_key(ds.spec_spark_key(row, col)) {
                spec_spark_cmds(
                    x / 2,
                    y / 2,
                    s.col_width as int,
                    s.row_height as int,
                    m@[ds.spec_spark_key(row, col)]@,
                )
            } else {
                Seq::empty()
            },
            None => Seq::empty(),
        }
    } else {
        let content = if col.col_type == ColumnType::Text {
            CellTextV::Str(spec_cell_str(ds, row, col))
        } else {
            spec_format_value(col, spec_cell_bits(ds, row, col))
        };
        let a = spec_resolve_align(col);
        (if hl {
            seq![rect_v(x, y, 2 * s.col_width, 2 * s.row_height, PaintColor::Overlay)]
        } else {
            Seq::<DrawCmdV>::empty()
        }) + seq![text_v(content, spec_anchor_x(s, x, a), y + s.row_height, a)]
    }
}

/// A cell of a column that fits the row stride lies inside the buffer for
/// every row before the row count.
pub proof fn lemma_cell_fits(ds: DataSource<'_>, cols: Seq<Column>, i: int, row: int)
    requires
        ds.wf(),
        schema_fits(cols, ds.data_width as int),
        0 <= i < cols.len(),
        0 <= row < ds.row_count,
    ensures
        spec_cell_index(ds.data_width as int, cols[i].data_offset as int, row) + cols[i].size
            <= ds.data@.len(),
        0 <= spec_cell_index(ds.data_width as int, cols[i].data_offset as int, row),
{
    ds.lemma_row_start(row);
}

/// Whether the row is fresh: decided by the first timestamp column's cell,
/// or never when the schema has none.
pub open spec fn spec_hl_row(cols: Seq<Column>, ds: DataSource<'_>, row: int, now: i64) -> bool {
    match spec_first_by_type(cols, ColumnType::Timestamp) {
        Some(c) => spec_is_highlighted(
            now,
            double_trunc(spec_cell_bits(ds, row, c)),
            HIGHLIGHT_DURATION,
        ),
        None => false,
    }
}

/// What one data row paints, from visible column `k` on: each cell inside
/// the right edge, in visual order.
pub open spec fn spec_row_cmds(
    s: GridRenderer,
    cols: Seq<Column>,
    vis: Seq<usize>,
    ds: DataSource<'_>,
    row: int,
    y: int,
    hl: bool,
    k: int,
) -> Seq<DrawCmdV>
    decreases vis.len() - k,
{
    if k >= vis.len() {
        Seq::empty()
    } else if s.spec_get_x(k) < s.spec_right() {
        spec_cell_cmds(
            s,
            ds,
            row,
            cols[vis[k] as int],
            s.spec_get_x(k),
            y,
            hl && cols[vis[k] as int].highlight,
        ) + spec_row_cmds(s, cols, vis, ds, row, y, hl, k + 1)
    } else {
        Seq::empty()
    }
}

/// What the data pass paints, from data row `ri` on: each row above the
/// bottom edge and before the end of the buffer, top down.
pub open spec fn spec_data_cmds(
    s: GridRenderer,
    cols: Seq<Column>,
    ds: DataSource<'_>,
    now: i64,
    ri: int,
) -> Seq<DrawCmdV>
    decreases spec_rows_left(s, ds.row_count as int) - ri,
{
    let rl = spec_rows_left(s, ds.row_count as int);
    if ri >= rl || s.spec_get_y(ri + HEADER_LINES as int) >= s.spec_bottom() {
        Seq::empty()
    } else {
        spec_row_cmds(
            s,
            cols,
            visible_index_seq(cols, cols.len() as int),
            ds,
            s.top_index + ri,
            s.spec_get_y(ri + HEADER_LINES as int),
            spec_hl_row(cols, ds, s.top_index + ri, now),
            0,
        ) + spec_data_cmds(s, cols, ds, now, ri + 1)
    }
}

/// What the header paints, from visible column `k` on: each visible column's
/// name, centered in its slot on the header line.
pub open spec fn spec_header_cmds(
    s: GridRenderer,
    cols: Seq<Column>,
    vis: Seq<usize>,
    k: int,
) -> Seq<DrawCmdV>
    decreases vis.len() - k,
{
    if k >= vis.len() {
        Seq::empty()
    } else if s.spec_get_x(k) < s.spec_right() {
        seq![
            text_v(
                CellTextV::Str(cols[vis[k] as int].name@),
                spec_anchor_x(s, s.spec_get_x(k), Align::Center),
                s.row_height as int,
                Align::Center,
            ),
        ] + spec_header_cmds(s, cols, vis, k + 1)
    } else {
        Seq::empty()
    }
}

/// The clip command for the content area.
pub open spec fn spec_clip_begin(s: GridRenderer) -> DrawCmdV {
    DrawCmdV::ClipBegin {
        x: s.spec_left() as i64,
        y: s.spec_top() as i64,
        w: (2 * s.spec_client_width()) as i64,
        h: (2 * s.spec_client_height()) as i64,
    }
}

/// What one full pass paints: gridlines, then the clipped data and header,
/// in half-pixel coordinates.
pub open spec fn spec_render(
    s: GridRenderer,
    cols: Seq<Column>,
    ds: DataSource<'_>,
    now: i64,
) -> Seq<DrawCmdV> {
    let vis = visible_index_seq(cols, cols.len() as int);
    spec_gridlines(s, vis.len() as int, spec_rows_left(s, ds.row_count as int)) + seq![
        spec_clip_begin(s),
    ] + spec_data_cmds(s, cols, ds, now, 0) + spec_header_cmds(s, cols, vis, 0) + seq![
        DrawCmdV::ClipEnd,
    ]
}

/// Law: a render pass is a function of the schema, the buffer, the viewport
/// and the sampled clock alone — two passes over the same inputs paint the
/// same commands.
pub proof fn lemma_render_idempotent(
    s: GridRenderer,
    cols: Seq<Column>,
    ds: DataSource<'_>,
    now: i64,
    a: Seq<DrawCmd>,
    b: Seq<DrawCmd>,
)
    requires
        views_of(a) == spec_render(s, cols, ds, now),
        views_of(b) == spec_render(s, cols, ds, now),
    ensures
        views_of(a) == views_of(b),
{
}

impl GridRenderer {
    /// The text command for a cell: anchored by the alignment, vertically
    /// centered in the row.
    pub fn render_text(&self, content: CellText, x: i64, y: i64, align: Align) -> (cmd: DrawCmd)
        requires
            self.wf(),
            0 <= x <= 2 * COORD_LIMIT,
            0 <= y <= 2 * COORD_LIMIT,
        ensures
            cmd@ == text_v(
                content@,
                spec_anchor_x(*self, x as int, align),
                y + self.row_height,
                align,
            ),
    {
        let ax: i64 = match align {
            Align::Right => x + 2 * self.col_width - 2 * TEXT_PAD,
            Align::Center => x + self.col_width,
            _ => x + 2 * TEXT_PAD,
        };
        DrawCmd::Text { content, x: ax, y: y + self.row_height, align }
    }

    /// Push the graphics state and clip to the content area.
    pub fn clip_begin(&self) -> (cmd: DrawCmd)
        requires
            self.wf(),
        ensures
            cmd@ == spec_clip_begin(*self),
    {
        DrawCmd::ClipBegin {
            x: self.left(),
            y: self.top(),
            w: 2 * self.client_width(),
            h: 2 * self.client_height(),
        }
    }

    /// Pop the graphics state, releasing the clip.
    pub fn clip_end(&self) -> (cmd: DrawCmd)
        ensures
            cmd@ == DrawCmdV::ClipEnd,
    {
        DrawCmd::ClipEnd
    }

    /// The segments of a sparkline cell: the series looked up by the hash of
    /// the row's text cell, rendered inside the cell box.
    fn render_sparkline(
        &self,
        ds: &DataSource<'_>,
        row: usize,
        x: i64,
        y: i64,
        col: &Column,
    ) -> (cmds: Vec<DrawCmd>)
        requires
            self.wf(),
            ds.wf(),
            sparks_bounded(*ds),
            row < ds.row_count,
            spec_cell_index(ds.data_width as int, col.data_offset as int, row as int) + col.size
                <= ds.data@.len(),
            0 <= x <= 2 * COORD_LIMIT,
            0 <= y <= 2 * COORD_LIMIT,
            MIN_COL_WIDTH <= self.col_width,
        ensures
            views_of(cmds@) == (match ds.sparks {
                Some(m) => if m@.contains_key(ds.spec_spark_key(row as int, *col)) {
                    spec_spark_cmds(
                        (x as int) / 2,
                        (y as int) / 2,
                        self.col_width as int,
                        self.row_height as int,
                        m@[ds.spec_spark_key(row as int, *col)]@,
                    )
                } else {
                    Seq::<DrawCmdV>::empty()
                },
                None => Seq::<DrawCmdV>::empty(),
            }),
    {
        let data = match ds.get_sparkline(row, col) {
            Ok(o) => o,
            Err(_) => vstd::pervasive::unreached(),
        };
        match data {
            None => {
                let cmds: Vec<DrawCmd> = Vec::new();
                proof {
                    assert(views_of(cmds@) =~= Seq::<DrawCmdV>::empty());
                }
                cmds
            },
            Some(v) => {
                if self.col_width < 2 * SPARK_MARGIN || self.row_height < 2 * SPARK_MARGIN {
                    let cmds: Vec<DrawCmd> = Vec::new();
                    proof {
                        assert(views_of(cmds@) =~= Seq::<DrawCmdV>::empty());
                    }
                    return cmds;
                }
                let xp: i64 = ((x as u64) / 2) as i64;
                let yp: i64 = ((y as u64) / 2) as i64;
                let mut sp = Sparkline::new();
                let ghost key = ds.spec_spark_key(row as int, *col);
                proof {
                    assert(ds.sparks matches Some(m) && m@.contains_key(key) && v@ == m@[key]@);
                }
                let segs = sp.render(xp, yp, self.col_width, self.row_height, &v);
                proof {
                    if v@.len() > 1 {
                        assert(sp == spark_state_of(
                            xp as int,
                            yp as int,
                            self.col_width as int,
                            self.row_height as int,
                            v@,
                        ));
                    }
                }
                let ghost target = segs@.map_values(
                    |g: SparkSeg| line_v(2 * g.x1, 2 * g.y1, 2 * g.x2, 2 * g.y2, spark_paint(g.color)),
                );
                let mut cmds: Vec<DrawCmd> = Vec::new();
                let mut i: usize = 0;
                while i < segs.len()
                    invariant
                        i <= segs@.len(),
                        forall|j: int| 0 <= j < segs@.len() ==> seg_in_range(#[trigger] segs@[j]),
                        target == segs@.map_values(
                            |g: SparkSeg| line_v(
                                2 * g.x1,
                                2 * g.y1,
                                2 * g.x2,
                                2 * g.y2,
                                spark_paint(g.color),
                            ),
                        ),
                        views_of(cmds@) == target.take(i as int),
                    decreases segs@.len() - i,
                {
                    let g = segs[i];
                    let ghost pre = views_of(cmds@);
                    cmds.push(
                        DrawCmd::Line {
                            x1: 2 * g.x1,
                            y1: 2 * g.y1,
                            x2: 2 * g.x2,
                            y2: 2 * g.y2,
                            color: spark_paint_of(g.color),
                        },
                    );
                    proof {
                        assert(views_of(cmds@) =~= pre.push(target[i as int]));
                        assert(target.take(i + 1) =~= target.take(i as int).push(
                            target[i as int],
                        ));
                    }
                    i += 1;
                }
                proof {
                    assert(target.take(segs@.len() as int) =~= target);
                    if v@.len() <= 1 {
                        assert(views_of(cmds@) =~= Seq::<DrawCmdV>::empty());
                    }
                }
                cmds
            },
        }
    }

    /// What one cell paints; see [`spec_cell_cmds`].
    fn render_cell(
        &self,
        ds: &DataSource<'_>,
        row: usize,
        x: i64,
        y: i64,
        col: &Column,
        highlight: bool,
    ) -> (cmds: Vec<DrawCmd>)
        requires
            self.wf(),
            ds.wf(),
            sparks_bounded(*ds),
            row < ds.row_count,
            col_valid(*col),
            spec_cell_index(ds.data_width as int, col.data_offset as int, row as int) + col.size
                <= ds.data@.len(),
            0 <= x <= 2 * COORD_LIMIT,
            0 <= y <= 2 * COORD_LIMIT,
            MIN_COL_WIDTH <= self.col_width,
        ensures
            views_of(cmds@) == spec_cell_cmds(
                *self,
                *ds,
                row as int,
                *col,
                x as int,
                y as int,
                highlight,
            ),
    {
        if col.col_type == ColumnType::Sparkline {
            return self.render_sparkline(ds, row, x, y, col);
        }
        let content: CellText = if col.col_type == ColumnType::Text {
            match ds.get_value_str(row, col) {
                Ok(t) => CellText::Str(t),
                Err(_) => vstd::pervasive::unreached(),
            }
        } else {
            let bits: u64 = match ds.get_value_f64(row, col) {
                Ok(Some(b)) => b,
                _ => vstd::pervasive::unreached(),
            };
            col.format_value(bits)
        };
        let a: Align = match col.align {
            Align::Unset => match col.col_type {
                ColumnType::Text => Align::Left,
                ColumnType::Date | ColumnType::DateTime | ColumnType::Timestamp => Align::Center,
                _ => Align::Right,
            },
            other => other,
        };
        let mut cmds: Vec<DrawCmd> = Vec::new();
        if highlight {
            cmds.push(
                DrawCmd::FillRect {
                    x,
                    y,
                    w: 2 * self.col_width,
                    h: 2 * self.row_height,
                    color: PaintColor::Overlay,
                },
            );
        }
        let t = self.render_text(content, x, y, a);
        cmds.push(t);
        proof {
            assert(views_of(cmds@) =~= spec_cell_cmds(
                *self,
                *ds,
                row as int,
                *col,
                x as int,
                y as int,
                highlight,
            ));
        }
        cmds
    }

    /// The header row's text; see [`spec_header_cmds`].  Columns past the
    /// right edge are skipped: the clip would discard them.
    pub fn render_header(&self, schema: &Schema) -> (cmds: Vec<DrawCmd>)
        requires
            self.wf(),
        ensures
            views_of(cmds@) == spec_header_cmds(
                *self,
                schema.cols@,
                visible_index_seq(schema.cols@, schema.cols@.len() as int),
                0,
            ),
    {
        let ghost s = *self;
        let ghost cols = schema.cols@;
        let vis = schema.get_visible_cols();
        proof {
            lemma_visible_index_bounds(cols, cols.len() as int);
        }
        let ghost full = spec_header_cmds(s, cols, vis@, 0);
        let mut cmds: Vec<DrawCmd> = Vec::new();
        let mut k: usize = 0;
        let mut stop = false;
        while k < vis.len() && !stop
            invariant
                s == *self,
                s.wf(),
                cols == schema.cols@,
                vis@ == visible_index_seq(cols, cols.len() as int),
                forall|j: int| 0 <= j < vis@.len() ==> 0 <= #[trigger] vis@[j] < cols.len(),
                k <= vis@.len(),
                0 <= (k as int) * (s.col_width as int) <= 2 * GRID_LIMIT,
                full == spec_header_cmds(s, cols, vis@, 0),
                full == views_of(cmds@) + (if stop {
                    Seq::<DrawCmdV>::empty()
                } else {
                    spec_header_cmds(s, cols, vis@, k as int)
                }),
            decreases vis@.len() - k + (if stop {
                0int
            } else {
                1
            }),
        {
            let x = self.get_x(k);
            if x < self.right() {
                let ci = vis[k];
                let content = CellText::Str(schema.cols[ci].name.clone());
                let ghost pre = views_of(cmds@);
                let t = self.render_text(content, x, 0, Align::Center);
                cmds.push(t);
                proof {
                    assert(views_of(cmds@) =~= pre.push(t@));
                    assert(pre.push(t@) + spec_header_cmds(s, cols, vis@, k + 1) =~= pre + (seq![
                        t@,
                    ] + spec_header_cmds(s, cols, vis@, k + 1)));
                    assert(((k + 1) as int) * s.col_width == (k as int) * s.col_width
                        + s.col_width) by (nonlinear_arith);
                }
                k += 1;
            } else {
                stop = true;
            }
        }
        proof {
            assert(full =~= views_of(cmds@));
        }
        cmds
    }
}

impl GridRenderer {
    /// The data pass: every row above the bottom edge and before the end of
    /// the buffer, each visible cell inside the right edge, with the row's
    /// recency highlight decided once from its timestamp cell; see
    /// [`spec_data_cmds`].
    pub fn render_data(&self, schema: &Schema, ds: &DataSource<'_>, now: i64) -> (cmds: Vec<
        DrawCmd,
    >)
        requires
            self.wf(),
            ds.wf(),
            sparks_bounded(*ds),
            schema_valid(schema.cols@),
            schema_fits(schema.cols@, ds.data_width as int),
            MIN_COL_WIDTH <= self.col_width,
        ensures
            views_of(cmds@) == spec_data_cmds(*self, schema.cols@, *ds, now, 0),
    {
        let ghost s = *self;
        let ghost cols = schema.cols@;
        let ghost rl = spec_rows_left(s, ds.row_count as int);
        let vis = schema.get_visible_cols();
        let ts_col = schema.get_col_by_type(ColumnType::Timestamp);
        proof {
            lemma_visible_index_bounds(cols, cols.len() as int);
            match ts_col {
                Some(c) => {
                    let iw = choose|i: int|
                        0 <= i < cols.len() && cols[i] == *c && cols[i].col_type
                            == ColumnType::Timestamp && (forall|j: int|
                            0 <= j < i ==> cols[j].col_type != ColumnType::Timestamp);
                    lemma_first_by_type_some(cols, ColumnType::Timestamp, iw);
                },
                None => {
                    lemma_first_by_type_none(cols, ColumnType::Timestamp);
                },
            }
        }
        let ghost full = spec_data_cmds(s, cols, *ds, now, 0);
        let mut cmds: Vec<DrawCmd> = Vec::new();
        let mut ri: usize = 0;
        let mut stop = false;
        while !stop
            invariant
                s == *self,
                s.wf(),
                ds.wf(),
                sparks_bounded(*ds),
                schema_valid(cols),
                schema_fits(cols, ds.data_width as int),
                MIN_COL_WIDTH <= s.col_width,
                cols == schema.cols@,
                vis@ == visible_index_seq(cols, cols.len() as int),
                forall|j: int| 0 <= j < vis@.len() ==> 0 <= #[trigger] vis@[j] < cols.len(),
                rl == spec_rows_left(s, ds.row_count as int),
                (match ts_col {
                    Some(c) => spec_first_by_type(cols, ColumnType::Timestamp) == Some(*c)
                        && exists|i: int|
                        0 <= i < cols.len() && cols[i] == *c && cols[i].col_type
                            == ColumnType::Timestamp,
                    None => spec_first_by_type(cols, ColumnType::Timestamp) is None,
                }),
                !stop ==> ri <= rl,
                0 <= (ri as int + HEADER_LINES) * (s.row_height as int) <= 2 * GRID_LIMIT,
                full == spec_data_cmds(s, cols, *ds, now, 0),
                full == views_of(cmds@) + (if stop {
                    Seq::<DrawCmdV>::empty()
                } else {
                    spec_data_cmds(s, cols, *ds, now, ri as int)
                }),
            decreases (if stop {
                0int
            } else {
                rl - ri + 1
            }),
        {
            proof {
                assert((ri as int + HEADER_LINES) * 1 <= (ri as int + HEADER_LINES) * (
                self.row_height as int)) by (nonlinear_arith)
                    requires
                        self.row_height >= 1,
                        ri as int + HEADER_LINES >= 0,
                ;
            }
            let y = self.get_y(ri + HEADER_LINES);
            let have_row: bool = self.top_index < ds.row_count && ri < ds.row_count
                - self.top_index;
            if y < self.bottom() && have_row {
                let row = self.top_index + ri;
                let hl: bool = match ts_col {
                    Some(c) => {
                        proof {
                            let iw = choose|i: int|
                                0 <= i < cols.len() && cols[i] == *c && cols[i].col_type
                                    == ColumnType::Timestamp;
                            lemma_cell_fits(*ds, cols, iw, row as int);
                            assert(col_valid(cols[iw]));
                            assert(cols[iw].size == NUM_SIZE);
                            assert(spec_cell_index(
                                ds.data_width as int,
                                c.data_offset as int,
                                row as int,
                            ) + NUM_SIZE <= ds.data@.len());
                        }
                        let bits: u64 = match ds.get_value_f64(row, c) {
                            Ok(Some(b)) => b,
                            _ => vstd::pervasive::unreached(),
                        };
                        let t = double_to_i64(bits);
                        is_highlighted(now, t)
                    },
                    None => false,
                };
                proof {
                    assert(hl == spec_hl_row(cols, *ds, row as int, now));
                }
                let ghost row_target = spec_row_cmds(
                    s,
                    cols,
                    vis@,
                    *ds,
                    row as int,
                    y as int,
                    hl,
                    0,
                );
                let ghost base = views_of(cmds@);
                let mut k: usize = 0;
                let mut cstop = false;
                while k < vis.len() && !cstop
                    invariant
                        s == *self,
                        s.wf(),
                        ds.wf(),
                        sparks_bounded(*ds),
                        schema_valid(cols),
                        schema_fits(cols, ds.data_width as int),
                        MIN_COL_WIDTH <= s.col_width,
                        cols == schema.cols@,
                        vis@ == visible_index_seq(cols, cols.len() as int),
                        forall|j: int| 0 <= j < vis@.len() ==> 0 <= #[trigger] vis@[j] < cols.len(),
                        row < ds.row_count,
                        0 <= y <= 2 * COORD_LIMIT,
                        k <= vis@.len(),
                        0 <= (k as int) * (s.col_width as int) <= 2 * GRID_LIMIT,
                        row_target == spec_row_cmds(s, cols, vis@, *ds, row as int, y as int, hl, 0),
                        base + row_target == views_of(cmds@) + (if cstop {
                            Seq::<DrawCmdV>::empty()
                        } else {
                            spec_row_cmds(s, cols, vis@, *ds, row as int, y as int, hl, k as int)
                        }),
                    decreases vis@.len() - k + (if cstop {
                        0int
                    } else {
                        1
                    }),
                {
                    let x = self.get_x(k);
                    if x < self.right() {
                        let ci = vis[k];
                        let col = &schema.cols[ci];
                        proof {
                            lemma_cell_fits(*ds, cols, ci as int, row as int);
                        }
                        let mut cell_cmds = self.render_cell(
                            ds,
                            row,
                            x,
                            y,
                            col,
                            hl && col.highlight,
                        );
                        let ghost pre = views_of(cmds@);
                        let ghost cellv = views_of(cell_cmds@);
                        cmds.append(&mut cell_cmds);
                        proof {
                            assert(views_of(cmds@) =~= pre + cellv);
                            assert((pre + cellv) + spec_row_cmds(
                                s,
                                cols,
                                vis@,
                                *ds,
                                row as int,
                                y as int,
                                hl,
                                k + 1,
                            ) =~= pre + (cellv + spec_row_cmds(
                                s,
                                cols,
                                vis@,
                                *ds,
                                row as int,
                                y as int,
                                hl,
                                k + 1,
                            )));
                            assert(((k + 1) as int) * s.col_width == (k as int) * s.col_width
                                + s.col_width) by (nonlinear_arith);
                        }
                        k += 1;
                    } else {
                        cstop = true;
                    }
                }
                proof {
                    assert(views_of(cmds@) =~= base + row_target);
                    assert((ri as int + 1 + HEADER_LINES) * s.row_height == (ri as int
                        + HEADER_LINES) * s.row_height + s.row_height) by (nonlinear_arith);
                    assert((ri as int + HEADER_LINES) * 1 <= (ri as int + HEADER_LINES) * (
                    s.row_height as int)) by (nonlinear_arith)
                        requires
                            s.row_height >= 1,
                            ri as int + HEADER_LINES >= 0,
                    ;
                }
                ri += 1;
            } else {
                stop = true;
            }
        }
        proof {
            assert(full =~= views_of(cmds@));
        }
        cmds
    }

    /// One full pass: recomputes the column width, checks the schema against
    /// the buffer before anything is painted, then emits the gridlines and
    /// the clipped data and header; see [`spec_render`].  A schema with no
    /// visible column or a malformed column rejects the frame; a schema
    /// whose cells reach past the row stride is a bounds violation.
    pub fn render(
        &mut self,
        schema: &Schema,
        ds: &DataSource<'_>,
        top_index: usize,
        now: i64,
    ) -> (r: Result<Vec<DrawCmd>, GridError>)
        requires
            old(self).wf(),
            ds.wf(),
            sparks_bounded(*ds),
        ensures
            final(self).wf(),
            final(self).top_index == top_index,
            *final(self) == (GridRenderer {
                top_index,
                col_width: final(self).col_width,
                ..*old(self)
            }),
            r is Ok <==> visible_index_seq(schema.cols@, schema.cols@.len() as int).len() > 0
                && schema_valid(schema.cols@) && schema_fits(schema.cols@, ds.data_width as int),
            r matches Err(e) ==> e == (if visible_index_seq(
                schema.cols@,
                schema.cols@.len() as int,
            ).len() == 0 || !schema_valid(schema.cols@) {
                GridError::MalformedSchema
            } else {
                GridError::OutOfBounds
            }),
            r is Ok ==> final(self).col_width == spec_calc_col_width(
                *old(self),
                visible_index_seq(schema.cols@, schema.cols@.len() as int).len() as int,
            ),
            r matches Ok(cmds) ==> views_of(cmds@) == spec_render(
                *final(self),
                schema.cols@,
                *ds,
                now,
            ),
    {
        self.set_top_index(top_index);
        if !crate::schema::assert_schema(schema) {
            return Err(GridError::MalformedSchema);
        }
        match self.calc_col_width(schema) {
            Ok(()) => (),
            Err(e) => {
                return Err(e);
            },
        }
        if !schema_fits_check(schema, ds.data_width) {
            return Err(GridError::OutOfBounds);
        }
        let mut cmds = self.render_gridlines(schema, ds);
        let ghost after_grid = views_of(cmds@);
        cmds.push(self.clip_begin());
        let ghost after_clip = views_of(cmds@);
        let mut data_cmds = self.render_data(schema, ds, now);
        let ghost datav = views_of(data_cmds@);
        cmds.append(&mut data_cmds);
        let ghost after_data = views_of(cmds@);
        let mut head_cmds = self.render_header(schema);
        let ghost headv = views_of(head_cmds@);
        cmds.append(&mut head_cmds);
        cmds.push(self.clip_end());
        proof {
            assert(after_clip =~= after_grid.push(spec_clip_begin(*self)));
            assert(after_data =~= after_clip + datav);
            assert(views_of(cmds@) =~= (after_data + headv).push(DrawCmdV::ClipEnd));
            assert(views_of(cmds@) =~= spec_render(*self, schema.cols@, *ds, now));
        }
        Ok(cmds)
    }
}

/// The product of a count and a pixel size, exact under the callers' bounds.
fn mul_i64_bounded(a: usize, b: i64) -> (r: i64)
    requires
        0 <= b,
        0 <= (a as int) * (b as int) <= 2 * GRID_LIMIT,
    ensures
        r == (a as int) * (b as int),
{
    if b == 0 {
        proof {
            vstd::arithmetic::mul::lemma_mul_basics(a as int);
        }
        return 0;
    }
    proof {
        assert((a as int) <= (a as int) * (b as int)) by (nonlinear_arith)
            requires
                b as int >= 1,
                a as int >= 0,
        ;
    }
    let aa: i64 = a as i64;
    aa * b
}

} // verus!
