//! The column schema: what each column holds, where its bytes live in a row,
//! and how it is shown.
//!
//! A schema is an ordered list of columns.  The order is significant twice
//! over: it fixes the byte layout of a row (each column's `data_offset` is the
//! sum of the sizes of the columns before it) and the left-to-right order of
//! the visible columns on screen.  Offsets are never trusted from outside:
//! [`normalize_schema`] recomputes them whenever a schema is installed.

use vstd::prelude::*;

use crate::GridError;
use crate::codec::NUM_SIZE;

verus! {

/// The kind of value a column holds.
#[derive(Debug, Clone, Copy, PartialEq, Eq, Structural)]
pub enum ColumnType {
    /// No declared type: the value is shown as a plain number.
    Untyped,
    /// Fixed-width text, trailing NUL padded.
    Text,
    /// A double, shown at the column's precision.
    Number,
    /// A millisecond timestamp shown as a date or time of day.
    Date,
    /// A millisecond timestamp shown as a date and time of day.
    DateTime,
    /// A millisecond timestamp that also drives the recency highlight.
    Timestamp,
    /// A key into the out-of-band sparkline series store.
    Sparkline,
}

impl Default for ColumnType {
    /// An undeclared column type defaults to Number.
    fn default() -> (r: Self)
        ensures
            r == ColumnType::Number,
    {
        ColumnType::Number
    }
}

/// Horizontal text alignment of a cell.
#[derive(Debug, Clone, Copy, PartialEq, Eq, Structural)]
pub enum Align {
    /// No declared alignment: the column type picks one.
    Unset,
    Left,
    Center,
    Right,
}

impl Default for Align {
    fn default() -> (r: Self)
        ensures
            r == Align::Unset,
    {
        Align::Unset
    }
}

/// One column of a schema.
#[derive(Debug)]
pub struct Column {
    pub id: String,
    pub name: String,
    pub description: String,
    pub col_type: ColumnType,
    /// Byte offset of this column's value inside a row; assigned by
    /// [`normalize_schema`], never taken from outside input.
    pub data_offset: usize,
    /// Byte width of the value: the text width for a Text column, the eight
    /// bytes of a double for every other type.
    pub size: usize,
    /// Digits after the decimal point for a Number column.
    pub precision: usize,
    /// A hidden column keeps its bytes in the row but gets no screen slot.
    pub hidden: bool,
    pub align: Align,
    /// Whether a fresh row paints the recency overlay on this column's cell.
    pub highlight: bool,
    /// Whether a zero value is shown as an empty cell instead of "0".
    pub suppress_zero: bool,
    /// Time format pattern for the date and time types; empty means the
    /// default twelve-hour clock pattern.
    pub format: String,
}

impl Column {
    /// A structurally equal copy of the column.
    pub fn duplicate(&self) -> (c: Column)
        ensures
            c == *self,
    {
        Column {
            id: self.id.clone(),
            name: self.name.clone(),
            description: self.description.clone(),
            col_type: self.col_type,
            data_offset: self.data_offset,
            size: self.size,
            precision: self.precision,
            hidden: self.hidden,
            align: self.align,
            highlight: self.highlight,
            suppress_zero: self.suppress_zero,
            format: self.format.clone(),
        }
    }

    /// The precision the cell text is rendered at: the declared precision for
    /// a Number column, zero digits for every other type.
    pub fn precision(&self) -> (p: usize)
        ensures
            p == spec_cell_precision(*self),
    {
        match self.col_type {
            ColumnType::Number => self.precision,
            _ => 0,
        }
    }
}

/// The precision a column's cells are formatted at.
pub open spec fn spec_cell_precision(col: Column) -> usize {
    if col.col_type == ColumnType::Number {
        col.precision
    } else {
        0usize
    }
}

/// The precision a column's cells are formatted at.
pub fn cell_precision(col: &Column) -> (p: usize)
    ensures
        p == spec_cell_precision(*col),
{
    col.precision()
}

/// A column is well formed when it has an id and its byte width fits its
/// type: any positive width for text, exactly one double for the rest.
pub open spec fn col_valid(c: Column) -> bool {
    &&& c.id@.len() > 0
    &&& (c.col_type == ColumnType::Text ==> c.size > 0)
    &&& (c.col_type != ColumnType::Text ==> c.size == NUM_SIZE)
}

/// Every column of the sequence is well formed.
pub open spec fn schema_valid(cols: Seq<Column>) -> bool {
    forall|i: int| 0 <= i < cols.len() ==> col_valid(#[trigger] cols[i])
}

/// The sum of the byte widths of the first `i` columns: the byte offset at
/// which column `i` starts, and for `i == cols.len()` the row stride.
pub open spec fn size_prefix_sum(cols: Seq<Column>, i: int) -> int
    decreases i,
{
    if i <= 0 {
        0
    } else {
        size_prefix_sum(cols, i - 1) + cols[i - 1].size
    }
}

/// Offsets are normalized: each column starts where the previous one ends.
pub open spec fn schema_normalized(cols: Seq<Column>) -> bool {
    forall|i: int|
        0 <= i < cols.len() ==> (#[trigger] cols[i].data_offset) == size_prefix_sum(cols, i)
}

/// The prefix sums only read column sizes, so sequences with equal sizes have
/// equal prefix sums.
pub proof fn lemma_prefix_sum_same_sizes(a: Seq<Column>, b: Seq<Column>, i: int)
    requires
        forall|j: int| 0 <= j < i ==> a[j].size == b[j].size,
    ensures
        size_prefix_sum(a, i) == size_prefix_sum(b, i),
    decreases i,
{
    if i > 0 {
        lemma_prefix_sum_same_sizes(a, b, i - 1);
    }
}

/// Prefix sums never decrease as more columns are added.
pub proof fn lemma_prefix_sum_monotone(cols: Seq<Column>, i: int, j: int)
    requires
        0 <= i <= j,
    ensures
        size_prefix_sum(cols, i) <= size_prefix_sum(cols, j),
    decreases j - i,
{
    if i < j {
        lemma_prefix_sum_monotone(cols, i, j - 1);
    }
}

/// An ordered sequence of columns: the byte layout and the visual order.
#[derive(Debug)]
pub struct Schema {
    pub cols: Vec<Column>,
}

/// The indices of the visible (not hidden) columns among the first `n`, in
/// declared order.
pub open spec fn visible_index_seq(cols: Seq<Column>, n: int) -> Seq<usize>
    decreases n,
{
    if n <= 0 {
        Seq::empty()
    } else {
        let p = visible_index_seq(cols, n - 1);
        if !cols[n - 1].hidden {
            p.push((n - 1) as usize)
        } else {
            p
        }
    }
}

/// Every listed visible index is a position among the first `n` columns.
pub proof fn lemma_visible_index_bounds(cols: Seq<Column>, n: int)
    ensures
        forall|k: int|
            0 <= k < visible_index_seq(cols, n).len() ==> 0 <= #[trigger] visible_index_seq(
                cols,
                n,
            )[k] < n,
    decreases n,
{
    if n > 0 {
        lemma_visible_index_bounds(cols, n - 1);
        let p = visible_index_seq(cols, n - 1);
        let cur = visible_index_seq(cols, n);
        assert forall|k: int| 0 <= k < cur.len() implies 0 <= #[trigger] cur[k] < n by {
            if !cols[n - 1].hidden {
                if k < p.len() {
                    assert(cur[k] == p[k]);
                } else {
                    assert(cur[k] == (n - 1) as usize);
                }
            } else {
                assert(cur[k] == p[k]);
            }
        }
    }
}

/// The first column of the given type, scanning from the front.
pub open spec fn spec_first_by_type(cols: Seq<Column>, t: ColumnType) -> Option<Column>
    decreases cols.len(),
{
    if cols.len() == 0 {
        None
    } else if cols[0].col_type == t {
        Some(cols[0])
    } else {
        spec_first_by_type(cols.drop_first(), t)
    }
}

/// A first match found by a front-to-back scan is the first column of the
/// type.
pub proof fn lemma_first_by_type_some(cols: Seq<Column>, t: ColumnType, i: int)
    requires
        0 <= i < cols.len(),
        cols[i].col_type == t,
        forall|j: int| 0 <= j < i ==> cols[j].col_type != t,
    ensures
        spec_first_by_type(cols, t) == Some(cols[i]),
    decreases i,
{
    if cols[0].col_type == t {
        assert(i == 0);
    } else {
        let rest = cols.drop_first();
        assert(forall|j: int| 0 <= j < i - 1 ==> #[trigger] rest[j] == cols[j + 1]);
        lemma_first_by_type_some(rest, t, i - 1);
    }
}

/// With no column of the type, the scan finds none.
pub proof fn lemma_first_by_type_none(cols: Seq<Column>, t: ColumnType)
    requires
        forall|j: int| 0 <= j < cols.len() ==> (#[trigger] cols[j]).col_type != t,
    ensures
        spec_first_by_type(cols, t) is None,
    decreases cols.len(),
{
    if cols.len() > 0 {
        let rest = cols.drop_first();
        assert(forall|j: int| 0 <= j < rest.len() ==> #[trigger] rest[j] == cols[j + 1]);
        lemma_first_by_type_none(rest, t);
    }
}

/// Every column's bytes lie inside a row of `dw` bytes.
pub open spec fn schema_fits(cols: Seq<Column>, dw: int) -> bool {
    forall|i: int|
        0 <= i < cols.len() ==> (#[trigger] cols[i]).data_offset + cols[i].size <= dw
}

/// Whether every column's bytes lie inside a row of `dw` bytes.
pub fn schema_fits_check(schema: &Schema, dw: usize) -> (ok: bool)
    ensures
        ok == schema_fits(schema.cols@, dw as int),
{
    let mut k: usize = 0;
    while k < schema.cols.len()
        invariant
            k <= schema.cols@.len(),
            forall|i: int|
                0 <= i < k ==> (#[trigger] schema.cols@[i]).data_offset + schema.cols@[i].size
                    <= dw,
        decreases schema.cols@.len() - k,
    {
        let c = &schema.cols[k];
        if c.data_offset > dw {
            return false;
        }
        if c.size > dw - c.data_offset {
            return false;
        }
        k += 1;
    }
    true
}

/// The row stride the schema implies: the sum of all column byte widths, or
/// nothing when that sum does not fit the machine's word.
pub fn row_stride(schema: &Schema) -> (r: Option<usize>)
    ensures
        r matches Some(n) ==> n == size_prefix_sum(schema.cols@, schema.cols@.len() as int),
        r is None ==> size_prefix_sum(schema.cols@, schema.cols@.len() as int) > usize::MAX,
{
    let mut acc: usize = 0;
    let mut k: usize = 0;
    while k < schema.cols.len()
        invariant
            k <= schema.cols@.len(),
            acc == size_prefix_sum(schema.cols@, k as int),
        decreases schema.cols@.len() - k,
    {
        let c = &schema.cols[k];
        if c.size > usize::MAX - acc {
            proof {
                lemma_prefix_sum_monotone(schema.cols@, k as int + 1, schema.cols@.len() as int);
            }
            return None;
        }
        acc += c.size;
        k += 1;
    }
    Some(acc)
}

impl Schema {
    /// The first column whose id equals `id`, if any.
    pub fn get_col_by_id(&self, id: &String) -> (r: Option<&Column>)
        ensures
            match r {
                Some(c) => exists|i: int|
                    0 <= i < self.cols@.len() && *c == self.cols@[i] && self.cols@[i].id@ == id@
                        && (forall|j: int| 0 <= j < i ==> self.cols@[j].id@ != id@),
                None => forall|j: int| 0 <= j < self.cols@.len() ==> self.cols@[j].id@ != id@,
            },
    {
        let mut k: usize = 0;
        while k < self.cols.len()
            invariant
                k <= self.cols@.len(),
                forall|j: int| 0 <= j < k ==> self.cols@[j].id@ != id@,
            decreases self.cols@.len() - k,
        {
            if self.cols[k].id.eq(id) {
                return Some(&self.cols[k]);
            }
            k += 1;
        }
        None
    }

    /// The first column of the given type, if any.
    pub fn get_col_by_type(&self, col_type: ColumnType) -> (r: Option<&Column>)
        ensures
            match r {
                Some(c) => exists|i: int|
                    0 <= i < self.cols@.len() && *c == self.cols@[i] && self.cols@[i].col_type
                        == col_type && (forall|j: int|
                        0 <= j < i ==> self.cols@[j].col_type != col_type),
                None => forall|j: int|
                    0 <= j < self.cols@.len() ==> self.cols@[j].col_type != col_type,
            },
    {
        let mut k: usize = 0;
        while k < self.cols.len()
            invariant
                k <= self.cols@.len(),
                forall|j: int| 0 <= j < k ==> self.cols@[j].col_type != col_type,
            decreases self.cols@.len() - k,
        {
            if self.cols[k].col_type == col_type {
                return Some(&self.cols[k]);
            }
            k += 1;
        }
        None
    }

    /// How many columns are visible: the number of screen slots a row takes.
    pub fn get_visible_row_count(&self) -> (n: usize)
        ensures
            n == visible_index_seq(self.cols@, self.cols@.len() as int).len(),
    {
        let mut n: usize = 0;
        let mut k: usize = 0;
        while k < self.cols.len()
            invariant
                k <= self.cols@.len(),
                n <= k,
                n == visible_index_seq(self.cols@, k as int).len(),
            decreases self.cols@.len() - k,
        {
            if !self.cols[k].hidden {
                n += 1;
            }
            k += 1;
        }
        n
    }

    /// The indices of the visible columns, in declared order.
    pub fn get_visible_cols(&self) -> (r: Vec<usize>)
        ensures
            r@ == visible_index_seq(self.cols@, self.cols@.len() as int),
    {
        let mut r: Vec<usize> = Vec::new();
        let mut k: usize = 0;
        while k < self.cols.len()
            invariant
                k <= self.cols@.len(),
                r@ == visible_index_seq(self.cols@, k as int),
            decreases self.cols@.len() - k,
        {
            if !self.cols[k].hidden {
                r.push(k);
            }
            k += 1;
        }
        r
    }
}

/// Whether every column of the schema is well formed.
pub fn assert_schema(schema: &Schema) -> (ok: bool)
    ensures
        ok == schema_valid(schema.cols@),
{
    let mut k: usize = 0;
    while k < schema.cols.len()
        invariant
            k <= schema.cols@.len(),
            forall|j: int| 0 <= j < k ==> col_valid(#[trigger] schema.cols@[j]),
        decreases schema.cols@.len() - k,
    {
        let c = &schema.cols[k];
        if c.id.as_str().is_empty() {
            return false;
        }
        if c.col_type == ColumnType::Text {
            if c.size == 0 {
                return false;
            }
        } else {
            if c.size != NUM_SIZE {
                return false;
            }
        }
        k += 1;
    }
    true
}

/// Assigns each column the byte offset at which it starts: the sum of the
/// sizes of the columns declared before it.  Rejects a malformed schema and
/// leaves it unchanged in that case.
pub fn normalize_schema(schema: &mut Schema) -> (r: Result<(), GridError>)
    requires
        size_prefix_sum(old(schema).cols@, old(schema).cols@.len() as int) <= usize::MAX,
    ensures
        r matches Ok(()) <==> schema_valid(old(schema).cols@),
        r matches Ok(()) ==> {
            &&& final(schema).cols@.len() == old(schema).cols@.len()
            &&& (forall|i: int|
                0 <= i < final(schema).cols@.len() ==> #[trigger] final(schema).cols@[i] == (Column {
                    data_offset: size_prefix_sum(old(schema).cols@, i) as usize,
                    ..old(schema).cols@[i]
                }))
            &&& schema_normalized(final(schema).cols@)
            &&& schema_valid(final(schema).cols@)
        },
        r matches Err(e) ==> e == GridError::MalformedSchema && *final(schema) == *old(schema),
{
    if !assert_schema(schema) {
        return Err(GridError::MalformedSchema);
    }
    let ghost orig = schema.cols@;
    let n = schema.cols.len();
    let mut out: Vec<Column> = Vec::new();
    let mut off: usize = 0;
    let mut k: usize = 0;
    while k < n
        invariant
            n == orig.len(),
            schema.cols@ == orig,
            k <= n,
            out@.len() == k,
            off == size_prefix_sum(orig, k as int),
            size_prefix_sum(orig, n as int) <= usize::MAX,
            forall|i: int|
                0 <= i < k ==> #[trigger] out@[i] == (Column {
                    data_offset: size_prefix_sum(orig, i) as usize,
                    ..orig[i]
                }),
        decreases n - k,
    {
        let mut c = schema.cols[k].duplicate();
        c.data_offset = off;
        proof {
            lemma_prefix_sum_monotone(orig, k as int + 1, n as int);
        }
        off += c.size;
        out.push(c);
        k += 1;
    }
    proof {
        assert forall|i: int| 0 <= i < out@.len() implies ((#[trigger] out@[i].data_offset)
            == size_prefix_sum(out@, i) && col_valid(out@[i])) by {
            lemma_prefix_sum_monotone(orig, 0, i);
            lemma_prefix_sum_monotone(orig, i, orig.len() as int);
            lemma_prefix_sum_same_sizes(out@, orig, i);
            assert(orig[i] == old(schema).cols@[i]);
        }
    }
    schema.cols = out;
    Ok(())
}

} // verus!
