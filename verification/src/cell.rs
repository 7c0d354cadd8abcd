//! Formatting a decoded cell value into the text a cell shows.
//!
//! A numeric cell carries the bit pattern of its double; what the host paints
//! is decided here: fixed-precision number text, zero suppression, a time of
//! day rendered through the `chrono` crate, or nothing at all.  The decimal
//! digits of a plain number are the host's presentation concern, so a number
//! cell hands the host the bit pattern and the precision to render it at.
//!
//! Times are rendered in UTC, never in the machine's time zone: the text is
//! then a function of the timestamp and the pattern alone, which the render
//! contracts and the idempotence law rest on.  A host that wants local clock
//! times shifts the timestamps it stores by its zone offset.

use std::fmt::Write;

use vstd::prelude::*;

use crate::codec::{double_is_zero, double_trunc, double_zero, ms_to_secs, ms_to_secs_spec};
use crate::schema::{spec_cell_precision, Column, ColumnType};

verus! {

/// What a cell shows.  Numeric variants carry the double's bit pattern; the
/// host turns it into decimal digits when it paints the text.
#[derive(Debug, Clone, PartialEq, Eq)]
pub enum CellText {
    /// Nothing is drawn in the cell.
    Empty,
    /// Decoded text, shown as it is.
    Str(String),
    /// A double rendered at a fixed number of digits after the decimal point.
    Num { bits: u64, precision: usize },
    /// A double rendered as a plain number, no fixed precision.
    NumPlain { bits: u64 },
    /// A formatted time of day.
    Time(String),
}

/// The mathematical value of a cell's text: strings by their characters.
pub enum CellTextV {
    Empty,
    Str(Seq<char>),
    Num { bits: u64, precision: usize },
    NumPlain { bits: u64 },
    Time(Seq<char>),
}

impl View for CellText {
    type V = CellTextV;

    open spec fn view(&self) -> CellTextV {
        match self {
            CellText::Empty => CellTextV::Empty,
            CellText::Str(s) => CellTextV::Str(s@),
            CellText::Num { bits, precision } => CellTextV::Num {
                bits: *bits,
                precision: *precision,
            },
            CellText::NumPlain { bits } => CellTextV::NumPlain { bits: *bits },
            CellText::Time(s) => CellTextV::Time(s@),
        }
    }
}

/// The outcome of rendering `secs` seconds since the epoch, in UTC, under the
/// strftime pattern `fmt`: the text, or nothing when the timestamp is outside
/// chrono's representable range or the pattern is invalid.  Both the text and
/// whether there is one depend on the seconds and the pattern alone.
pub uninterp spec fn time_text_of(secs: int, fmt: Seq<char>) -> Option<Seq<char>>;

/// Timestamps below this many seconds since the epoch (the year 10000) are
/// comfortably inside the range `chrono` documents as representable.
pub const TIME_SECS_CAP: i64 = 253_402_300_800;

/// Relies on chrono's `DateTime::<Utc>::from_timestamp` and strftime
/// formatting: the timestamp is `None` only outside the documented
/// representable range, formatting fails only on an invalid pattern, and the
/// text depends on the seconds and the pattern alone (formatting in UTC, with
/// chrono's fixed English names).
#[verifier::external_body]
fn time_text(secs: i64, fmt: &str) -> (r: Option<String>)
    ensures
        (r is Some) == (time_text_of(secs as int, fmt@) is Some),
        r matches Some(s) ==> time_text_of(secs as int, fmt@) == Some(s@),
        0 <= secs < TIME_SECS_CAP && fmt@ == "%r"@ ==> r is Some,
{
    let dt = chrono::DateTime::<chrono::Utc>::from_timestamp(secs, 0)?;
    let mut s = String::new();
    match write!(s, "{}", dt.format(fmt)) {
        Ok(()) => Some(s),
        Err(_) => None,
    }
}

/// The strftime pattern a time column renders with: its declared format, or
/// the default twelve-hour clock pattern when none is declared.
pub open spec fn spec_time_pattern(col: Column) -> Seq<char> {
    if col.format@.len() == 0 {
        "%r"@
    } else {
        col.format@
    }
}

/// Whether cells of this column type show a formatted time of day.
pub open spec fn is_time_type(t: ColumnType) -> bool {
    t == ColumnType::Date || t == ColumnType::DateTime || t == ColumnType::Timestamp
}

/// The seconds-since-epoch a time cell's double truncates to: whole
/// milliseconds, then whole seconds, both rounded toward zero.
pub open spec fn spec_cell_secs(bits: u64) -> int {
    ms_to_secs_spec(double_trunc(bits) as int)
}

/// The text a cell of column `col` shows for the double whose bit pattern is
/// `bits`: the time text for the time types (nothing when chrono cannot
/// render it), the bits at the column's precision for a number (nothing for a
/// suppressed zero), nothing for a sparkline cell, and the plain bits
/// otherwise.
pub open spec fn spec_format_value(col: Column, bits: u64) -> CellTextV {
    if is_time_type(col.col_type) {
        match time_text_of(spec_cell_secs(bits), spec_time_pattern(col)) {
            Some(t) => CellTextV::Time(t),
            None => CellTextV::Empty,
        }
    } else if col.col_type == ColumnType::Number {
        if col.suppress_zero && double_is_zero(bits) {
            CellTextV::Empty
        } else {
            CellTextV::Num { bits, precision: spec_cell_precision(col) }
        }
    } else if col.col_type == ColumnType::Sparkline {
        CellTextV::Empty
    } else {
        CellTextV::NumPlain { bits }
    }
}

impl Column {
    /// The text a cell of this column shows for the double whose bit pattern
    /// is `bits`; see [`spec_format_value`].
    pub fn format_value(&self, bits: u64) -> (r: CellText)
        ensures
            r@ == spec_format_value(*self, bits),
    {
        match self.col_type {
            ColumnType::Date | ColumnType::DateTime | ColumnType::Timestamp => {
                let ms = crate::codec::double_to_i64(bits);
                let secs = ms_to_secs(ms);
                let pat: &str = if self.format.as_str().is_empty() {
                    "%r"
                } else {
                    self.format.as_str()
                };
                match time_text(secs, pat) {
                    Some(s) => CellText::Time(s),
                    None => CellText::Empty,
                }
            },
            ColumnType::Number => {
                if self.suppress_zero && double_zero(bits) {
                    CellText::Empty
                } else {
                    CellText::Num { bits, precision: self.precision() }
                }
            },
            ColumnType::Sparkline => CellText::Empty,
            _ => CellText::NumPlain { bits },
        }
    }
}

/// The text a cell of column `col` shows for the double whose bit pattern is
/// `bits`; see [`spec_format_value`].
pub fn format_value(bits: u64, col: &Column) -> (r: CellText)
    ensures
        r@ == spec_format_value(*col, bits),
{
    col.format_value(bits)
}

} // verus!
