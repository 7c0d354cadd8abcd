//! The row decoder: a flat byte buffer read as fixed-stride rows.
//!
//! A buffer whose length is not a multiple of the stride is rejected at
//! construction; a cell whose bytes would reach past the end of the buffer is
//! a fatal error, never a silently clamped read.  A row index at or beyond
//! the row count is the recoverable "no value" case.  Numeric cells decode
//! through the big-endian codec; text cells are fixed-width, NUL padded;
//! sparkline cells name a series in an out-of-band store keyed by a hash of
//! the row's text cell.

use std::collections::HashMap;

use vstd::prelude::*;
use vstd::string::StrSliceExecFns;

use crate::GridError;
use crate::codec::{be_u64_of, read_u64_be, NUM_SIZE};
use crate::schema::Column;

verus! {

broadcast use vstd::std_specs::hash::group_hash_axioms;

/// The out-of-band sparkline series store: sample sequences keyed by the
/// hash of a row's text cell.
pub type Sparks = HashMap<u64, Vec<i64>>;

/// The FNV-1a offset basis: the hash of the empty string.
pub const HASH_BASIS: u64 = 0xcbf2_9ce4_8422_2325;

/// The FNV-1a prime the hash is folded with.
pub const HASH_PRIME: u64 = 0x100_0000_01b3;

/// One folding step of the series-key hash.
pub open spec fn hash_step(h: u64, c: char) -> u64 {
    ((((h ^ ((c as u32) as u64)) as u128) * (HASH_PRIME as u128)) % 0x1_0000_0000_0000_0000) as u64
}

/// The series-key hash of a string: FNV-1a folded over its characters.
pub open spec fn str_hash(s: Seq<char>) -> u64
    decreases s.len(),
{
    if s.len() == 0 {
        HASH_BASIS
    } else {
        hash_step(str_hash(s.drop_last()), s.last())
    }
}

/// The series-key hash of a string.
pub fn hash_code(s: &String) -> (r: u64)
    ensures
        r == str_hash(s@),
{
    let n = s.as_str().unicode_len();
    let mut h: u64 = HASH_BASIS;
    let mut i: usize = 0;
    while i < n
        invariant
            n == s@.len(),
            i <= n,
            h == str_hash(s@.take(i as int)),
        decreases n - i,
    {
        let c = s.as_str().get_char(i);
        let x: u64 = h ^ ((c as u32) as u64);
        proof {
            vstd::arithmetic::mul::lemma_mul_upper_bound(
                x as int,
                u64::MAX as int,
                HASH_PRIME as int,
                HASH_PRIME as int,
            );
        }
        let prod: u128 = (x as u128) * (HASH_PRIME as u128);
        h = (prod % 0x1_0000_0000_0000_0000u128) as u64;
        proof {
            assert(s@.take(i + 1).drop_last() =~= s@.take(i as int));
            assert(s@.take(i + 1).last() == s@[i as int]);
        }
        i += 1;
    }
    proof {
        assert(s@.take(n as int) =~= s@);
    }
    h
}

/// The bytes with their trailing NUL padding removed.
pub open spec fn trim_nul(b: Seq<u8>) -> Seq<u8>
    decreases b.len(),
{
    if b.len() > 0 && b.last() == 0 {
        trim_nul(b.drop_last())
    } else {
        b
    }
}

/// The characters std's lossy UTF-8 decoding yields for the bytes: they
/// depend on the bytes alone.
pub uninterp spec fn utf8_lossy_of(bytes: Seq<u8>) -> Seq<char>;

/// Relies on std's `String::from_utf8_lossy`: the decoded characters are a
/// function of the bytes alone, with invalid sequences replaced.
#[verifier::external_body]
fn utf8_lossy(bytes: &Vec<u8>) -> (r: String)
    ensures
        r@ == utf8_lossy_of(bytes@),
{
    String::from_utf8_lossy(bytes.as_slice()).into_owned()
}

/// A byte buffer read as rows of `data_width` bytes each, with the optional
/// sparkline series store supplied out of band.
pub struct DataSource<'a> {
    pub data: Vec<u8>,
    /// The row stride in bytes.
    pub data_width: usize,
    /// How many whole rows the buffer holds.
    pub row_count: usize,
    /// Sparkline sample series, keyed by the hash of a row's text cell.
    pub sparks: Option<&'a Sparks>,
}

/// The byte offset at which a cell starts: its row's start plus the column's
/// offset inside a row.
pub open spec fn spec_cell_index(dw: int, off: int, row: int) -> int {
    row * dw + off
}

/// The bytes of one cell.
pub open spec fn cell_bytes(ds: DataSource<'_>, row: int, col: Column) -> Seq<u8> {
    let idx = spec_cell_index(ds.data_width as int, col.data_offset as int, row);
    ds.data@.subrange(idx, idx + col.size)
}

/// What decoding a numeric cell yields: no value for a row at or past the row
/// count, the cell's eight bytes decoded big-endian when they lie inside the
/// buffer, and a fatal bounds error otherwise.
pub open spec fn spec_get_value(ds: DataSource<'_>, row: int, col: Column) -> Result<
    Option<u64>,
    GridError,
> {
    let idx = spec_cell_index(ds.data_width as int, col.data_offset as int, row);
    if row >= ds.row_count {
        Ok(None)
    } else if idx + NUM_SIZE <= ds.data@.len() {
        Ok(Some(be_u64_of(ds.data@.subrange(idx, idx + NUM_SIZE))))
    } else {
        Err(GridError::OutOfBounds)
    }
}

impl<'a> DataSource<'a> {
    /// The construction invariant: a positive stride that divides the buffer
    /// length, and the row count derived from them.
    pub open spec fn wf(&self) -> bool {
        &&& self.data_width > 0
        &&& (self.data@.len() as int) % (self.data_width as int) == 0
        &&& self.row_count == self.data@.len() as int / (self.data_width as int)
    }

    /// Wraps a buffer whose length is a whole number of rows of `data_width`
    /// bytes; rejects a zero stride or a misaligned buffer.
    pub fn new(data: Vec<u8>, data_width: usize, sparks: Option<&'a Sparks>) -> (r: Result<
        DataSource<'a>,
        GridError,
    >)
        ensures
            r matches Ok(ds) ==> {
                &&& data_width > 0
                &&& (data@.len() as int) % (data_width as int) == 0
                &&& ds.data@ == data@
                &&& ds.data_width == data_width
                &&& ds.row_count == data@.len() as int / (data_width as int)
                &&& ds.sparks == sparks
                &&& ds.wf()
            },
            r matches Err(e) ==> e == GridError::MisalignedBuffer && (data_width == 0 || (
            data@.len() as int) % (data_width as int) != 0),
            r is Ok <==> data_width > 0 && (data@.len() as int) % (data_width as int) == 0,
    {
        if data_width == 0 {
            return Err(GridError::MisalignedBuffer);
        }
        if data.len() % data_width != 0 {
            return Err(GridError::MisalignedBuffer);
        }
        let row_count = data.len() / data_width;
        Ok(DataSource { data, data_width, row_count, sparks })
    }

    /// The byte index at which the cell starts, when the whole cell lies
    /// inside the buffer; the fatal bounds error otherwise.  A row at or past
    /// the row count reaches past the buffer by construction.
    pub fn get_cell_index(&self, row: usize, col: &Column) -> (r: Result<usize, GridError>)
        requires
            self.wf(),
        ensures
            r is Ok <==> row < self.row_count && spec_cell_index(
                self.data_width as int,
                col.data_offset as int,
                row as int,
            ) + col.size <= self.data@.len(),
            r matches Ok(i) ==> i == spec_cell_index(
                self.data_width as int,
                col.data_offset as int,
                row as int,
            ),
            r matches Err(e) ==> e == GridError::OutOfBounds,
    {
        if row >= self.row_count {
            return Err(GridError::OutOfBounds);
        }
        let len = self.data.len();
        proof {
            self.lemma_row_start(row as int);
        }
        let base = row * self.data_width;
        if col.data_offset > len - base {
            return Err(GridError::OutOfBounds);
        }
        let start = base + col.data_offset;
        if col.size > len - start {
            return Err(GridError::OutOfBounds);
        }
        Ok(start)
    }

    /// A row before the row count starts at least one stride before the end
    /// of the buffer.
    pub proof fn lemma_row_start(&self, row: int)
        requires
            self.wf(),
            0 <= row < self.row_count,
        ensures
            row * (self.data_width as int) + self.data_width <= self.data@.len(),
            0 <= row * (self.data_width as int),
    {
        let dw = self.data_width as int;
        let len = self.data@.len() as int;
        vstd::arithmetic::div_mod::lemma_fundamental_div_mod(len, dw);
        vstd::arithmetic::mul::lemma_mul_inequality(row + 1, self.row_count as int, dw);
        vstd::arithmetic::mul::lemma_mul_is_commutative(self.row_count as int, dw);
        vstd::arithmetic::mul::lemma_mul_nonnegative(row, dw);
        assert((row + 1) * dw == row * dw + dw) by (nonlinear_arith);
    }

    /// Decodes the numeric cell at (`row`, `col`): see [`spec_get_value`].
    pub fn get_value_f64(&self, row: usize, col: &Column) -> (r: Result<Option<u64>, GridError>)
        requires
            self.wf(),
        ensures
            r == spec_get_value(*self, row as int, *col),
    {
        if row >= self.row_count {
            return Ok(None);
        }
        let len = self.data.len();
        proof {
            self.lemma_row_start(row as int);
        }
        let base = row * self.data_width;
        if col.data_offset > len - base {
            return Err(GridError::OutOfBounds);
        }
        let start = base + col.data_offset;
        if NUM_SIZE > len - start {
            return Err(GridError::OutOfBounds);
        }
        let bits = read_u64_be(&self.data, start);
        Ok(Some(bits))
    }

    /// Decodes the text cell at (`row`, `col`): its fixed-width bytes with
    /// the trailing NUL padding removed, decoded as UTF-8; the empty string
    /// for a row at or past the row count; the fatal bounds error when the
    /// cell reaches past the buffer.
    pub fn get_value_str(&self, row: usize, col: &Column) -> (r: Result<String, GridError>)
        requires
            self.wf(),
        ensures
            r is Err <==> row < self.row_count && spec_cell_index(
                self.data_width as int,
                col.data_offset as int,
                row as int,
            ) + col.size > self.data@.len(),
            r matches Err(e) ==> e == GridError::OutOfBounds,
            r matches Ok(s) ==> s@ == (if row < self.row_count {
                utf8_lossy_of(trim_nul(cell_bytes(*self, row as int, *col)))
            } else {
                Seq::<char>::empty()
            }),
    {
        if row >= self.row_count {
            return Ok(String::new());
        }
        let len = self.data.len();
        proof {
            self.lemma_row_start(row as int);
        }
        let base = row * self.data_width;
        if col.data_offset > len - base {
            return Err(GridError::OutOfBounds);
        }
        let start = base + col.data_offset;
        if col.size > len - start {
            return Err(GridError::OutOfBounds);
        }
        let mut cell: Vec<u8> = Vec::new();
        let mut i: usize = 0;
        while i < col.size
            invariant
                start + col.size <= self.data@.len(),
                self.data@.len() <= usize::MAX,
                i <= col.size,
                cell@ == self.data@.subrange(start as int, start as int + i),
            decreases col.size - i,
        {
            cell.push(self.data[start + i]);
            proof {
                assert(self.data@.subrange(start as int, start as int + i + 1) =~= self.data@
                    .subrange(start as int, start as int + i).push(self.data@[start + i]));
            }
            i += 1;
        }
        let ghost whole = cell@;
        while cell.len() > 0 && cell[cell.len() - 1] == 0
            invariant
                trim_nul(cell@) == trim_nul(whole),
            decreases cell@.len(),
        {
            cell.pop();
        }
        proof {
            assert(cell@ == trim_nul(cell@));
            assert(whole == cell_bytes(*self, row as int, *col));
        }
        Ok(utf8_lossy(&cell))
    }

    /// The hash key under which the sparkline series of (`row`, `col`) is
    /// looked up: the hash of the decoded text cell.
    pub open spec fn spec_spark_key(&self, row: int, col: Column) -> u64 {
        str_hash(utf8_lossy_of(trim_nul(cell_bytes(*self, row, col))))
    }

    /// Looks up the sparkline series for (`row`, `col`): the store entry
    /// under the hash of the row's text cell, if the store and the entry
    /// exist; no value for a row at or past the row count; the fatal bounds
    /// error when the text cell reaches past the buffer.
    pub fn get_sparkline(&self, row: usize, col: &Column) -> (r: Result<Option<Vec<i64>>, GridError>)
        requires
            self.wf(),
        ensures
            r is Err <==> row < self.row_count && spec_cell_index(
                self.data_width as int,
                col.data_offset as int,
                row as int,
            ) + col.size > self.data@.len(),
            r matches Err(e) ==> e == GridError::OutOfBounds,
            r matches Ok(opt) ==> match opt {
                Some(v) => {
                    &&& row < self.row_count
                    &&& self.sparks matches Some(m) && m@.contains_key(
                        self.spec_spark_key(row as int, *col),
                    ) && v@ == m@[self.spec_spark_key(row as int, *col)]@
                },
                None => row >= self.row_count || self.sparks is None || (self.sparks matches Some(m)
                    && !m@.contains_key(self.spec_spark_key(row as int, *col))),
            },
    {
        if row >= self.row_count {
            return Ok(None);
        }
        let s = match self.get_value_str(row, col) {
            Ok(s) => s,
            Err(e) => {
                return Err(e);
            },
        };
        match self.sparks {
            None => Ok(None),
            Some(m) => {
                let key = hash_code(&s);
                match m.get(&key) {
                    Some(v) => Ok(Some(copy_samples(v))),
                    None => Ok(None),
                }
            },
        }
    }
}

/// An element-for-element copy of a sample series.
pub fn copy_samples(v: &Vec<i64>) -> (r: Vec<i64>)
    ensures
        r@ == v@,
{
    let mut r: Vec<i64> = Vec::new();
    let mut i: usize = 0;
    while i < v.len()
        invariant
            i <= v@.len(),
            r@ == v@.subrange(0, i as int),
        decreases v@.len() - i,
    {
        r.push(v[i]);
        proof {
            assert(v@.subrange(0, i + 1) =~= v@.subrange(0, i as int).push(v@[i as int]));
        }
        i += 1;
    }
    proof {
        assert(v@.subrange(0, v@.len() as int) =~= v@);
    }
    r
}

} // verus!
