//! The grid widget: an installed schema, the sparkline series store and the
//! virtualized top row index, driving one renderer per frame.
//!
//! The schema is normalized once, when it is installed; every render call
//! takes a fresh buffer and viewport and returns the frame's display list.

use std::collections::HashMap;

use vstd::prelude::*;

use crate::cmd::{views_of, DrawCmd};
use crate::ds::{str_hash, hash_code, DataSource, Sparks};
use crate::renderer::{
    sparks_bounded, spec_calc_col_width, spec_render, GridRenderer, GRID_LIMIT, MARGIN, ROW_HEIGHT,
};
use crate::schema::{
    normalize_schema, row_stride, schema_normalized, schema_valid, size_prefix_sum,
    visible_index_seq, Column, Schema,
};
use crate::sparkline::SAMPLE_LIMIT;
use crate::GridError;

verus! {

broadcast use vstd::std_specs::hash::group_hash_axioms;

/// The sparkline store a list of (key, samples) pairs builds: each key's
/// hash maps to its samples, later pairs winning on a hash collision.
pub open spec fn spark_map_v(pairs: Seq<(String, Vec<i64>)>, i: int) -> Map<u64, Seq<i64>>
    decreases i,
{
    if i <= 0 {
        Map::empty()
    } else {
        spark_map_v(pairs, i - 1).insert(str_hash(pairs[i - 1].0@), pairs[i - 1].1@)
    }
}

/// Every stored sample series stays within the sample limit.
pub open spec fn store_bounded(m: Map<u64, Vec<i64>>) -> bool {
    forall|k: u64|
        #[trigger] m.contains_key(k) ==> forall|j: int|
            0 <= j < m[k]@.len() ==> -SAMPLE_LIMIT <= #[trigger] m[k]@[j] <= SAMPLE_LIMIT
}

/// A grid widget: the installed schema, the series store and the top index.
pub struct Grid {
    pub id: String,
    pub schema: Schema,
    pub sparks: Sparks,
    pub top_index: usize,
}

impl Grid {
    /// The widget invariant: the installed schema is well formed with
    /// normalized offsets, and the stored samples are within the limit.
    pub open spec fn wf(self) -> bool {
        &&& schema_valid(self.schema.cols@)
        &&& schema_normalized(self.schema.cols@)
        &&& store_bounded(self.sparks@)
    }

    /// Installs the schema: assigns the byte offsets and rejects a malformed
    /// column list.  The widget starts with no sparkline series and the top
    /// row first.
    pub fn new(id: String, cols: Vec<Column>) -> (r: Result<Grid, GridError>)
        ensures
            r matches Ok(g) ==> {
                &&& g.wf()
                &&& g.id@ == id@
                &&& g.top_index == 0
                &&& g.sparks@ == Map::<u64, Vec<i64>>::empty()
                &&& g.schema.cols@.len() == cols@.len()
                &&& (forall|i: int|
                    0 <= i < cols@.len() ==> #[trigger] g.schema.cols@[i] == (Column {
                        data_offset: size_prefix_sum(cols@, i) as usize,
                        ..cols@[i]
                    }))
            },
            r is Ok <==> schema_valid(cols@) && size_prefix_sum(cols@, cols@.len() as int)
                <= usize::MAX,
            r matches Err(e) ==> e == GridError::MalformedSchema,
    {
        let mut schema = Schema { cols };
        match row_stride(&schema) {
            Some(_) => (),
            None => {
                return Err(GridError::MalformedSchema);
            },
        }
        match normalize_schema(&mut schema) {
            Ok(()) => (),
            Err(e) => {
                return Err(e);
            },
        }
        Ok(Grid { id, schema, sparks: HashMap::new(), top_index: 0 })
    }

    /// Renders one frame: wraps the buffer, lays out the viewport and emits
    /// the display list.  A misaligned buffer, a schema whose cells reach
    /// past the stride, or a schema with no visible column rejects the frame
    /// before anything is painted.
    pub fn render(
        &self,
        data: Vec<u8>,
        data_width: usize,
        top: i64,
        left: i64,
        width: i64,
        height: i64,
        now: i64,
    ) -> (r: Result<Vec<DrawCmd>, GridError>)
        requires
            self.wf(),
            0 <= left <= GRID_LIMIT,
            0 <= top <= GRID_LIMIT,
            0 <= width <= GRID_LIMIT,
            0 <= height <= GRID_LIMIT,
        ensures
            r is Ok <==> data_width > 0 && (data@.len() as int) % (data_width as int) == 0
                && visible_index_seq(self.schema.cols@, self.schema.cols@.len() as int).len() > 0
                && crate::schema::schema_fits(self.schema.cols@, data_width as int),
            r matches Err(e) ==> e == (if !(data_width > 0 && (data@.len() as int) % (
            data_width as int) == 0) {
                GridError::MisalignedBuffer
            } else if visible_index_seq(self.schema.cols@, self.schema.cols@.len() as int).len()
                == 0 {
                GridError::MalformedSchema
            } else {
                GridError::OutOfBounds
            }),
            r matches Ok(cmds) ==> exists|dsv: DataSource<'_>|
                {
                    &&& dsv.data@ == data@
                    &&& dsv.data_width == data_width
                    &&& dsv.row_count == data@.len() as int / (data_width as int)
                    &&& (dsv.sparks matches Some(m) && m@ == self.sparks@)
                    &&& #[trigger] views_of(cmds@) == spec_render(
                        GridRenderer {
                            left,
                            top,
                            width,
                            height,
                            row_height: ROW_HEIGHT,
                            margin: MARGIN,
                            col_width: spec_calc_col_width(
                                GridRenderer {
                                    left,
                                    top,
                                    width,
                                    height,
                                    row_height: ROW_HEIGHT,
                                    margin: MARGIN,
                                    col_width: 0i64,
                                    top_index: 0usize,
                                },
                                visible_index_seq(
                                    self.schema.cols@,
                                    self.schema.cols@.len() as int,
                                ).len() as int,
                            ) as i64,
                            top_index: self.top_index,
                        },
                        self.schema.cols@,
                        dsv,
                        now,
                    )
                },
    {
        let ds = match DataSource::new(data, data_width, Some(&self.sparks)) {
            Ok(d) => d,
            Err(e) => {
                return Err(e);
            },
        };
        let mut gr = GridRenderer::new(left, top, width, height);
        proof {
            assert(sparks_bounded(ds));
        }
        let r = gr.render(&self.schema, &ds, self.top_index, now);
        match r {
            Ok(cmds) => {
                proof {
                    assert(ds.data@ == data@ && ds.data_width == data_width && (
                    ds.sparks matches Some(m) && m@ == self.sparks@) && views_of(cmds@)
                        == spec_render(gr, self.schema.cols@, ds, now));
                }
                Ok(cmds)
            },
            Err(e) => Err(e),
        }
    }

    /// Replaces the sparkline series store: each pair's key is hashed and
    /// its samples stored under the hash, later pairs winning a collision.
    pub fn set_sparks(&mut self, series: Vec<(String, Vec<i64>)>)
        requires
            old(self).wf(),
            forall|i: int, j: int|
                0 <= i < series@.len() && 0 <= j < series@[i].1@.len() ==> -SAMPLE_LIMIT <= #[trigger] series@[i].1@[j]
                    <= SAMPLE_LIMIT,
        ensures
            final(self).wf(),
            final(self).id == old(self).id,
            final(self).schema == old(self).schema,
            final(self).top_index == old(self).top_index,
            final(self).sparks@.map_values(|v: Vec<i64>| v@) == spark_map_v(
                series@,
                series@.len() as int,
            ),
    {
        self.sparks = HashMap::new();
        let mut i: usize = 0;
        proof {
            assert(self.sparks@.map_values(|v: Vec<i64>| v@) =~= spark_map_v(series@, 0));
        }
        while i < series.len()
            invariant
                i <= series@.len(),
                self.id == old(self).id,
                self.schema == old(self).schema,
                self.top_index == old(self).top_index,
                old(self).wf(),
                forall|a: int, b: int|
                    0 <= a < series@.len() && 0 <= b < series@[a].1@.len() ==> -SAMPLE_LIMIT <= #[trigger] series@[a].1@[b]
                        <= SAMPLE_LIMIT,
                store_bounded(self.sparks@),
                self.sparks@.map_values(|v: Vec<i64>| v@) == spark_map_v(series@, i as int),
            decreases series@.len() - i,
        {
            let key = hash_code(&series[i].0);
            let val = crate::ds::copy_samples(&series[i].1);
            self.sparks.insert(key, val);
            proof {
                assert(self.sparks@.map_values(|v: Vec<i64>| v@) =~= spark_map_v(
                    series@,
                    i + 1,
                ));
            }
            i += 1;
        }
    }

    /// Whether any sparkline series is stored.
    pub fn has_sparks(&self) -> (r: bool)
        ensures
            r == (self.sparks@.len() > 0),
    {
        self.sparks.len() > 0
    }

    /// Sets the first data row shown on the next frame.
    pub fn set_top_index(&mut self, top_index: usize)
        ensures
            *final(self) == (Grid { top_index, ..*old(self) }),
    {
        self.top_index = top_index;
    }
}

} // verus!
