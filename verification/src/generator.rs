//! Deterministic synthetic row generation.
//!
//! A generator owns one sampler per payload column and no mutable state, so
//! any number of workers may generate rows concurrently. The same logical
//! index always yields the same row, and the partition key — the eight-byte
//! big-endian image of the index — is unique per index, which is what
//! round-trip validation rests on.

use vstd::prelude::*;

use crate::codec::{encode_u64, lemma_encode_u64_injective, spec_encode_u64};
use crate::distribution::{spec_sample, Sampler};
use crate::error::ValidationError;
use crate::validator::{row_matches, spec_validate_equal};
use crate::value::{row_view, Row, Value, ValueV};

verus! {

/// The row that sampler configuration `cols` produces for logical index
/// `index`: the partition key first, then one generated payload column per
/// sampler, each the big-endian image of that sampler's value at `index`.
pub open spec fn spec_generate_row(cols: Seq<Sampler>, index: u64) -> Seq<ValueV> {
    Seq::new(
        cols.len() + 1,
        |j: int|
            if j == 0 {
                ValueV::Blob(spec_encode_u64(index))
            } else {
                ValueV::Blob(
                    spec_encode_u64(spec_sample(cols[j - 1].dist, cols[j - 1].seed, index)),
                )
            },
    )
}

/// Builds the column values of a synthetic row from a logical row index.
pub struct RowGenerator {
    /// One independent sampler per payload column.
    pub columns: Vec<Sampler>,
}

impl RowGenerator {
    pub open spec fn wf(&self) -> bool {
        forall|j: int| 0 <= j < self.columns@.len() ==> self.columns@[j].wf()
    }

    pub fn new(columns: Vec<Sampler>) -> (r: RowGenerator)
        requires
            forall|j: int| 0 <= j < columns@.len() ==> columns@[j].wf(),
        ensures
            r.columns@ == columns@,
            r.wf(),
    {
        RowGenerator { columns }
    }

    /// Generates the row for `index`: a pure function of the configured
    /// samplers and the index, so repeated calls return identical rows.
    pub fn generate_row(&self, index: u64) -> (r: Row)
        requires
            self.wf(),
        ensures
            row_view(r@) == spec_generate_row(self.columns@, index),
            r@.len() == self.columns@.len() + 1,
    {
        let ghost goal: Seq<ValueV> = spec_generate_row(self.columns@, index);
        let mut r: Row = Vec::new();
        r.push(Value::Blob(encode_u64(index)));
        let mut i: usize = 0;
        while i < self.columns.len()
            invariant
                self.wf(),
                goal == spec_generate_row(self.columns@, index),
                i <= self.columns@.len(),
                r@.len() == i + 1,
                forall|j: int| 0 <= j < r@.len() ==> r@[j]@ == goal[j],
            decreases self.columns.len() - i,
        {
            let sampler = self.columns[i];
            let v = sampler.sample(index);
            r.push(Value::Blob(encode_u64(v)));
            i += 1;
        }
        proof {
            assert(row_view(r@) =~= goal);
        }
        r
    }
}

/// Distinct logical indices have distinct partition keys.
pub proof fn lemma_partition_key_unique(cols: Seq<Sampler>, i: u64, j: u64)
    requires
        i != j,
    ensures
        spec_generate_row(cols, i)[0] != spec_generate_row(cols, j)[0],
{
    if spec_generate_row(cols, i)[0] == spec_generate_row(cols, j)[0] {
        lemma_encode_u64_injective(i, j);
    }
}

/// Round trip: when a read keyed by a generated row's partition key returns
/// exactly the written row, equality validation against a fresh
/// `generate_row` of the same index succeeds.
pub proof fn lemma_read_roundtrip(cols: Seq<Sampler>, index: u64)
    ensures
        spec_validate_equal(
            spec_generate_row(cols, index),
            seq![spec_generate_row(cols, index)],
        ) == Ok::<(), ValidationError>(()),
{
    let row = spec_generate_row(cols, index);
    assert(row_matches(row, row));
    assert(seq![row][0] == row);
}

} // verus!
