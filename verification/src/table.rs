//! The canonical table every source is normalized into.

use vstd::prelude::*;
use crate::order::str_eq;

verus! {

/// A normalized table: ordered column names plus rows of string cells.
///
/// The well-formedness invariant ties every row's arity to the header count:
/// missing source values become empty cells, never missing slots.
pub struct ExtractedData {
    pub headers: Vec<String>,
    pub rows: Vec<Vec<String>>,
}

impl ExtractedData {
    /// Every row has exactly one cell per header.
    pub open spec fn wf(self) -> bool {
        forall|i: int|
            0 <= i < self.rows@.len() ==> (#[trigger] self.rows@[i])@.len()
                == self.headers@.len()
    }

    /// The headers as mathematical character sequences.
    pub open spec fn spec_headers(self) -> Seq<Seq<char>> {
        self.headers@.map_values(|h: String| h@)
    }

    /// The cell in row `i`, column `j`, as a character sequence.
    pub open spec fn spec_cell(self, i: int, j: int) -> Seq<char> {
        self.rows@[i]@[j]@
    }

    /// An empty table: no headers, no rows.
    pub fn new() -> (t: ExtractedData)
        ensures
            t.headers@.len() == 0,
            t.rows@.len() == 0,
            t.wf(),
    {
        ExtractedData { headers: Vec::new(), rows: Vec::new() }
    }

    /// Number of rows.
    pub fn row_count(&self) -> (n: usize)
        ensures
            n == self.rows@.len(),
    {
        self.rows.len()
    }

    /// Number of columns.
    pub fn column_count(&self) -> (n: usize)
        ensures
            n == self.headers@.len(),
    {
        self.headers.len()
    }
}

/// How many cells of one row, from index `j` on, read as the sentinel for
/// an unrecognized source value kind.
pub open spec fn sentinel_cells_from(row: Seq<String>, j: int) -> int
    decreases row.len() - j,
{
    if j < 0 || j >= row.len() {
        0
    } else {
        (if row[j]@ == "[UNSUPPORTED TYPE]"@ {
            1int
        } else {
            0int
        }) + sentinel_cells_from(row, j + 1)
    }
}

/// How many sentinel cells the rows from index `i` on hold.
pub open spec fn sentinel_cells_in_rows(rows: Seq<Vec<String>>, i: int) -> int
    decreases rows.len() - i,
{
    if i < 0 || i >= rows.len() {
        0
    } else {
        sentinel_cells_from(rows[i]@, 0) + sentinel_cells_in_rows(rows, i + 1)
    }
}

/// What one extraction came to: how many rows the table holds and how many
/// of its cells are the sentinel of an unrecognized value kind. Returned as
/// a value rather than printed, so a caller (or a test) can assert on it;
/// an unrecognized cell costs a count here, never the row or the run.
pub struct ExtractionStats {
    pub rows: usize,
    pub unsupported_cells: usize,
}

/// Every sentinel count is non-negative.
proof fn lemma_sentinel_cells_from_nonneg(row: Seq<String>, j: int)
    ensures
        sentinel_cells_from(row, j) >= 0,
    decreases row.len() - j,
{
    if 0 <= j < row.len() {
        lemma_sentinel_cells_from_nonneg(row, j + 1);
    }
}

/// Every sentinel count over rows is non-negative.
proof fn lemma_sentinel_cells_in_rows_nonneg(rows: Seq<Vec<String>>, i: int)
    ensures
        sentinel_cells_in_rows(rows, i) >= 0,
    decreases rows.len() - i,
{
    if 0 <= i < rows.len() {
        lemma_sentinel_cells_from_nonneg(rows[i]@, 0);
        lemma_sentinel_cells_in_rows_nonneg(rows, i + 1);
    }
}

/// Counts the rows and sentinel cells of a canonical table. The cell count
/// must fit the machine word, which any table that fits in memory satisfies.
pub fn extraction_stats(t: &ExtractedData) -> (s: ExtractionStats)
    requires
        sentinel_cells_in_rows(t.rows@, 0) <= usize::MAX,
    ensures
        s.rows == t.rows@.len(),
        s.unsupported_cells as int == sentinel_cells_in_rows(t.rows@, 0),
{
    let mut unsupported: usize = 0;
    let mut i: usize = 0;
    while i < t.rows.len()
        invariant
            sentinel_cells_in_rows(t.rows@, 0) <= usize::MAX,
            i <= t.rows@.len(),
            unsupported as int + sentinel_cells_in_rows(t.rows@, i as int) == sentinel_cells_in_rows(
                t.rows@,
                0,
            ),
        decreases t.rows@.len() - i,
    {
        let row = &t.rows[i];
        let mut j: usize = 0;
        while j < row.len()
            invariant
                sentinel_cells_in_rows(t.rows@, 0) <= usize::MAX,
                i < t.rows@.len(),
                *row == t.rows@[i as int],
                j <= row@.len(),
                unsupported as int + sentinel_cells_from(row@, j as int) + sentinel_cells_in_rows(
                    t.rows@,
                    i + 1,
                ) == sentinel_cells_in_rows(t.rows@, 0),
            decreases row@.len() - j,
        {
            let hit = str_eq(row[j].as_str(), "[UNSUPPORTED TYPE]");
            if hit {
                proof {
                    lemma_sentinel_cells_from_nonneg(row@, j + 1);
                    lemma_sentinel_cells_in_rows_nonneg(t.rows@, i + 1);
                    assert(sentinel_cells_from(row@, j as int) == 1 + sentinel_cells_from(
                        row@,
                        j + 1,
                    ));
                }
                unsupported = unsupported + 1;
            }
            j = j + 1;
        }
        i = i + 1;
    }
    ExtractionStats { rows: t.rows.len(), unsupported_cells: unsupported }
}

} // verus!
