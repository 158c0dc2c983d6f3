//! A tabular data provider holding delimited-file records in memory,
//! together with the precomputed maximum display width of each column.
//! Reading the records from disk is the host application's business; the
//! width table and the provider contract are computed and proved here.

use vstd::prelude::*;
use vstd::string::*;
use crate::model_table::DataSource;

verus! {

/// The maximum over the first `n` records of the character count of the
/// cell in column `col`, clamped to the display-width range.
pub open spec fn col_width_upto(recs: Seq<Seq<Seq<char>>>, col: int, n: int) -> int
    decreases n,
{
    if n <= 0 {
        0
    } else {
        let prev = col_width_upto(recs, col, n - 1);
        let len = recs[n - 1][col].len() as int;
        let cur: int = if len > 65535 {
            65535
        } else {
            len
        };
        if cur > prev {
            cur
        } else {
            prev
        }
    }
}

/// Row-major records of one delimited file, all of the same length, with
/// one width entry per column.
pub struct CSV {
    v: Vec<Vec<String>>,
    w: Vec<u16>,
}

impl DataSource for CSV {
    closed spec fn wf(&self) -> bool {
        forall|i: int| 0 <= i < self.v@.len() ==> self.v@[i]@.len() == self.w@.len()
    }

    closed spec fn rows(&self) -> int {
        self.v@.len() as int
    }

    closed spec fn cols(&self) -> int {
        self.w@.len() as int
    }

    closed spec fn cell(&self, row: int, col: int) -> Seq<char> {
        self.v@[row]@[col]@
    }

    closed spec fn widths(&self) -> Seq<u16> {
        self.w@
    }

    proof fn lemma_wf(&self) {
    }

    fn value(&self, row: usize, col: usize) -> (s: &str) {
        let rec = &self.v[row];
        rec[col].as_str()
    }

    fn shape(&self) -> (sh: (usize, usize)) {
        (self.v.len(), self.w.len())
    }

    fn max_widths(&self) -> (w: &[u16]) {
        self.w.as_slice()
    }
}

impl CSV {
    /// Builds the provider from the records of one file: the shape is the
    /// record count by the (shared) record length, each cell is the
    /// record's field, and each column's natural width is the largest
    /// character count in it, clamped to the display-width range.
    pub fn new(records: Vec<Vec<String>>) -> (r: CSV)
        requires
            forall|i: int|
                0 <= i < records@.len() ==> #[trigger] records@[i]@.len() == records@[0]@.len(),
        ensures
            r.wf(),
            r.rows() == records@.len(),
            r.cols() == if records@.len() > 0 {
                records@[0]@.len() as int
            } else {
                0
            },
            forall|i: int, j: int|
                0 <= i < r.rows() && 0 <= j < r.cols() ==> #[trigger] r.cell(i, j)
                    == records.deep_view()[i][j],
            forall|j: int|
                0 <= j < r.cols() ==> #[trigger] r.widths()[j] as int == col_width_upto(
                    records.deep_view(),
                    j,
                    records@.len() as int,
                ),
    {
        let rows: usize = records.len();
        let cols: usize = if rows > 0 {
            records[0].len()
        } else {
            0
        };
        let mut w: Vec<u16> = Vec::new();
        let mut c: usize = 0;
        while c < cols
            invariant
                c <= cols,
                w@.len() == c,
                rows == records@.len(),
                rows > 0 ==> cols == records@[0]@.len(),
                rows == 0 ==> cols == 0,
                forall|i: int|
                    0 <= i < records@.len() ==> #[trigger] records@[i]@.len() == records@[0]@.len(),
                forall|j: int|
                    0 <= j < c ==> #[trigger] w@[j] as int == col_width_upto(
                        records.deep_view(),
                        j,
                        rows as int,
                    ),
            decreases cols - c,
        {
            let mut best: u16 = 0;
            let mut i: usize = 0;
            while i < rows
                invariant
                    i <= rows,
                    c < cols,
                    rows == records@.len(),
                    rows > 0 ==> cols == records@[0]@.len(),
                    forall|k: int|
                        0 <= k < records@.len() ==> #[trigger] records@[k]@.len() == records@[0]@.len(),
                    best as int == col_width_upto(records.deep_view(), c as int, i as int),
                decreases rows - i,
            {
                let rec = &records[i];
                let l: usize = rec[c].as_str().unicode_len();
                let lc: u16 = if l > 65535 {
                    65535u16
                } else {
                    l as u16
                };
                if lc > best {
                    best = lc;
                }
                proof {
                    assert(records.deep_view()[i as int][c as int] == records@[i as int]@[c as int]@);
                }
                i += 1;
            }
            w.push(best);
            c += 1;
        }
        let r = CSV { v: records, w };
        proof {
            assert forall|i: int, j: int|
                0 <= i < r.rows() && 0 <= j < r.cols() implies #[trigger] r.cell(i, j)
                == records.deep_view()[i][j] by {
                assert(records.deep_view()[i][j] == records@[i]@[j]@);
            }
        }
        r
    }
}

} // verus!
