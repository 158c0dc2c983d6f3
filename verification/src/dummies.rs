//! Demonstration providers: a fixed 40 by 10 table of generated values and
//! two simple style policies.

use vstd::prelude::*;
use vstd::string::*;
use crate::model_table::{DataSource, Style, Styler};
use crate::text::{dec_rep, usize_to_string};

verus! {

/// The content of the demonstration cell at `(row, col)`: the position on
/// one visual line and the index sum on a second.
pub open spec fn dummy_cell(row: int, col: int) -> Seq<char> {
    "Value ("@ + dec_rep(row as nat) + ", "@ + dec_rep(col as nat) + ")\n------("@ + dec_rep(
        (row + col) as nat,
    ) + ")"@
}

/// Renders [`dummy_cell`] for one position.
fn dummy_text(row: usize, col: usize) -> (s: String)
    requires
        row + col <= usize::MAX,
    ensures
        s@ == dummy_cell(row as int, col as int),
{
    let mut s = String::from_str("Value (");
    let rs = usize_to_string(row);
    s.append(rs.as_str());
    s.append(", ");
    let cs = usize_to_string(col);
    s.append(cs.as_str());
    s.append(")\n------(");
    let ss = usize_to_string(row + col);
    s.append(ss.as_str());
    s.append(")");
    proof {
        assert(s@ =~= dummy_cell(row as int, col as int));
    }
    s
}

/// A generated table: 40 rows, 10 columns, every natural width 15.
pub struct DummyDataSource {
    magic: Vec<Vec<String>>,
    widths: Vec<u16>,
}

impl DataSource for DummyDataSource {
    closed spec fn wf(&self) -> bool {
        &&& self.magic@.len() == 40
        &&& self.widths@.len() == 10
        &&& forall|i: int| 0 <= i < 40 ==> (#[trigger] self.magic@[i])@.len() == 10
        &&& forall|i: int, j: int|
            0 <= i < 40 && 0 <= j < 10 ==> (#[trigger] self.magic@[i]@[j])@ == dummy_cell(i, j)
    }

    closed spec fn rows(&self) -> int {
        40
    }

    closed spec fn cols(&self) -> int {
        10
    }

    closed spec fn cell(&self, row: int, col: int) -> Seq<char> {
        dummy_cell(row, col)
    }

    closed spec fn widths(&self) -> Seq<u16> {
        self.widths@
    }

    proof fn lemma_wf(&self) {
    }

    fn value(&self, row: usize, col: usize) -> (s: &str) {
        let rec = &self.magic[row];
        rec[col].as_str()
    }

    fn shape(&self) -> (sh: (usize, usize)) {
        (40, 10)
    }

    fn max_widths(&self) -> (w: &[u16]) {
        self.widths.as_slice()
    }
}

impl Default for DummyDataSource {
    /// The generated table: cell `(i, j)` holds [`dummy_cell`]`(i, j)`,
    /// and every column's natural width is 15.
    fn default() -> (r: DummyDataSource)
        ensures
            r.wf(),
            forall|j: int| 0 <= j < 10 ==> #[trigger] r.widths()[j] == 15u16,
    {
        let mut magic: Vec<Vec<String>> = Vec::new();
        let mut i: usize = 0;
        while i < 40
            invariant
                i <= 40,
                magic@.len() == i,
                forall|a: int| 0 <= a < i ==> (#[trigger] magic@[a])@.len() == 10,
                forall|a: int, b: int|
                    0 <= a < i && 0 <= b < 10 ==> (#[trigger] magic@[a]@[b])@ == dummy_cell(a, b),
            decreases 40 - i,
        {
            let mut v: Vec<String> = Vec::new();
            let mut j: usize = 0;
            while j < 10
                invariant
                    j <= 10,
                    i < 40,
                    v@.len() == j,
                    forall|b: int| 0 <= b < j ==> (#[trigger] v@[b])@ == dummy_cell(i as int, b),
                decreases 10 - j,
            {
                let t = dummy_text(i, j);
                v.push(t);
                j += 1;
            }
            magic.push(v);
            i += 1;
        }
        let mut widths: Vec<u16> = Vec::new();
        let mut k: usize = 0;
        while k < 10
            invariant
                k <= 10,
                widths@.len() == k,
                forall|b: int| 0 <= b < k ==> #[trigger] widths@[b] == 15u16,
            decreases 10 - k,
        {
            widths.push(15);
            k += 1;
        }
        DummyDataSource { magic, widths }
    }
}

/// A six-color palette cycling by column; highlighting reverses the video.
/// Both spacings are one display cell.
pub struct DummyStyle {}

impl Default for DummyStyle {
    fn default() -> (r: DummyStyle) {
        DummyStyle {  }
    }
}

impl Styler for DummyStyle {
    open spec fn spec_normal(&self, row: int, col: int) -> Style {
        Style { color: (col % 6) as u8, reversed: false }
    }

    open spec fn spec_highlight(&self, row: int, col: int) -> Style {
        Style { color: (col % 6) as u8, reversed: true }
    }

    open spec fn spec_row_spacing(&self) -> u16 {
        1
    }

    open spec fn spec_col_spacing(&self) -> u16 {
        1
    }

    fn normal(&self, row: usize, col: usize) -> (st: Style) {
        Style { color: (col % 6) as u8, reversed: false }
    }

    fn highlight(&self, row: usize, col: usize) -> (st: Style) {
        let base = self.normal(row, col);
        Style { color: base.color, reversed: true }
    }

    fn row_spacing(&self) -> (sp: u16) {
        1
    }

    fn col_spacing(&self) -> (sp: u16) {
        1
    }
}

/// A colorless style policy with configurable spacing, for hosts that want
/// tighter packing than [`DummyStyle`].
pub struct PlainStyle {
    pub row_gap: u16,
    pub col_gap: u16,
}

impl PlainStyle {
    pub fn new(row_gap: u16, col_gap: u16) -> (r: PlainStyle)
        ensures
            r.row_gap == row_gap,
            r.col_gap == col_gap,
    {
        PlainStyle { row_gap, col_gap }
    }
}

impl Styler for PlainStyle {
    open spec fn spec_normal(&self, row: int, col: int) -> Style {
        Style { color: 0, reversed: false }
    }

    open spec fn spec_highlight(&self, row: int, col: int) -> Style {
        Style { color: 0, reversed: true }
    }

    open spec fn spec_row_spacing(&self) -> u16 {
        self.row_gap
    }

    open spec fn spec_col_spacing(&self) -> u16 {
        self.col_gap
    }

    fn normal(&self, row: usize, col: usize) -> (st: Style) {
        Style { color: 0, reversed: false }
    }

    fn highlight(&self, row: usize, col: usize) -> (st: Style) {
        Style { color: 0, reversed: true }
    }

    fn row_spacing(&self) -> (sp: u16) {
        self.row_gap
    }

    fn col_spacing(&self) -> (sp: u16) {
        self.col_gap
    }
}

} // verus!
