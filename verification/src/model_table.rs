//! The viewport layout engine: data and style provider traits, navigation
//! state, and the renderer that turns a table plus a drawing rectangle into
//! a sequence of positioned, styled text spans.

use vstd::prelude::*;

verus! {

/// Natural column widths above this many display units are clamped,
/// unless the column has been explicitly expanded.
pub const SHRUNK_WIDTH: u16 = 24;

/// A visual style for one cell: an abstract color index plus a
/// reverse-video flag. The host application maps the index to whatever
/// its terminal backend understands.
#[derive(Clone, Copy, Debug, PartialEq, Eq, Structural)]
pub struct Style {
    pub color: u8,
    pub reversed: bool,
}

/// The drawing rectangle: origin plus extent, in display cells.
#[derive(Clone, Copy, Debug, PartialEq, Eq, Structural)]
pub struct Rect {
    pub x: u16,
    pub y: u16,
    pub width: u16,
    pub height: u16,
}

impl Rect {
    /// The rectangle's coordinates stay within the display-cell range.
    pub open spec fn wf(self) -> bool {
        self.x + self.width <= u16::MAX && self.y + self.height <= u16::MAX
    }

    /// First x coordinate at or past the right edge.
    pub open spec fn right(self) -> int {
        self.x + self.width
    }

    /// First y coordinate at or past the bottom edge.
    pub open spec fn bottom(self) -> int {
        self.y + self.height
    }
}

/// The active selection: nothing, a single cell, a whole row, or a whole
/// column. Row and column selection exist in the data model but no
/// navigation command currently produces them.
#[derive(Clone, Copy, Debug, PartialEq, Eq, Structural)]
pub enum Selection {
    Cell(usize, usize),
    Row(usize),
    Col(usize),
    NoSelect,
}

/// The set of column indices exempted from the shrink-width policy,
/// backed by a duplicate-free vector.
#[derive(Clone, Debug)]
pub struct ColumnSet {
    elems: Vec<usize>,
}

impl View for ColumnSet {
    type V = Set<usize>;

    closed spec fn view(&self) -> Set<usize> {
        self.elems@.to_set()
    }
}

impl ColumnSet {
    /// The backing vector holds each member exactly once.
    pub closed spec fn wf(&self) -> bool {
        forall|i: int, k: int|
            0 <= i < k < self.elems@.len() ==> self.elems@[i] != self.elems@[k]
    }

    pub fn new() -> (r: ColumnSet)
        ensures
            r@ == Set::<usize>::empty(),
            r.wf(),
    {
        let r = ColumnSet { elems: Vec::new() };
        proof {
            assert(r@ =~= Set::<usize>::empty());
        }
        r
    }

    pub fn contains(&self, j: usize) -> (r: bool)
        ensures
            r == self@.contains(j),
    {
        let n = self.elems.len();
        let mut i: usize = 0;
        while i < n
            invariant
                n == self.elems@.len(),
                i <= n,
                forall|k: int| 0 <= k < i ==> self.elems@[k] != j,
            decreases n - i,
        {
            if self.elems[i] == j {
                return true;
            }
            i += 1;
        }
        proof {
            assert(!self.elems@.contains(j));
        }
        false
    }

    pub fn insert(&mut self, j: usize)
        requires
            old(self).wf(),
        ensures
            final(self).wf(),
            final(self)@ == old(self)@.insert(j),
    {
        if !self.contains(j) {
            self.elems.push(j);
            proof {
                assert forall|x: usize| final(self)@.contains(x) <==> old(self)@.insert(j).contains(x) by {
                    if self.elems@.contains(x) {
                        let k = choose|k: int| 0 <= k < self.elems@.len() && self.elems@[k] == x;
                        if k < self.elems@.len() - 1 {
                            assert(old(self).elems@[k] == x);
                        }
                    }
                    if old(self).elems@.contains(x) {
                        let k = choose|k: int| 0 <= k < old(self).elems@.len() && old(self).elems@[k] == x;
                        assert(self.elems@[k] == x);
                    }
                    if x == j {
                        assert(self.elems@[self.elems@.len() - 1] == j);
                    }
                }
                assert(final(self)@ =~= old(self)@.insert(j));
            }
        } else {
            proof {
                assert(final(self)@ =~= old(self)@.insert(j));
            }
        }
    }

    pub fn remove(&mut self, j: usize)
        requires
            old(self).wf(),
        ensures
            final(self).wf(),
            final(self)@ == old(self)@.remove(j),
    {
        let n = self.elems.len();
        let mut i: usize = 0;
        while i < n
            invariant
                n == self.elems@.len(),
                i <= n,
                self.wf(),
                *self == *old(self),
                forall|k: int| 0 <= k < i ==> self.elems@[k] != j,
            decreases n - i,
        {
            if self.elems[i] == j {
                self.elems.remove(i);
                proof {
                    assert forall|x: usize| final(self)@.contains(x) <==> old(self)@.remove(j).contains(x) by {
                        if self.elems@.contains(x) {
                            let k = choose|k: int| 0 <= k < self.elems@.len() && self.elems@[k] == x;
                            if k < i {
                                assert(old(self).elems@[k] == x);
                            } else {
                                assert(old(self).elems@[k + 1] == x);
                            }
                        }
                        if old(self).elems@.contains(x) && x != j {
                            let k = choose|k: int| 0 <= k < old(self).elems@.len() && old(self).elems@[k] == x;
                            if k < i {
                                assert(self.elems@[k] == x);
                            } else {
                                assert(old(self).elems@[k] != j || k == i);
                                assert(self.elems@[k - 1] == x);
                            }
                        }
                        if x == j {
                            assert forall|k: int| 0 <= k < self.elems@.len() implies self.elems@[k] != j by {
                                if k < i {
                                    assert(old(self).elems@[k] != j);
                                } else {
                                    assert(old(self).elems@[k + 1] != j);
                                }
                            }
                        }
                    }
                    assert(final(self)@ =~= old(self)@.remove(j));
                    assert forall|a: int, b: int|
                        0 <= a < b < self.elems@.len() implies self.elems@[a] != self.elems@[b] by {
                        let oa: int = if a < i { a } else { a + 1 };
                        let ob: int = if b < i { b } else { b + 1 };
                        assert(old(self).elems@[oa] != old(self).elems@[ob]);
                    }
                }
                return ;
            }
            i += 1;
        }
        proof {
            assert(!self.elems@.contains(j));
            assert(!self@.contains(j));
            assert(final(self)@ =~= old(self)@.remove(j));
        }
    }

    pub fn clear(&mut self)
        ensures
            final(self).wf(),
            final(self)@ == Set::<usize>::empty(),
    {
        self.elems = Vec::new();
        proof {
            assert(final(self)@ =~= Set::<usize>::empty());
        }
    }
}

/// Navigation state: scroll offset, active selection, truncation flags and
/// the last cell reached by the most recent layout, plus the set of
/// expanded columns.
#[derive(Debug)]
pub struct State {
    pub offset: (usize, usize),
    pub selection: Selection,
    pub text_cut: (bool, bool),
    pub last_cell: (usize, usize),
    pub expanded_columns: ColumnSet,
}

impl Default for State {
    /// Startup state: zero offset, no selection, no truncation recorded,
    /// no expanded columns.
    fn default() -> (r: State)
        ensures
            r.offset == (0usize, 0usize),
            r.selection == Selection::NoSelect,
            r.text_cut == (false, false),
            r.last_cell == (0usize, 0usize),
            r.expanded_columns@ == Set::<usize>::empty(),
            r.expanded_columns.wf(),
    {
        State {
            offset: (0, 0),
            selection: Selection::NoSelect,
            text_cut: (false, false),
            last_cell: (0, 0),
            expanded_columns: ColumnSet::new(),
        }
    }
}

/// Source of tabular values: a shape, a value per cell, and the natural
/// (unclipped) maximum display width of each column.
pub trait DataSource: Sized {
    /// Internal consistency of the provider: what `lemma_wf` needs.
    spec fn wf(&self) -> bool;

    spec fn rows(&self) -> int;

    spec fn cols(&self) -> int;

    spec fn cell(&self, row: int, col: int) -> Seq<char>;

    spec fn widths(&self) -> Seq<u16>;

    /// A well-formed provider has a nonnegative shape and one width entry
    /// per column.
    proof fn lemma_wf(&self)
        requires
            self.wf(),
        ensures
            0 <= self.rows(),
            0 <= self.cols(),
            self.widths().len() == self.cols(),
    ;

    fn value(&self, row: usize, col: usize) -> (s: &str)
        requires
            self.wf(),
            row < self.rows(),
            col < self.cols(),
        ensures
            s@ == self.cell(row as int, col as int),
    ;

    fn shape(&self) -> (sh: (usize, usize))
        requires
            self.wf(),
        ensures
            sh.0 as int == self.rows(),
            sh.1 as int == self.cols(),
    ;

    fn max_widths(&self) -> (w: &[u16])
        requires
            self.wf(),
        ensures
            w@ == self.widths(),
    ;
}

/// Visual policy for cells: a style for the normal and the highlighted
/// state of every position, and fixed inter-row and inter-column spacing.
pub trait Styler: Sized {
    spec fn spec_normal(&self, row: int, col: int) -> Style;

    spec fn spec_highlight(&self, row: int, col: int) -> Style;

    spec fn spec_row_spacing(&self) -> u16;

    spec fn spec_col_spacing(&self) -> u16;

    fn normal(&self, row: usize, col: usize) -> (st: Style)
        ensures
            st == self.spec_normal(row as int, col as int),
    ;

    fn highlight(&self, row: usize, col: usize) -> (st: Style)
        ensures
            st == self.spec_highlight(row as int, col as int),
    ;

    fn row_spacing(&self) -> (sp: u16)
        ensures
            sp == self.spec_row_spacing(),
    ;

    fn col_spacing(&self) -> (sp: u16)
        ensures
            sp == self.spec_col_spacing(),
    ;
}

/// One positioned span of styled text: write `text`, clipped to at most
/// `width` display cells, at `(x, y)`.
#[derive(Clone, Debug, PartialEq, Eq)]
pub struct DrawOp {
    pub x: u16,
    pub y: u16,
    pub width: u16,
    pub text: String,
    pub style: Style,
}

/// The mathematical image of a [`DrawOp`].
pub ghost struct DrawOpV {
    pub x: int,
    pub y: int,
    pub width: int,
    pub text: Seq<char>,
    pub style: Style,
}

impl View for DrawOp {
    type V = DrawOpV;

    open spec fn view(&self) -> DrawOpV {
        DrawOpV {
            x: self.x as int,
            y: self.y as int,
            width: self.width as int,
            text: self.text@,
            style: self.style,
        }
    }
}

/// Everything one layout pass produces: the spans to draw, the two
/// truncation flags, and the last cell reached.
pub ghost struct RenderModel {
    pub ops: Seq<DrawOpV>,
    pub cut_row: bool,
    pub cut_col: bool,
    pub last_row: int,
    pub last_col: int,
}

pub open spec fn ops_view(s: Seq<DrawOp>) -> Seq<DrawOpV> {
    s.map_values(|o: DrawOp| o@)
}

pub open spec fn model_of(
    ops: Seq<DrawOp>,
    cut_row: bool,
    cut_col: bool,
    last_row: int,
    last_col: int,
) -> RenderModel {
    RenderModel { ops: ops_view(ops), cut_row, cut_col, last_row, last_col }
}

proof fn lemma_ops_view_push(s: Seq<DrawOp>, o: DrawOp)
    ensures
        ops_view(s.push(o)) == ops_view(s).push(o@),
{
    assert(ops_view(s.push(o)) =~= ops_view(s).push(o@));
}

/// A column's effective width: the natural width, clamped to
/// [`SHRUNK_WIDTH`] unless the column is expanded, and floored at one
/// display unit so the column advance always makes progress.
pub open spec fn eff_width(w: u16, expanded: bool) -> int {
    let base: int = if expanded {
        w as int
    } else if w > SHRUNK_WIDTH {
        SHRUNK_WIDTH as int
    } else {
        w as int
    };
    if base < 1 {
        1
    } else {
        base
    }
}

fn effective_width(w: u16, expanded: bool) -> (r: u16)
    ensures
        r as int == eff_width(w, expanded),
{
    let base: u16 = if expanded {
        w
    } else if w > SHRUNK_WIDTH {
        SHRUNK_WIDTH
    } else {
        w
    };
    if base < 1 {
        1
    } else {
        base
    }
}

/// A cell is highlighted exactly when the selection names its cell, its
/// row, or its column.
pub open spec fn is_highlighted(sel: Selection, row: int, col: int) -> bool {
    match sel {
        Selection::Cell(i, j) => i == row && j == col,
        Selection::Row(i) => i == row,
        Selection::Col(j) => j == col,
        Selection::NoSelect => false,
    }
}

/// Lays out the visual lines of one cell, top to bottom, starting at line
/// `k`. A line whose y position reaches the bottom edge sets the row
/// truncation flag and ends the cell; a line wider than the space left of
/// the right edge is clipped to that space and sets the column truncation
/// flag.
pub open spec fn spec_cell_lines(
    area: Rect,
    y: int,
    x: int,
    w: int,
    st: Style,
    lines: Seq<Seq<char>>,
    k: int,
    acc: RenderModel,
) -> RenderModel
    decreases lines.len() - k,
{
    if !(0 <= k < lines.len()) {
        acc
    } else if y + k >= area.bottom() {
        RenderModel { cut_row: true, ..acc }
    } else if x + w > area.right() {
        let op = DrawOpV { x, y: y + k, width: area.right() - x, text: lines[k], style: st };
        spec_cell_lines(
            area,
            y,
            x,
            w,
            st,
            lines,
            k + 1,
            RenderModel { ops: acc.ops.push(op), cut_col: true, ..acc },
        )
    } else {
        let op = DrawOpV { x, y: y + k, width: w, text: lines[k], style: st };
        spec_cell_lines(area, y, x, w, st, lines, k + 1, RenderModel { ops: acc.ops.push(op), ..acc })
    }
}

/// Lays out the cells of row `row` from column `col` rightwards, with the
/// left edge of the next cell at `x` and `h` the row height reached so
/// far. Stops after the cell whose advance reaches the right edge, unless
/// it is the table's final column. Returns the updated layout and the
/// row's visual height.
pub open spec fn spec_cols<T: DataSource, U: Styler>(
    ds: &T,
    sty: &U,
    area: Rect,
    sel: Selection,
    exp: Set<usize>,
    row: int,
    y: int,
    col: int,
    x: int,
    h: int,
    acc: RenderModel,
) -> (RenderModel, int)
    decreases ds.cols() - col,
{
    if !(0 <= col < ds.cols()) {
        (acc, h)
    } else {
        let w = eff_width(ds.widths()[col], exp.contains(col as usize));
        let st = if is_highlighted(sel, row, col) {
            sty.spec_highlight(row, col)
        } else {
            sty.spec_normal(row, col)
        };
        let lines = crate::text::spec_split_lines(ds.cell(row, col));
        let acc1 = spec_cell_lines(area, y, x, w, st, lines, 0, RenderModel { last_col: col, ..acc });
        let h2: int = if lines.len() > h { lines.len() as int } else { h };
        let x2 = x + w + sty.spec_col_spacing();
        if x2 >= area.right() && col != ds.cols() - 1 {
            (acc1, h2)
        } else {
            spec_cols(ds, sty, area, sel, exp, row, y, col + 1, x2, h2, acc1)
        }
    }
}

/// Lays out rows from `row` downwards, the next row starting at `y`.
/// Stops after the row whose advance reaches the bottom edge, unless it is
/// the table's final row; stopping early records that rows were cut.
pub open spec fn spec_rows<T: DataSource, U: Styler>(
    ds: &T,
    sty: &U,
    area: Rect,
    sel: Selection,
    exp: Set<usize>,
    off_col: int,
    row: int,
    y: int,
    acc: RenderModel,
) -> RenderModel
    decreases ds.rows() - row,
{
    if !(0 <= row < ds.rows()) {
        acc
    } else {
        let r = spec_cols(
            ds,
            sty,
            area,
            sel,
            exp,
            row,
            y,
            off_col,
            area.x as int,
            1,
            RenderModel { last_row: row, ..acc },
        );
        let y2 = y + r.1 + sty.spec_row_spacing();
        if y2 >= area.bottom() && row != ds.rows() - 1 {
            RenderModel { cut_row: true, ..r.0 }
        } else {
            spec_rows(ds, sty, area, sel, exp, off_col, row + 1, y2, r.0)
        }
    }
}

/// The complete layout of one render: spans, truncation flags and last
/// cell, as a function of the providers, the drawing rectangle, and the
/// offset, selection and expanded columns of the navigation state.
pub open spec fn spec_render<T: DataSource, U: Styler>(
    ds: &T,
    sty: &U,
    area: Rect,
    sel: Selection,
    exp: Set<usize>,
    off_row: int,
    off_col: int,
) -> RenderModel {
    spec_rows(
        ds,
        sty,
        area,
        sel,
        exp,
        off_col,
        off_row,
        area.y as int,
        RenderModel { ops: Seq::empty(), cut_row: false, cut_col: false, last_row: 0, last_col: 0 },
    )
}

proof fn lemma_cell_lines_last(
    area: Rect,
    y: int,
    x: int,
    w: int,
    st: Style,
    lines: Seq<Seq<char>>,
    k: int,
    acc: RenderModel,
)
    ensures
        spec_cell_lines(area, y, x, w, st, lines, k, acc).last_row == acc.last_row,
        spec_cell_lines(area, y, x, w, st, lines, k, acc).last_col == acc.last_col,
    decreases lines.len() - k,
{
    if 0 <= k < lines.len() && y + k < area.bottom() {
        if x + w > area.right() {
            let op = DrawOpV { x, y: y + k, width: area.right() - x, text: lines[k], style: st };
            lemma_cell_lines_last(
                area,
                y,
                x,
                w,
                st,
                lines,
                k + 1,
                RenderModel { ops: acc.ops.push(op), cut_col: true, ..acc },
            );
        } else {
            let op = DrawOpV { x, y: y + k, width: w, text: lines[k], style: st };
            lemma_cell_lines_last(
                area,
                y,
                x,
                w,
                st,
                lines,
                k + 1,
                RenderModel { ops: acc.ops.push(op), ..acc },
            );
        }
    }
}

proof fn lemma_cols_last<T: DataSource, U: Styler>(
    ds: &T,
    sty: &U,
    area: Rect,
    sel: Selection,
    exp: Set<usize>,
    row: int,
    y: int,
    col: int,
    x: int,
    h: int,
    acc: RenderModel,
)
    ensures
        spec_cols(ds, sty, area, sel, exp, row, y, col, x, h, acc).0.last_row == acc.last_row,
        0 <= col < ds.cols() ==> spec_cols(ds, sty, area, sel, exp, row, y, col, x, h, acc).0.last_col
            >= col,
        !(0 <= col < ds.cols()) ==> spec_cols(ds, sty, area, sel, exp, row, y, col, x, h, acc).0.last_col
            == acc.last_col,
    decreases ds.cols() - col,
{
    if 0 <= col < ds.cols() {
        let w = eff_width(ds.widths()[col], exp.contains(col as usize));
        let st = if is_highlighted(sel, row, col) {
            sty.spec_highlight(row, col)
        } else {
            sty.spec_normal(row, col)
        };
        let lines = crate::text::spec_split_lines(ds.cell(row, col));
        let acc0 = RenderModel { last_col: col, ..acc };
        lemma_cell_lines_last(area, y, x, w, st, lines, 0, acc0);
        let acc1 = spec_cell_lines(area, y, x, w, st, lines, 0, acc0);
        let h2: int = if lines.len() > h {
            lines.len() as int
        } else {
            h
        };
        let x2 = x + w + sty.spec_col_spacing();
        if !(x2 >= area.right() && col != ds.cols() - 1) {
            lemma_cols_last(ds, sty, area, sel, exp, row, y, col + 1, x2, h2, acc1);
        }
    }
}

proof fn lemma_rows_last<T: DataSource, U: Styler>(
    ds: &T,
    sty: &U,
    area: Rect,
    sel: Selection,
    exp: Set<usize>,
    off_col: int,
    row: int,
    y: int,
    acc: RenderModel,
)
    ensures
        0 <= row < ds.rows() ==> spec_rows(ds, sty, area, sel, exp, off_col, row, y, acc).last_row
            >= row,
        !(0 <= row < ds.rows()) ==> spec_rows(ds, sty, area, sel, exp, off_col, row, y, acc).last_row
            == acc.last_row,
        0 <= row < ds.rows() && 0 <= off_col < ds.cols() ==> spec_rows(
            ds,
            sty,
            area,
            sel,
            exp,
            off_col,
            row,
            y,
            acc,
        ).last_col >= off_col,
        !(0 <= row < ds.rows()) ==> spec_rows(ds, sty, area, sel, exp, off_col, row, y, acc).last_col
            == acc.last_col,
        !(0 <= off_col < ds.cols()) ==> spec_rows(ds, sty, area, sel, exp, off_col, row, y, acc).last_col
            == acc.last_col,
    decreases ds.rows() - row,
{
    if 0 <= row < ds.rows() {
        let acc0 = RenderModel { last_row: row, ..acc };
        lemma_cols_last(ds, sty, area, sel, exp, row, y, off_col, area.x as int, 1, acc0);
        let r = spec_cols(ds, sty, area, sel, exp, row, y, off_col, area.x as int, 1, acc0);
        let y2 = y + r.1 + sty.spec_row_spacing();
        if !(y2 >= area.bottom() && row != ds.rows() - 1) {
            lemma_rows_last(ds, sty, area, sel, exp, off_col, row + 1, y2, r.0);
        }
    }
}

/// The last cell reached by a render never precedes the offset: with the
/// offset clamped inside the table's shape, the laid-out rows start at the
/// offset row and every laid-out row starts at the offset column. The one
/// degenerate exception is a table without rows, where the last cell is
/// pinned at the origin whatever the column offset says.
pub proof fn lemma_render_last_cell_bounds<T: DataSource, U: Styler>(
    ds: &T,
    sty: &U,
    area: Rect,
    sel: Selection,
    exp: Set<usize>,
    off_row: int,
    off_col: int,
)
    requires
        ds.wf(),
        0 <= off_row,
        0 <= off_col,
        ds.rows() > 0 ==> off_row < ds.rows(),
        ds.rows() == 0 ==> off_row == 0,
        ds.cols() > 0 ==> off_col < ds.cols(),
        ds.cols() == 0 ==> off_col == 0,
    ensures
        spec_render(ds, sty, area, sel, exp, off_row, off_col).last_row >= off_row,
        ds.rows() > 0 || off_col == 0 ==> spec_render(ds, sty, area, sel, exp, off_row, off_col).last_col
            >= off_col,
{
    let init = RenderModel {
        ops: Seq::empty(),
        cut_row: false,
        cut_col: false,
        last_row: 0,
        last_col: 0,
    };
    ds.lemma_wf();
    lemma_rows_last(ds, sty, area, sel, exp, off_col, off_row, area.y as int, init);
    let m = spec_rows(ds, sty, area, sel, exp, off_col, off_row, area.y as int, init);
    assert(spec_render(ds, sty, area, sel, exp, off_row, off_col) == m);
    if ds.rows() > 0 {
        if ds.cols() == 0 {
            assert(m.last_col == 0);
        }
    } else {
        assert(m.last_row == 0);
        if off_col == 0 {
            assert(m.last_col == 0);
        }
    }
}

/// Rendering twice with an unchanged provider pair and an unchanged
/// navigation state yields identical spans and identical derived fields:
/// the layout is a function of offset, selection and expanded columns
/// alone, and a render changes none of those three.
pub proof fn lemma_render_idempotent<T: DataSource, U: Styler>(
    ds: &T,
    sty: &U,
    area: Rect,
    s1: State,
    s2: State,
)
    requires
        s1.offset == s2.offset,
        s1.selection == s2.selection,
        s1.expanded_columns@ == s2.expanded_columns@,
    ensures
        spec_render(ds, sty, area, s1.selection, s1.expanded_columns@, s1.offset.0 as int, s1.offset.1 as int)
            == spec_render(
            ds,
            sty,
            area,
            s2.selection,
            s2.expanded_columns@,
            s2.offset.0 as int,
            s2.offset.1 as int,
        ),
{
}

/// Emits the visual lines of one cell, honouring the bottom and right
/// edges, per [`spec_cell_lines`].
#[verifier::loop_isolation(false)]
fn emit_cell_lines(
    area: Rect,
    y: u32,
    x: u32,
    w: u16,
    st: Style,
    lines: &Vec<String>,
    ops: &mut Vec<DrawOp>,
    cut_r: &mut bool,
    cut_c: &mut bool,
    Ghost(lr): Ghost<int>,
    Ghost(lc): Ghost<int>,
)
    requires
        area.wf(),
        y as int <= area.bottom(),
        x as int <= area.right(),
    ensures
        ({
            let m = spec_cell_lines(
                area,
                y as int,
                x as int,
                w as int,
                st,
                lines.deep_view(),
                0,
                model_of(old(ops)@, *old(cut_r), *old(cut_c), lr, lc),
            );
            &&& ops_view(final(ops)@) == m.ops
            &&& *final(cut_r) == m.cut_row
            &&& *final(cut_c) == m.cut_col
            &&& m.last_row == lr
            &&& m.last_col == lc
        }),
{
    let bottom: u32 = area.y as u32 + area.height as u32;
    let right: u32 = area.x as u32 + area.width as u32;
    let ghost res = spec_cell_lines(
        area,
        y as int,
        x as int,
        w as int,
        st,
        lines.deep_view(),
        0,
        model_of(ops@, *cut_r, *cut_c, lr, lc),
    );
    let nl: usize = lines.len();
    let mut k: usize = 0;
    while k < nl
        invariant
            k <= nl,
            spec_cell_lines(
                area,
                y as int,
                x as int,
                w as int,
                st,
                lines.deep_view(),
                k as int,
                model_of(ops@, *cut_r, *cut_c, lr, lc),
            ) == res,
        decreases nl - k,
    {
        let ghost m_k = model_of(ops@, *cut_r, *cut_c, lr, lc);
        let over_bottom: bool = if k > 65535 {
            true
        } else {
            y + k as u32 >= bottom
        };
        if over_bottom {
            *cut_r = true;
            k = nl;
            proof {
                assert(model_of(ops@, *cut_r, *cut_c, lr, lc) == RenderModel { cut_row: true, ..m_k });
            }
        } else {
            let yy: u16 = (y + k as u32) as u16;
            let text_line: String = lines[k].clone();
            let xw: u32 = x + w as u32;
            let ghost prev_ops = ops@;
            let wclip: u16 = if xw > right {
                (right - x) as u16
            } else {
                w
            };
            let op = DrawOp { x: x as u16, y: yy, width: wclip, text: text_line, style: st };
            ops.push(op);
            if xw > right {
                *cut_c = true;
            }
            proof {
                lemma_ops_view_push(prev_ops, ops@[ops@.len() - 1]);
                assert(lines.deep_view()[k as int] == lines@[k as int]@);
                if xw > right {
                    assert(model_of(ops@, *cut_r, *cut_c, lr, lc) == RenderModel {
                        ops: m_k.ops.push(
                            DrawOpV {
                                x: x as int,
                                y: y + k,
                                width: area.right() - x,
                                text: lines.deep_view()[k as int],
                                style: st,
                            },
                        ),
                        cut_col: true,
                        ..m_k
                    });
                } else {
                    assert(model_of(ops@, *cut_r, *cut_c, lr, lc) == RenderModel {
                        ops: m_k.ops.push(
                            DrawOpV {
                                x: x as int,
                                y: y + k,
                                width: w as int,
                                text: lines.deep_view()[k as int],
                                style: st,
                            },
                        ),
                        ..m_k
                    });
                }
            }
            k += 1;
        }
    }
}

/// A table widget: a borrowed provider pair, laid out for the duration of
/// one render call.
pub struct ModelTable<'a, T, U> {
    data_source: &'a T,
    styler: &'a U,
}

impl<T, U> ModelTable<'_, T, U> where T: DataSource, U: Styler {
    pub closed spec fn ds(&self) -> &T {
        self.data_source
    }

    pub closed spec fn sty(&self) -> &U {
        self.styler
    }

    pub fn new<'a>(data_source: &'a T, styler: &'a U) -> (t: ModelTable<'a, T, U>)
        ensures
            t.ds() == data_source,
            t.sty() == styler,
    {
        ModelTable { data_source, styler }
    }

    /// The cell's visual lines together with its style.
    fn text(&self, row: usize, col: usize, highlight: bool) -> (r: (Vec<String>, Style))
        requires
            self.ds().wf(),
            row < self.ds().rows(),
            col < self.ds().cols(),
        ensures
            r.0.deep_view() == crate::text::spec_split_lines(self.ds().cell(row as int, col as int)),
            r.1 == if highlight {
                self.sty().spec_highlight(row as int, col as int)
            } else {
                self.sty().spec_normal(row as int, col as int)
            },
    {
        let s = self.data_source.value(row, col);
        let lines = crate::text::split_lines(s);
        if highlight {
            (lines, self.styler.highlight(row, col))
        } else {
            (lines, self.styler.normal(row, col))
        }
    }

    /// Lays out one row of cells from the offset column rightwards, per
    /// [`spec_cols`]; returns the row's visual height.
    #[verifier::loop_isolation(false)]
    fn layout_row(
        &self,
        area: Rect,
        row: usize,
        y: u32,
        off_c: usize,
        selection: Selection,
        expanded_columns: &ColumnSet,
        ops: &mut Vec<DrawOp>,
        cut_r: &mut bool,
        cut_c: &mut bool,
        last_c: &mut usize,
        Ghost(lr): Ghost<int>,
    ) -> (h: usize)
        requires
            self.ds().wf(),
            area.wf(),
            row < self.ds().rows(),
            y as int <= area.bottom(),
        ensures
            ({
                let r = spec_cols(
                    self.ds(),
                    self.sty(),
                    area,
                    selection,
                    expanded_columns@,
                    row as int,
                    y as int,
                    off_c as int,
                    area.x as int,
                    1,
                    model_of(old(ops)@, *old(cut_r), *old(cut_c), lr, *old(last_c) as int),
                );
                &&& ops_view(final(ops)@) == r.0.ops
                &&& *final(cut_r) == r.0.cut_row
                &&& *final(cut_c) == r.0.cut_col
                &&& *final(last_c) as int == r.0.last_col
                &&& r.0.last_row == lr
                &&& h as int == r.1
            }),
    {
        let ds: &T = self.data_source;
        let sty: &U = self.styler;
        let sh = ds.shape();
        let cols: usize = sh.1;
        let widths: &[u16] = ds.max_widths();
        proof {
            ds.lemma_wf();
        }
        let col_sp: u16 = sty.col_spacing();
        let right: u32 = area.x as u32 + area.width as u32;
        let ghost res = spec_cols(
            ds,
            sty,
            area,
            selection,
            expanded_columns@,
            row as int,
            y as int,
            off_c as int,
            area.x as int,
            1,
            model_of(ops@, *cut_r, *cut_c, lr, *last_c as int),
        );
        let mut h: usize = 1;
        let mut x: u32 = area.x as u32;
        let mut col: usize = off_c;
        while col < cols
            invariant
                h >= 1,
                x <= 0x2FFFDu32,
                col < cols ==> x as int <= area.right(),
                spec_cols(
                    ds,
                    sty,
                    area,
                    selection,
                    expanded_columns@,
                    row as int,
                    y as int,
                    col as int,
                    x as int,
                    h as int,
                    model_of(ops@, *cut_r, *cut_c, lr, *last_c as int),
                ) == res,
            decreases cols - col,
        {
            let w0: u16 = widths[col];
            let expanded: bool = expanded_columns.contains(col);
            let w: u16 = effective_width(w0, expanded);
            let hl: bool = match selection {
                Selection::Cell(i, j) => i == row && j == col,
                Selection::Row(i) => i == row,
                Selection::Col(j) => j == col,
                Selection::NoSelect => false,
            };
            let cell_text = self.text(row, col, hl);
            let lines: Vec<String> = cell_text.0;
            let st: Style = cell_text.1;
            *last_c = col;
            emit_cell_lines(area, y, x, w, st, &lines, ops, cut_r, cut_c, Ghost(lr), Ghost(col as int));
            if lines.len() > h {
                h = lines.len();
            }
            let x2: u32 = x + w as u32 + col_sp as u32;
            if x2 >= right && col != cols - 1 {
                col = cols;
            } else {
                x = x2;
                col += 1;
            }
        }
        h
    }

    /// Lays the table out inside `area`: returns the styled spans to draw
    /// and records in `state` the truncation flags and the last cell
    /// reached. Offset, selection and expanded columns are read, never
    /// changed. The result is exactly [`spec_render`] of those inputs.
    #[verifier::loop_isolation(false)]
    pub fn render(&self, area: Rect, state: &mut State) -> (ops: Vec<DrawOp>)
        requires
            self.ds().wf(),
            area.wf(),
        ensures
            ({
                let m = spec_render(
                    self.ds(),
                    self.sty(),
                    area,
                    old(state).selection,
                    old(state).expanded_columns@,
                    old(state).offset.0 as int,
                    old(state).offset.1 as int,
                );
                &&& ops_view(ops@) == m.ops
                &&& final(state).text_cut.0 == m.cut_row
                &&& final(state).text_cut.1 == m.cut_col
                &&& final(state).last_cell.0 as int == m.last_row
                &&& final(state).last_cell.1 as int == m.last_col
            }),
            final(state).offset == old(state).offset,
            final(state).selection == old(state).selection,
            final(state).expanded_columns == old(state).expanded_columns,
    {
        let ds: &T = self.data_source;
        let sty: &U = self.styler;
        let sh = ds.shape();
        let rows: usize = sh.0;
        let row_sp: u16 = sty.row_spacing();

        let off_r: usize = state.offset.0;
        let off_c: usize = state.offset.1;
        let ghost sel = state.selection;
        let ghost exp = state.expanded_columns@;
        let ghost target = spec_render(ds, sty, area, sel, exp, off_r as int, off_c as int);

        let bottom: u32 = area.y as u32 + area.height as u32;

        let mut ops: Vec<DrawOp> = Vec::new();
        let mut cut_r: bool = false;
        let mut cut_c: bool = false;
        let mut last_r: usize = 0;
        let mut last_c: usize = 0;

        let mut row: usize = off_r;
        let mut y: u32 = area.y as u32;

        proof {
            assert(ops_view(ops@) =~= Seq::<DrawOpV>::empty());
        }

        while row < rows
            invariant
                y <= bottom,
                spec_rows(
                    ds,
                    sty,
                    area,
                    sel,
                    exp,
                    off_c as int,
                    row as int,
                    y as int,
                    model_of(ops@, cut_r, cut_c, last_r as int, last_c as int),
                ) == target,
            decreases rows - row,
        {
            let ghost m_in = model_of(ops@, cut_r, cut_c, last_r as int, last_c as int);
            last_r = row;
            let ghost acc0 = model_of(ops@, cut_r, cut_c, row as int, last_c as int);
            proof {
                assert(acc0 == RenderModel { last_row: row as int, ..m_in });
            }
            let ghost col_res = spec_cols(
                ds,
                sty,
                area,
                sel,
                exp,
                row as int,
                y as int,
                off_c as int,
                area.x as int,
                1,
                acc0,
            );

            let h: usize = self.layout_row(
                area,
                row,
                y,
                off_c,
                state.selection,
                &state.expanded_columns,
                &mut ops,
                &mut cut_r,
                &mut cut_c,
                &mut last_c,
                Ghost(row as int),
            );

            let over: bool = if h > 65535 {
                true
            } else {
                y + h as u32 + row_sp as u32 >= bottom
            };
            proof {
                assert(model_of(ops@, cut_r, cut_c, last_r as int, last_c as int) == col_res.0);
                assert(h as int == col_res.1);
                let y2 = y as int + col_res.1 + row_sp as int;
                assert(over == (y2 >= area.bottom()));
                assert(spec_rows(ds, sty, area, sel, exp, off_c as int, last_r as int, y as int, m_in)
                    == if y2 >= area.bottom() && last_r as int != ds.rows() - 1 {
                        RenderModel { cut_row: true, ..col_res.0 }
                    } else {
                        spec_rows(ds, sty, area, sel, exp, off_c as int, last_r as int + 1, y2, col_res.0)
                    });
            }
            if over {
                if row + 1 < rows {
                    cut_r = true;
                    row = rows;
                    proof {
                        assert(model_of(ops@, cut_r, cut_c, last_r as int, last_c as int)
                            == RenderModel { cut_row: true, ..col_res.0 });
                    }
                } else {
                    row = row + 1;
                    proof {
                        assert(spec_rows(
                            ds, sty, area, sel, exp, off_c as int, row as int,
                            y as int + col_res.1 + row_sp as int, col_res.0,
                        ) == col_res.0);
                        assert(spec_rows(
                            ds, sty, area, sel, exp, off_c as int, row as int, y as int, col_res.0,
                        ) == col_res.0);
                    }
                }
            } else {
                y = y + h as u32 + row_sp as u32;
                row += 1;
            }
        }
        state.text_cut = (cut_r, cut_c);
        state.last_cell = (last_r, last_c);
        ops
    }
}

} // verus!
