//! The navigation state machine: an application context owning the
//! providers, the navigation state and the open/closed flag, driven by
//! abstract commands and rendered through the viewport layout engine.

use vstd::prelude::*;
use crate::model_table::{
    ColumnSet, DataSource, DrawOp, ModelTable, Rect, Selection, State, Styler, ops_view,
    spec_render,
};

verus! {

/// The navigation commands; the host application translates input events
/// into these.
#[derive(Clone, Copy, Debug, PartialEq, Eq, Structural)]
pub enum Command {
    MoveUp,
    MoveDown,
    MoveLeft,
    MoveRight,
    PageUp,
    PageDown,
    ToggleSelectMode,
    ToggleExpansion,
    Close,
}

/// The mathematical image of a navigation [`State`].
pub ghost struct StateModel {
    pub offset: (usize, usize),
    pub selection: Selection,
    pub text_cut: (bool, bool),
    pub last_cell: (usize, usize),
    pub expanded: Set<usize>,
}

pub open spec fn state_model(s: State) -> StateModel {
    StateModel {
        offset: s.offset,
        selection: s.selection,
        text_cut: s.text_cut,
        last_cell: s.last_cell,
        expanded: s.expanded_columns@,
    }
}

/// One upward move: in cell mode the selection climbs while it stays at or
/// below the offset row; without a selection the offset climbs while it is
/// positive. Row and column selection accept no moves.
pub open spec fn spec_up(m: StateModel) -> StateModel {
    match m.selection {
        Selection::Cell(i, j) => if i > m.offset.0 {
            StateModel { selection: Selection::Cell((i - 1) as usize, j), ..m }
        } else {
            m
        },
        Selection::Row(_) => m,
        Selection::Col(_) => m,
        Selection::NoSelect => if m.offset.0 > 0 {
            StateModel { offset: (((m.offset.0 - 1) as usize), m.offset.1), ..m }
        } else {
            m
        },
    }
}

/// One downward move: in cell mode the selection descends while it stays
/// above the last rendered row; without a selection the offset advances
/// when the last render was cut short or the last row is still below the
/// viewport, clamped so the offset never reaches the row count.
pub open spec fn spec_down(rows: int, m: StateModel) -> StateModel {
    match m.selection {
        Selection::Cell(i, j) => if i < m.last_cell.0 {
            StateModel { selection: Selection::Cell((i + 1) as usize, j), ..m }
        } else {
            m
        },
        Selection::Row(_) => m,
        Selection::Col(_) => m,
        Selection::NoSelect => if (m.text_cut.0 || m.last_cell.0 + 1 < rows) && m.offset.0 + 1
            < rows {
            StateModel { offset: (((m.offset.0 + 1) as usize), m.offset.1), ..m }
        } else {
            m
        },
    }
}

/// One leftward move, the column analogue of [`spec_up`].
pub open spec fn spec_left(m: StateModel) -> StateModel {
    match m.selection {
        Selection::Cell(i, j) => if j > m.offset.1 {
            StateModel { selection: Selection::Cell(i, (j - 1) as usize), ..m }
        } else {
            m
        },
        Selection::Row(_) => m,
        Selection::Col(_) => m,
        Selection::NoSelect => if m.offset.1 > 0 {
            StateModel { offset: (m.offset.0, ((m.offset.1 - 1) as usize)), ..m }
        } else {
            m
        },
    }
}

/// One rightward move, the column analogue of [`spec_down`].
pub open spec fn spec_right(cols: int, m: StateModel) -> StateModel {
    match m.selection {
        Selection::Cell(i, j) => if j < m.last_cell.1 {
            StateModel { selection: Selection::Cell(i, (j + 1) as usize), ..m }
        } else {
            m
        },
        Selection::Row(_) => m,
        Selection::Col(_) => m,
        Selection::NoSelect => if (m.text_cut.1 || m.last_cell.1 + 1 < cols) && m.offset.1 + 1
            < cols {
            StateModel { offset: (m.offset.0, ((m.offset.1 + 1) as usize)), ..m }
        } else {
            m
        },
    }
}

/// One page equals the number of rows the last render showed.
pub open spec fn page_len(m: StateModel) -> nat {
    if m.last_cell.0 > m.offset.0 {
        (m.last_cell.0 - m.offset.0) as nat
    } else {
        0
    }
}

pub open spec fn spec_page_up(m: StateModel, k: nat) -> StateModel
    decreases k,
{
    if k == 0 {
        m
    } else {
        spec_page_up(spec_up(m), (k - 1) as nat)
    }
}

pub open spec fn spec_page_down(rows: int, m: StateModel, k: nat) -> StateModel
    decreases k,
{
    if k == 0 {
        m
    } else {
        spec_page_down(rows, spec_down(rows, m), (k - 1) as nat)
    }
}

/// Selection mode toggle: no selection anchors a cell selection at the
/// offset; a cell selection is cleared; row and column selection have no
/// transition.
pub open spec fn spec_toggle_select(m: StateModel) -> StateModel {
    match m.selection {
        Selection::NoSelect => StateModel {
            selection: Selection::Cell(m.offset.0, m.offset.1),
            ..m
        },
        Selection::Cell(_, _) => StateModel { selection: Selection::NoSelect, ..m },
        Selection::Row(_) => m,
        Selection::Col(_) => m,
    }
}

/// Every column of the window the last render established, the last
/// column excluded, is expanded.
pub open spec fn window_expanded(m: StateModel) -> bool {
    forall|v: usize| m.offset.1 <= v < m.last_cell.1 ==> m.expanded.contains(v)
}

/// Expansion toggle: in cell mode the selected cell's column changes
/// membership; without a selection, either the whole expansion set is
/// cleared (when the visible window is already fully expanded) or every
/// column of the table is expanded.
pub open spec fn spec_toggle_expansion(cols: int, m: StateModel) -> StateModel {
    match m.selection {
        Selection::Cell(_, j) => if m.expanded.contains(j) {
            StateModel { expanded: m.expanded.remove(j), ..m }
        } else {
            StateModel { expanded: m.expanded.insert(j), ..m }
        },
        Selection::Row(_) => m,
        Selection::Col(_) => m,
        Selection::NoSelect => if window_expanded(m) {
            StateModel { expanded: Set::empty(), ..m }
        } else {
            StateModel {
                expanded: m.expanded.union(Set::new(|v: usize| (v as int) < cols)),
                ..m
            }
        },
    }
}

/// The full transition function of the navigation state machine. `Close`
/// only touches the open flag, so here it leaves the state unchanged.
pub open spec fn spec_step(rows: int, cols: int, cmd: Command, m: StateModel) -> StateModel {
    match cmd {
        Command::MoveUp => spec_up(m),
        Command::MoveDown => spec_down(rows, m),
        Command::MoveLeft => spec_left(m),
        Command::MoveRight => spec_right(cols, m),
        Command::PageUp => spec_page_up(m, page_len(m)),
        Command::PageDown => spec_page_down(rows, m, page_len(m)),
        Command::ToggleSelectMode => spec_toggle_select(m),
        Command::ToggleExpansion => spec_toggle_expansion(cols, m),
        Command::Close => m,
    }
}

/// The scroll offset lies inside a `rows` by `cols` shape, pinned at zero
/// along a dimension whose count is zero.
pub open spec fn offset_in_bounds(rows: int, cols: int, m: StateModel) -> bool {
    &&& (rows == 0 ==> m.offset.0 == 0)
    &&& (rows > 0 ==> (m.offset.0 as int) < rows)
    &&& (cols == 0 ==> m.offset.1 == 0)
    &&& (cols > 0 ==> (m.offset.1 as int) < cols)
}

proof fn lemma_page_up_bounds(rows: int, cols: int, m: StateModel, k: nat)
    requires
        offset_in_bounds(rows, cols, m),
    ensures
        offset_in_bounds(rows, cols, spec_page_up(m, k)),
    decreases k,
{
    if k > 0 {
        lemma_page_up_bounds(rows, cols, spec_up(m), (k - 1) as nat);
    }
}

proof fn lemma_page_down_bounds(rows: int, cols: int, m: StateModel, k: nat)
    requires
        offset_in_bounds(rows, cols, m),
    ensures
        offset_in_bounds(rows, cols, spec_page_down(rows, m, k)),
    decreases k,
{
    if k > 0 {
        lemma_page_down_bounds(rows, cols, spec_down(rows, m), (k - 1) as nat);
    }
}

/// No navigation command moves the scroll offset out of the provider's
/// shape: starting from a state whose offset is in bounds, every command
/// of the state machine yields a state whose offset is in bounds, whatever
/// the truncation flags and last cell say. Applied inductively, this
/// covers any sequence of commands.
pub proof fn lemma_step_keeps_offset_in_bounds(rows: int, cols: int, cmd: Command, m: StateModel)
    requires
        offset_in_bounds(rows, cols, m),
    ensures
        offset_in_bounds(rows, cols, spec_step(rows, cols, cmd, m)),
{
    match cmd {
        Command::PageUp => lemma_page_up_bounds(rows, cols, m, page_len(m)),
        Command::PageDown => lemma_page_down_bounds(rows, cols, m, page_len(m)),
        _ => {},
    }
}

/// Toggling the expansion of the same column twice in cell mode restores
/// the expansion set, and with it the whole state.
pub proof fn lemma_toggle_expansion_involutive(cols: int, m: StateModel)
    requires
        m.selection is Cell,
    ensures
        spec_toggle_expansion(cols, spec_toggle_expansion(cols, m)) == m,
{
    let j = m.selection->Cell_1;
    if m.expanded.contains(j) {
        assert(m.expanded.remove(j).insert(j) =~= m.expanded);
    } else {
        assert(m.expanded.insert(j).remove(j) =~= m.expanded);
    }
}

/// The application context: the open flag, the navigation state, and the
/// owned provider pair.
pub struct App<T, U> {
    is_open: bool,
    state: State,
    data_source: T,
    styler: U,
}

impl<T: DataSource, U: Styler> App<T, U> {
    pub closed spec fn spec_open(&self) -> bool {
        self.is_open
    }

    pub closed spec fn spec_state(&self) -> State {
        self.state
    }

    pub closed spec fn ds(&self) -> &T {
        &self.data_source
    }

    pub closed spec fn sty(&self) -> &U {
        &self.styler
    }

    /// The scroll offset always lies inside the provider's shape (it is
    /// pinned at zero along a dimension whose count is zero), and the
    /// expansion set is well formed.
    pub open spec fn nav_inv(&self) -> bool {
        &&& self.ds().wf()
        &&& offset_in_bounds(self.ds().rows(), self.ds().cols(), state_model(self.spec_state()))
        &&& self.spec_state().expanded_columns.wf()
    }

    pub fn new(data_source: T, styler: U) -> (app: App<T, U>)
        requires
            data_source.wf(),
        ensures
            app.nav_inv(),
            app.spec_open(),
            app.ds() == &data_source,
            app.sty() == &styler,
            state_model(app.spec_state()) == (StateModel {
                offset: (0usize, 0usize),
                selection: Selection::NoSelect,
                text_cut: (false, false),
                last_cell: (0usize, 0usize),
                expanded: Set::<usize>::empty(),
            }),
    {
        App { is_open: true, state: State::default(), data_source, styler }
    }

    pub fn is_open(&self) -> (r: bool)
        ensures
            r == self.spec_open(),
    {
        self.is_open
    }

    pub fn close(&mut self)
        ensures
            !final(self).spec_open(),
            final(self).spec_state() == old(self).spec_state(),
            final(self).ds() == old(self).ds(),
            final(self).sty() == old(self).sty(),
    {
        self.is_open = false;
    }

    /// Read access to the navigation state.
    pub fn state(&self) -> (s: &State)
        ensures
            *s == self.spec_state(),
    {
        &self.state
    }

    /// Applies one navigation command. Every command keeps the scroll
    /// offset inside the provider's shape ([`Self::nav_inv`]), whatever
    /// sequence of commands came before; `Close` only clears the open
    /// flag, every other command steps the state by [`spec_step`].
    pub fn event(&mut self, cmd: Command)
        requires
            old(self).nav_inv(),
        ensures
            final(self).nav_inv(),
            final(self).ds() == old(self).ds(),
            final(self).sty() == old(self).sty(),
            cmd == Command::Close ==> !final(self).spec_open() && final(self).spec_state() == old(
                self,
            ).spec_state(),
            cmd != Command::Close ==> final(self).spec_open() == old(self).spec_open()
                && state_model(final(self).spec_state()) == spec_step(
                old(self).ds().rows(),
                old(self).ds().cols(),
                cmd,
                state_model(old(self).spec_state()),
            ),
    {
        match cmd {
            Command::MoveUp => self.up(),
            Command::MoveDown => self.down(),
            Command::MoveLeft => self.left(),
            Command::MoveRight => self.right(),
            Command::PageUp => self.page_up(),
            Command::PageDown => self.page_down(),
            Command::ToggleSelectMode => {
                match self.state.selection {
                    Selection::NoSelect => self.switch_to_cell_select(),
                    Selection::Cell(_, _) => self.switch_to_no_select(),
                    Selection::Row(_) => {},
                    Selection::Col(_) => {},
                }
            },
            Command::ToggleExpansion => self.toggle_expansion(),
            Command::Close => self.close(),
        }
    }

    /// Renders the table into `area`: returns the styled spans and writes
    /// the truncation flags and the last cell back into the navigation
    /// state, exactly as [`spec_render`] describes. Offset, selection and
    /// expanded columns are unchanged, so the invariant survives.
    pub fn render(&mut self, area: Rect) -> (ops: Vec<DrawOp>)
        requires
            old(self).nav_inv(),
            area.wf(),
        ensures
            final(self).nav_inv(),
            final(self).ds() == old(self).ds(),
            final(self).sty() == old(self).sty(),
            final(self).spec_open() == old(self).spec_open(),
            ({
                let m = spec_render(
                    old(self).ds(),
                    old(self).sty(),
                    area,
                    old(self).spec_state().selection,
                    old(self).spec_state().expanded_columns@,
                    old(self).spec_state().offset.0 as int,
                    old(self).spec_state().offset.1 as int,
                );
                &&& ops_view(ops@) == m.ops
                &&& final(self).spec_state().text_cut.0 == m.cut_row
                &&& final(self).spec_state().text_cut.1 == m.cut_col
                &&& final(self).spec_state().last_cell.0 as int == m.last_row
                &&& final(self).spec_state().last_cell.1 as int == m.last_col
            }),
            final(self).spec_state().offset == old(self).spec_state().offset,
            final(self).spec_state().selection == old(self).spec_state().selection,
            final(self).spec_state().expanded_columns == old(self).spec_state().expanded_columns,
    {
        let tbl = ModelTable::new(&self.data_source, &self.styler);
        tbl.render(area, &mut self.state)
    }

    fn up(&mut self)
        requires
            old(self).nav_inv(),
        ensures
            final(self).nav_inv(),
            state_model(final(self).spec_state()) == spec_up(state_model(old(self).spec_state())),
            final(self).spec_open() == old(self).spec_open(),
            final(self).ds() == old(self).ds(),
            final(self).sty() == old(self).sty(),
    {
        match self.state.selection {
            Selection::Cell(i, j) => {
                if i > self.state.offset.0 {
                    self.state.selection = Selection::Cell(i - 1, j);
                }
            },
            Selection::Row(_) => {},
            Selection::Col(_) => {},
            Selection::NoSelect => {
                if self.state.offset.0 > 0 {
                    self.state.offset = (self.state.offset.0 - 1, self.state.offset.1);
                }
            },
        }
    }

    fn down(&mut self)
        requires
            old(self).nav_inv(),
        ensures
            final(self).nav_inv(),
            state_model(final(self).spec_state()) == spec_down(
                old(self).ds().rows(),
                state_model(old(self).spec_state()),
            ),
            final(self).spec_open() == old(self).spec_open(),
            final(self).ds() == old(self).ds(),
            final(self).sty() == old(self).sty(),
    {
        match self.state.selection {
            Selection::Cell(i, j) => {
                if i < self.state.last_cell.0 {
                    self.state.selection = Selection::Cell(i + 1, j);
                }
            },
            Selection::Row(_) => {},
            Selection::Col(_) => {},
            Selection::NoSelect => {
                let sh = self.data_source.shape();
                let rows: usize = sh.0;
                let beyond: bool = self.state.text_cut.0 || (rows > 0 && self.state.last_cell.0
                    < rows - 1);
                if beyond && self.state.offset.0 + 1 < rows {
                    self.state.offset = (self.state.offset.0 + 1, self.state.offset.1);
                }
            },
        }
    }

    fn left(&mut self)
        requires
            old(self).nav_inv(),
        ensures
            final(self).nav_inv(),
            state_model(final(self).spec_state()) == spec_left(state_model(old(self).spec_state())),
            final(self).spec_open() == old(self).spec_open(),
            final(self).ds() == old(self).ds(),
            final(self).sty() == old(self).sty(),
    {
        match self.state.selection {
            Selection::Cell(i, j) => {
                if j > self.state.offset.1 {
                    self.state.selection = Selection::Cell(i, j - 1);
                }
            },
            Selection::Row(_) => {},
            Selection::Col(_) => {},
            Selection::NoSelect => {
                if self.state.offset.1 > 0 {
                    self.state.offset = (self.state.offset.0, self.state.offset.1 - 1);
                }
            },
        }
    }

    fn right(&mut self)
        requires
            old(self).nav_inv(),
        ensures
            final(self).nav_inv(),
            state_model(final(self).spec_state()) == spec_right(
                old(self).ds().cols(),
                state_model(old(self).spec_state()),
            ),
            final(self).spec_open() == old(self).spec_open(),
            final(self).ds() == old(self).ds(),
            final(self).sty() == old(self).sty(),
    {
        match self.state.selection {
            Selection::Cell(i, j) => {
                if j < self.state.last_cell.1 {
                    self.state.selection = Selection::Cell(i, j + 1);
                }
            },
            Selection::Row(_) => {},
            Selection::Col(_) => {},
            Selection::NoSelect => {
                let sh = self.data_source.shape();
                let cols: usize = sh.1;
                let beyond: bool = self.state.text_cut.1 || (cols > 0 && self.state.last_cell.1
                    < cols - 1);
                if beyond && self.state.offset.1 + 1 < cols {
                    self.state.offset = (self.state.offset.0, self.state.offset.1 + 1);
                }
            },
        }
    }

    fn page_up(&mut self)
        requires
            old(self).nav_inv(),
        ensures
            final(self).nav_inv(),
            state_model(final(self).spec_state()) == spec_page_up(
                state_model(old(self).spec_state()),
                page_len(state_model(old(self).spec_state())),
            ),
            final(self).spec_open() == old(self).spec_open(),
            final(self).ds() == old(self).ds(),
            final(self).sty() == old(self).sty(),
    {
        let k: usize = if self.state.last_cell.0 > self.state.offset.0 {
            self.state.last_cell.0 - self.state.offset.0
        } else {
            0
        };
        let ghost m0 = state_model(self.spec_state());
        let mut i: usize = 0;
        while i < k
            invariant
                i <= k,
                self.nav_inv(),
                self.spec_open() == old(self).spec_open(),
                self.ds() == old(self).ds(),
                self.sty() == old(self).sty(),
                spec_page_up(state_model(self.spec_state()), (k - i) as nat) == spec_page_up(
                    m0,
                    k as nat,
                ),
            decreases k - i,
        {
            self.up();
            i += 1;
        }
    }

    fn page_down(&mut self)
        requires
            old(self).nav_inv(),
        ensures
            final(self).nav_inv(),
            state_model(final(self).spec_state()) == spec_page_down(
                old(self).ds().rows(),
                state_model(old(self).spec_state()),
                page_len(state_model(old(self).spec_state())),
            ),
            final(self).spec_open() == old(self).spec_open(),
            final(self).ds() == old(self).ds(),
            final(self).sty() == old(self).sty(),
    {
        let k: usize = if self.state.last_cell.0 > self.state.offset.0 {
            self.state.last_cell.0 - self.state.offset.0
        } else {
            0
        };
        let ghost m0 = state_model(self.spec_state());
        let mut i: usize = 0;
        while i < k
            invariant
                i <= k,
                self.nav_inv(),
                self.spec_open() == old(self).spec_open(),
                self.ds() == old(self).ds(),
                self.sty() == old(self).sty(),
                spec_page_down(self.ds().rows(), state_model(self.spec_state()), (k - i) as nat)
                    == spec_page_down(old(self).ds().rows(), m0, k as nat),
            decreases k - i,
        {
            self.down();
            i += 1;
        }
    }

    fn switch_to_no_select(&mut self)
        requires
            old(self).nav_inv(),
        ensures
            final(self).nav_inv(),
            state_model(final(self).spec_state()) == (StateModel {
                selection: Selection::NoSelect,
                ..state_model(old(self).spec_state())
            }),
            final(self).spec_open() == old(self).spec_open(),
            final(self).ds() == old(self).ds(),
            final(self).sty() == old(self).sty(),
    {
        self.state.selection = Selection::NoSelect;
    }

    fn switch_to_cell_select(&mut self)
        requires
            old(self).nav_inv(),
        ensures
            final(self).nav_inv(),
            state_model(final(self).spec_state()) == (StateModel {
                selection: Selection::Cell(
                    old(self).spec_state().offset.0,
                    old(self).spec_state().offset.1,
                ),
                ..state_model(old(self).spec_state())
            }),
            final(self).spec_open() == old(self).spec_open(),
            final(self).ds() == old(self).ds(),
            final(self).sty() == old(self).sty(),
    {
        self.state.selection = Selection::Cell(self.state.offset.0, self.state.offset.1);
    }

    fn toggle_expansion(&mut self)
        requires
            old(self).nav_inv(),
        ensures
            final(self).nav_inv(),
            state_model(final(self).spec_state()) == spec_toggle_expansion(
                old(self).ds().cols(),
                state_model(old(self).spec_state()),
            ),
            final(self).spec_open() == old(self).spec_open(),
            final(self).ds() == old(self).ds(),
            final(self).sty() == old(self).sty(),
    {
        let ghost m0 = state_model(self.spec_state());
        match self.state.selection {
            Selection::Cell(_, j) => {
                if self.state.expanded_columns.contains(j) {
                    self.state.expanded_columns.remove(j);
                } else {
                    self.state.expanded_columns.insert(j);
                }
            },
            Selection::Row(_) => {},
            Selection::Col(_) => {},
            Selection::NoSelect => {
                let start: usize = self.state.offset.1;
                let end: usize = self.state.last_cell.1;
                let mut all_exp: bool = true;
                let mut c: usize = start;
                while c < end
                    invariant
                        start <= c,
                        all_exp ==> forall|v: usize|
                            start <= v < c ==> m0.expanded.contains(v),
                        !all_exp ==> !window_expanded(m0),
                        self == old(self),
                        m0 == state_model(self.spec_state()),
                        start == m0.offset.1,
                        end == m0.last_cell.1,
                    decreases end - c,
                {
                    if !self.state.expanded_columns.contains(c) {
                        proof {
                            assert(m0.offset.1 <= c < m0.last_cell.1 && !m0.expanded.contains(c));
                            assert(!window_expanded(m0));
                        }
                        all_exp = false;
                        c = end;
                    } else {
                        c += 1;
                    }
                }
                if all_exp {
                    self.state.expanded_columns.clear();
                    proof {
                        assert(window_expanded(m0));
                    }
                } else {
                    let sh = self.data_source.shape();
                    let cols: usize = sh.1;
                    let mut v: usize = 0;
                    while v < cols
                        invariant
                            v <= cols,
                            self.state.expanded_columns.wf(),
                            self.state.expanded_columns@ == m0.expanded.union(
                                Set::new(|c: usize| (c as int) < v as int),
                            ),
                            self.state.offset == old(self).spec_state().offset,
                            self.state.selection == old(self).spec_state().selection,
                            self.state.text_cut == old(self).spec_state().text_cut,
                            self.state.last_cell == old(self).spec_state().last_cell,
                            self.spec_open() == old(self).spec_open(),
                            self.ds() == old(self).ds(),
                            self.sty() == old(self).sty(),
                            cols as int == self.ds().cols(),
                        decreases cols - v,
                    {
                        let ghost prev = self.state.expanded_columns@;
                        self.state.expanded_columns.insert(v);
                        proof {
                            assert(self.state.expanded_columns@ =~= m0.expanded.union(
                                Set::new(|c: usize| (c as int) < v as int + 1),
                            ));
                        }
                        v += 1;
                    }
                    proof {
                        assert(self.state.expanded_columns@ =~= m0.expanded.union(
                            Set::new(|c: usize| (c as int) < old(self).ds().cols()),
                        ));
                    }
                }
            },
        }
    }
}

} // verus!
