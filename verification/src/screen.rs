//! A view: a sparse rows×cols grid of optional windows, a designated active
//! cell, and a view-kind tag. The selection state machine lives here, together
//! with the layout algorithm that turns a result set into a grid of cells.

use vstd::prelude::*;
use crate::window::{CSGWindow, CellModel, highlighted};
use crate::result::{ExecResult, ResultModel};

verus! {

/// Width of one display cell in terminal columns.
pub const CELL_WIDTH: usize = 32;

/// Largest grid dimension the screen accepts: coordinates must survive a
/// round trip through `i64`, and a column index times `CELL_WIDTH` must fit
/// in `usize` even on a 32-bit machine.
pub const DIM_LIMIT: usize = 0x07ff_ffff;

/// Represents the type of view.
#[derive(Clone, Copy)]
pub enum ScreenKind {
    TableList,
    TableDump,
}

/// Mathematical model of a screen: the grid as a sequence of sequences of
/// optional cells, plus the active position and the kind.
#[verifier::ext_equal]
pub ghost struct ScreenModel {
    pub rows: nat,
    pub cols: nat,
    pub cells: Seq<Seq<Option<CellModel>>>,
    pub active: (nat, nat),
    pub kind: ScreenKind,
}

impl ScreenModel {
    /// The grid really is rows×cols, and both dimensions are small enough
    /// for `i64` coordinates and pixel arithmetic.
    pub open spec fn dims_ok(self) -> bool {
        &&& self.cells.len() == self.rows
        &&& forall|i: int|
            0 <= i < self.cells.len() ==> (#[trigger] self.cells[i]).len() == self.cols
        &&& self.rows <= DIM_LIMIT
        &&& self.cols <= DIM_LIMIT
    }

    pub open spec fn in_bounds(self, x: int, y: int) -> bool {
        0 <= x < self.rows && 0 <= y < self.cols
    }

    /// The cell at a candidate coordinate: `None` both for an empty slot and
    /// for a coordinate outside the grid.
    pub open spec fn cell_opt(self, x: int, y: int) -> Option<CellModel> {
        if self.in_bounds(x, y) {
            self.cells[x][y]
        } else {
            None
        }
    }

    /// The text of the cell at a coordinate (empty if there is none).
    pub open spec fn cell_text(self, x: int, y: int) -> Seq<char> {
        match self.cell_opt(x, y) {
            Some(w) => w.text,
            None => Seq::<char>::empty(),
        }
    }

    /// A move candidate is accepted exactly when it addresses an existing,
    /// selectable cell.
    pub open spec fn accepts(self, x: int, y: int) -> bool {
        self.cell_opt(x, y) matches Some(w) && w.selectable
    }

    pub open spec fn is_active(self, x: int, y: int) -> bool {
        self.active.0 == x && self.active.1 == y
    }

    /// The active position always addresses an existing, selectable cell.
    pub open spec fn active_ok(self) -> bool {
        self.accepts(self.active.0 as int, self.active.1 as int)
    }

    pub open spec fn wf(self) -> bool {
        self.dims_ok() && self.active_ok()
    }

    /// One cell shows what a full redraw would show: its plain text, or the
    /// emphasized text at the active position.
    pub open spec fn cell_drawn(self, x: int, y: int) -> bool {
        match self.cells[x][y] {
            Some(w) => w.shown == (if self.is_active(x, y) {
                highlighted(w.text)
            } else {
                w.text
            }),
            None => true,
        }
    }

    /// The whole grid is rendered: every occupied cell shows its text, the
    /// active one emphasized.
    pub open spec fn fully_drawn(self) -> bool {
        forall|x: int, y: int|
            0 <= x < self.rows && 0 <= y < self.cols ==> #[trigger] self.cell_drawn(x, y)
    }

    pub open spec fn cell_cleared(self, x: int, y: int) -> bool {
        match self.cells[x][y] {
            Some(w) => w.shown == Seq::<char>::empty(),
            None => true,
        }
    }

    /// Every occupied cell shows nothing: the screen has been blanked.
    pub open spec fn all_cleared(self) -> bool {
        forall|x: int, y: int|
            0 <= x < self.rows && 0 <= y < self.cols ==> #[trigger] self.cell_cleared(x, y)
    }

    /// This screen with the shown text of the cell at (x, y) replaced; the
    /// screen unchanged if that slot is empty or out of range.
    pub open spec fn with_cell_shown(self, x: int, y: int, shown: Seq<char>) -> ScreenModel {
        match self.cell_opt(x, y) {
            Some(w) => ScreenModel {
                cells: self.cells.update(
                    x,
                    self.cells[x].update(y, Some(CellModel { shown: shown, ..w })),
                ),
                ..self
            },
            None => self,
        }
    }

    /// The selection state machine. A rejected candidate (out of range,
    /// empty, or not selectable) leaves the screen unchanged. An accepted
    /// candidate is shown emphasized and becomes active; the previous active
    /// cell reverts to its plain text only if the candidate differs from it.
    pub open spec fn after_move(self, nx: int, ny: int) -> ScreenModel {
        if !self.accepts(nx, ny) {
            self
        } else {
            let sel = self.with_cell_shown(nx, ny, highlighted(self.cell_text(nx, ny)));
            if self.is_active(nx, ny) {
                sel
            } else {
                let unsel = sel.with_cell_shown(
                    self.active.0 as int,
                    self.active.1 as int,
                    self.cell_text(self.active.0 as int, self.active.1 as int),
                );
                ScreenModel { active: (nx as nat, ny as nat), ..unsel }
            }
        }
    }

    /// This screen with every occupied cell blanked.
    pub open spec fn cleared(self) -> ScreenModel {
        ScreenModel {
            cells: Seq::new(
                self.cells.len(),
                |i: int|
                    Seq::new(
                        self.cells[i].len(),
                        |j: int|
                            match self.cells[i][j] {
                                Some(w) => Some(CellModel { shown: Seq::<char>::empty(), ..w }),
                                None => None,
                            },
                    ),
            ),
            ..self
        }
    }

    /// This screen with every occupied cell redrawn: plain text everywhere,
    /// the emphasized form at the active position.
    pub open spec fn drawn(self) -> ScreenModel {
        ScreenModel {
            cells: Seq::new(
                self.cells.len(),
                |i: int|
                    Seq::new(
                        self.cells[i].len(),
                        |j: int|
                            match self.cells[i][j] {
                                Some(w) => Some(
                                    CellModel {
                                        shown: if self.is_active(i, j) {
                                            highlighted(w.text)
                                        } else {
                                            w.text
                                        },
                                        ..w
                                    },
                                ),
                                None => None,
                            },
                    ),
            ),
            ..self
        }
    }
}

/// Represents a view to be displayed.
pub struct CSGScreen {
    pub rows: usize,
    pub cols: usize,
    pub windows: Vec<Vec<Option<CSGWindow>>>,
    pub active_window: (usize, usize),
    pub kind: ScreenKind,
}

impl View for CSGScreen {
    type V = ScreenModel;

    open spec fn view(&self) -> ScreenModel {
        ScreenModel {
            rows: self.rows as nat,
            cols: self.cols as nat,
            cells: self.windows.deep_view(),
            active: (self.active_window.0 as nat, self.active_window.1 as nat),
            kind: self.kind,
        }
    }
}

impl DeepView for CSGScreen {
    type V = ScreenModel;

    open spec fn deep_view(&self) -> ScreenModel {
        self.view()
    }
}

impl CSGScreen {
    /// Get method for a window at candidate coordinates: `None` for an
    /// out-of-range or empty slot — a normal outcome, not an error.
    pub fn get_window(&self, x: i64, y: i64) -> (r: Option<&CSGWindow>)
        requires
            self@.dims_ok(),
        ensures
            match r {
                Some(w) => self@.cell_opt(x as int, y as int) == Some(w@),
                None => self@.cell_opt(x as int, y as int) is None,
            },
    {
        if x < 0 || x >= (self.rows as i64) || y < 0 || y >= (self.cols as i64) {
            return None;
        }
        let xu: usize = x as usize;
        let yu: usize = y as usize;
        proof {
            assert(self@.cells.len() == self.windows@.len());
            assert(self@.cells[xu as int] == self.windows@[xu as int].deep_view());
            assert(self@.cells[xu as int].len() == self.windows@[xu as int]@.len());
        }
        let r = self.windows[xu][yu].as_ref();
        proof {
            assert(self@.cells[xu as int][yu as int] == self.windows@[xu as int]@[yu as int].deep_view());
        }
        r
    }

    /// Shows the cell at (x, y) in its emphasized form.
    fn select_cell(&mut self, x: usize, y: usize)
        requires
            old(self)@.dims_ok(),
            old(self)@.in_bounds(x as int, y as int),
        ensures
            final(self)@ == old(self)@.with_cell_shown(
                x as int,
                y as int,
                highlighted(old(self)@.cell_text(x as int, y as int)),
            ),
    {
        let ghost m0 = old(self)@;
        proof {
            assert(m0.cells.len() == self.windows@.len());
            assert(m0.cells[x as int] == self.windows@[x as int].deep_view());
            assert(m0.cells[x as int].len() == self.windows@[x as int]@.len());
            assert(m0.cells[x as int][y as int] == self.windows@[x as int]@[y as int].deep_view());
        }
        let row = &mut self.windows[x];
        let slot = &mut row[y];
        match slot {
            Some(w) => {
                w.select();
            },
            None => {},
        }
        proof {
            let t = m0.with_cell_shown(
                x as int,
                y as int,
                highlighted(m0.cell_text(x as int, y as int)),
            );
            assert forall|i: int, j: int|
                0 <= i < t.cells.len() && 0 <= j < t.cells[i].len() implies self@.cells[i][j]
                == t.cells[i][j] by {
                assert(self@.cells[i] == self.windows@[i].deep_view());
                assert(self@.cells[i][j] == self.windows@[i]@[j].deep_view());
            }
            assert forall|i: int| 0 <= i < t.cells.len() implies self@.cells[i].len()
                == t.cells[i].len() by {
                assert(self@.cells[i] == self.windows@[i].deep_view());
            }
            assert(self@.cells =~~= t.cells);
            assert(self@ =~~= t);
        }
    }

    /// Shows the cell at (x, y) in its plain form.
    fn unselect_cell(&mut self, x: usize, y: usize)
        requires
            old(self)@.dims_ok(),
            old(self)@.in_bounds(x as int, y as int),
        ensures
            final(self)@ == old(self)@.with_cell_shown(
                x as int,
                y as int,
                old(self)@.cell_text(x as int, y as int),
            ),
    {
        let ghost m0 = old(self)@;
        proof {
            assert(m0.cells.len() == self.windows@.len());
            assert(m0.cells[x as int] == self.windows@[x as int].deep_view());
            assert(m0.cells[x as int].len() == self.windows@[x as int]@.len());
            assert(m0.cells[x as int][y as int] == self.windows@[x as int]@[y as int].deep_view());
        }
        let row = &mut self.windows[x];
        let slot = &mut row[y];
        match slot {
            Some(w) => {
                w.unselect();
            },
            None => {},
        }
        proof {
            let t = m0.with_cell_shown(x as int, y as int, m0.cell_text(x as int, y as int));
            assert forall|i: int, j: int|
                0 <= i < t.cells.len() && 0 <= j < t.cells[i].len() implies self@.cells[i][j]
                == t.cells[i][j] by {
                assert(self@.cells[i] == self.windows@[i].deep_view());
                assert(self@.cells[i][j] == self.windows@[i]@[j].deep_view());
            }
            assert forall|i: int| 0 <= i < t.cells.len() implies self@.cells[i].len()
                == t.cells[i].len() by {
                assert(self@.cells[i] == self.windows@[i].deep_view());
            }
            assert(self@.cells =~~= t.cells);
            assert(self@ =~~= t);
        }
    }

    /// Get method for the active window.
    pub fn get_active_window(&self) -> (r: Option<&CSGWindow>)
        requires
            self@.dims_ok(),
            self@.in_bounds(self@.active.0 as int, self@.active.1 as int),
        ensures
            match r {
                Some(w) => self@.cell_opt(self@.active.0 as int, self@.active.1 as int) == Some(
                    w@,
                ),
                None => self@.cell_opt(self@.active.0 as int, self@.active.1 as int) is None,
            },
    {
        proof {
            let x = self@.active.0 as int;
            assert(self@.cells.len() == self.windows@.len());
            assert(self@.cells[x] == self.windows@[x].deep_view());
            assert(self@.cells[x].len() == self.windows@[x]@.len());
        }
        let r = self.windows[self.active_window.0][self.active_window.1].as_ref();
        proof {
            let x = self@.active.0 as int;
            let y = self@.active.1 as int;
            assert(self@.cells[x][y] == self.windows@[x]@[y].deep_view());
        }
        r
    }

    /// Set method for the active window: the selection move protocol.
    /// `prev` must be the current active position; `next` is the candidate.
    pub fn set_active_window(&mut self, prev: (i64, i64), next: (i64, i64))
        requires
            old(self)@.wf(),
            prev.0 as int == old(self)@.active.0 as int,
            prev.1 as int == old(self)@.active.1 as int,
        ensures
            final(self)@ == old(self)@.after_move(next.0 as int, next.1 as int),
            final(self)@.wf(),
    {
        proof {
            lemma_after_move_wf(old(self)@, next.0 as int, next.1 as int);
        }
        let accept = match self.get_window(next.0, next.1) {
            Some(w) => w.selectable,
            None => false,
        };
        if accept {
            self.select_cell(next.0 as usize, next.1 as usize);
            if next.0 != prev.0 || next.1 != prev.1 {
                self.unselect_cell(prev.0 as usize, prev.1 as usize);
                self.active_window = (next.0 as usize, next.1 as usize);
            }
        }
        proof {
            assert(final(self)@ =~= old(self)@.after_move(next.0 as int, next.1 as int));
        }
    }
}

impl CSGScreen {
    /// Shows the cell at (x, y) as blank.
    fn clear_cell(&mut self, x: usize, y: usize)
        requires
            old(self)@.dims_ok(),
            old(self)@.in_bounds(x as int, y as int),
        ensures
            final(self)@ == old(self)@.with_cell_shown(x as int, y as int, Seq::<char>::empty()),
    {
        let ghost m0 = old(self)@;
        proof {
            assert(m0.cells.len() == self.windows@.len());
            assert(m0.cells[x as int] == self.windows@[x as int].deep_view());
            assert(m0.cells[x as int].len() == self.windows@[x as int]@.len());
            assert(m0.cells[x as int][y as int] == self.windows@[x as int]@[y as int].deep_view());
        }
        let row = &mut self.windows[x];
        let slot = &mut row[y];
        match slot {
            Some(w) => {
                w.shown = String::new();
            },
            None => {},
        }
        proof {
            let t = m0.with_cell_shown(x as int, y as int, Seq::<char>::empty());
            assert forall|i: int, j: int|
                0 <= i < t.cells.len() && 0 <= j < t.cells[i].len() implies self@.cells[i][j]
                == t.cells[i][j] by {
                assert(self@.cells[i] == self.windows@[i].deep_view());
                assert(self@.cells[i][j] == self.windows@[i]@[j].deep_view());
            }
            assert forall|i: int| 0 <= i < t.cells.len() implies self@.cells[i].len()
                == t.cells[i].len() by {
                assert(self@.cells[i] == self.windows@[i].deep_view());
            }
            assert(self@.cells =~~= t.cells);
            assert(self@ =~~= t);
        }
    }

    /// Blanks every occupied cell on the terminal surface. The cells keep
    /// their text, so a later redraw can restore them.
    pub fn clear_all(&mut self)
        requires
            old(self)@.dims_ok(),
        ensures
            final(self)@ == old(self)@.cleared(),
    {
        let ghost m0 = old(self)@;
        let mut i: usize = 0;
        while i < self.rows
            invariant
                i <= m0.rows,
                m0.dims_ok(),
                self@.rows == m0.rows,
                self@.cols == m0.cols,
                self@.active == m0.active,
                self@.kind == m0.kind,
                self@.dims_ok(),
                forall|a: int, b: int|
                    0 <= a < m0.rows && 0 <= b < m0.cols ==> #[trigger] self@.cells[a][b] == (
                    if a < i {
                        m0.cleared().cells[a][b]
                    } else {
                        m0.cells[a][b]
                    }),
            decreases m0.rows - i,
        {
            let mut j: usize = 0;
            while j < self.cols
                invariant
                    i < m0.rows,
                    j <= m0.cols,
                    m0.dims_ok(),
                    self@.rows == m0.rows,
                    self@.cols == m0.cols,
                    self@.active == m0.active,
                    self@.kind == m0.kind,
                    self@.dims_ok(),
                    forall|a: int, b: int|
                        0 <= a < m0.rows && 0 <= b < m0.cols ==> #[trigger] self@.cells[a][b] == (
                        if a < i || (a == i && b < j) {
                            m0.cleared().cells[a][b]
                        } else {
                            m0.cells[a][b]
                        }),
                decreases m0.cols - j,
            {
                self.clear_cell(i, j);
                j += 1;
            }
            i += 1;
        }
        proof {
            assert forall|a: int| 0 <= a < m0.rows implies self@.cells[a].len()
                == m0.cleared().cells[a].len() by {}
            assert(self@.cells =~~= m0.cleared().cells);
            assert(self@ =~~= m0.cleared());
        }
    }

    /// Redraws every occupied cell: plain text everywhere, the emphasized
    /// form at the active position.
    pub fn write_all(&mut self)
        requires
            old(self)@.dims_ok(),
        ensures
            final(self)@ == old(self)@.drawn(),
    {
        let ghost m0 = old(self)@;
        let mut i: usize = 0;
        while i < self.rows
            invariant
                i <= m0.rows,
                m0.dims_ok(),
                self@.rows == m0.rows,
                self@.cols == m0.cols,
                self@.active == m0.active,
                self@.kind == m0.kind,
                self@.dims_ok(),
                forall|a: int, b: int|
                    0 <= a < m0.rows && 0 <= b < m0.cols ==> #[trigger] self@.cells[a][b] == (
                    if a < i {
                        m0.drawn().cells[a][b]
                    } else {
                        m0.cells[a][b]
                    }),
            decreases m0.rows - i,
        {
            let mut j: usize = 0;
            while j < self.cols
                invariant
                    i < m0.rows,
                    j <= m0.cols,
                    m0.dims_ok(),
                    self@.rows == m0.rows,
                    self@.cols == m0.cols,
                    self@.active == m0.active,
                    self@.kind == m0.kind,
                    self@.dims_ok(),
                    forall|a: int, b: int|
                        0 <= a < m0.rows && 0 <= b < m0.cols ==> #[trigger] self@.cells[a][b] == (
                        if a < i || (a == i && b < j) {
                            m0.drawn().cells[a][b]
                        } else {
                            m0.cells[a][b]
                        }),
                decreases m0.cols - j,
            {
                let is_active = i == self.active_window.0 && j == self.active_window.1;
                if is_active {
                    self.select_cell(i, j);
                } else {
                    self.unselect_cell(i, j);
                }
                j += 1;
            }
            i += 1;
        }
        proof {
            assert forall|a: int| 0 <= a < m0.rows implies self@.cells[a].len()
                == m0.drawn().cells[a].len() by {}
            assert(self@.cells =~~= m0.drawn().cells);
            assert(self@ =~~= m0.drawn());
        }
    }
}

/// The rows of a result set flattened into one sequence of texts, in the
/// order the rows report them.
pub open spec fn flat_texts(rows: Seq<Seq<Seq<char>>>) -> Seq<Seq<char>>
    decreases rows.len(),
{
    if rows.len() == 0 {
        Seq::<Seq<char>>::empty()
    } else {
        flat_texts(rows.drop_last()) + rows.last()
    }
}

pub proof fn lemma_flat_texts_take(rows: Seq<Seq<Seq<char>>>, i: int)
    requires
        0 <= i < rows.len(),
    ensures
        flat_texts(rows.take(i + 1)) == flat_texts(rows.take(i)) + rows[i],
{
    assert(rows.take(i + 1).drop_last() =~= rows.take(i));
    assert(rows.take(i + 1).last() == rows[i]);
}

pub proof fn lemma_flat_texts_take_len(rows: Seq<Seq<Seq<char>>>, a: int, b: int)
    requires
        0 <= a <= b <= rows.len(),
    ensures
        flat_texts(rows.take(a)).len() <= flat_texts(rows.take(b)).len(),
    decreases b - a,
{
    if a < b {
        lemma_flat_texts_take(rows, b - 1);
        lemma_flat_texts_take_len(rows, a, b - 1);
    }
}

/// The cell a table-list layout puts at grid position (0, y): one list entry,
/// one cell tall and `CELL_WIDTH` wide, on terminal line y; every entry
/// selectable and the first one pre-selected.
pub open spec fn list_cell(entries: Seq<Seq<char>>, y: int) -> CellModel {
    CellModel {
        nlines: 1,
        ncols: CELL_WIDTH as nat,
        begin_y: y as nat,
        begin_x: 0,
        text: entries[y],
        shown: if y == 0 {
            highlighted(entries[y])
        } else {
            entries[y]
        },
        selectable: true,
    }
}

/// The table-list grid after the first `placed` entries have been laid out.
pub open spec fn list_grid(entries: Seq<Seq<char>>, placed: int, rows: int, cols: int) -> Seq<
    Seq<Option<CellModel>>,
> {
    Seq::new(
        rows as nat,
        |i: int|
            Seq::new(
                cols as nat,
                |j: int|
                    if i == 0 && 0 <= j < placed {
                        Some(list_cell(entries, j))
                    } else {
                        None
                    },
            ),
    )
}

/// When a table-list layout succeeds: the screen has at least one line, the
/// listing is not empty, and every entry fits in the single column of
/// `width / CELL_WIDTH` slots.
pub open spec fn list_fits(rm: ResultModel, width: int, height: int) -> bool {
    &&& height >= 1
    &&& 1 <= flat_texts(rm.col_text).len()
    &&& flat_texts(rm.col_text).len() <= width / (CELL_WIDTH as int)
}

/// The table-list screen built from a result set: each result text becomes
/// one cell in column 0 at increasing row index, and (0, 0) is active.
pub open spec fn list_screen(rm: ResultModel, width: int, height: int) -> ScreenModel {
    let entries = flat_texts(rm.col_text);
    ScreenModel {
        rows: height as nat,
        cols: (width / (CELL_WIDTH as int)) as nat,
        cells: list_grid(entries, entries.len() as int, height, width / (CELL_WIDTH as int)),
        active: (0, 0),
        kind: ScreenKind::TableList,
    }
}

/// The header cell a table-dump layout puts at grid position (x, 0): one
/// column name, not selectable.
pub open spec fn header_cell(names: Seq<Seq<char>>, x: int) -> CellModel {
    CellModel {
        nlines: 1,
        ncols: CELL_WIDTH as nat,
        begin_y: 0,
        begin_x: (x * CELL_WIDTH) as nat,
        text: names[x],
        shown: names[x],
        selectable: false,
    }
}

/// The data cell a table-dump layout puts at grid position (x, yrow + 1):
/// one value of data row `yrow`, selectable, the first one pre-selected.
pub open spec fn data_cell(data: Seq<Seq<Seq<char>>>, x: int, yrow: int) -> CellModel {
    CellModel {
        nlines: 1,
        ncols: CELL_WIDTH as nat,
        begin_y: (yrow + 1) as nat,
        begin_x: (x * CELL_WIDTH) as nat,
        text: data[yrow][x],
        shown: if x == 0 && yrow == 0 {
            highlighted(data[yrow][x])
        } else {
            data[yrow][x]
        },
        selectable: true,
    }
}

/// The table-dump grid after `hplaced` header cells, `rplaced` full data
/// rows, and `extra` cells of data row `rplaced` have been laid out.
pub open spec fn dump_grid(
    names: Seq<Seq<char>>,
    data: Seq<Seq<Seq<char>>>,
    hplaced: int,
    rplaced: int,
    extra: int,
    rows: int,
    cols: int,
) -> Seq<Seq<Option<CellModel>>> {
    Seq::new(
        rows as nat,
        |x: int|
            Seq::new(
                cols as nat,
                |y: int|
                    if y == 0 {
                        if x < hplaced {
                            Some(header_cell(names, x))
                        } else {
                            None
                        }
                    } else if 1 <= y && y <= rplaced && x < data[y - 1].len() {
                        Some(data_cell(data, x, y - 1))
                    } else if y == rplaced + 1 && x < extra {
                        Some(data_cell(data, x, y - 1))
                    } else {
                        None
                    },
            ),
    )
}

/// When a table-dump layout succeeds: column names are known and fit, there
/// is at least one data row, the first data row is not empty, and every row
/// fits the `height`×`width` grid (one grid row per header plus one per data
/// row, one grid column per value).
pub open spec fn dump_fits(rm: ResultModel, width: int, height: int) -> bool {
    &&& rm.col_names matches Some(names) && names.len() <= height
    &&& width >= 1
    &&& 1 <= rm.col_text.len()
    &&& rm.col_text.len() + 1 <= width
    &&& rm.col_text[0].len() >= 1
    &&& forall|k: int| 0 <= k < rm.col_text.len() ==> (#[trigger] rm.col_text[k]).len() <= height
}

/// The table-dump screen built from a result set: one grid row of header
/// cells, one grid row per data row, and (0, 1) — the first data cell —
/// active.
pub open spec fn dump_screen(rm: ResultModel, width: int, height: int) -> ScreenModel {
    match rm.col_names {
        Some(names) => ScreenModel {
            rows: height as nat,
            cols: width as nat,
            cells: dump_grid(
                names,
                rm.col_text,
                names.len() as int,
                rm.col_text.len() as int,
                0,
                height,
                width,
            ),
            active: (0, 1),
            kind: ScreenKind::TableDump,
        },
        None => arbitrary(),
    }
}

/// Stores a window into one grid slot.
fn set_slot(windows: &mut Vec<Vec<Option<CSGWindow>>>, x: usize, y: usize, w: CSGWindow)
    requires
        x < old(windows)@.len(),
        y < old(windows)@[x as int]@.len(),
    ensures
        final(windows).deep_view() == old(windows).deep_view().update(
            x as int,
            old(windows).deep_view()[x as int].update(y as int, Some(w@)),
        ),
        final(windows)@.len() == old(windows)@.len(),
        forall|i: int|
            0 <= i < old(windows)@.len() ==> (#[trigger] final(windows)@[i])@.len()
                == old(windows)@[i]@.len(),
{
    let ghost w0 = *old(windows);
    let row = &mut windows[x];
    let slot = &mut row[y];
    *slot = Some(w);
    proof {
        let t = w0.deep_view().update(x as int, w0.deep_view()[x as int].update(y as int, Some(w@)));
        assert(w0.deep_view()[x as int] == w0@[x as int].deep_view());
        assert forall|i: int, j: int|
            0 <= i < windows@.len() && 0 <= j < windows@[i]@.len() implies windows.deep_view()[i][j]
            == t[i][j] by {
            assert(windows.deep_view()[i] == windows@[i].deep_view());
            assert(windows.deep_view()[i][j] == windows@[i]@[j].deep_view());
            assert(w0.deep_view()[i] == w0@[i].deep_view());
            assert(w0.deep_view()[i][j] == w0@[i]@[j].deep_view());
        }
        assert forall|i: int| 0 <= i < windows@.len() implies windows.deep_view()[i].len()
            == t[i].len() by {
            assert(windows.deep_view()[i] == windows@[i].deep_view());
            assert(w0.deep_view()[i] == w0@[i].deep_view());
        }
        assert(windows.deep_view() =~~= t);
    }
}

impl CSGScreen {
    /// Initializes a 2D vector of windows to all `None`.
    fn init_windows(rows: usize, cols: usize) -> (r: Vec<Vec<Option<CSGWindow>>>)
    ensures
        r.deep_view().len() == rows,
        r@.len() == rows,
        forall|i: int| 0 <= i < rows ==> (#[trigger] r.deep_view()[i]).len() == cols,
        forall|i: int| 0 <= i < rows ==> (#[trigger] r@[i])@.len() == cols,
        forall|i: int, j: int|
            0 <= i < rows && 0 <= j < cols ==> #[trigger] r.deep_view()[i][j] is None,
{
    let mut windows: Vec<Vec<Option<CSGWindow>>> = Vec::new();
    let mut i: usize = 0;
    while i < rows
        invariant
            i <= rows,
            windows@.len() == i,
            forall|a: int| 0 <= a < i ==> (#[trigger] windows@[a])@.len() == cols,
            forall|a: int, b: int|
                0 <= a < i && 0 <= b < cols ==> #[trigger] windows@[a]@[b] is None,
        decreases rows - i,
    {
        let mut row: Vec<Option<CSGWindow>> = Vec::new();
        let mut j: usize = 0;
        while j < cols
            invariant
                j <= cols,
                row@.len() == j,
                forall|b: int| 0 <= b < j ==> #[trigger] row@[b] is None,
            decreases cols - j,
        {
            row.push(None);
            j += 1;
        }
        windows.push(row);
        i += 1;
    }
    proof {
        assert forall|i2: int| 0 <= i2 < rows implies (#[trigger] windows.deep_view()[i2]).len()
            == cols by {
            assert(windows.deep_view()[i2] == windows@[i2].deep_view());
        }
        assert forall|i2: int, j2: int|
            0 <= i2 < rows && 0 <= j2 < cols implies #[trigger] windows.deep_view()[i2][j2] is None by {
            assert(windows.deep_view()[i2] == windows@[i2].deep_view());
            assert(windows.deep_view()[i2][j2] == windows@[i2]@[j2].deep_view());
        }
    }
    windows
}
}

impl CSGScreen {
    /// Factory constructor for table list screens: one cell per result text,
    /// all in column 0, the first one pre-selected. Fails exactly when the
    /// listing is empty or does not fit the grid.
    #[verifier::loop_isolation(false)]
    pub fn new_table_list(width: usize, height: usize, results: &ExecResult) -> (r: Result<
        CSGScreen,
        String,
    >)
        requires
            width <= DIM_LIMIT,
            height <= DIM_LIMIT,
        ensures
            match r {
                Ok(s) => {
                    &&& list_fits(results@, width as int, height as int)
                    &&& s@ == list_screen(results@, width as int, height as int)
                    &&& s@.wf()
                    &&& s@.fully_drawn()
                },
                Err(_) => !list_fits(results@, width as int, height as int),
            },
    {
        let rows = height;
        let cols = width / CELL_WIDTH;
        let ghost ct = results@.col_text;
        let ghost entries = flat_texts(ct);
        if rows == 0 {
            return Err(String::from_str("screen height is zero"));
        }
        let mut windows = Self::init_windows(rows, cols);
        let mut y: usize = 0;
        let mut i: usize = 0;
        proof {
            assert(ct.take(0) =~= Seq::<Seq<Seq<char>>>::empty());
            assert(ct.len() == results.col_text@.len());
        }
        while i < results.col_text.len()
            invariant
                i <= ct.len(),
                y == flat_texts(ct.take(i as int)).len(),
                y <= cols,
                windows@.len() == rows,
                forall|a: int| 0 <= a < rows ==> (#[trigger] windows@[a])@.len() == cols,
                forall|a: int, b: int|
                    0 <= a < rows && 0 <= b < cols ==> #[trigger] windows.deep_view()[a][b] == (
                    if a == 0 && 0 <= b < y {
                        Some(list_cell(flat_texts(ct.take(i as int)), b))
                    } else {
                        None
                    }),
            decreases ct.len() - i,
        {
            let row_vec = &results.col_text[i];
            proof {
                assert(ct[i as int] == results.col_text@[i as int].deep_view());
                assert(ct[i as int].len() == row_vec@.len());
            }
            let mut j: usize = 0;
            while j < row_vec.len()
                invariant
                    j <= ct[i as int].len(),
                    y == flat_texts(ct.take(i as int)).len() + j,
                    y <= cols,
                    windows@.len() == rows,
                    forall|a: int| 0 <= a < rows ==> (#[trigger] windows@[a])@.len() == cols,
                    forall|a: int, b: int|
                        0 <= a < rows && 0 <= b < cols ==> #[trigger] windows.deep_view()[a][b]
                            == (if a == 0 && 0 <= b < y {
                            Some(
                                list_cell(
                                    flat_texts(ct.take(i as int)) + ct[i as int].take(j as int),
                                    b,
                                ),
                            )
                        } else {
                            None
                        }),
                decreases ct[i as int].len() - j,
            {
                if y >= cols {
                    proof {
                        lemma_flat_texts_take(ct, i as int);
                        lemma_flat_texts_take_len(ct, i as int + 1, ct.len() as int);
                        assert(ct.take(ct.len() as int) =~= ct);
                        assert(entries.len() > cols);
                    }
                    return Err(String::from_str("table list does not fit the screen"));
                }
                let mut window = CSGWindow::new(true, 1, CELL_WIDTH, y, 0);
                window.set_text(row_vec[j].clone());
                if y == 0 {
                    window.select();
                }
                proof {
                    assert(ct[i as int][j as int] == row_vec@[j as int]@);
                }
                set_slot(&mut windows, 0, y, window);
                proof {
                    let pfx0 = flat_texts(ct.take(i as int)) + ct[i as int].take(j as int);
                    let pfx1 = flat_texts(ct.take(i as int)) + ct[i as int].take(j as int + 1);
                    assert(ct[i as int].take(j as int + 1) =~= ct[i as int].take(j as int).push(
                        ct[i as int][j as int],
                    ));
                    assert(pfx1 =~= pfx0.push(ct[i as int][j as int]));
                    assert forall|b: int| 0 <= b < y + 1 implies list_cell(pfx1, b) == (
                    if b < y {
                        list_cell(pfx0, b)
                    } else {
                        window@
                    }) by {
                        assert(pfx1[b] == if b < y {
                            pfx0[b]
                        } else {
                            ct[i as int][j as int]
                        });
                    }
                }
                y += 1;
                j += 1;
            }
            proof {
                lemma_flat_texts_take(ct, i as int);
                assert(ct[i as int].take(ct[i as int].len() as int) =~= ct[i as int]);
            }
            i += 1;
        }
        proof {
            assert(ct.take(ct.len() as int) =~= ct);
        }
        if y == 0 {
            return Err(String::from_str("table list is empty"));
        }
        let s = CSGScreen {
            rows,
            cols,
            windows,
            active_window: (0, 0),
            kind: ScreenKind::TableList,
        };
        proof {
            let t = list_screen(results@, width as int, height as int);
            assert(entries.len() == y);
            assert forall|a: int| 0 <= a < rows implies s@.cells[a].len() == t.cells[a].len() by {
                assert(s@.cells[a] == s.windows@[a].deep_view());
            }
            assert(s@.cells =~~= t.cells);
            assert(s@ =~~= t);
            assert(s@.accepts(0, 0));
            assert forall|a: int, b: int|
                0 <= a < s@.rows && 0 <= b < s@.cols implies #[trigger] s@.cell_drawn(a, b) by {
                assert(s@.cells[a][b] == t.cells[a][b]);
            }
        }
        Ok(s)
    }
}

impl CSGScreen {
    /// Factory constructor for table dump screens: one grid row of
    /// non-selectable header cells (one per column name), then one grid row
    /// per data row of selectable cells, with the first data cell
    /// pre-selected. Fails exactly when no column names were reported, the
    /// dump is empty, its first row is empty, or it does not fit the grid.
    #[verifier::loop_isolation(false)]
    pub fn new_table_dump(width: usize, height: usize, results: &ExecResult) -> (r: Result<
        CSGScreen,
        String,
    >)
        requires
            width <= DIM_LIMIT,
            height <= DIM_LIMIT,
        ensures
            match r {
                Ok(s) => {
                    &&& dump_fits(results@, width as int, height as int)
                    &&& s@ == dump_screen(results@, width as int, height as int)
                    &&& s@.wf()
                    &&& s@.fully_drawn()
                },
                Err(_) => !dump_fits(results@, width as int, height as int),
            },
    {
        let names = match &results.col_names {
            Some(n) => n,
            None => {
                return Err(String::from_str("query produced no column names"));
            },
        };
        if width == 0 {
            return Err(String::from_str("screen width is zero"));
        }
        let rows = height;
        let cols = width;
        let ghost nm = names.deep_view();
        let ghost data = results@.col_text;
        proof {
            assert(results@.col_names == Some(nm));
            assert(data.len() == results.col_text@.len());
        }
        let mut windows = Self::init_windows(rows, cols);
        let mut x: usize = 0;
        while x < names.len()
            invariant
                x <= nm.len(),
                x <= rows,
                windows@.len() == rows,
                forall|a: int| 0 <= a < rows ==> (#[trigger] windows@[a])@.len() == cols,
                forall|a: int, b: int|
                    0 <= a < rows && 0 <= b < cols ==> #[trigger] windows.deep_view()[a][b]
                        == dump_grid(nm, data, x as int, 0, 0, rows as int, cols as int)[a][b],
            decreases nm.len() - x,
        {
            if x >= rows {
                return Err(String::from_str("table has too many columns for the screen"));
            }
            let mut window = CSGWindow::new(false, 1, CELL_WIDTH, 0, x * CELL_WIDTH);
            window.set_text(names[x].clone());
            proof {
                assert(nm[x as int] == names@[x as int]@);
                assert(window@ == header_cell(nm, x as int));
            }
            set_slot(&mut windows, x, 0, window);
            x += 1;
        }
        let mut yrow: usize = 0;
        while yrow < results.col_text.len()
            invariant
                yrow <= data.len(),
                yrow == 0 || yrow < cols,
                forall|k: int| 0 <= k < yrow ==> (#[trigger] data[k]).len() <= rows,
                windows@.len() == rows,
                forall|a: int| 0 <= a < rows ==> (#[trigger] windows@[a])@.len() == cols,
                forall|a: int, b: int|
                    0 <= a < rows && 0 <= b < cols ==> #[trigger] windows.deep_view()[a][b]
                        == dump_grid(
                        nm,
                        data,
                        nm.len() as int,
                        yrow as int,
                        0,
                        rows as int,
                        cols as int,
                    )[a][b],
            decreases data.len() - yrow,
        {
            let gy: usize = yrow + 1;
            if gy >= cols {
                return Err(String::from_str("table has too many rows for the screen"));
            }
            let row_vec = &results.col_text[yrow];
            proof {
                assert(data[yrow as int] == results.col_text@[yrow as int].deep_view());
                assert(data[yrow as int].len() == row_vec@.len());
            }
            let mut xx: usize = 0;
            while xx < row_vec.len()
                invariant
                    xx <= data[yrow as int].len(),
                    xx <= rows,
                    gy == yrow + 1,
                    gy < cols,
                    windows@.len() == rows,
                    forall|a: int| 0 <= a < rows ==> (#[trigger] windows@[a])@.len() == cols,
                    forall|a: int, b: int|
                        0 <= a < rows && 0 <= b < cols ==> #[trigger] windows.deep_view()[a][b]
                            == dump_grid(
                            nm,
                            data,
                            nm.len() as int,
                            yrow as int,
                            xx as int,
                            rows as int,
                            cols as int,
                        )[a][b],
                decreases data[yrow as int].len() - xx,
            {
                if xx >= rows {
                    return Err(String::from_str("table row does not fit the screen"));
                }
                let mut window = CSGWindow::new(true, 1, CELL_WIDTH, gy, xx * CELL_WIDTH);
                window.set_text(row_vec[xx].clone());
                if xx == 0 && gy == 1 {
                    window.select();
                }
                proof {
                    assert(data[yrow as int][xx as int] == row_vec@[xx as int]@);
                    assert(window@ == data_cell(data, xx as int, yrow as int));
                }
                set_slot(&mut windows, xx, gy, window);
                xx += 1;
            }
            proof {
                let g0 = dump_grid(
                    nm,
                    data,
                    nm.len() as int,
                    yrow as int,
                    data[yrow as int].len() as int,
                    rows as int,
                    cols as int,
                );
                let g1 = dump_grid(
                    nm,
                    data,
                    nm.len() as int,
                    yrow as int + 1,
                    0,
                    rows as int,
                    cols as int,
                );
                assert forall|a: int, b: int|
                    0 <= a < rows && 0 <= b < cols implies g0[a][b] == g1[a][b] by {}
            }
            yrow += 1;
        }
        if results.col_text.len() == 0 {
            return Err(String::from_str("table is empty"));
        }
        if results.col_text[0].len() == 0 {
            proof {
                assert(data[0] == results.col_text@[0].deep_view());
            }
            return Err(String::from_str("first table row is empty"));
        }
        proof {
            assert(data[0] == results.col_text@[0].deep_view());
            assert(data[0].len() >= 1);
        }
        let s = CSGScreen {
            rows,
            cols,
            windows,
            active_window: (0, 1),
            kind: ScreenKind::TableDump,
        };
        proof {
            let t = dump_screen(results@, width as int, height as int);
            assert forall|a: int| 0 <= a < rows implies s@.cells[a].len() == t.cells[a].len() by {
                assert(s@.cells[a] == s.windows@[a].deep_view());
            }
            assert(s@.cells =~~= t.cells);
            assert(s@ =~~= t);
            assert(s@.cells[0][1] == Some(data_cell(data, 0, 0)));
            assert(s@.accepts(0, 1));
            assert forall|a: int, b: int|
                0 <= a < s@.rows && 0 <= b < s@.cols implies #[trigger] s@.cell_drawn(a, b) by {
                assert(s@.cells[a][b] == t.cells[a][b]);
            }
        }
        Ok(s)
    }
}

/// Moving anywhere preserves the grid's shape and the validity of the active
/// position; a move changes at most which cell is active and what two cells
/// show.
pub proof fn lemma_after_move_wf(s: ScreenModel, nx: int, ny: int)
    requires
        s.wf(),
    ensures
        s.after_move(nx, ny).wf(),
        s.after_move(nx, ny).rows == s.rows,
        s.after_move(nx, ny).cols == s.cols,
        s.after_move(nx, ny).kind == s.kind,
        !s.accepts(nx, ny) ==> s.after_move(nx, ny) == s,
        s.accepts(nx, ny) ==> s.after_move(nx, ny).active == (nx as nat, ny as nat),
{
    let m = s.after_move(nx, ny);
    if s.accepts(nx, ny) {
        if s.is_active(nx, ny) {
            assert(m.active == (nx as nat, ny as nat));
        }
        assert(m.accepts(m.active.0 as int, m.active.1 as int));
    }
}

/// Bounds safety: a candidate coordinate outside `[0, rows) × [0, cols)`
/// leaves the screen — in particular its active position — unchanged.
pub proof fn lemma_move_out_of_bounds(s: ScreenModel, nx: int, ny: int)
    requires
        s.wf(),
        !s.in_bounds(nx, ny),
    ensures
        s.after_move(nx, ny) == s,
{
}

/// Selectability gate: a move onto an empty slot or a non-selectable cell
/// leaves the screen unchanged; a move onto a selectable cell makes that
/// cell the active position.
pub proof fn lemma_move_selectability(s: ScreenModel, nx: int, ny: int)
    requires
        s.wf(),
    ensures
        !s.accepts(nx, ny) ==> s.after_move(nx, ny) == s,
        s.accepts(nx, ny) ==> s.after_move(nx, ny).active == (nx as nat, ny as nat),
{
    if s.accepts(nx, ny) && s.is_active(nx, ny) {
        assert(s.after_move(nx, ny).active == (nx as nat, ny as nat));
    }
}

/// Idempotent re-selection: on a rendered screen, moving to the currently
/// active position is a no-op — nothing is unselected, nothing changes.
pub proof fn lemma_reselect_active_is_noop(s: ScreenModel)
    requires
        s.wf(),
        s.fully_drawn(),
    ensures
        s.after_move(s.active.0 as int, s.active.1 as int) == s,
{
    let ax = s.active.0 as int;
    let ay = s.active.1 as int;
    let m = s.after_move(ax, ay);
    assert(s.cell_drawn(ax, ay));
    assert forall|i: int, j: int|
        0 <= i < s.cells.len() && 0 <= j < s.cells[i].len() implies m.cells[i][j]
        == s.cells[i][j] by {}
    assert forall|i: int| 0 <= i < s.cells.len() implies m.cells[i].len() == s.cells[i].len() by {}
    assert(m.cells =~~= s.cells);
    assert(m =~~= s);
}

/// A move on a rendered screen leaves it rendered: the new active cell is
/// emphasized, the old one shows its plain text again, nothing else changes.
pub proof fn lemma_after_move_fully_drawn(s: ScreenModel, nx: int, ny: int)
    requires
        s.wf(),
        s.fully_drawn(),
    ensures
        s.after_move(nx, ny).fully_drawn(),
{
    let m = s.after_move(nx, ny);
    assert forall|x: int, y: int|
        0 <= x < m.rows && 0 <= y < m.cols implies #[trigger] m.cell_drawn(x, y) by {
        assert(s.cell_drawn(x, y));
        assert(s.cell_drawn(s.active.0 as int, s.active.1 as int));
    }
}

/// Blanking a screen keeps its shape, its active position, its texts and
/// its selectable flags; only what is shown goes away. Redrawing it then
/// shows the same thing as redrawing the original.
pub proof fn lemma_cleared_props(s: ScreenModel)
    requires
        s.wf(),
    ensures
        s.cleared().wf(),
        s.cleared().all_cleared(),
        s.cleared().rows == s.rows,
        s.cleared().cols == s.cols,
        s.cleared().active == s.active,
        s.cleared().kind == s.kind,
        s.cleared().drawn() == s.drawn(),
{
    let c = s.cleared();
    assert(c.accepts(c.active.0 as int, c.active.1 as int));
    assert forall|x: int, y: int|
        0 <= x < c.rows && 0 <= y < c.cols implies #[trigger] c.cell_cleared(x, y) by {}
    assert forall|i: int, j: int|
        0 <= i < s.cells.len() && 0 <= j < s.cells[i].len() implies c.drawn().cells[i][j]
        == s.drawn().cells[i][j] by {}
    assert forall|i: int| 0 <= i < s.cells.len() implies c.drawn().cells[i].len()
        == s.drawn().cells[i].len() by {}
    assert(c.drawn().cells =~~= s.drawn().cells);
    assert(c.drawn() =~~= s.drawn());
}

/// A full redraw yields a well-formed, fully rendered screen of the same
/// shape, texts and active position.
pub proof fn lemma_drawn_props(s: ScreenModel)
    requires
        s.wf(),
    ensures
        s.drawn().wf(),
        s.drawn().fully_drawn(),
        s.drawn().rows == s.rows,
        s.drawn().cols == s.cols,
        s.drawn().active == s.active,
        s.drawn().kind == s.kind,
{
    let d = s.drawn();
    assert(d.accepts(d.active.0 as int, d.active.1 as int));
    assert forall|x: int, y: int|
        0 <= x < d.rows && 0 <= y < d.cols implies #[trigger] d.cell_drawn(x, y) by {}
}

/// A screen that is already fully rendered is a fixed point of the full
/// redraw.
pub proof fn lemma_fully_drawn_is_drawn(s: ScreenModel)
    requires
        s.wf(),
        s.fully_drawn(),
    ensures
        s.drawn() == s,
{
    assert forall|i: int, j: int|
        0 <= i < s.cells.len() && 0 <= j < s.cells[i].len() implies s.drawn().cells[i][j]
        == s.cells[i][j] by {
        assert(s.cell_drawn(i, j));
    }
    assert forall|i: int| 0 <= i < s.cells.len() implies s.drawn().cells[i].len()
        == s.cells[i].len() by {}
    assert(s.drawn().cells =~~= s.cells);
    assert(s.drawn() =~~= s);
}

/// Transition correctness for the dump layout: the header row of the screen
/// built from a result set carries exactly the result set's column names, in
/// order, each non-selectable; the screen is a table dump with the first
/// data cell active.
pub proof fn lemma_dump_screen_header(rm: ResultModel, width: int, height: int)
    requires
        dump_fits(rm, width, height),
    ensures
        dump_screen(rm, width, height).kind is TableDump,
        dump_screen(rm, width, height).active == (0nat, 1nat),
        forall|i: int|
            #![trigger dump_screen(rm, width, height).cell_opt(i, 0)]
            0 <= i < rm.col_names->Some_0.len() ==> {
                &&& dump_screen(rm, width, height).cell_opt(i, 0) is Some
                &&& dump_screen(rm, width, height).cell_opt(i, 0)->Some_0.text
                    == rm.col_names->Some_0[i]
                &&& !dump_screen(rm, width, height).cell_opt(i, 0)->Some_0.selectable
            },
{
    let d = dump_screen(rm, width, height);
    let names = rm.col_names->Some_0;
    assert forall|i: int| 0 <= i < names.len() implies #[trigger] d.cell_opt(i, 0) == Some(
        header_cell(names, i),
    ) by {
        assert(d.in_bounds(i, 0));
        assert(d.cells[i][0] == Some(header_cell(names, i)));
    }
}

} // verus!
