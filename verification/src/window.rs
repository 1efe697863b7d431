//! One rectangular display cell: a grid-addressed window that owns its text,
//! a selectable flag, and the text currently shown on the terminal surface.
//! The driver mirrors `shown` onto the real terminal; this module only keeps
//! the state and proves how each operation changes it.

use vstd::prelude::*;
use vstd::string::*;

verus! {

/// What the emphasized (selected) form of a text looks like: the text
/// wrapped in one asterisk on each side.
pub open spec fn highlighted(t: Seq<char>) -> Seq<char> {
    seq!['*'] + t + seq!['*']
}

/// Mathematical model of a display cell.
#[verifier::ext_equal]
pub ghost struct CellModel {
    /// Height of the cell in terminal lines.
    pub nlines: nat,
    /// Width of the cell in terminal columns.
    pub ncols: nat,
    /// Terminal line of the cell's upper-left corner.
    pub begin_y: nat,
    /// Terminal column of the cell's upper-left corner.
    pub begin_x: nat,
    /// The text the cell owns.
    pub text: Seq<char>,
    /// The text currently shown on the terminal surface for this cell.
    pub shown: Seq<char>,
    /// Whether the selection cursor may rest on this cell.
    pub selectable: bool,
}

/// Represents a window bound to one grid position.
pub struct CSGWindow {
    pub nlines: usize,
    pub ncols: usize,
    pub begin_y: usize,
    pub begin_x: usize,
    pub text: String,
    pub shown: String,
    pub selectable: bool,
}

impl View for CSGWindow {
    type V = CellModel;

    open spec fn view(&self) -> CellModel {
        CellModel {
            nlines: self.nlines as nat,
            ncols: self.ncols as nat,
            begin_y: self.begin_y as nat,
            begin_x: self.begin_x as nat,
            text: self.text@,
            shown: self.shown@,
            selectable: self.selectable,
        }
    }
}

impl DeepView for CSGWindow {
    type V = CellModel;

    open spec fn deep_view(&self) -> CellModel {
        self.view()
    }
}

impl CSGWindow {
    pub fn new(selectable: bool, nlines: usize, ncols: usize, begin_y: usize, begin_x: usize) -> (
        r: CSGWindow
    )
        ensures
            r@ == (CellModel {
                nlines: nlines as nat,
                ncols: ncols as nat,
                begin_y: begin_y as nat,
                begin_x: begin_x as nat,
                text: Seq::<char>::empty(),
                shown: Seq::<char>::empty(),
                selectable: selectable,
            }),
    {
        let r = CSGWindow {
            nlines,
            ncols,
            begin_y,
            begin_x,
            text: String::new(),
            shown: String::new(),
            selectable,
        };
        proof {
            assert(r@ =~= CellModel {
                nlines: nlines as nat,
                ncols: ncols as nat,
                begin_y: begin_y as nat,
                begin_x: begin_x as nat,
                text: Seq::<char>::empty(),
                shown: Seq::<char>::empty(),
                selectable: selectable,
            });
        }
        r
    }

    /// Sets the window text; the terminal surface shows the plain text.
    pub fn set_text(&mut self, s: String)
        ensures
            final(self)@ == (CellModel { text: s@, shown: s@, ..old(self)@ }),
    {
        let shown = s.clone();
        self.text = s;
        self.shown = shown;
        proof {
            assert(self@ =~= CellModel { text: self.text@, shown: self.text@, ..old(self)@ });
        }
    }

    /// Emphasizes a text: the selected form of a cell's content.
    pub fn highlight(s: String) -> (r: String)
        ensures
            r@ == highlighted(s@),
    {
        let mut r = String::from_str("*");
        r.append(s.as_str());
        r.append("*");
        proof {
            reveal_strlit("*");
            assert(r@ =~= highlighted(s@));
        }
        r
    }

    /// Designates a window as selected: the terminal surface shows the
    /// emphasized form of its text.
    pub fn select(&mut self)
        ensures
            final(self)@ == (CellModel { shown: highlighted(old(self)@.text), ..old(self)@ }),
    {
        self.shown = CSGWindow::highlight(self.text.clone());
        proof {
            assert(self@ =~= CellModel { shown: highlighted(old(self)@.text), ..old(self)@ });
        }
    }

    /// Undesignates a window as selected: the terminal surface shows the
    /// plain text again.
    pub fn unselect(&mut self)
        ensures
            final(self)@ == (CellModel { shown: old(self)@.text, ..old(self)@ }),
    {
        self.shown = self.text.clone();
        proof {
            assert(self@ =~= CellModel { shown: old(self)@.text, ..old(self)@ });
        }
    }
}

} // verus!
