//! The tabular result set that the query engine produces: ordered column
//! names and ordered rows of text values. The view factories consume one of
//! these when they lay out a screen.

use vstd::prelude::*;

verus! {

/// Mathematical model of a result set: every string as a sequence of
/// characters.
#[verifier::ext_equal]
pub ghost struct ResultModel {
    pub num_cols: Option<nat>,
    pub col_text: Seq<Seq<Seq<char>>>,
    pub col_names: Option<Seq<Seq<char>>>,
}

/// Represents the result of one query: column names and rows of text.
pub struct ExecResult {
    /// Number of columns
    pub num_cols: Option<usize>,
    /// Text in the columns
    pub col_text: Vec<Vec<String>>,
    /// Names of the columns
    pub col_names: Option<Vec<String>>,
}

impl View for ExecResult {
    type V = ResultModel;

    open spec fn view(&self) -> ResultModel {
        ResultModel {
            num_cols: match self.num_cols {
                Some(n) => Some(n as nat),
                None => None,
            },
            col_text: self.col_text.deep_view(),
            col_names: match self.col_names {
                Some(ref names) => Some(names.deep_view()),
                None => None,
            },
        }
    }
}

impl ExecResult {
    pub fn new() -> (r: ExecResult)
        ensures
            r@.num_cols is None,
            r@.col_text == Seq::<Seq<Seq<char>>>::empty(),
            r@.col_names is None,
    {
        let r = ExecResult { num_cols: None, col_text: Vec::new(), col_names: None };
        proof {
            assert(r@.col_text =~= Seq::<Seq<Seq<char>>>::empty());
        }
        r
    }

    /// Clears an execution result.
    pub fn reset(&mut self)
        ensures
            final(self)@.num_cols is None,
            final(self)@.col_text == Seq::<Seq<Seq<char>>>::empty(),
            final(self)@.col_names is None,
    {
        self.num_cols = None;
        self.col_text = Vec::new();
        self.col_names = None;
        proof {
            assert(self@.col_text =~= Seq::<Seq<Seq<char>>>::empty());
        }
    }

    /// Returns an immutable reference to the column names, if any were
    /// recorded.
    pub fn get_col_names(&self) -> (r: Option<&Vec<String>>)
        ensures
            match r {
                Some(names) => self@.col_names == Some(names.deep_view()),
                None => self@.col_names is None,
            },
    {
        self.col_names.as_ref()
    }
}

} // verus!
