//! The navigator: a stack of screens (innermost active) and the key
//! dispatcher that drives movement, the open transition into a table dump,
//! and the quit transition back out. The driver reads keys and runs queries;
//! this module decides what every key does to the stack and the screens.

use vstd::prelude::*;
use vstd::pervasive::unreached;
use crate::result::{ExecResult, ResultModel};
use crate::screen::{
    CSGScreen, ScreenKind, ScreenModel, DIM_LIMIT, dump_fits, dump_screen, list_fits, list_screen,
    lemma_after_move_fully_drawn, lemma_cleared_props, lemma_drawn_props,
    lemma_fully_drawn_is_drawn,
};
use crate::window::CSGWindow;

verus! {

// Keys
pub const KEY_q: usize = 113;

pub const KEY_h: usize = 104;

pub const KEY_j: usize = 106;

pub const KEY_k: usize = 107;

pub const KEY_l: usize = 108;

pub const KEY_e: usize = 101;

// Dimensions
pub const DEFAULT_WIDTH: usize = 80;

pub const DEFAULT_HEIGHT: usize = 40;

/// Mathematical model of the navigator: the screen stack with the innermost
/// screen last, and the grid dimensions every screen was laid out for.
#[verifier::ext_equal]
pub ghost struct NavModel {
    pub width: nat,
    pub height: nat,
    pub screens: Seq<ScreenModel>,
    pub active_screen: nat,
}

impl NavModel {
    /// The active (innermost) screen.
    pub open spec fn top(self) -> ScreenModel {
        self.screens.last()
    }

    /// The structural invariant: the stack is never empty, the active index
    /// names its innermost entry, and every screen is well-formed.
    pub open spec fn wf_stack(self) -> bool {
        &&& self.screens.len() >= 1
        &&& self.active_screen + 1 == self.screens.len()
        &&& forall|i: int| 0 <= i < self.screens.len() ==> (#[trigger] self.screens[i]).wf()
        &&& self.width <= DIM_LIMIT
        &&& self.height <= DIM_LIMIT
    }

    /// The rendering invariant: the active screen is fully drawn and every
    /// screen beneath it has been blanked.
    pub open spec fn wf_display(self) -> bool {
        &&& self.top().fully_drawn()
        &&& forall|i: int|
            0 <= i < self.screens.len() - 1 ==> (#[trigger] self.screens[i]).all_cleared()
    }

    pub open spec fn wf(self) -> bool {
        self.wf_stack() && self.wf_display()
    }

    /// This navigator with the active screen replaced.
    pub open spec fn with_top(self, s: ScreenModel) -> NavModel {
        NavModel { screens: self.screens.update(self.screens.len() - 1, s), ..self }
    }

    /// A movement key: the delta applied to the active screen's active
    /// position, accepted or rejected by the selection state machine.
    pub open spec fn after_move(self, dx: int, dy: int) -> NavModel {
        self.with_top(
            self.top().after_move(
                self.top().active.0 + dx,
                self.top().active.1 + dy,
            ),
        )
    }

    /// The open transition: the active screen is blanked and a table-dump
    /// screen built from the result set is pushed on top.
    pub open spec fn after_open(self, rm: ResultModel) -> NavModel {
        NavModel {
            screens: self.screens.update(self.screens.len() - 1, self.top().cleared()).push(
                dump_screen(rm, self.width as int, self.height as int),
            ),
            active_screen: (self.active_screen + 1) as nat,
            ..self
        }
    }

    /// The quit transition with more than one screen: the active screen is
    /// popped and the one beneath it is fully redrawn.
    pub open spec fn after_quit(self) -> NavModel {
        NavModel {
            screens: self.screens.drop_last().update(
                self.screens.len() - 2,
                self.screens[self.screens.len() - 2].drawn(),
            ),
            active_screen: (self.active_screen - 1) as nat,
            ..self
        }
    }
}

/// The navigator a fresh session starts with: a single table-list screen.
pub open spec fn initial_nav(rm: ResultModel, width: int, height: int) -> NavModel {
    NavModel {
        width: width as nat,
        height: height as nat,
        screens: seq![list_screen(rm, width, height)],
        active_screen: 0,
    }
}

/// Encapsulating structure for the user interface.
pub struct CSG {
    pub width: usize,
    pub height: usize,
    pub screens: Vec<CSGScreen>,
    pub active_screen: usize,
}

impl View for CSG {
    type V = NavModel;

    open spec fn view(&self) -> NavModel {
        NavModel {
            width: self.width as nat,
            height: self.height as nat,
            screens: self.screens.deep_view(),
            active_screen: self.active_screen as nat,
        }
    }
}

impl CSG {
    /// Builds the navigator over a table listing already fetched by the
    /// query engine, for a terminal of the given dimensions. Fails exactly
    /// when the listing yields no valid table-list screen.
    pub fn new(width: usize, height: usize, tables: &ExecResult) -> (r: Result<CSG, String>)
        requires
            width <= DIM_LIMIT,
            height <= DIM_LIMIT,
        ensures
            match r {
                Ok(c) => {
                    &&& list_fits(tables@, width as int, height as int)
                    &&& c@ == initial_nav(tables@, width as int, height as int)
                    &&& c@.wf()
                },
                Err(_) => !list_fits(tables@, width as int, height as int),
            },
    {
        match CSGScreen::new_table_list(width, height, tables) {
            Ok(main_screen) => {
                let ghost sm = main_screen@;
                let mut screens: Vec<CSGScreen> = Vec::new();
                screens.push(main_screen);
                let c = CSG { width, height, screens, active_screen: 0 };
                proof {
                    let t = initial_nav(tables@, width as int, height as int);
                    assert(c@.screens.len() == 1);
                    assert(c@.screens[0] == sm);
                    assert(c@.screens =~= t.screens);
                    assert(c@ =~~= t);
                    assert(c@.top() == sm);
                }
                Ok(c)
            },
            Err(msg) => Err(msg),
        }
    }

    /// Get method for coordinates of the active window.
    pub fn get_active_window_coords(&self) -> (r: (i64, i64))
        requires
            self@.wf_stack(),
        ensures
            r.0 as int == self@.top().active.0 as int,
            r.1 as int == self@.top().active.1 as int,
    {
        proof {
            assert(self@.screens.len() == self.screens@.len());
            assert(self@.top() == self.screens@[self.active_screen as int]@);
            assert(self@.top().wf());
        }
        let coords = self.screens[self.active_screen].active_window;
        (coords.0 as i64, coords.1 as i64)
    }

    /// Get method for the active window: under the navigator invariant this
    /// is always `Some`, and it carries the cell at the active position.
    pub fn get_active_window(&self) -> (r: Option<&CSGWindow>)
        requires
            self@.wf_stack(),
        ensures
            r is Some,
            r matches Some(w) ==> self@.top().cell_opt(
                self@.top().active.0 as int,
                self@.top().active.1 as int,
            ) == Some(w@),
    {
        proof {
            assert(self@.screens.len() == self.screens@.len());
            assert(self@.top() == self.screens@[self.active_screen as int]@);
            assert(self@.top().wf());
        }
        self.screens[self.active_screen].get_active_window()
    }

    /// Set method for the active window on the active screen: the selection
    /// move protocol. `prev` must be the current active position.
    pub fn set_active_window(&mut self, prev: (i64, i64), next: (i64, i64))
        requires
            old(self)@.wf(),
            prev.0 as int == old(self)@.top().active.0 as int,
            prev.1 as int == old(self)@.top().active.1 as int,
        ensures
            final(self)@ == old(self)@.with_top(
                old(self)@.top().after_move(next.0 as int, next.1 as int),
            ),
            final(self)@.wf(),
    {
        proof {
            assert(old(self)@.screens.len() == self.screens@.len());
            assert(old(self)@.top() == self.screens@[self.active_screen as int]@);
            assert(old(self)@.top().wf());
        }
        let i: usize = self.active_screen;
        let scr = &mut self.screens[i];
        scr.set_active_window(prev, next);
        proof {
            let t = old(self)@.with_top(
                old(self)@.top().after_move(next.0 as int, next.1 as int),
            );
            assert forall|k: int| 0 <= k < self.screens@.len() implies self@.screens[k]
                == t.screens[k] by {
                assert(self@.screens[k] == self.screens@[k]@);
            }
            assert(self@.screens =~= t.screens);
            assert(self@ =~~= t);
            lemma_after_move_fully_drawn(
                old(self)@.top(),
                next.0 as int,
                next.1 as int,
            );
        }
    }

    pub fn handle_left(&mut self) -> (r: Option<Result<(), String>>)
        requires
            old(self)@.wf(),
        ensures
            final(self)@ == old(self)@.after_move(-1, 0),
            final(self)@.wf(),
            r == Some(Result::<(), String>::Ok(())),
    {
        let prev = self.get_active_window_coords();
        let (mut x, y) = prev;
        x = x - 1;
        self.set_active_window(prev, (x, y));
        Some(Ok(()))
    }

    pub fn handle_down(&mut self) -> (r: Option<Result<(), String>>)
        requires
            old(self)@.wf(),
        ensures
            final(self)@ == old(self)@.after_move(0, 1),
            final(self)@.wf(),
            r == Some(Result::<(), String>::Ok(())),
    {
        proof {
            assert(old(self)@.top().wf());
        }
        let prev = self.get_active_window_coords();
        let (x, mut y) = prev;
        y = y + 1;
        self.set_active_window(prev, (x, y));
        Some(Ok(()))
    }

    pub fn handle_up(&mut self) -> (r: Option<Result<(), String>>)
        requires
            old(self)@.wf(),
        ensures
            final(self)@ == old(self)@.after_move(0, -1),
            final(self)@.wf(),
            r == Some(Result::<(), String>::Ok(())),
    {
        let prev = self.get_active_window_coords();
        let (x, mut y) = prev;
        y = y - 1;
        self.set_active_window(prev, (x, y));
        Some(Ok(()))
    }

    pub fn handle_right(&mut self) -> (r: Option<Result<(), String>>)
        requires
            old(self)@.wf(),
        ensures
            final(self)@ == old(self)@.after_move(1, 0),
            final(self)@.wf(),
            r == Some(Result::<(), String>::Ok(())),
    {
        proof {
            assert(old(self)@.top().wf());
        }
        let prev = self.get_active_window_coords();
        let (mut x, y) = prev;
        x = x + 1;
        self.set_active_window(prev, (x, y));
        Some(Ok(()))
    }

    /// The quit transition: pops the active screen. With the last screen
    /// gone the session is over (`None`); otherwise the screen beneath is
    /// redrawn and becomes active.
    pub fn handle_quit(&mut self) -> (r: Option<Result<(), String>>)
        requires
            old(self)@.wf(),
        ensures
            old(self)@.screens.len() == 1 ==> {
                &&& r is None
                &&& final(self)@.screens.len() == 0
                &&& final(self)@.active_screen == 0
            },
            old(self)@.screens.len() >= 2 ==> {
                &&& r == Some(Result::<(), String>::Ok(()))
                &&& final(self)@ == old(self)@.after_quit()
                &&& final(self)@.wf()
            },
    {
        let _popped = self.screens.pop();
        if self.screens.len() == 0 {
            return None;
        }
        self.active_screen = self.active_screen - 1;
        proof {
            assert(self@.screens.len() == self.screens@.len());
            assert(self@.screens[self.active_screen as int]
                == self.screens@[self.active_screen as int]@);
            assert(old(self)@.screens[self.active_screen as int].wf());
        }
        let i: usize = self.active_screen;
        let scr = &mut self.screens[i];
        scr.write_all();
        proof {
            let t = old(self)@.after_quit();
            lemma_drawn_props(old(self)@.screens[i as int]);
            assert forall|k: int| 0 <= k < self.screens@.len() implies self@.screens[k]
                == t.screens[k] by {
                assert(self@.screens[k] == self.screens@[k]@);
                assert(old(self)@.screens[k] == old(self).screens@[k]@);
            }
            assert(self@.screens =~= t.screens);
            assert(self@ =~~= t);
        }
        Some(Ok(()))
    }

    /// The open transition, keyed on the kind of the active screen. On a
    /// table list it consumes the query engine's answer for the active
    /// cell's table (`dump`, supplied by the driver): the current screen is
    /// blanked and, if the answer yields a valid dump screen, that screen is
    /// pushed; a query error or an unusable dump is reported and leaves the
    /// stack unchanged. On a table dump it is a no-op (cell editing is
    /// unimplemented).
    pub fn handle_edit(&mut self, dump: Option<Result<ExecResult, String>>) -> (r: Option<
        Result<(), String>,
    >)
        requires
            old(self)@.wf(),
            old(self)@.top().kind is TableList ==> dump is Some,
        ensures
            old(self)@.top().kind is TableDump ==> {
                &&& final(self)@ == old(self)@
                &&& final(self)@.wf()
                &&& r == Some(Result::<(), String>::Ok(()))
            },
            old(self)@.top().kind is TableList && dump is Some && dump->Some_0 is Err ==> {
                &&& final(self)@ == old(self)@.with_top(old(self)@.top().cleared())
                &&& r == Some(Result::<(), String>::Err(dump->Some_0->Err_0))
            },
            old(self)@.top().kind is TableList && dump is Some && dump->Some_0 is Ok
                && dump_fits(
                dump->Some_0->Ok_0@,
                old(self)@.width as int,
                old(self)@.height as int,
            ) ==> {
                &&& final(self)@ == old(self)@.after_open(dump->Some_0->Ok_0@)
                &&& final(self)@.wf()
                &&& r == Some(Result::<(), String>::Ok(()))
            },
            old(self)@.top().kind is TableList && dump is Some && dump->Some_0 is Ok
                && !dump_fits(
                dump->Some_0->Ok_0@,
                old(self)@.width as int,
                old(self)@.height as int,
            ) ==> {
                &&& final(self)@ == old(self)@.with_top(old(self)@.top().cleared())
                &&& r is Some
                &&& r->Some_0 is Err
            },
            r is Some ==> final(self)@.wf_stack(),
    {
        proof {
            assert(old(self)@.screens.len() == self.screens@.len());
            assert(old(self)@.top() == self.screens@[self.active_screen as int]@);
            assert(old(self)@.top().wf());
        }
        let k = self.screens[self.active_screen].kind;
        match k {
            ScreenKind::TableDump => Some(Ok(())),
            ScreenKind::TableList => {
                let i: usize = self.active_screen;
                let scr = &mut self.screens[i];
                scr.clear_all();
                proof {
                    let t = old(self)@.with_top(old(self)@.top().cleared());
                    assert forall|k2: int| 0 <= k2 < self.screens@.len() implies self@.screens[k2]
                        == t.screens[k2] by {
                        assert(self@.screens[k2] == self.screens@[k2]@);
                    }
                    assert(self@.screens =~= t.screens);
                    assert(self@ =~~= t);
                    lemma_cleared_props(old(self)@.top());
                }
                match dump {
                    None => unreached(),
                    Some(Err(msg)) => Some(Err(msg)),
                    Some(Ok(rs)) => {
                        match CSGScreen::new_table_dump(self.width, self.height, &rs) {
                            Ok(table_dump_screen) => {
                                self.add_screen(table_dump_screen);
                                proof {
                                    assert(self@.screens =~= old(self)@.after_open(rs@).screens);
                                    assert(self@ =~~= old(self)@.after_open(rs@));
                                }
                                Some(Ok(()))
                            },
                            Err(msg) => Some(Err(msg)),
                        }
                    },
                }
            },
        }
    }

    /// Adds a new screen and sets it as active. The screen must be freshly
    /// rendered and every screen already on the stack must be blanked.
    pub fn add_screen(&mut self, s: CSGScreen)
        requires
            old(self)@.wf_stack(),
            s@.wf(),
            s@.fully_drawn(),
            forall|i: int|
                0 <= i < old(self)@.screens.len() ==> (#[trigger] old(self)@.screens[
                    i
                ]).all_cleared(),
        ensures
            final(self)@.screens == old(self)@.screens.push(s@),
            final(self)@.active_screen == old(self)@.active_screen + 1,
            final(self)@.width == old(self)@.width,
            final(self)@.height == old(self)@.height,
            final(self)@.wf(),
    {
        let ghost sm = s@;
        self.screens.push(s);
        let n: usize = self.screens.len();
        self.active_screen = n - 1;
        proof {
            assert forall|k: int| 0 <= k < self.screens@.len() implies self@.screens[k] == old(self)@.screens.push(sm)[k] by {
                assert(self@.screens[k] == self.screens@[k]@);
                if k < self.screens@.len() - 1 {
                    assert(old(self)@.screens[k] == old(self).screens@[k]@);
                }
            }
            assert(self@.screens =~= old(self)@.screens.push(sm));
            assert(self@.top() == sm);
        }
    }

    /// Dispatches one key code. Movement keys delegate to the selection
    /// state machine and always continue. The quit key pops the stack and
    /// ends the session (`None`) when the last screen goes. The edit key is
    /// the open transition (see `handle_edit`); `dump` is the query engine's
    /// answer for the active table and is consulted only then. Any other key
    /// is ignored.
    pub fn dispatch_key(&mut self, c: usize, dump: Option<Result<ExecResult, String>>) -> (r:
        Option<Result<(), String>>)
        requires
            old(self)@.wf(),
            c == KEY_e && old(self)@.top().kind is TableList ==> dump is Some,
        ensures
            c == KEY_q && old(self)@.screens.len() == 1 ==> r is None && final(self)@.screens.len() == 0,
            c == KEY_q && old(self)@.screens.len() >= 2 ==> {
                &&& r == Some(Result::<(), String>::Ok(()))
                &&& final(self)@ == old(self)@.after_quit()
                &&& final(self)@.wf()
            },
            c == KEY_h ==> final(self)@ == old(self)@.after_move(-1, 0) && final(self)@.wf() && r
                == Some(Result::<(), String>::Ok(())),
            c == KEY_j ==> final(self)@ == old(self)@.after_move(0, 1) && final(self)@.wf() && r
                == Some(Result::<(), String>::Ok(())),
            c == KEY_k ==> final(self)@ == old(self)@.after_move(0, -1) && final(self)@.wf() && r
                == Some(Result::<(), String>::Ok(())),
            c == KEY_l ==> final(self)@ == old(self)@.after_move(1, 0) && final(self)@.wf() && r
                == Some(Result::<(), String>::Ok(())),
            c == KEY_e && old(self)@.top().kind is TableDump ==> final(self)@ == old(self)@ && r
                == Some(Result::<(), String>::Ok(())),
            c == KEY_e && old(self)@.top().kind is TableList && dump is Some && dump->Some_0
                is Err ==> {
                &&& final(self)@ == old(self)@.with_top(old(self)@.top().cleared())
                &&& r == Some(Result::<(), String>::Err(dump->Some_0->Err_0))
            },
            c == KEY_e && old(self)@.top().kind is TableList && dump is Some && dump->Some_0
                is Ok && dump_fits(
                dump->Some_0->Ok_0@,
                old(self)@.width as int,
                old(self)@.height as int,
            ) ==> {
                &&& final(self)@ == old(self)@.after_open(dump->Some_0->Ok_0@)
                &&& final(self)@.wf()
                &&& r == Some(Result::<(), String>::Ok(()))
            },
            c == KEY_e && old(self)@.top().kind is TableList && dump is Some && dump->Some_0
                is Ok && !dump_fits(
                dump->Some_0->Ok_0@,
                old(self)@.width as int,
                old(self)@.height as int,
            ) ==> {
                &&& final(self)@ == old(self)@.with_top(old(self)@.top().cleared())
                &&& r is Some
                &&& r->Some_0 is Err
            },
            (c != KEY_q && c != KEY_h && c != KEY_j && c != KEY_k && c != KEY_l && c != KEY_e)
                ==> final(self)@ == old(self)@ && r == Some(Result::<(), String>::Ok(())),
            r is Some ==> final(self)@.wf_stack() && final(self)@.screens.len() >= 1,
            r is None ==> c == KEY_q && old(self)@.screens.len() == 1 && final(self)@.screens.len() == 0,
    {
        if c == KEY_q {
            self.handle_quit()
        } else if c == KEY_h {
            self.handle_left()
        } else if c == KEY_j {
            self.handle_down()
        } else if c == KEY_k {
            self.handle_up()
        } else if c == KEY_l {
            self.handle_right()
        } else if c == KEY_e {
            self.handle_edit(dump)
        } else {
            Some(Ok(()))
        }
    }
}

/// Open/quit round trip: opening a table dump from a rendered navigator and
/// then quitting it returns the navigator to exactly its previous state —
/// same stack, same active position, same rendering.
pub proof fn lemma_open_quit_roundtrip(n: NavModel, rm: ResultModel)
    requires
        n.wf(),
        dump_fits(rm, n.width as int, n.height as int),
    ensures
        n.after_open(rm).after_quit() == n,
{
    let o = n.after_open(rm);
    lemma_cleared_props(n.top());
    lemma_fully_drawn_is_drawn(n.top());
    assert(n.top().cleared().drawn() == n.top());
    assert(o.after_quit().screens =~= n.screens);
    assert(o.after_quit() =~~= n);
}

} // verus!
