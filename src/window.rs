//! Lifecycle of the application's named windows.
//!
//! The host runtime owns the windows; this module keeps, for each name, the
//! state the application believes the window to be in, and turns requests
//! into commands for the host. A window, once created, is never destroyed: a
//! request to close it hides it instead.
use vstd::prelude::*;

use crate::text::same_text;

verus! {

/// Where a named window stands in its lifecycle.
#[derive(Clone, Copy, Debug, PartialEq, Eq, Structural)]
pub enum WindowState {
    Absent,
    Hidden,
    VisibleUnfocused,
    VisibleFocused,
}

/// How to build a window: its name, the bundled page it loads, its title and
/// its initial inner size in logical pixels.
#[derive(Debug)]
pub struct WindowSpec {
    pub label: String,
    pub url: String,
    pub title: String,
    pub width: u32,
    pub height: u32,
}

/// An intent for the host runtime.
#[derive(Debug)]
pub enum WindowCommand {
    /// Build the window described, show it and give it input focus.
    Create(WindowSpec),
    /// Show the existing window of this name and give it input focus.
    ShowAndFocus(String),
    /// Suppress the default close of the window of this name and hide it.
    Hide(String),
}

/// One known window in the abstract: its name and its state.
pub type WindowEntry = (Seq<char>, WindowState);

pub open spec fn names_distinct(ws: Seq<WindowEntry>) -> bool {
    forall|i: int, j: int|
        #![trigger ws[i], ws[j]]
        0 <= i < ws.len() && 0 <= j < ws.len() && i != j ==> ws[i].0 != ws[j].0
}

pub open spec fn has_window(ws: Seq<WindowEntry>, name: Seq<char>) -> bool {
    exists|i: int| #![trigger ws[i]] 0 <= i < ws.len() && ws[i].0 == name
}

/// The state of the window called `name`; `Absent` when there is none.
pub open spec fn state_in(ws: Seq<WindowEntry>, name: Seq<char>) -> WindowState {
    if has_window(ws, name) {
        ws[choose|i: int| #![trigger ws[i]] 0 <= i < ws.len() && ws[i].0 == name].1
    } else {
        WindowState::Absent
    }
}

/// The number of windows called `name`.
pub open spec fn count_named(ws: Seq<WindowEntry>, name: Seq<char>) -> nat
    decreases ws.len(),
{
    if ws.len() == 0 {
        0
    } else {
        count_named(ws.drop_last(), name) + if ws.last().0 == name {
            1nat
        } else {
            0nat
        }
    }
}

/// Names are unique, every recorded window exists, and at most one window
/// holds input focus.
pub open spec fn well_formed(ws: Seq<WindowEntry>) -> bool {
    &&& names_distinct(ws)
    &&& forall|i: int| #![trigger ws[i]] 0 <= i < ws.len() ==> ws[i].1 != WindowState::Absent
    &&& forall|i: int, j: int|
        #![trigger ws[i], ws[j]]
        0 <= i < ws.len() && 0 <= j < ws.len() && ws[i].1 == WindowState::VisibleFocused
            && ws[j].1 == WindowState::VisibleFocused ==> i == j
}

/// A window that loses input focus stays visible.
pub open spec fn blurred(s: WindowState) -> WindowState {
    if s == WindowState::VisibleFocused {
        WindowState::VisibleUnfocused
    } else {
        s
    }
}

/// Input focus moves to the window called `name`, which is shown.
pub open spec fn focused_on(ws: Seq<WindowEntry>, name: Seq<char>) -> Seq<WindowEntry> {
    Seq::new(
        ws.len(),
        |i: int|
            if ws[i].0 == name {
                (ws[i].0, WindowState::VisibleFocused)
            } else {
                (ws[i].0, blurred(ws[i].1))
            },
    )
}

/// The window called `name` takes state `s`; the others are unchanged.
pub open spec fn with_state(ws: Seq<WindowEntry>, name: Seq<char>, s: WindowState) -> Seq<
    WindowEntry,
> {
    Seq::new(ws.len(), |i: int| if ws[i].0 == name { (ws[i].0, s) } else { ws[i] })
}

/// The windows after `open_or_focus(name)`: an existing window is shown and
/// focused, a missing one is created shown and focused.
pub open spec fn after_open_or_focus(ws: Seq<WindowEntry>, name: Seq<char>) -> Seq<WindowEntry> {
    if has_window(ws, name) {
        focused_on(ws, name)
    } else {
        focused_on(ws, name).push((name, WindowState::VisibleFocused))
    }
}

/// The windows after a hide or an intercepted close of `name`. The request
/// shows that the host holds such a window, so an unknown one is recorded.
pub open spec fn after_hide(ws: Seq<WindowEntry>, name: Seq<char>) -> Seq<WindowEntry> {
    if has_window(ws, name) {
        with_state(ws, name, WindowState::Hidden)
    } else {
        ws.push((name, WindowState::Hidden))
    }
}

/// The windows after the host reports that `name` gained or lost focus. Such
/// a report about a hidden or unknown window changes nothing.
pub open spec fn after_focus_change(ws: Seq<WindowEntry>, name: Seq<char>, focused: bool) -> Seq<
    WindowEntry,
> {
    let s = state_in(ws, name);
    if s == WindowState::Absent || s == WindowState::Hidden {
        ws
    } else if focused {
        focused_on(ws, name)
    } else {
        with_state(ws, name, WindowState::VisibleUnfocused)
    }
}

/// In a sequence with unique names, the entry at `i` gives the state of its name.
pub proof fn lemma_state_at(ws: Seq<WindowEntry>, i: int)
    requires
        names_distinct(ws),
        0 <= i < ws.len(),
    ensures
        has_window(ws, ws[i].0),
        state_in(ws, ws[i].0) == ws[i].1,
{
    let name = ws[i].0;
    assert(has_window(ws, name));
    let j = choose|j: int| #![trigger ws[j]] 0 <= j < ws.len() && ws[j].0 == name;
    assert(ws[i] == ws[i] && ws[j] == ws[j]);
}

/// With unique names, a name is counted once if a window carries it and
/// zero times otherwise.
pub proof fn lemma_count_unique(ws: Seq<WindowEntry>, name: Seq<char>)
    requires
        names_distinct(ws),
    ensures
        count_named(ws, name) == if has_window(ws, name) {
            1nat
        } else {
            0nat
        },
    decreases ws.len(),
{
    if ws.len() == 0 {
    } else {
        let p = ws.drop_last();
        let n = ws.len() - 1;
        assert(ws[n] == ws.last());
        assert(names_distinct(p)) by {
            assert forall|i: int, j: int|
                0 <= i < p.len() && 0 <= j < p.len() && i != j implies p[i].0 != p[j].0 by {
                assert(ws[i] == p[i] && ws[j] == p[j]);
            }
        }
        lemma_count_unique(p, name);
        if ws.last().0 == name {
            assert(!has_window(p, name)) by {
                assert forall|i: int| 0 <= i < p.len() implies p[i].0 != name by {
                    assert(ws[i] == p[i] && ws[n] == ws[n]);
                }
            }
        } else {
            if has_window(ws, name) {
                let i = choose|i: int| #![trigger ws[i]] 0 <= i < ws.len() && ws[i].0 == name;
                assert(p[i] == ws[i]);
            }
            if has_window(p, name) {
                let i = choose|i: int| #![trigger p[i]] 0 <= i < p.len() && p[i].0 == name;
                assert(p[i] == ws[i]);
            }
        }
    }
}

/// Two sequences that carry the same names at the same places agree on
/// which names are present, and on uniqueness.
proof fn lemma_same_names(ws: Seq<WindowEntry>, vs: Seq<WindowEntry>)
    requires
        names_distinct(ws),
        vs.len() == ws.len(),
        forall|i: int| #![trigger vs[i]] 0 <= i < ws.len() ==> vs[i].0 == ws[i].0,
    ensures
        names_distinct(vs),
        forall|b: Seq<char>| has_window(vs, b) == has_window(ws, b),
{
    assert forall|i: int, j: int|
        0 <= i < vs.len() && 0 <= j < vs.len() && i != j implies vs[i].0 != vs[j].0 by {
        assert(ws[i] == ws[i] && ws[j] == ws[j]);
    }
    assert forall|b: Seq<char>| has_window(vs, b) == has_window(ws, b) by {
        if has_window(vs, b) {
            let i = choose|i: int| #![trigger vs[i]] 0 <= i < vs.len() && vs[i].0 == b;
            assert(ws[i] == ws[i]);
        }
        if has_window(ws, b) {
            let i = choose|i: int| #![trigger ws[i]] 0 <= i < ws.len() && ws[i].0 == b;
            assert(vs[i] == vs[i]);
        }
    }
}

/// Opening or focusing `name` keeps the windows well formed, leaves `name`
/// shown and focused, and takes the focus from every other window.
pub proof fn lemma_open_or_focus_effect(ws: Seq<WindowEntry>, name: Seq<char>)
    requires
        well_formed(ws),
    ensures
        well_formed(after_open_or_focus(ws, name)),
        state_in(after_open_or_focus(ws, name), name) == WindowState::VisibleFocused,
        forall|b: Seq<char>|
            b != name ==> state_in(after_open_or_focus(ws, name), b) == blurred(state_in(ws, b)),
{
    let f = focused_on(ws, name);
    let r = after_open_or_focus(ws, name);
    lemma_same_names(ws, f);
    if !has_window(ws, name) {
        assert forall|i: int, j: int|
            0 <= i < r.len() && 0 <= j < r.len() && i != j implies r[i].0 != r[j].0 by {
            if i < f.len() && j < f.len() {
                assert(f[i] == r[i] && f[j] == r[j]);
            } else if i < f.len() {
                assert(f[i] == r[i] && ws[i] == ws[i]);
            } else {
                assert(f[j] == r[j] && ws[j] == ws[j]);
            }
        }
    }
    assert(names_distinct(r));
    assert forall|i: int| #![trigger r[i]] 0 <= i < r.len() implies r[i].1
        != WindowState::Absent by {
        if i < ws.len() {
            assert(ws[i] == ws[i] && f[i] == r[i]);
        }
    }
    assert forall|i: int, j: int|
        #![trigger r[i], r[j]]
        0 <= i < r.len() && 0 <= j < r.len() && r[i].1 == WindowState::VisibleFocused
            && r[j].1 == WindowState::VisibleFocused implies i == j by {
        if i < ws.len() {
            assert(ws[i] == ws[i] && f[i] == r[i]);
        }
        if j < ws.len() {
            assert(ws[j] == ws[j] && f[j] == r[j]);
        }
    }
    assert(has_window(r, name)) by {
        if has_window(ws, name) {
            let i = choose|i: int| #![trigger ws[i]] 0 <= i < ws.len() && ws[i].0 == name;
            assert(r[i] == r[i]);
        } else {
            assert(r[ws.len() as int] == r[ws.len() as int]);
        }
    }
    let k = choose|k: int| #![trigger r[k]] 0 <= k < r.len() && r[k].0 == name;
    lemma_state_at(r, k);
    if k < ws.len() {
        assert(ws[k] == ws[k] && f[k] == r[k]);
    }
    assert forall|b: Seq<char>| b != name implies state_in(r, b) == blurred(state_in(ws, b)) by {
        if has_window(ws, b) {
            let i = choose|i: int| #![trigger ws[i]] 0 <= i < ws.len() && ws[i].0 == b;
            lemma_state_at(ws, i);
            assert(f[i] == r[i]);
            lemma_state_at(r, i);
        } else {
            if has_window(r, b) {
                let i = choose|i: int| #![trigger r[i]] 0 <= i < r.len() && r[i].0 == b;
                if i < ws.len() {
                    assert(ws[i] == ws[i] && f[i] == r[i]);
                }
            }
        }
    }
}

/// Hiding `name` keeps the windows well formed, leaves `name` hidden and
/// present, and changes no other window.
pub proof fn lemma_hide_effect(ws: Seq<WindowEntry>, name: Seq<char>)
    requires
        well_formed(ws),
    ensures
        well_formed(after_hide(ws, name)),
        state_in(after_hide(ws, name), name) == WindowState::Hidden,
        forall|b: Seq<char>| b != name ==> state_in(after_hide(ws, name), b) == state_in(ws, b),
{
    let r = after_hide(ws, name);
    if has_window(ws, name) {
        lemma_same_names(ws, r);
    } else {
        assert forall|i: int, j: int|
            0 <= i < r.len() && 0 <= j < r.len() && i != j implies r[i].0 != r[j].0 by {
            if i < ws.len() && j < ws.len() {
                assert(ws[i] == r[i] && ws[j] == r[j]);
            } else if i < ws.len() {
                assert(ws[i] == r[i]);
            } else {
                assert(ws[j] == r[j]);
            }
        }
    }
    assert forall|i: int| #![trigger r[i]] 0 <= i < r.len() implies r[i].1
        != WindowState::Absent by {
        if i < ws.len() {
            assert(ws[i] == ws[i]);
        }
    }
    assert forall|i: int, j: int|
        #![trigger r[i], r[j]]
        0 <= i < r.len() && 0 <= j < r.len() && r[i].1 == WindowState::VisibleFocused
            && r[j].1 == WindowState::VisibleFocused implies i == j by {
        assert(ws[i] == ws[i] && ws[j] == ws[j]);
    }
    assert(has_window(r, name)) by {
        if has_window(ws, name) {
            let i = choose|i: int| #![trigger ws[i]] 0 <= i < ws.len() && ws[i].0 == name;
            assert(r[i] == r[i]);
        } else {
            assert(r[ws.len() as int] == r[ws.len() as int]);
        }
    }
    let k = choose|k: int| #![trigger r[k]] 0 <= k < r.len() && r[k].0 == name;
    lemma_state_at(r, k);
    if k < ws.len() {
        assert(ws[k] == ws[k]);
    }
    assert forall|b: Seq<char>| b != name implies state_in(r, b) == state_in(ws, b) by {
        if has_window(ws, b) {
            let i = choose|i: int| #![trigger ws[i]] 0 <= i < ws.len() && ws[i].0 == b;
            lemma_state_at(ws, i);
            lemma_state_at(r, i);
        } else {
            if has_window(r, b) {
                let i = choose|i: int| #![trigger r[i]] 0 <= i < r.len() && r[i].0 == b;
                if i < ws.len() {
                    assert(ws[i] == ws[i]);
                }
            }
        }
    }
}

/// A report of focus gained or lost keeps the windows well formed.
pub proof fn lemma_focus_change_effect(ws: Seq<WindowEntry>, name: Seq<char>, focused: bool)
    requires
        well_formed(ws),
    ensures
        well_formed(after_focus_change(ws, name, focused)),
{
    let s = state_in(ws, name);
    if s == WindowState::Absent || s == WindowState::Hidden {
    } else if focused {
        lemma_open_or_focus_effect(ws, name);
    } else {
        let r = with_state(ws, name, WindowState::VisibleUnfocused);
        lemma_same_names(ws, r);
        assert forall|i: int| #![trigger r[i]] 0 <= i < r.len() implies r[i].1
            != WindowState::Absent by {
            assert(ws[i] == ws[i]);
        }
        assert forall|i: int, j: int|
            #![trigger r[i], r[j]]
            0 <= i < r.len() && 0 <= j < r.len() && r[i].1 == WindowState::VisibleFocused
                && r[j].1 == WindowState::VisibleFocused implies i == j by {
            assert(ws[i] == ws[i] && ws[j] == ws[j]);
        }
    }
}

/// The name of the window that the host creates at startup.
pub const MAIN_WINDOW: &'static str = "main";

/// The records behind [`WindowManager`], with well-formedness as an explicit
/// condition of each operation.
struct WindowTable {
    names: Vec<String>,
    states: Vec<WindowState>,
}

impl View for WindowTable {
    type V = Seq<WindowEntry>;

    closed spec fn view(&self) -> Seq<WindowEntry> {
        Seq::new(self.names@.len(), |i: int| (self.names@[i]@, self.states@[i]))
    }
}

impl WindowTable {
    /// Each name has its state beside it.
    spec fn paired(&self) -> bool {
        self.names@.len() == self.states@.len()
    }

    spec fn wf(&self) -> bool {
        &&& self.paired()
        &&& well_formed(self@)
    }

    /// No windows at all.
    fn empty() -> (r: WindowTable)
        ensures
            r.wf(),
            r@ == Seq::<WindowEntry>::empty(),
    {
        let r = WindowTable { names: Vec::new(), states: Vec::new() };
        assert(r@ =~= Seq::<WindowEntry>::empty());
        r
    }

    /// The main window, which the host has created, shown and focused.
    fn new() -> (r: WindowTable)
        ensures
            r.wf(),
            r@ == seq![(MAIN_WINDOW@, WindowState::VisibleFocused)],
    {
        let mut names: Vec<String> = Vec::new();
        names.push(MAIN_WINDOW.to_owned());
        let mut states: Vec<WindowState> = Vec::new();
        states.push(WindowState::VisibleFocused);
        let r = WindowTable { names, states };
        assert(r@ =~= seq![(MAIN_WINDOW@, WindowState::VisibleFocused)]);
        r
    }

    /// Where the window called `name` is recorded, if anywhere.
    fn position(&self, name: &str) -> (r: Option<usize>)
        requires
            self.wf(),
        ensures
            match r {
                Some(i) => i < self@.len() && self@[i as int].0 == name@,
                None => !has_window(self@, name@),
            },
    {
        let mut i: usize = 0;
        while i < self.names.len()
            invariant
                self.wf(),
                i <= self@.len(),
                forall|k: int| #![trigger self@[k]] 0 <= k < i ==> self@[k].0 != name@,
            decreases self@.len() - i,
        {
            if same_text(self.names[i].as_str(), name) {
                return Some(i);
            }
            i = i + 1;
        }
        None
    }

    /// Gives input focus to the window at `pos` and takes it from the others.
    fn focus_only(&mut self, pos: Option<usize>, Ghost(name): Ghost<Seq<char>>)
        requires
            old(self).wf(),
            match pos {
                Some(p) => p < old(self)@.len() && old(self)@[p as int].0 == name,
                None => !has_window(old(self)@, name),
            },
        ensures
            final(self).paired(),
            final(self).names == old(self).names,
            final(self)@ == focused_on(old(self)@, name),
    {
        let ghost w = self@;
        let n = self.states.len();
        let mut i: usize = 0;
        while i < n
            invariant
                self.names == old(self).names,
                w == old(self)@,
                well_formed(w),
                n == w.len(),
                self.paired(),
                self.names@.len() == n,
                i <= n,
                match pos {
                    Some(p) => p < w.len() && w[p as int].0 == name,
                    None => !has_window(w, name),
                },
                forall|k: int| 0 <= k < i ==> #[trigger] self@[k] == focused_on(w, name)[k],
                forall|k: int| i <= k < n ==> #[trigger] self@[k] == w[k],
            decreases n - i,
        {
            let target = match pos {
                Some(p) => p == i,
                None => false,
            };
            proof {
                assert(w[i as int] == self@[i as int]);
                if let Some(p) = pos {
                    assert(w[p as int] == w[p as int]);
                }
            }
            let ghost before = self@;
            if target {
                self.states[i] = WindowState::VisibleFocused;
            } else if self.states[i] == WindowState::VisibleFocused {
                self.states[i] = WindowState::VisibleUnfocused;
            }
            assert(self@[i as int] == focused_on(w, name)[i as int]);
            assert forall|k: int| 0 <= k < n && k != i implies #[trigger] self@[k] == before[k] by {
                assert(self.names@[k]@ == before[k].0);
            }
            i = i + 1;
        }
        assert(self@ =~= focused_on(w, name));
    }

    /// The state of the window called `name`.
    fn state_of(&self, name: &str) -> (r: WindowState)
        requires
            self.wf(),
        ensures
            r == state_in(self@, name@),
    {
        match self.position(name) {
            Some(i) => {
                proof {
                    lemma_state_at(self@, i as int);
                }
                self.states[i]
            },
            None => WindowState::Absent,
        }
    }

    /// How many windows are called `name`.
    fn count_named(&self, name: &str) -> (r: usize)
        requires
            self.wf(),
        ensures
            r == count_named(self@, name@),
    {
        proof {
            lemma_count_unique(self@, name@);
        }
        match self.position(name) {
            Some(_) => 1,
            None => 0,
        }
    }

    /// Shows and focuses the window that `spec` names, creating it from
    /// `spec` when there is none. Repeated calls never create a second one.
    fn open_or_focus(&mut self, spec: WindowSpec) -> (r: WindowCommand)
        requires
            old(self).wf(),
        ensures
            final(self).wf(),
            final(self)@ == after_open_or_focus(old(self)@, spec.label@),
            !has_window(old(self)@, spec.label@) ==> r == WindowCommand::Create(spec),
            has_window(old(self)@, spec.label@) ==> (r matches WindowCommand::ShowAndFocus(n)
                && n@ == spec.label@),
    {
        proof {
            lemma_open_or_focus_effect(self@, spec.label@);
        }
        let ghost w = self@;
        let pos = self.position(spec.label.as_str());
        self.focus_only(pos, Ghost(spec.label@));
        match pos {
            Some(_) => {
                proof {
                    assert(w[pos.unwrap() as int] == w[pos.unwrap() as int]);
                }
                WindowCommand::ShowAndFocus(spec.label)
            },
            None => {
                let ghost f = self@;
                self.names.push(spec.label.clone());
                self.states.push(WindowState::VisibleFocused);
                assert(self@ =~= f.push((spec.label@, WindowState::VisibleFocused)));
                WindowCommand::Create(spec)
            },
        }
    }

    /// Hides the window called `name`: the policy for every close request,
    /// which never destroys a window.
    fn hide_window(&mut self, name: &str) -> (r: WindowCommand)
        requires
            old(self).wf(),
        ensures
            final(self).wf(),
            final(self)@ == after_hide(old(self)@, name@),
            r matches WindowCommand::Hide(n) && n@ == name@,
    {
        proof {
            lemma_hide_effect(self@, name@);
        }
        let ghost w = self@;
        match self.position(name) {
            Some(i) => {
                self.states[i] = WindowState::Hidden;
                assert forall|k: int| 0 <= k < w.len() && k != i implies w[k].0 != name@ by {
                    assert(w[k] == w[k] && w[i as int] == w[i as int]);
                }
                assert(self@ =~= with_state(w, name@, WindowState::Hidden));
            },
            None => {
                self.names.push(name.to_owned());
                self.states.push(WindowState::Hidden);
                assert(self@ =~= w.push((name@, WindowState::Hidden)));
            },
        }
        WindowCommand::Hide(name.to_owned())
    }

    /// Records that the host gave focus to, or took it from, the window
    /// called `name`.
    fn focus_changed(&mut self, name: &str, focused: bool)
        requires
            old(self).wf(),
        ensures
            final(self).wf(),
            final(self)@ == after_focus_change(old(self)@, name@, focused),
    {
        proof {
            lemma_focus_change_effect(self@, name@, focused);
        }
        let ghost w = self@;
        let pos = self.position(name);
        if let Some(i) = pos {
            proof {
                lemma_state_at(w, i as int);
            }
            let s = self.states[i];
            if s == WindowState::Hidden {
            } else if focused {
                self.focus_only(pos, Ghost(name@));
            } else {
                self.states[i] = WindowState::VisibleUnfocused;
                assert forall|k: int| 0 <= k < w.len() && k != i implies w[k].0 != name@ by {
                    assert(w[k] == w[k] && w[i as int] == w[i as int]);
                }
                assert(self@ =~= with_state(w, name@, WindowState::VisibleUnfocused));
            }
        }
    }
}

/// The windows the application knows of, each under a unique name, with at
/// most one holding input focus.
pub struct WindowManager {
    table: WindowTable,
}

impl View for WindowManager {
    type V = Seq<WindowEntry>;

    closed spec fn view(&self) -> Seq<WindowEntry> {
        self.table@
    }
}

impl WindowManager {
    #[verifier::type_invariant]
    spec fn inv(&self) -> bool {
        self.table.wf()
    }

    /// The main window, which the host has created, shown and focused.
    pub fn new() -> (r: WindowManager)
        ensures
            well_formed(r@),
            r@ == seq![(MAIN_WINDOW@, WindowState::VisibleFocused)],
    {
        WindowManager { table: WindowTable::new() }
    }

    /// The state of the window called `name`.
    pub fn state_of(&self, name: &str) -> (r: WindowState)
        ensures
            r == state_in(self@, name@),
    {
        proof {
            use_type_invariant(self);
        }
        self.table.state_of(name)
    }

    /// How many windows are called `name`: never more than one.
    pub fn count_named(&self, name: &str) -> (r: usize)
        ensures
            r == count_named(self@, name@),
            r <= 1,
    {
        proof {
            use_type_invariant(self);
            lemma_count_unique(self@, name@);
        }
        self.table.count_named(name)
    }

    /// Shows and focuses the window that `spec` names, creating it from
    /// `spec` when there is none. Repeated calls never create a second one.
    pub fn open_or_focus(&mut self, spec: WindowSpec) -> (r: WindowCommand)
        ensures
            well_formed(final(self)@),
            final(self)@ == after_open_or_focus(old(self)@, spec.label@),
            !has_window(old(self)@, spec.label@) ==> r == WindowCommand::Create(spec),
            has_window(old(self)@, spec.label@) ==> (r matches WindowCommand::ShowAndFocus(n)
                && n@ == spec.label@),
    {
        proof {
            use_type_invariant(&*self);
        }
        let mut t = WindowTable::empty();
        std::mem::swap(&mut t, &mut self.table);
        let r = t.open_or_focus(spec);
        self.table = t;
        r
    }

    /// Hides the window called `name`: the policy for every close request,
    /// which never destroys a window.
    pub fn hide_window(&mut self, name: &str) -> (r: WindowCommand)
        ensures
            well_formed(final(self)@),
            final(self)@ == after_hide(old(self)@, name@),
            r matches WindowCommand::Hide(n) && n@ == name@,
    {
        proof {
            use_type_invariant(&*self);
        }
        let mut t = WindowTable::empty();
        std::mem::swap(&mut t, &mut self.table);
        let r = t.hide_window(name);
        self.table = t;
        r
    }

    /// Records that the host gave focus to, or took it from, the window
    /// called `name`.
    pub fn focus_changed(&mut self, name: &str, focused: bool)
        ensures
            well_formed(final(self)@),
            final(self)@ == after_focus_change(old(self)@, name@, focused),
    {
        proof {
            use_type_invariant(&*self);
        }
        let mut t = WindowTable::empty();
        std::mem::swap(&mut t, &mut self.table);
        t.focus_changed(name, focused);
        self.table = t;
    }
}

/// The windows after `open_or_focus` has been called once for each name of
/// `names`, in order.
pub open spec fn after_opening_all(ws: Seq<WindowEntry>, names: Seq<Seq<char>>) -> Seq<
    WindowEntry,
>
    decreases names.len(),
{
    if names.len() == 0 {
        ws
    } else {
        after_open_or_focus(after_opening_all(ws, names.drop_last()), names.last())
    }
}

/// The windows after a close request for each name of `names`, in order.
pub open spec fn after_hiding_all(ws: Seq<WindowEntry>, names: Seq<Seq<char>>) -> Seq<
    WindowEntry,
>
    decreases names.len(),
{
    if names.len() == 0 {
        ws
    } else {
        after_hide(after_hiding_all(ws, names.drop_last()), names.last())
    }
}

/// However many times, and for whatever names, windows are opened or
/// focused, no two windows ever share a name; the window asked for last
/// exists exactly once and is shown and focused.
pub proof fn lemma_open_or_focus_never_duplicates(ws: Seq<WindowEntry>, names: Seq<Seq<char>>)
    requires
        well_formed(ws),
    ensures
        well_formed(after_opening_all(ws, names)),
        forall|name: Seq<char>| #[trigger] count_named(after_opening_all(ws, names), name) <= 1,
        names.len() > 0 ==> count_named(after_opening_all(ws, names), names.last()) == 1,
        names.len() > 0 ==> state_in(after_opening_all(ws, names), names.last())
            == WindowState::VisibleFocused,
    decreases names.len(),
{
    let r = after_opening_all(ws, names);
    if names.len() > 0 {
        let p = after_opening_all(ws, names.drop_last());
        lemma_open_or_focus_never_duplicates(ws, names.drop_last());
        lemma_open_or_focus_effect(p, names.last());
    }
    assert forall|name: Seq<char>| #[trigger] count_named(r, name) <= 1 by {
        lemma_count_unique(r, name);
    }
    if names.len() > 0 {
        lemma_count_unique(r, names.last());
    }
}

/// However many close requests are intercepted, each window whose close was
/// requested is hidden, not gone, and no window that existed is gone.
pub proof fn lemma_close_requests_only_hide(ws: Seq<WindowEntry>, names: Seq<Seq<char>>)
    requires
        well_formed(ws),
    ensures
        well_formed(after_hiding_all(ws, names)),
        forall|k: int|
            0 <= k < names.len() ==> state_in(after_hiding_all(ws, names), #[trigger] names[k])
                == WindowState::Hidden,
        forall|b: Seq<char>|
            state_in(ws, b) != WindowState::Absent ==> #[trigger] state_in(
                after_hiding_all(ws, names),
                b,
            ) != WindowState::Absent,
    decreases names.len(),
{
    if names.len() > 0 {
        let d = names.drop_last();
        let p = after_hiding_all(ws, d);
        let r = after_hiding_all(ws, names);
        lemma_close_requests_only_hide(ws, d);
        lemma_hide_effect(p, names.last());
        assert forall|k: int| 0 <= k < names.len() implies state_in(r, #[trigger] names[k])
            == WindowState::Hidden by {
            if k < names.len() - 1 {
                assert(d[k] == names[k]);
            }
        }
        assert forall|b: Seq<char>| state_in(ws, b) != WindowState::Absent implies #[trigger] state_in(
            r,
            b,
        ) != WindowState::Absent by {
            assert(state_in(p, b) != WindowState::Absent);
        }
    }
}

} // verus!
