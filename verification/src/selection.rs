//! The selection engine: a single-threaded state machine over the output
//! list, driven by navigation events merged from the keyboard and the
//! controller channel, plus the terminal-session discipline around it.

use vstd::prelude::*;
use crate::display::DisplayInfo;

verus! {

/// The common currency both input sources are translated into; it
/// carries no source-specific payload.
#[derive(Debug, Clone, Copy, PartialEq, Eq, Structural)]
pub enum NavigationEvent {
    MoveUp,
    MoveDown,
    Confirm,
    Cancel,
}

/// Highlighted index after moving down one entry, wrapping at the end.
pub open spec fn spec_next_index(i: int, n: int) -> int {
    if i + 1 >= n {
        0
    } else {
        i + 1
    }
}

/// Highlighted index after moving up one entry, wrapping at the start.
pub open spec fn spec_prev_index(i: int, n: int) -> int {
    if i == 0 {
        n - 1
    } else {
        i - 1
    }
}

/// Interactive selection state: the output list, the highlighted index,
/// whether the loop should end, and the confirmed choice if any.
pub struct TuiApp {
    pub displays: Vec<DisplayInfo>,
    pub highlight: Option<usize>,
    pub should_quit: bool,
    pub selected: Option<usize>,
}

impl TuiApp {
    /// Well-formedness: the highlight exists exactly on a non-empty list
    /// and stays in bounds, and a confirmed choice is in bounds and ends
    /// the loop.
    pub open spec fn wf(self) -> bool {
        &&& self.displays@.len() <= usize::MAX
        &&& (self.displays@.len() == 0 <==> self.highlight is None)
        &&& (self.highlight is Some ==> self.highlight->0 < self.displays@.len())
        &&& (self.selected is Some ==> self.selected->0 < self.displays@.len() && self.should_quit)
    }

    /// The state a fresh selection starts in: first entry highlighted if
    /// there is one, nothing confirmed, loop running.
    pub open spec fn spec_new(displays: Vec<DisplayInfo>) -> TuiApp {
        TuiApp {
            displays,
            highlight: if displays@.len() > 0 {
                Some(0usize)
            } else {
                None
            },
            should_quit: false,
            selected: None,
        }
    }

    /// One navigation event applied to the state.
    ///
    /// Movement wraps over `[0, len)` and is a no-op on an empty list;
    /// `Confirm` records the highlighted index and ends the loop;
    /// `Cancel` ends the loop recording nothing.
    pub open spec fn spec_apply(self, e: NavigationEvent) -> TuiApp {
        let n = self.displays@.len() as int;
        match e {
            NavigationEvent::MoveUp => if n == 0 {
                self
            } else {
                TuiApp {
                    highlight: Some(
                        match self.highlight {
                            Some(i) => spec_prev_index(i as int, n) as usize,
                            None => 0usize,
                        },
                    ),
                    ..self
                }
            },
            NavigationEvent::MoveDown => if n == 0 {
                self
            } else {
                TuiApp {
                    highlight: Some(
                        match self.highlight {
                            Some(i) => spec_next_index(i as int, n) as usize,
                            None => 0usize,
                        },
                    ),
                    ..self
                }
            },
            NavigationEvent::Confirm => match self.highlight {
                Some(i) => if i < n {
                    TuiApp { selected: Some(i), should_quit: true, ..self }
                } else {
                    self
                },
                None => self,
            },
            NavigationEvent::Cancel => TuiApp { should_quit: true, ..self },
        }
    }

    /// An optional event applied to the state: absence changes nothing.
    pub open spec fn spec_apply_opt(self, e: Option<NavigationEvent>) -> TuiApp {
        match e {
            Some(ev) => self.spec_apply(ev),
            None => self,
        }
    }

    /// A whole sequence of events applied in order.
    pub open spec fn spec_apply_seq(self, events: Seq<NavigationEvent>) -> TuiApp
        decreases events.len(),
    {
        if events.len() == 0 {
            self
        } else {
            self.spec_apply_seq(events.drop_last()).spec_apply(events.last())
        }
    }

    /// Start a selection over `displays`, highlighting the first entry.
    pub fn new(displays: Vec<DisplayInfo>) -> (r: TuiApp)
        ensures
            r == TuiApp::spec_new(displays),
            r.wf(),
    {
        let highlight: Option<usize> = if displays.len() > 0 {
            Some(0)
        } else {
            None
        };
        TuiApp { displays, highlight, should_quit: false, selected: None }
    }

    /// Move the highlight down one entry, wrapping past the end.
    pub fn next(&mut self)
        ensures
            *final(self) == old(self).spec_apply(NavigationEvent::MoveDown),
    {
        if self.displays.len() == 0 {
            return ;
        }
        let n = self.displays.len();
        let i: usize = match self.highlight {
            Some(i) => if i >= n - 1 {
                0
            } else {
                i + 1
            },
            None => 0,
        };
        self.highlight = Some(i);
    }

    /// Move the highlight up one entry, wrapping past the start.
    pub fn previous(&mut self)
        ensures
            *final(self) == old(self).spec_apply(NavigationEvent::MoveUp),
    {
        if self.displays.len() == 0 {
            return ;
        }
        let n = self.displays.len();
        let i: usize = match self.highlight {
            Some(i) => if i == 0 {
                n - 1
            } else {
                i - 1
            },
            None => 0,
        };
        self.highlight = Some(i);
    }

    /// Confirm the highlighted entry and end the loop.
    pub fn select(&mut self)
        ensures
            *final(self) == old(self).spec_apply(NavigationEvent::Confirm),
    {
        match self.highlight {
            Some(i) => {
                if i < self.displays.len() {
                    self.selected = Some(i);
                    self.should_quit = true;
                }
            },
            None => {},
        }
    }

    /// Cancel the selection and end the loop.
    pub fn quit(&mut self)
        ensures
            *final(self) == old(self).spec_apply(NavigationEvent::Cancel),
    {
        self.should_quit = true;
    }

    /// Apply one navigation event from either source.
    pub fn apply_event(&mut self, e: NavigationEvent)
        ensures
            *final(self) == old(self).spec_apply(e),
    {
        match e {
            NavigationEvent::MoveUp => self.previous(),
            NavigationEvent::MoveDown => self.next(),
            NavigationEvent::Confirm => self.select(),
            NavigationEvent::Cancel => self.quit(),
        }
    }

    /// Apply one poll iteration's events: the controller channel is
    /// drained first, the keyboard second, an explicit deterministic
    /// tie-break between the two sources.
    pub fn apply_iteration(
        &mut self,
        controller: Option<NavigationEvent>,
        key: Option<NavigationEvent>,
    )
        ensures
            *final(self) == old(self).spec_apply_opt(controller).spec_apply_opt(key),
    {
        match controller {
            Some(e) => self.apply_event(e),
            None => {},
        }
        match key {
            Some(e) => self.apply_event(e),
            None => {},
        }
    }

    /// Is the selection still pending (no confirm or cancel yet)?
    pub fn pending(&self) -> (r: bool)
        ensures
            r == !self.should_quit,
    {
        !self.should_quit
    }

    /// The confirmed output, if the selection ended in a choice.
    pub fn chosen(&self) -> (r: Option<&DisplayInfo>)
        ensures
            r is Some <==> self.selected is Some && self.selected->0 < self.displays@.len(),
            r is Some ==> *r->0 == self.displays@[self.selected->0 as int],
    {
        match self.selected {
            Some(i) => if i < self.displays.len() {
                Some(&self.displays[i])
            } else {
                None
            },
            None => None,
        }
    }
}

/// Applying one event preserves well-formedness and never touches the
/// output list.
pub proof fn lemma_apply_wf(app: TuiApp, e: NavigationEvent)
    requires
        app.wf(),
    ensures
        app.spec_apply(e).wf(),
        app.spec_apply(e).displays == app.displays,
{
}

/// Index reached from `i` after `k` wrapping downward moves.
pub open spec fn down_iter(i: int, n: int, k: nat) -> int
    decreases k,
{
    if k == 0 {
        i
    } else {
        spec_next_index(down_iter(i, n, (k - 1) as nat), n)
    }
}

/// Index reached from `i` after `k` wrapping upward moves.
pub open spec fn up_iter(i: int, n: int, k: nat) -> int
    decreases k,
{
    if k == 0 {
        i
    } else {
        spec_prev_index(up_iter(i, n, (k - 1) as nat), n)
    }
}

proof fn lemma_down_iter_value(n: int, k: nat)
    requires
        n > 0,
        k <= n,
    ensures
        down_iter(0, n, k) == if k == n {
            0int
        } else {
            k as int
        },
    decreases k,
{
    if k > 0 {
        lemma_down_iter_value(n, (k - 1) as nat);
    }
}

proof fn lemma_up_iter_value(n: int, k: nat)
    requires
        n > 0,
        k <= n,
    ensures
        up_iter(0, n, k) == if k == 0 {
            0int
        } else {
            n - k
        },
    decreases k,
{
    if k > 0 {
        lemma_up_iter_value(n, (k - 1) as nat);
    }
}

/// Repeating one movement event `k` times moves the highlight along
/// `down_iter`/`up_iter` and changes nothing else.
proof fn lemma_apply_n_moves(app: TuiApp, e: NavigationEvent, k: nat)
    requires
        app.wf(),
        app.displays@.len() > 0,
        e == NavigationEvent::MoveUp || e == NavigationEvent::MoveDown,
    ensures
        ({
            let r = app.spec_apply_seq(Seq::new(k, |j: int| e));
            let i = app.highlight->0 as int;
            let n = app.displays@.len() as int;
            &&& r.displays == app.displays
            &&& r.should_quit == app.should_quit
            &&& r.selected == app.selected
            &&& r.highlight == Some(
                (if e == NavigationEvent::MoveDown {
                    down_iter(i, n, k)
                } else {
                    up_iter(i, n, k)
                }) as usize,
            )
            &&& 0 <= (if e == NavigationEvent::MoveDown {
                down_iter(i, n, k)
            } else {
                up_iter(i, n, k)
            }) < n
        }),
    decreases k,
{
    let events = Seq::new(k, |j: int| e);
    if k == 0 {
        assert(events.len() == 0);
        assert(app.spec_apply_seq(events) == app);
    } else {
        lemma_apply_n_moves(app, e, (k - 1) as nat);
        assert(events.drop_last() =~= Seq::new((k - 1) as nat, |j: int| e));
        assert(events.last() == e);
        let i = app.highlight->0 as int;
        let n = app.displays@.len() as int;
        let prev = app.spec_apply_seq(events.drop_last());
        let pidx = if e == NavigationEvent::MoveDown {
            down_iter(i, n, (k - 1) as nat)
        } else {
            up_iter(i, n, (k - 1) as nat)
        };
        assert(prev.highlight == Some(pidx as usize));
        assert(0 <= pidx < n);
        assert((pidx as usize) as int == pidx);
        assert(app.spec_apply_seq(events) == prev.spec_apply(e));
        assert(prev.displays@.len() as int == n);
    }
}

/// Wraparound closure: on a non-empty list of length `n`, starting at
/// index 0, applying `MoveDown` `n` times returns the highlight to index
/// 0, and so does applying `MoveUp` `n` times.
pub proof fn lemma_wraparound(app: TuiApp, n: nat)
    requires
        app.wf(),
        app.displays@.len() == n,
        n > 0,
        app.highlight == Some(0usize),
    ensures
        app.spec_apply_seq(Seq::new(n, |j: int| NavigationEvent::MoveDown)).highlight == Some(
            0usize,
        ),
        app.spec_apply_seq(Seq::new(n, |j: int| NavigationEvent::MoveUp)).highlight == Some(0usize),
{
    lemma_apply_n_moves(app, NavigationEvent::MoveDown, n);
    lemma_apply_n_moves(app, NavigationEvent::MoveUp, n);
    lemma_down_iter_value(n as int, n);
    lemma_up_iter_value(n as int, n);
}

/// On an empty list every movement is a no-op and no event sequence can
/// ever produce a confirmed choice.
pub proof fn lemma_empty_list(app: TuiApp, events: Seq<NavigationEvent>)
    requires
        app.wf(),
        app.displays@.len() == 0,
        app.selected is None,
    ensures
        app.spec_apply(NavigationEvent::MoveUp) == app,
        app.spec_apply(NavigationEvent::MoveDown) == app,
        app.spec_apply_seq(events).selected is None,
        app.spec_apply_seq(events).highlight is None,
    decreases events.len(),
{
    if events.len() > 0 {
        lemma_empty_list(app, events.drop_last());
        let before = app.spec_apply_seq(events.drop_last());
        lemma_apply_seq_wf(app, events.drop_last());
        assert(before.displays@.len() == 0);
    }
}

/// A whole event sequence preserves well-formedness and the output list.
pub proof fn lemma_apply_seq_wf(app: TuiApp, events: Seq<NavigationEvent>)
    requires
        app.wf(),
    ensures
        app.spec_apply_seq(events).wf(),
        app.spec_apply_seq(events).displays == app.displays,
    decreases events.len(),
{
    if events.len() > 0 {
        lemma_apply_seq_wf(app, events.drop_last());
        lemma_apply_wf(app.spec_apply_seq(events.drop_last()), events.last());
    }
}

/// Scoped terminal state around an interactive selection: raw input mode
/// and the alternate screen are acquired by `begin` and held through
/// every `step`; `finish` marks them released and reports whether they
/// were still held, so the caller restores the real terminal exactly
/// when it answers true.
pub struct SelectionSession {
    pub app: TuiApp,
    pub terminal_active: bool,
}

/// The session state `begin` produces.
pub open spec fn spec_begin(displays: Vec<DisplayInfo>) -> SelectionSession {
    SelectionSession { app: TuiApp::spec_new(displays), terminal_active: true }
}

/// One poll iteration: controller event first, keyboard event second.
pub open spec fn spec_step(
    s: SelectionSession,
    controller: Option<NavigationEvent>,
    key: Option<NavigationEvent>,
) -> SelectionSession {
    SelectionSession { app: s.app.spec_apply_opt(controller).spec_apply_opt(key), ..s }
}

/// A whole run of poll iterations, in order.
pub open spec fn spec_run(
    s: SelectionSession,
    steps: Seq<(Option<NavigationEvent>, Option<NavigationEvent>)>,
) -> SelectionSession
    decreases steps.len(),
{
    if steps.len() == 0 {
        s
    } else {
        spec_step(spec_run(s, steps.drop_last()), steps.last().0, steps.last().1)
    }
}

/// Releasing the terminal: the state afterwards, and whether there was
/// anything to release.
pub open spec fn spec_finish(s: SelectionSession) -> (SelectionSession, bool) {
    (SelectionSession { terminal_active: false, ..s }, s.terminal_active)
}

impl SelectionSession {
    /// Acquire the terminal and start a selection over `displays`.
    pub fn begin(displays: Vec<DisplayInfo>) -> (r: SelectionSession)
        ensures
            r == spec_begin(displays),
            r.app.wf(),
    {
        SelectionSession { app: TuiApp::new(displays), terminal_active: true }
    }

    /// Apply one poll iteration's events; the terminal stays held.
    pub fn step(&mut self, controller: Option<NavigationEvent>, key: Option<NavigationEvent>)
        ensures
            *final(self) == spec_step(*old(self), controller, key),
    {
        self.app.apply_iteration(controller, key);
    }

    /// Release the terminal; answers whether it was still held, so the
    /// caller performs the real restoration exactly once.
    pub fn finish(&mut self) -> (was_active: bool)
        ensures
            (*final(self), was_active) == spec_finish(*old(self)),
    {
        let was_active = self.terminal_active;
        self.terminal_active = false;
        was_active
    }
}

/// The terminal discipline: however many iterations a session runs, the
/// terminal is still held when the loop ends, the one `finish` both
/// releases it and reports that it did, and a second `finish` reports
/// nothing left to release.
pub proof fn lemma_restore_once(
    displays: Vec<DisplayInfo>,
    steps: Seq<(Option<NavigationEvent>, Option<NavigationEvent>)>,
)
    ensures
        spec_run(spec_begin(displays), steps).terminal_active,
        spec_finish(spec_run(spec_begin(displays), steps)).1,
        !spec_finish(spec_run(spec_begin(displays), steps)).0.terminal_active,
        !spec_finish(spec_finish(spec_run(spec_begin(displays), steps)).0).1,
{
    lemma_run_keeps_terminal(spec_begin(displays), steps);
}

proof fn lemma_run_keeps_terminal(
    s: SelectionSession,
    steps: Seq<(Option<NavigationEvent>, Option<NavigationEvent>)>,
)
    requires
        s.terminal_active,
    ensures
        spec_run(s, steps).terminal_active,
    decreases steps.len(),
{
    if steps.len() > 0 {
        lemma_run_keeps_terminal(s, steps.drop_last());
    }
}

/// `Confirm` on a pending highlight `i` always records exactly the
/// output at `i` and ends the loop; it never yields any other outcome.
pub proof fn lemma_confirm_chooses(app: TuiApp)
    requires
        app.wf(),
        app.highlight is Some,
    ensures
        app.spec_apply(NavigationEvent::Confirm).selected == Some(app.highlight->0),
        app.spec_apply(NavigationEvent::Confirm).should_quit,
        app.spec_apply(NavigationEvent::Confirm).displays == app.displays,
        app.spec_apply(NavigationEvent::Confirm).highlight == app.highlight,
{
}

} // verus!
