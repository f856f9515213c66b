//! The state abstraction and the pushdown machine itself.

use vstd::prelude::*;

use crate::laws::{lemma_quit_order, lemma_running_iff_nonempty};
use crate::model::{
    apply_models, call_on, fires, record, still_running, stops_of, Decision, Hook, HookCall,
    StateModel,
};

verus! {

/// A single key press, carried through to the active state verbatim; the
/// machine never inspects it.
#[derive(Clone, Copy, PartialEq, Eq, Structural, Debug)]
pub struct Key {
    pub code: u64,
    pub printable: char,
    pub pressed: bool,
    pub shift: bool,
    pub alt: bool,
    pub ctrl: bool,
}

/// An opaque input notification passed through to the active state.
#[derive(Clone, Copy, PartialEq, Eq, Structural, Debug)]
pub enum Event {
    Key(Key),
}

/// The one stack mutation a state may request from `update` or
/// `handle_event`: exactly one of these is processed per call.
pub enum Transition<St> {
    /// No change.
    Stay,
    /// Remove the current top state.
    Pop,
    /// Add a new state above the current top, suspending it.
    Push(St),
    /// Replace the current top state with a new one.
    Switch(St),
    /// Terminate the whole machine, unwinding every stacked state.
    Quit,
}

/// The model-level reading of a requested transition.
pub open spec fn decision_of<St: State>(t: Transition<St>) -> Decision {
    match t {
        Transition::Stay => Decision::Stay,
        Transition::Pop => Decision::Pop,
        Transition::Push(s) => Decision::Push(s.model()),
        Transition::Switch(s) => Decision::Switch(s.model()),
        Transition::Quit => Decision::Quit,
    }
}

/// The contract every screen/mode must implement.
///
/// `model()` is the state's mathematical view: a label naming it, and the
/// sequence of lifecycle hooks delivered to it so far. The four hook methods
/// must record themselves in that view (a `Ghost` field costs nothing at run
/// time); `update` and `handle_event` must leave the view unchanged and
/// return the transition announced by `next_on_update` / `next_on_event`, so
/// that the machine can promise exactly what one tick does.
pub trait State: Sized {
    /// The drawable surface handed through `render`; opaque to the machine.
    type Surface;

    /// The state's view: label, and hooks received so far.
    spec fn model(&self) -> StateModel;

    /// The transition this state will request from the next `update`.
    spec fn next_on_update(&self) -> Decision;

    /// The transition this state will request when handling `event` next.
    spec fn next_on_event(&self, event: Event) -> Decision;

    /// The label under which the machine records hooks fired on this state.
    fn label(&self) -> (l: u64)
        ensures
            l == self.model().label,
    ;

    /// Draw the current visual representation; read-only with respect to the
    /// machine's stack.
    fn render(&self, surface: &mut Self::Surface);

    /// Advance one tick; may request a stack change.
    fn update(&mut self) -> (t: Transition<Self>)
        ensures
            final(self).model() == old(self).model(),
            (match t {
                Transition::Stay => old(self).next_on_update() == Decision::Stay,
                Transition::Pop => old(self).next_on_update() == Decision::Pop,
                Transition::Push(s) => old(self).next_on_update() == Decision::Push(s.model()),
                Transition::Switch(s) => old(self).next_on_update() == Decision::Switch(s.model()),
                Transition::Quit => old(self).next_on_update() == Decision::Quit,
            }),
    ;

    /// React to one input event; may request a stack change.
    fn handle_event(&mut self, event: Event) -> (t: Transition<Self>)
        ensures
            final(self).model() == old(self).model(),
            (match t {
                Transition::Stay => old(self).next_on_event(event) == Decision::Stay,
                Transition::Pop => old(self).next_on_event(event) == Decision::Pop,
                Transition::Push(s) => old(self).next_on_event(event) == Decision::Push(s.model()),
                Transition::Switch(s) => old(self).next_on_event(event) == Decision::Switch(s.model()),
                Transition::Quit => old(self).next_on_event(event) == Decision::Quit,
            }),
    ;

    /// Fired when this state becomes active for the first time.
    fn on_start(&mut self)
        ensures
            final(self).model() == record(old(self).model(), Hook::Start),
            final(self).next_on_update() == old(self).next_on_update(),
            forall|e: Event|
                (#[trigger] final(self).next_on_event(e)) == old(self).next_on_event(e),
    ;

    /// Fired when this state is removed from the stack for good.
    fn on_stop(&mut self)
        ensures
            final(self).model() == record(old(self).model(), Hook::Stop),
    ;

    /// Fired when another state is pushed on top of this one.
    fn on_pause(&mut self)
        ensures
            final(self).model() == record(old(self).model(), Hook::Pause),
    ;

    /// Fired when the state above this one is popped, uncovering it.
    fn on_resume(&mut self)
        ensures
            final(self).model() == record(old(self).model(), Hook::Resume),
    ;
}

/// A pushdown machine over states of type `St`: an ordered stack of owned
/// states (last index active), a running flag, and the record of every hook
/// it has fired.
pub struct StateMachine<St: State> {
    running: bool,
    states: Vec<St>,
    history: Vec<HookCall>,
}

impl<St: State> StateMachine<St> {
    /// The stack of owned states; the last index is the active one.
    pub closed spec fn stack(&self) -> Seq<St> {
        self.states@
    }

    /// The stack at model level.
    pub open spec fn models(&self) -> Seq<StateModel> {
        self.stack().map(|i: int, s: St| s.model())
    }

    /// The active (top) state.
    pub open spec fn top(&self) -> St {
        self.stack().last()
    }

    /// Whether the machine is running.
    pub closed spec fn running(&self) -> bool {
        self.running
    }

    /// Every hook the machine has fired so far, in firing order.
    pub closed spec fn trace(&self) -> Seq<HookCall> {
        self.history@
    }

    /// Validity: a running machine has a non-empty stack, and a stopped
    /// machine still holding states has fired no hook yet (it was
    /// constructed, but never started).
    pub open spec fn inv(&self) -> bool {
        &&& (self.running() ==> self.models().len() > 0)
        &&& (!self.running() ==> self.models().len() == 0 || self.trace().len() == 0)
    }

    /// How applying one decision relates a machine `post` to a machine `pre`:
    /// the stack, the fired hooks and the running flag all follow the
    /// transition algebra.
    pub open spec fn steps_to(pre: Self, post: Self, d: Decision) -> bool {
        &&& post.models() == apply_models(pre.models(), d)
        &&& post.trace() == pre.trace() + fires(pre.models(), d)
        &&& post.running() == still_running(pre.models(), d)
    }

    /// A machine holding exactly `state`, not yet started: no hook has fired.
    pub fn new(state: St) -> (m: StateMachine<St>)
        ensures
            m.inv(),
            !m.running(),
            m.stack() == seq![state],
            m.trace() == Seq::<HookCall>::empty(),
    {
        let mut states: Vec<St> = Vec::new();
        states.push(state);
        let m = StateMachine { running: false, states, history: Vec::new() };
        proof {
            assert(m.stack() =~= seq![state]);
            assert(m.trace() =~= Seq::<HookCall>::empty());
        }
        m
    }

    /// Read-only query of the running flag.
    pub fn is_running(&self) -> (r: bool)
        ensures
            r == self.running(),
    {
        self.running
    }

    /// Idempotent: a no-op if already running; otherwise fires `on_start` on
    /// the current top and raises the running flag. A stopped machine whose
    /// stack has already been emptied holds nothing to activate, so such a
    /// machine cannot be started again.
    pub fn start(&mut self)
        requires
            old(self).inv(),
            old(self).running() || old(self).stack().len() > 0,
        ensures
            final(self).inv(),
            final(self).running(),
            old(self).running() ==> *final(self) == *old(self),
            !old(self).running() ==> {
                &&& final(self).models() == old(self).models().update(
                    old(self).models().len() - 1,
                    record(old(self).top().model(), Hook::Start),
                )
                &&& final(self).trace() == old(self).trace().push(
                    call_on(old(self).top().model(), Hook::Start),
                )
                &&& final(self).stack().len() == old(self).stack().len()
                &&& final(self).stack().drop_last() == old(self).stack().drop_last()
                &&& final(self).top().next_on_update() == old(self).top().next_on_update()
                &&& forall|e: Event|
                    (#[trigger] final(self).top().next_on_event(e))
                        == old(self).top().next_on_event(e)
            },
    {
        if !self.running {
            match self.states.pop() {
                Some(mut top) => {
                    top.on_start();
                    let l: u64 = top.label();
                    self.states.push(top);
                    self.history.push(HookCall { label: l, hook: Hook::Start });
                },
                None => {},
            }
            self.running = true;
            proof {
                assert(self.models() =~= old(self).models().update(
                    old(self).models().len() - 1,
                    record(old(self).top().model(), Hook::Start),
                ));
                assert(self.trace() =~= old(self).trace().push(
                    call_on(old(self).top().model(), Hook::Start),
                ));
            }
        }
    }

    /// Delegates to the top state's `render` when running — lower states are
    /// never rendered — and draws nothing otherwise: while the machine is not
    /// running the surface comes back untouched. The machine itself is
    /// untouched either way.
    pub fn render(&self, surface: &mut St::Surface)
        requires
            self.inv(),
        ensures
            !self.running() ==> *final(surface) == *old(surface),
    {
        if self.running {
            let i: usize = self.states.len() - 1;
            let top: &St = &self.states[i];
            top.render(surface);
        }
    }

    /// One tick: when running, asks the top state for a transition via its
    /// `update` and applies the transition algebra; otherwise a guaranteed
    /// no-op.
    pub fn update(&mut self)
        requires
            old(self).inv(),
        ensures
            final(self).inv(),
            !old(self).running() ==> *final(self) == *old(self),
            old(self).running() ==> Self::steps_to(
                *old(self),
                *final(self),
                old(self).top().next_on_update(),
            ),
            old(self).running() ==> (final(self).running() <==> final(self).models().len() > 0),
    {
        if self.running {
            match self.states.pop() {
                Some(mut top) => {
                    let trans = top.update();
                    self.states.push(top);
                    proof {
                        assert(self.models() =~= old(self).models());
                    }
                    self.transition(trans);
                    proof {
                        lemma_running_iff_nonempty(old(self).models(), decision_of(trans));
                    }
                },
                None => {},
            }
        }
    }

    /// Feeds one input event to the top state and applies the transition it
    /// requests; a guaranteed no-op when not running.
    pub fn handle_event(&mut self, event: Event)
        requires
            old(self).inv(),
        ensures
            final(self).inv(),
            !old(self).running() ==> *final(self) == *old(self),
            old(self).running() ==> Self::steps_to(
                *old(self),
                *final(self),
                old(self).top().next_on_event(event),
            ),
            old(self).running() ==> (final(self).running() <==> final(self).models().len() > 0),
    {
        if self.running {
            match self.states.pop() {
                Some(mut top) => {
                    let trans = top.handle_event(event);
                    self.states.push(top);
                    proof {
                        assert(self.models() =~= old(self).models());
                    }
                    self.transition(trans);
                    proof {
                        lemma_running_iff_nonempty(old(self).models(), decision_of(trans));
                    }
                },
                None => {},
            }
        }
    }

    /// Applies one requested transition, firing hooks per the algebra.
    fn transition(&mut self, trans: Transition<St>)
        requires
            old(self).inv(),
            old(self).running(),
        ensures
            final(self).inv(),
            Self::steps_to(*old(self), *final(self), decision_of(trans)),
            final(self).running() <==> final(self).models().len() > 0,
    {
        if self.running {
            match trans {
                Transition::Stay => {
                    proof {
                        assert(self.trace() =~= self.trace() + Seq::<HookCall>::empty());
                    }
                },
                Transition::Pop => self.pop(),
                Transition::Push(state) => self.push(state),
                Transition::Switch(state) => self.switch(state),
                Transition::Quit => self.stop(),
            }
            proof {
                lemma_running_iff_nonempty(old(self).models(), decision_of(trans));
            }
        }
    }

    /// `Switch`: the top state is removed and stopped, the new one stacked
    /// and started. The state below, if any, is untouched: no pause or
    /// resume fires.
    fn switch(&mut self, state: St)
        requires
            old(self).inv(),
            old(self).running(),
        ensures
            final(self).inv(),
            Self::steps_to(*old(self), *final(self), Decision::Switch(state.model())),
            final(self).running(),
            final(self).trace() == old(self).trace() + seq![
                call_on(old(self).models().last(), Hook::Stop),
                call_on(state.model(), Hook::Start),
            ],
            forall|i: int|
                old(self).trace().len() <= i < final(self).trace().len() ==> {
                    let h = (#[trigger] final(self).trace()[i]).hook;
                    h != Hook::Pause && h != Hook::Resume
                },
            old(self).models().len() == 1 ==> final(self).models() == seq![
                record(state.model(), Hook::Start),
            ],
    {
        if self.running {
            match self.states.pop() {
                Some(mut top) => {
                    top.on_stop();
                    let l: u64 = top.label();
                    self.history.push(HookCall { label: l, hook: Hook::Stop });
                },
                None => {},
            }
            let mut next = state;
            next.on_start();
            let l2: u64 = next.label();
            self.states.push(next);
            self.history.push(HookCall { label: l2, hook: Hook::Start });
            proof {
                assert(self.models() =~= apply_models(
                    old(self).models(),
                    Decision::Switch(state.model()),
                ));
                assert(self.trace() =~= old(self).trace() + fires(
                    old(self).models(),
                    Decision::Switch(state.model()),
                ));
                if old(self).models().len() == 1 {
                    assert(self.models() =~= seq![record(state.model(), Hook::Start)]);
                }
            }
        }
    }

    /// `Push`: the current top is paused (suspended, not removed), the new
    /// state stacked above it and started.
    fn push(&mut self, state: St)
        requires
            old(self).inv(),
            old(self).running(),
        ensures
            final(self).inv(),
            Self::steps_to(*old(self), *final(self), Decision::Push(state.model())),
            final(self).running(),
    {
        if self.running {
            match self.states.pop() {
                Some(mut top) => {
                    top.on_pause();
                    let l: u64 = top.label();
                    self.states.push(top);
                    self.history.push(HookCall { label: l, hook: Hook::Pause });
                },
                None => {},
            }
            let mut next = state;
            next.on_start();
            let l2: u64 = next.label();
            self.states.push(next);
            self.history.push(HookCall { label: l2, hook: Hook::Start });
            proof {
                assert(self.models() =~= apply_models(
                    old(self).models(),
                    Decision::Push(state.model()),
                ));
                assert(self.trace() =~= old(self).trace() + fires(
                    old(self).models(),
                    Decision::Push(state.model()),
                ));
            }
        }
    }

    /// `Pop`: the top state is removed and stopped; the state uncovered, if
    /// any, is resumed; with the stack empty the machine stops running.
    fn pop(&mut self)
        requires
            old(self).inv(),
            old(self).running(),
        ensures
            final(self).inv(),
            Self::steps_to(*old(self), *final(self), Decision::Pop),
            final(self).running() <==> final(self).models().len() > 0,
            old(self).models().len() == 1 ==> {
                &&& final(self).models().len() == 0
                &&& !final(self).running()
                &&& final(self).trace() == old(self).trace().push(
                    call_on(old(self).models().last(), Hook::Stop),
                )
            },
    {
        if self.running {
            match self.states.pop() {
                Some(mut top) => {
                    top.on_stop();
                    let l: u64 = top.label();
                    self.history.push(HookCall { label: l, hook: Hook::Stop });
                },
                None => {},
            }
            match self.states.pop() {
                Some(mut uncovered) => {
                    uncovered.on_resume();
                    let l2: u64 = uncovered.label();
                    self.states.push(uncovered);
                    self.history.push(HookCall { label: l2, hook: Hook::Resume });
                },
                None => {
                    self.running = false;
                },
            }
            proof {
                assert(self.models() =~= apply_models(old(self).models(), Decision::Pop));
                assert(self.trace() =~= old(self).trace() + fires(
                    old(self).models(),
                    Decision::Pop,
                ));
                lemma_running_iff_nonempty(old(self).models(), Decision::Pop);
                if old(self).models().len() == 1 {
                    assert(self.trace() =~= old(self).trace().push(
                        call_on(old(self).models().last(), Hook::Stop),
                    ));
                }
            }
        }
    }

    /// `Quit`: unwind the whole stack, stopping every state from the top
    /// down, then lower the running flag. No state is resumed on the way.
    fn stop(&mut self)
        requires
            old(self).inv(),
            old(self).running(),
        ensures
            final(self).inv(),
            Self::steps_to(*old(self), *final(self), Decision::Quit),
            final(self).models().len() == 0,
            !final(self).running(),
            final(self).trace() == old(self).trace() + stops_of(old(self).models()),
            final(self).trace().len() == old(self).trace().len() + old(self).models().len(),
            forall|j: int|
                old(self).trace().len() <= j < final(self).trace().len()
                    ==> (#[trigger] final(self).trace()[j]) == call_on(
                    old(self).models()[
                        old(self).models().len() - 1 - (j - old(self).trace().len())
                    ],
                    Hook::Stop,
                ),
    {
        if self.running {
            while self.states.len() > 0
                invariant
                    self.states@.len() <= old(self).models().len(),
                    self.models() == old(self).models().take(self.states@.len() as int),
                    self.trace() == old(self).trace() + stops_of_suffix(old(self).models(), self.states@.len() as int),
                    self.running == old(self).running,
                decreases self.states.len(),
            {
                let ghost k: int = self.states@.len() as int;
                proof {
                    assert(self.models()[k - 1] == self.stack()[k - 1].model());
                    assert(self.models()[k - 1] == old(self).models()[k - 1]);
                }
                match self.states.pop() {
                    Some(mut top) => {
                        let ghost tm = top.model();
                        proof {
                            assert(tm == old(self).models()[k - 1]);
                        }
                        top.on_stop();
                        let l: u64 = top.label();
                        self.history.push(HookCall { label: l, hook: Hook::Stop });
                        proof {
                            let pre = old(self).models();
                            assert(pre.skip(k - 1).drop_first() =~= pre.skip(k));
                            assert(pre.skip(k - 1).first() == pre[k - 1]);
                            assert(stops_of(pre.skip(k - 1)) == stops_of(pre.skip(k))
                                + seq![call_on(pre[k - 1], Hook::Stop)]);
                            assert(self.models() =~= pre.take(k - 1));
                            assert(self.trace() =~= old(self).trace()
                                + stops_of_suffix(pre, k - 1));
                        }
                    },
                    None => {},
                }
            }
            self.running = false;
            proof {
                let pre = old(self).models();
                assert(pre.skip(0) =~= pre);
                assert(self.models() =~= Seq::<StateModel>::empty());
                assert(apply_models(pre, Decision::Quit) =~= Seq::<StateModel>::empty());
                lemma_quit_order(pre);
                assert forall|j: int|
                    old(self).trace().len() <= j < self.trace().len() implies self.trace()[j]
                    == call_on(
                    pre[pre.len() - 1 - (j - old(self).trace().len())],
                    Hook::Stop,
                ) by {
                    let i = j - old(self).trace().len();
                    assert(fires(pre, Decision::Quit)[i] == call_on(
                        pre[pre.len() - 1 - i],
                        Hook::Stop,
                    ));
                }
            }
        }
    }

    /// How many states are stacked.
    pub fn depth(&self) -> (n: usize)
        ensures
            n == self.models().len(),
    {
        self.states.len()
    }

    /// The labels of the stacked states, bottom first; the last entry names
    /// the active state.
    pub fn stack_labels(&self) -> (v: Vec<u64>)
        ensures
            v@.len() == self.models().len(),
            forall|i: int| 0 <= i < v@.len() ==> v@[i] == self.models()[i].label,
    {
        let mut v: Vec<u64> = Vec::new();
        let mut i: usize = 0;
        while i < self.states.len()
            invariant
                i <= self.states@.len(),
                v@.len() == i as int,
                forall|j: int| 0 <= j < i as int ==> v@[j] == self.models()[j].label,
            decreases self.states@.len() - i,
        {
            let l: u64 = self.states[i].label();
            v.push(l);
            i = i + 1;
        }
        v
    }

    /// Every hook the machine has fired so far, in firing order.
    pub fn history(&self) -> (h: &Vec<HookCall>)
        ensures
            h@ == self.trace(),
    {
        &self.history
    }
}

/// The unwind records already written when only the bottommost `k` states of
/// `stack` remain: `Stop` on each state above them, top first.
spec fn stops_of_suffix(stack: Seq<StateModel>, k: int) -> Seq<HookCall> {
    stops_of(stack.skip(k))
}

} // verus!
