//! A concrete state for driving a machine through chosen transitions.

use vstd::prelude::*;

use crate::machine::{Event, State, Transition};
use crate::model::{Decision, Hook, StateModel};

verus! {

/// A state driven by a fixed script of transitions, recording every
/// lifecycle hook delivered to it.
///
/// `update` and `handle_event` alike answer with the front of the script,
/// or with `Transition::Stay` once the script is spent, so a host — or a
/// test — can steer a machine through any sequence of transitions and then
/// inspect what the machine did.
pub struct ScriptState {
    label: u64,
    script: Vec<Transition<ScriptState>>,
    seen: Vec<Hook>,
}

impl ScriptState {
    /// The transitions not yet requested, front first.
    pub closed spec fn pending(&self) -> Seq<Transition<ScriptState>> {
        self.script@
    }

    /// A scripted state named `label` that will request the transitions of
    /// `script` one at a time, front first, and has seen no hook yet.
    pub fn new(label: u64, script: Vec<Transition<ScriptState>>) -> (s: ScriptState)
        ensures
            s.model() == (StateModel { label, calls: Seq::<Hook>::empty() }),
            s.pending() == script@,
    {
        ScriptState { label, script, seen: Vec::new() }
    }

    /// The hooks delivered to this state so far, in order of delivery.
    pub fn seen(&self) -> (h: &Vec<Hook>)
        ensures
            h@ == self.model().calls,
    {
        &self.seen
    }
}

impl State for ScriptState {
    type Surface = ();

    closed spec fn model(&self) -> StateModel {
        StateModel { label: self.label, calls: self.seen@ }
    }

    open spec fn next_on_update(&self) -> Decision {
        if self.pending().len() == 0 {
            Decision::Stay
        } else {
            match self.pending().first() {
                Transition::Stay => Decision::Stay,
                Transition::Pop => Decision::Pop,
                Transition::Push(s) => Decision::Push(s.model()),
                Transition::Switch(s) => Decision::Switch(s.model()),
                Transition::Quit => Decision::Quit,
            }
        }
    }

    open spec fn next_on_event(&self, event: Event) -> Decision {
        self.next_on_update()
    }

    fn label(&self) -> (l: u64) {
        self.label
    }

    fn render(&self, surface: &mut ()) {
    }

    fn update(&mut self) -> (t: Transition<ScriptState>)
        ensures
            old(self).pending().len() == 0 ==> final(self).pending() == old(self).pending(),
            old(self).pending().len() > 0 ==> final(self).pending()
                == old(self).pending().drop_first(),
    {
        if self.script.len() == 0 {
            Transition::Stay
        } else {
            let t = self.script.remove(0);
            proof {
                assert(self.script@ =~= old(self).pending().drop_first());
            }
            t
        }
    }

    fn handle_event(&mut self, event: Event) -> (t: Transition<ScriptState>)
        ensures
            old(self).pending().len() == 0 ==> final(self).pending() == old(self).pending(),
            old(self).pending().len() > 0 ==> final(self).pending()
                == old(self).pending().drop_first(),
    {
        if self.script.len() == 0 {
            Transition::Stay
        } else {
            let t = self.script.remove(0);
            proof {
                assert(self.script@ =~= old(self).pending().drop_first());
            }
            t
        }
    }

    fn on_start(&mut self) {
        self.seen.push(Hook::Start);
    }

    fn on_stop(&mut self) {
        self.seen.push(Hook::Stop);
    }

    fn on_pause(&mut self) {
        self.seen.push(Hook::Pause);
    }

    fn on_resume(&mut self) {
        self.seen.push(Hook::Resume);
    }
}

} // verus!
