//! The laws of the transition algebra, proved once and for all.
//!
//! The machine's operations promise (via `StateMachine::steps_to`) that the
//! stack, the fired hooks and the running flag follow `apply_models`,
//! `fires` and `still_running` exactly; the lemmas here pin down what those
//! three functions do, so each law below holds of every machine whose top
//! state requests the transitions in question.

use vstd::prelude::*;

use crate::machine::{State, StateMachine};
use crate::model::{
    apply_models, call_on, fires, record, still_running, Decision, Hook, StateModel,
};

verus! {

/// Law: one applied decision keeps the running flag aligned with stack
/// non-emptiness — after any decision applied to a running machine, the
/// machine still runs exactly when the resulting stack is non-empty.
pub proof fn lemma_running_iff_nonempty(stack: Seq<StateModel>, d: Decision)
    requires
        stack.len() > 0,
    ensures
        still_running(stack, d) <==> apply_models(stack, d).len() > 0,
{
    match d {
        Decision::Stay => {},
        Decision::Pop => {
            assert(apply_models(stack, d).len() == stack.len() - 1);
        },
        Decision::Push(m) => {},
        Decision::Switch(m) => {},
        Decision::Quit => {},
    }
}

/// Law: `Push(m)` followed immediately by `Pop` leaves the stack as it was
/// before the push — same depth, every state below the top untouched, the
/// top only having had `Pause` and then `Resume` delivered — and fires
/// exactly pause(top), start(m), stop(m), resume(top), in that order; the
/// machine keeps running.
pub proof fn lemma_push_then_pop(stack: Seq<StateModel>, m: StateModel)
    requires
        stack.len() > 0,
    ensures
        ({
            let mid = apply_models(stack, Decision::Push(m));
            let end = apply_models(mid, Decision::Pop);
            &&& still_running(stack, Decision::Push(m))
            &&& still_running(mid, Decision::Pop)
            &&& end.len() == stack.len()
            &&& (forall|i: int| 0 <= i < stack.len() - 1 ==> end[i] == stack[i])
            &&& end.last() == record(record(stack.last(), Hook::Pause), Hook::Resume)
            &&& fires(stack, Decision::Push(m)) + fires(mid, Decision::Pop) == seq![
                call_on(stack.last(), Hook::Pause),
                call_on(m, Hook::Start),
                call_on(m, Hook::Stop),
                call_on(stack.last(), Hook::Resume),
            ]
        }),
{
    let mid = apply_models(stack, Decision::Push(m));
    let end = apply_models(mid, Decision::Pop);
    assert(mid.drop_last() =~= stack.update(
        stack.len() - 1,
        record(stack.last(), Hook::Pause),
    ));
    assert(end.last() == record(record(stack.last(), Hook::Pause), Hook::Resume));
    assert(fires(stack, Decision::Push(m)) + fires(mid, Decision::Pop) =~= seq![
        call_on(stack.last(), Hook::Pause),
        call_on(m, Hook::Start),
        call_on(m, Hook::Stop),
        call_on(stack.last(), Hook::Resume),
    ]);
}

/// Law: over two consecutive machine operations — one applying `Push(m)`,
/// the next applying `Pop` — the machine ends still running, with the stack
/// as deep as before the push, every state below the top untouched, the top
/// only having had `Pause` and then `Resume` delivered, and with exactly
/// pause(top), start(m), stop(m), resume(top) appended to its trace, in that
/// order.
pub proof fn lemma_machine_push_then_pop<St: State>(
    m0: StateMachine<St>,
    m1: StateMachine<St>,
    m2: StateMachine<St>,
    m: StateModel,
)
    requires
        m0.models().len() > 0,
        StateMachine::steps_to(m0, m1, Decision::Push(m)),
        StateMachine::steps_to(m1, m2, Decision::Pop),
    ensures
        m2.running(),
        m2.models().len() == m0.models().len(),
        forall|i: int| 0 <= i < m0.models().len() - 1 ==> m2.models()[i] == m0.models()[i],
        m2.models().last() == record(record(m0.models().last(), Hook::Pause), Hook::Resume),
        m2.trace() == m0.trace() + seq![
            call_on(m0.models().last(), Hook::Pause),
            call_on(m, Hook::Start),
            call_on(m, Hook::Stop),
            call_on(m0.models().last(), Hook::Resume),
        ],
{
    lemma_push_then_pop(m0.models(), m);
    assert(m2.trace() =~= m0.trace() + (fires(m0.models(), Decision::Push(m)) + fires(
        m1.models(),
        Decision::Pop,
    )));
}

/// Law: `Switch(m)` is a same-level replacement — every state below the top
/// stays untouched, the new stack ends with `m` freshly started, exactly
/// stop(old top) then start(m) fire, and no pause or resume is among the
/// fired hooks; the machine keeps running. On a one-element stack the result
/// is exactly the one-element stack holding `m` started.
pub proof fn lemma_switch(stack: Seq<StateModel>, m: StateModel)
    requires
        stack.len() > 0,
    ensures
        ({
            let end = apply_models(stack, Decision::Switch(m));
            let f = fires(stack, Decision::Switch(m));
            &&& end == stack.drop_last().push(record(m, Hook::Start))
            &&& f == seq![call_on(stack.last(), Hook::Stop), call_on(m, Hook::Start)]
            &&& (forall|i: int|
                0 <= i < f.len() ==> f[i].hook != Hook::Pause && f[i].hook != Hook::Resume)
            &&& still_running(stack, Decision::Switch(m))
            &&& stack.len() == 1 ==> end == seq![record(m, Hook::Start)]
        }),
{
    let end = apply_models(stack, Decision::Switch(m));
    if stack.len() == 1 {
        assert(end =~= seq![record(m, Hook::Start)]);
    }
}

/// Law: `Pop` on a one-element stack empties it and stops the machine, and
/// only stop(top) fires — no resume, there being no state to uncover.
pub proof fn lemma_pop_last(a: StateModel)
    ensures
        apply_models(seq![a], Decision::Pop) == Seq::<StateModel>::empty(),
        fires(seq![a], Decision::Pop) == seq![call_on(a, Hook::Stop)],
        !still_running(seq![a], Decision::Pop),
{
    assert(apply_models(seq![a], Decision::Pop) =~= Seq::<StateModel>::empty());
    assert(fires(seq![a], Decision::Pop) =~= seq![call_on(a, Hook::Stop)]);
}

/// Law: a full unwind stops every state, top first: the unwind writes one
/// `Stop` per stacked state, and its record at position `i` names the state
/// at depth `len - 1 - i`.
pub proof fn lemma_quit_order(stack: Seq<StateModel>)
    ensures
        fires(stack, Decision::Quit).len() == stack.len(),
        forall|i: int|
            0 <= i < stack.len() ==> fires(stack, Decision::Quit)[i] == call_on(
                stack[stack.len() - 1 - i],
                Hook::Stop,
            ),
        apply_models(stack, Decision::Quit) == Seq::<StateModel>::empty(),
        !still_running(stack, Decision::Quit),
    decreases stack.len(),
{
    if stack.len() > 0 {
        lemma_quit_order(stack.drop_first());
    }
}

/// Law: `Quit` on the three-state stack [a, b, c] — c active — fires exactly
/// stop(c), stop(b), stop(a), in that order, empties the stack, and stops
/// the machine.
pub proof fn lemma_quit_three(a: StateModel, b: StateModel, c: StateModel)
    ensures
        apply_models(seq![a, b, c], Decision::Quit) == Seq::<StateModel>::empty(),
        fires(seq![a, b, c], Decision::Quit) == seq![
            call_on(c, Hook::Stop),
            call_on(b, Hook::Stop),
            call_on(a, Hook::Stop),
        ],
        !still_running(seq![a, b, c], Decision::Quit),
{
    lemma_quit_order(seq![a, b, c]);
    assert(fires(seq![a, b, c], Decision::Quit) =~= seq![
        call_on(c, Hook::Stop),
        call_on(b, Hook::Stop),
        call_on(a, Hook::Stop),
    ]);
}

} // verus!
