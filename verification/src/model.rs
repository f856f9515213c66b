//! The mathematical model of the machine: state models, hook records, the
//! decision a state may request, and the transition algebra over them.

use vstd::prelude::*;

verus! {

/// One lifecycle hook, as the machine fires them.
#[derive(Clone, Copy, PartialEq, Eq, Structural, Debug)]
pub enum Hook {
    Start,
    Stop,
    Pause,
    Resume,
}

/// The record of one hook invocation: which hook fired, and the label of the
/// state it fired on.
#[derive(Clone, Copy, PartialEq, Eq, Structural, Debug)]
pub struct HookCall {
    pub label: u64,
    pub hook: Hook,
}

/// The model of one stacked state: the label its implementor chose for it,
/// and the sequence of lifecycle hooks delivered to it so far.
#[verifier::ext_equal]
pub struct StateModel {
    pub label: u64,
    pub calls: Seq<Hook>,
}

/// The stack mutation a state requests, at model level: the specification
/// mirror of the executable transition type.
pub enum Decision {
    Stay,
    Pop,
    Push(StateModel),
    Switch(StateModel),
    Quit,
}

/// `m` after one more hook `h` has been delivered to it.
pub open spec fn record(m: StateModel, h: Hook) -> StateModel {
    StateModel { label: m.label, calls: m.calls.push(h) }
}

/// The record written when hook `h` fires on a state modelled by `m`.
pub open spec fn call_on(m: StateModel, h: Hook) -> HookCall {
    HookCall { label: m.label, hook: h }
}

/// The hook records of a full unwind of `stack`: `Stop` on every state, the
/// top (last index) first, down to the bottom.
pub open spec fn stops_of(stack: Seq<StateModel>) -> Seq<HookCall>
    decreases stack.len(),
{
    if stack.len() == 0 {
        Seq::empty()
    } else {
        stops_of(stack.drop_first()) + seq![call_on(stack.first(), Hook::Stop)]
    }
}

/// The transition algebra: the stack left after a running machine with the
/// non-empty stack `stack` applies decision `d`.
///
/// - `Stay` leaves the stack alone.
/// - `Pop` removes the top; if a state is uncovered it has `Resume` delivered.
/// - `Push(m)` delivers `Pause` to the top, then stacks `m` with `Start`.
/// - `Switch(m)` removes the top and stacks `m` with `Start`; the state below,
///   if any, is untouched.
/// - `Quit` unwinds everything.
pub open spec fn apply_models(stack: Seq<StateModel>, d: Decision) -> Seq<StateModel> {
    match d {
        Decision::Stay => stack,
        Decision::Pop => {
            let rest = stack.drop_last();
            if rest.len() == 0 {
                rest
            } else {
                rest.update(rest.len() - 1, record(rest.last(), Hook::Resume))
            }
        },
        Decision::Push(m) => stack
            .update(stack.len() - 1, record(stack.last(), Hook::Pause))
            .push(record(m, Hook::Start)),
        Decision::Switch(m) => stack.drop_last().push(record(m, Hook::Start)),
        Decision::Quit => Seq::empty(),
    }
}

/// The hook records written while `d` is applied, in firing order.
pub open spec fn fires(stack: Seq<StateModel>, d: Decision) -> Seq<HookCall> {
    match d {
        Decision::Stay => Seq::empty(),
        Decision::Pop => if stack.len() > 1 {
            seq![
                call_on(stack.last(), Hook::Stop),
                call_on(stack[stack.len() - 2], Hook::Resume),
            ]
        } else {
            seq![call_on(stack.last(), Hook::Stop)]
        },
        Decision::Push(m) => seq![
            call_on(stack.last(), Hook::Pause),
            call_on(m, Hook::Start),
        ],
        Decision::Switch(m) => seq![
            call_on(stack.last(), Hook::Stop),
            call_on(m, Hook::Start),
        ],
        Decision::Quit => stops_of(stack),
    }
}

/// Whether the machine is still running after `d` is applied to the non-empty
/// stack `stack`: only popping the last state and quitting stop it.
pub open spec fn still_running(stack: Seq<StateModel>, d: Decision) -> bool {
    match d {
        Decision::Pop => stack.len() > 1,
        Decision::Quit => false,
        _ => true,
    }
}

} // verus!
