//! Tests of the pushdown machine: construction, start, the five transition
//! kinds, the guarantees on hook order, and the no-op behaviour while the
//! machine is not running.

use pushdown::machine::{Event, Key, State, StateMachine, Transition};
use pushdown::model::{Hook, HookCall};
use pushdown::script::ScriptState;

fn key_event() -> Event {
    Event::Key(Key {
        code: 28,
        printable: '\n',
        pressed: true,
        shift: false,
        alt: false,
        ctrl: false,
    })
}

fn call(label: u64, hook: Hook) -> HookCall {
    HookCall { label, hook }
}

#[test]
fn new_machine_is_constructed_stopped() {
    let a = ScriptState::new(1, vec![]);
    let m = StateMachine::new(a);
    assert!(!m.is_running());
    assert_eq!(m.depth(), 1);
    assert_eq!(m.stack_labels(), vec![1]);
    assert!(m.history().is_empty());
}

#[test]
fn start_fires_on_start_and_runs() {
    let a = ScriptState::new(1, vec![]);
    let mut m = StateMachine::new(a);
    m.start();
    assert!(m.is_running());
    assert_eq!(m.depth(), 1);
    assert_eq!(*m.history(), vec![call(1, Hook::Start)]);
}

#[test]
fn start_is_idempotent() {
    let a = ScriptState::new(1, vec![]);
    let mut m = StateMachine::new(a);
    m.start();
    m.start();
    m.start();
    assert!(m.is_running());
    assert_eq!(*m.history(), vec![call(1, Hook::Start)]);
}

#[test]
fn operations_before_start_have_no_effect() {
    let a = ScriptState::new(1, vec![Transition::Quit]);
    let mut m = StateMachine::new(a);
    m.update();
    m.handle_event(key_event());
    m.render(&mut ());
    assert!(!m.is_running());
    assert_eq!(m.depth(), 1);
    assert_eq!(m.stack_labels(), vec![1]);
    assert!(m.history().is_empty());
}

#[test]
fn empty_script_requests_nothing() {
    let a = ScriptState::new(1, vec![]);
    let mut m = StateMachine::new(a);
    m.start();
    m.update();
    m.handle_event(key_event());
    assert!(m.is_running());
    assert_eq!(m.stack_labels(), vec![1]);
    assert_eq!(*m.history(), vec![call(1, Hook::Start)]);
}

#[test]
fn explicit_stay_changes_nothing() {
    let a = ScriptState::new(1, vec![Transition::Stay]);
    let mut m = StateMachine::new(a);
    m.start();
    m.update();
    assert!(m.is_running());
    assert_eq!(m.stack_labels(), vec![1]);
    assert_eq!(*m.history(), vec![call(1, Hook::Start)]);
}

#[test]
fn push_pauses_the_top_and_starts_the_new_state() {
    let b = ScriptState::new(2, vec![]);
    let a = ScriptState::new(1, vec![Transition::Push(b)]);
    let mut m = StateMachine::new(a);
    m.start();
    m.update();
    assert!(m.is_running());
    assert_eq!(m.stack_labels(), vec![1, 2]);
    assert_eq!(
        *m.history(),
        vec![
            call(1, Hook::Start),
            call(1, Hook::Pause),
            call(2, Hook::Start),
        ]
    );
}

#[test]
fn push_then_pop_restores_the_stack() {
    let b = ScriptState::new(2, vec![Transition::Pop]);
    let a = ScriptState::new(1, vec![Transition::Push(b)]);
    let mut m = StateMachine::new(a);
    m.start();
    m.update();
    m.update();
    assert!(m.is_running());
    assert_eq!(m.stack_labels(), vec![1]);
    assert_eq!(
        *m.history(),
        vec![
            call(1, Hook::Start),
            call(1, Hook::Pause),
            call(2, Hook::Start),
            call(2, Hook::Stop),
            call(1, Hook::Resume),
        ]
    );
}

#[test]
fn switch_on_a_single_state_replaces_it() {
    let s = ScriptState::new(2, vec![]);
    let a = ScriptState::new(1, vec![Transition::Switch(s)]);
    let mut m = StateMachine::new(a);
    m.start();
    m.update();
    assert!(m.is_running());
    assert_eq!(m.stack_labels(), vec![2]);
    assert_eq!(
        *m.history(),
        vec![
            call(1, Hook::Start),
            call(1, Hook::Stop),
            call(2, Hook::Start),
        ]
    );
    let fired: &Vec<HookCall> = m.history();
    assert!(fired
        .iter()
        .all(|c| c.hook != Hook::Pause && c.hook != Hook::Resume));
}

#[test]
fn switch_leaves_the_state_below_untouched() {
    let c = ScriptState::new(3, vec![]);
    let b = ScriptState::new(2, vec![Transition::Switch(c)]);
    let a = ScriptState::new(1, vec![Transition::Push(b)]);
    let mut m = StateMachine::new(a);
    m.start();
    m.update();
    m.update();
    assert!(m.is_running());
    assert_eq!(m.stack_labels(), vec![1, 3]);
    assert_eq!(
        *m.history(),
        vec![
            call(1, Hook::Start),
            call(1, Hook::Pause),
            call(2, Hook::Start),
            call(2, Hook::Stop),
            call(3, Hook::Start),
        ]
    );
}

#[test]
fn pop_on_a_single_state_stops_the_machine() {
    let a = ScriptState::new(1, vec![Transition::Pop]);
    let mut m = StateMachine::new(a);
    m.start();
    m.update();
    assert!(!m.is_running());
    assert_eq!(m.depth(), 0);
    assert_eq!(
        *m.history(),
        vec![call(1, Hook::Start), call(1, Hook::Stop)]
    );
}

#[test]
fn quit_unwinds_the_stack_top_first() {
    let c = ScriptState::new(3, vec![Transition::Quit]);
    let b = ScriptState::new(2, vec![Transition::Push(c)]);
    let a = ScriptState::new(1, vec![Transition::Push(b)]);
    let mut m = StateMachine::new(a);
    m.start();
    m.update();
    m.update();
    m.update();
    assert!(!m.is_running());
    assert_eq!(m.depth(), 0);
    assert_eq!(
        *m.history(),
        vec![
            call(1, Hook::Start),
            call(1, Hook::Pause),
            call(2, Hook::Start),
            call(2, Hook::Pause),
            call(3, Hook::Start),
            call(3, Hook::Stop),
            call(2, Hook::Stop),
            call(1, Hook::Stop),
        ]
    );
}

#[test]
fn operations_after_the_machine_stops_have_no_effect() {
    let a = ScriptState::new(1, vec![Transition::Quit, Transition::Stay]);
    let mut m = StateMachine::new(a);
    m.start();
    m.update();
    assert!(!m.is_running());
    let before = m.history().clone();
    m.update();
    m.handle_event(key_event());
    assert!(!m.is_running());
    assert_eq!(m.depth(), 0);
    assert_eq!(*m.history(), before);
}

#[test]
fn running_matches_stack_nonemptiness_after_start() {
    let b = ScriptState::new(2, vec![Transition::Pop]);
    let a = ScriptState::new(1, vec![Transition::Push(b), Transition::Pop]);
    let mut m = StateMachine::new(a);
    // The one exception: constructed but not yet started.
    assert!(!m.is_running() && m.depth() == 1);
    m.start();
    assert_eq!(m.is_running(), m.depth() > 0);
    m.update();
    assert_eq!(m.is_running(), m.depth() > 0);
    m.update();
    assert_eq!(m.is_running(), m.depth() > 0);
    m.update();
    assert_eq!(m.is_running(), m.depth() > 0);
    assert!(!m.is_running() && m.depth() == 0);
}

#[test]
fn render_changes_nothing_observable() {
    let a = ScriptState::new(1, vec![Transition::Pop]);
    let mut m = StateMachine::new(a);
    m.start();
    m.render(&mut ());
    m.render(&mut ());
    assert!(m.is_running());
    assert_eq!(m.stack_labels(), vec![1]);
    assert_eq!(*m.history(), vec![call(1, Hook::Start)]);
}

#[test]
fn full_scenario_push_switch_quit() {
    // A pushes B; B switches to C on an event; C quits.
    let c = ScriptState::new(3, vec![Transition::Quit]);
    let b = ScriptState::new(2, vec![Transition::Switch(c)]);
    let a = ScriptState::new(1, vec![Transition::Push(b)]);
    let mut m = StateMachine::new(a);

    m.start();
    assert!(m.is_running());
    assert_eq!(*m.history(), vec![call(1, Hook::Start)]);

    m.update();
    assert_eq!(m.stack_labels(), vec![1, 2]);
    assert_eq!(
        m.history()[1..],
        [call(1, Hook::Pause), call(2, Hook::Start)]
    );

    m.handle_event(key_event());
    assert_eq!(m.stack_labels(), vec![1, 3]);
    assert_eq!(
        m.history()[3..],
        [call(2, Hook::Stop), call(3, Hook::Start)]
    );

    m.update();
    assert_eq!(m.depth(), 0);
    assert!(!m.is_running());
    assert_eq!(m.history()[5..], [call(3, Hook::Stop), call(1, Hook::Stop)]);
}
