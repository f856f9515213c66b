//! Tests of the scripted state on its own: hook recording and script
//! consumption.

use pushdown::machine::{Event, Key, State, Transition};
use pushdown::model::Hook;
use pushdown::script::ScriptState;

fn key_event() -> Event {
    Event::Key(Key {
        code: 1,
        printable: 'q',
        pressed: true,
        shift: false,
        alt: true,
        ctrl: false,
    })
}

#[test]
fn script_state_reports_its_label() {
    let p = ScriptState::new(7, vec![]);
    assert_eq!(p.label(), 7);
}

#[test]
fn script_state_records_hooks_in_order() {
    let mut p = ScriptState::new(7, vec![]);
    p.on_start();
    p.on_pause();
    p.on_resume();
    p.on_stop();
    assert_eq!(
        *p.seen(),
        vec![Hook::Start, Hook::Pause, Hook::Resume, Hook::Stop]
    );
}

#[test]
fn script_state_consumes_its_script_front_first() {
    let mut p = ScriptState::new(7, vec![Transition::Pop, Transition::Quit]);
    assert!(matches!(p.update(), Transition::Pop));
    assert!(matches!(p.handle_event(key_event()), Transition::Quit));
    assert!(matches!(p.update(), Transition::Stay));
    assert!(matches!(p.handle_event(key_event()), Transition::Stay));
}

#[test]
fn script_state_render_leaves_it_unchanged() {
    let p = ScriptState::new(7, vec![]);
    p.render(&mut ());
    assert_eq!(p.label(), 7);
    assert!(p.seen().is_empty());
}
