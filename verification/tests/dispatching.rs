use rxhkd::chord::{Chord, ModMask, MOD_4, MOD_CONTROL};
use rxhkd::dispatch::Dispatcher;
use rxhkd::key::Key;
use rxhkd::parse::new_parser;

fn dispatcher(src: &str) -> Dispatcher {
    let (data, mut state) = new_parser(src);
    Dispatcher::new(data.binds(&mut state))
}

#[test]
fn chord_matching_is_exact() {
    let chord = Chord { modifiers: ModMask { bits: MOD_CONTROL }, key: Key::A };
    // The chord's exact modifier state and key match.
    assert!(chord.matches(MOD_CONTROL, 38));
    // Non-modifier flags (pointer buttons) in the state are discarded.
    assert!(chord.matches(MOD_CONTROL | 0x100, 38));
    assert!(chord.matches(MOD_CONTROL | 0x1000, 38));
    // Any additional modifier flag defeats the match.
    assert!(!chord.matches(MOD_CONTROL | 1, 38));
    // A missing modifier defeats the match.
    assert!(!chord.matches(0, 38));
    // A different key defeats the match.
    assert!(!chord.matches(MOD_CONTROL, 39));
}

#[test]
fn empty_modifier_set_matches_plain_press() {
    let chord = Chord { modifiers: ModMask { bits: 0 }, key: Key::Space };
    assert!(chord.matches(0, 65));
    assert!(chord.matches(0x100, 65));
    assert!(!chord.matches(1, 65));
}

#[test]
fn state_to_mod_mask_discards_high_flags() {
    assert_eq!(rxhkd::chord::state_to_mod_mask(0x1234).bits, 0x34);
    assert_eq!(rxhkd::chord::state_to_mod_mask(0xff00).bits, 0);
    assert_eq!(rxhkd::chord::state_to_mod_mask(0xff).bits, 0xff);
}

#[test]
fn command_at_root_runs_without_transition() {
    let mut d = dispatcher("ctrl + a: echo hi\n");
    assert_eq!(d.active_chords().len(), 1);
    let effect = d.step(MOD_CONTROL, 38);
    assert_eq!(effect.output.as_deref(), Some("echo hi"));
    // The matched action returns to the root while the root is active:
    // a no-op with no deregister/register calls.
    assert!(effect.transition.is_none());
}

#[test]
fn unmatched_event_is_ignored() {
    let mut d = dispatcher("ctrl + a: echo hi\n");
    let effect = d.step(0, 38);
    assert!(effect.output.is_none());
    assert!(effect.transition.is_none());
}

#[test]
fn mode_entry_swaps_registrations() {
    let mut d = dispatcher("b: echo B\nmode super + m:\n  a: echo A\n");
    let root_chords = d.active_chords();
    assert_eq!(root_chords.len(), 2);

    let effect = d.step(MOD_4, 58);
    assert!(effect.output.is_none());
    let (out, into) = effect.transition.expect("mode entry must swap registrations");
    assert_eq!(out, root_chords);
    assert_eq!(into.len(), 1);
    assert_eq!(into[0], Chord { modifiers: ModMask { bits: 0 }, key: Key::A });
    assert_eq!(d.active_chords(), into);
}

#[test]
fn mode_isolation_ignores_chords_of_left_sequence() {
    let mut d = dispatcher("b: echo B\nmode super + m:\n  a: echo A\n");
    d.step(MOD_4, 58);
    // `b` is defined only in the root sequence, which is no longer active.
    let effect = d.step(0, 56);
    assert!(effect.output.is_none());
    assert!(effect.transition.is_none());
    // The chord defined in the mode still triggers.
    let effect = d.step(0, 38);
    assert_eq!(effect.output.as_deref(), Some("echo A"));
}

#[test]
fn return_to_root_restores_root_registrations() {
    let mut d = dispatcher("b: echo B\nmode super + m:\n  a: echo A\n");
    let root_chords = d.active_chords();
    d.step(MOD_4, 58);
    let mode_chords = d.active_chords();
    let effect = d.step(0, 38);
    assert_eq!(effect.output.as_deref(), Some("echo A"));
    let (out, into) = effect.transition.expect("leaving a mode swaps registrations");
    assert_eq!(out, mode_chords);
    assert_eq!(into, root_chords);
    // Back at the root, its binds trigger again.
    let effect = d.step(0, 56);
    assert_eq!(effect.output.as_deref(), Some("echo B"));
    assert!(effect.transition.is_none());
}

#[test]
fn nested_modes_descend_and_return_to_root() {
    let mut d = dispatcher("mode super + m:\n  mode super + n:\n    a: echo deep\n");
    d.step(MOD_4, 58);
    assert_eq!(d.active_chords().len(), 1);
    let effect = d.step(MOD_4, 57);
    assert!(effect.transition.is_some());
    let effect = d.step(0, 38);
    assert_eq!(effect.output.as_deref(), Some("echo deep"));
    let (_, into) = effect.transition.expect("the command returns to the root");
    assert_eq!(into.len(), 1);
    assert_eq!(into[0], Chord { modifiers: ModMask { bits: MOD_4 }, key: Key::M });
}

#[test]
fn command_and_mode_entry_both_happen() {
    // A bind may both run a command and change mode: the mode bind's nested
    // sequence becomes active while the command is reported.
    let mut d = dispatcher("mode super + m:\n  a: echo A\n");
    let effect = d.step(MOD_4, 58);
    assert!(effect.output.is_none());
    assert!(effect.transition.is_some());
    let effect = d.step(0, 38);
    assert_eq!(effect.output.as_deref(), Some("echo A"));
    assert!(effect.transition.is_some());
}

#[test]
fn empty_config_runs_idle() {
    let mut d = dispatcher("");
    assert_eq!(d.active_chords().len(), 0);
    let effect = d.step(0, 38);
    assert!(effect.output.is_none());
    assert!(effect.transition.is_none());
}

#[test]
fn first_matching_bind_wins() {
    let mut d = dispatcher("a: echo first\na: echo second\n");
    let effect = d.step(0, 38);
    assert_eq!(effect.output.as_deref(), Some("echo first"));
}
