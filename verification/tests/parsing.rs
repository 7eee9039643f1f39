use rxhkd::bind::{Action, Bind};
use rxhkd::chord::{MOD_1, MOD_2, MOD_3, MOD_4, MOD_5, MOD_CONTROL, MOD_LOCK, MOD_SHIFT};
use rxhkd::key::Key;
use rxhkd::parse::new_parser;

fn parse(src: &str) -> Vec<Bind> {
    let (data, mut state) = new_parser(src);
    data.binds(&mut state)
}

#[test]
fn single_bind_parses() {
    let binds = parse("ctrl + a: echo hi\n");
    assert_eq!(binds.len(), 1);
    assert_eq!(binds[0].chord.modifiers.bits, MOD_CONTROL);
    assert!(matches!(binds[0].chord.key, Key::A));
    assert_eq!(binds[0].output.as_deref(), Some("echo hi"));
    assert!(matches!(binds[0].action, Action::ToRoot));
}

#[test]
fn mode_with_nested_binds() {
    let binds = parse("mode super + m:\n  a: echo A\n  super + m:\n");
    assert_eq!(binds.len(), 1);
    assert_eq!(binds[0].chord.modifiers.bits, MOD_4);
    assert!(matches!(binds[0].chord.key, Key::M));
    assert!(binds[0].output.is_none());
    let inner = match &binds[0].action {
        Action::EnterMode { binds } => binds,
        Action::ToRoot => panic!("expected a mode"),
    };
    assert_eq!(inner.len(), 2);
    assert_eq!(inner[0].chord.modifiers.bits, 0);
    assert!(matches!(inner[0].chord.key, Key::A));
    assert_eq!(inner[0].output.as_deref(), Some("echo A"));
    assert!(matches!(inner[0].action, Action::ToRoot));
    assert_eq!(inner[1].chord.modifiers.bits, MOD_4);
    assert!(matches!(inner[1].chord.key, Key::M));
    assert_eq!(inner[1].output.as_deref(), Some(""));
    assert!(matches!(inner[1].action, Action::ToRoot));
}

#[test]
fn less_indented_line_belongs_to_enclosing() {
    let binds = parse("mode super + m:\n  a: echo A\nb: echo B\n");
    assert_eq!(binds.len(), 2);
    let inner = match &binds[0].action {
        Action::EnterMode { binds } => binds,
        Action::ToRoot => panic!("expected a mode"),
    };
    assert_eq!(inner.len(), 1);
    assert_eq!(inner[0].output.as_deref(), Some("echo A"));
    assert!(matches!(binds[1].chord.key, Key::B));
    assert_eq!(binds[1].output.as_deref(), Some("echo B"));
}

#[test]
fn blank_lines_between_binds_are_skipped() {
    let binds = parse("a: echo A\n\n\nb: echo B\n");
    assert_eq!(binds.len(), 2);
    assert_eq!(binds[0].output.as_deref(), Some("echo A"));
    assert_eq!(binds[1].output.as_deref(), Some("echo B"));
}

#[test]
fn comments_are_skipped() {
    let binds = parse("# greeting\na: echo A\n# another\nb: echo B\n");
    assert_eq!(binds.len(), 2);
    assert_eq!(binds[0].output.as_deref(), Some("echo A"));
    assert_eq!(binds[1].output.as_deref(), Some("echo B"));
}

#[test]
fn trailing_garbage_is_ignored() {
    let binds = parse("a: echo A\n???: what\n");
    assert_eq!(binds.len(), 1);
    assert_eq!(binds[0].output.as_deref(), Some("echo A"));
}

#[test]
fn multiline_command_block() {
    let binds = parse("a:\n  echo one\n  echo two\nb: echo B\n");
    assert_eq!(binds.len(), 2);
    assert_eq!(binds[0].output.as_deref(), Some("echo one\necho two"));
    assert_eq!(binds[1].output.as_deref(), Some("echo B"));
}

#[test]
fn multiline_preserves_extra_indentation() {
    let binds = parse("a:\n  if true; then\n    echo x\n  fi\n");
    assert_eq!(binds.len(), 1);
    assert_eq!(binds[0].output.as_deref(), Some("if true; then\n  echo x\nfi"));
}

#[test]
fn multiline_keeps_internal_blank_lines_and_trims_trailing() {
    let binds = parse("a:\n  echo one\n\n  echo two\n\n\n");
    assert_eq!(binds.len(), 1);
    assert_eq!(binds[0].output.as_deref(), Some("echo one\n\necho two"));
}

#[test]
fn multiline_strips_up_to_reference_indentation() {
    let (data, mut state) = new_parser("  foo\n  bar\nbaz\n");
    let text = data.multiline(&mut state);
    assert_eq!(text, "foo\nbar\n");
}

#[test]
fn mode_with_multiline_bind() {
    let binds = parse("mode super + m:\n  a:\n    echo one\n    echo two\n  b: echo B\n");
    assert_eq!(binds.len(), 1);
    let inner = match &binds[0].action {
        Action::EnterMode { binds } => binds,
        Action::ToRoot => panic!("expected a mode"),
    };
    assert_eq!(inner.len(), 2);
    assert_eq!(inner[0].output.as_deref(), Some("echo one\necho two"));
    assert_eq!(inner[1].output.as_deref(), Some("echo B"));
}

#[test]
fn single_line_command_trims_trailing_whitespace() {
    let binds = parse("a: echo hi   \nb: echo B\n");
    assert_eq!(binds[0].output.as_deref(), Some("echo hi"));
    assert_eq!(binds.len(), 2);
}

#[test]
fn all_modifier_keywords_accumulate() {
    let binds = parse(
        "shift + caps-lock + ctrl + alt + num-lock + mod3 + super + mod5 + a: x\n",
    );
    assert_eq!(binds.len(), 1);
    assert_eq!(
        binds[0].chord.modifiers.bits,
        MOD_SHIFT | MOD_LOCK | MOD_CONTROL | MOD_1 | MOD_2 | MOD_3 | MOD_4 | MOD_5,
    );
}

#[test]
fn lone_plus_is_leniently_consumed() {
    let binds = parse("+ a: x\n");
    assert_eq!(binds.len(), 1);
    assert_eq!(binds[0].chord.modifiers.bits, 0);
    assert!(matches!(binds[0].chord.key, Key::A));

    let binds = parse("ctrl + + a: x\n");
    assert_eq!(binds.len(), 1);
    assert_eq!(binds[0].chord.modifiers.bits, MOD_CONTROL);
}

#[test]
fn unknown_key_fails_the_bind() {
    assert_eq!(parse("nosuchkey: echo hi\n").len(), 0);
}

#[test]
fn missing_colon_fails_the_bind() {
    assert_eq!(parse("a echo hi\n").len(), 0);
}

#[test]
fn mode_trailing_space_after_colon_fails() {
    assert_eq!(parse("mode super + m: \n  a: echo A\n").len(), 0);
}

#[test]
fn empty_config_is_valid_and_idle() {
    assert_eq!(parse("").len(), 0);
    assert_eq!(parse("\n\n").len(), 0);
}

#[test]
fn key_names_resolve_kebab_case() {
    assert!(matches!(Key::from_name(b"esc"), Some(Key::Esc)));
    assert!(matches!(Key::from_name(b"caps-lock"), Some(Key::CapsLock)));
    assert!(matches!(Key::from_name(b"numpad5"), Some(Key::Numpad5)));
    assert!(matches!(Key::from_name(b"numpad-return"), Some(Key::NumpadReturn)));
    assert!(matches!(Key::from_name(b"l-brace"), Some(Key::LBrace)));
    assert!(matches!(Key::from_name(b"q"), Some(Key::Q)));
    assert!(Key::from_name(b"nosuchkey").is_none());
    assert!(Key::from_name(b"").is_none());
    assert!(Key::from_name(b"Esc").is_none());
}

#[test]
fn key_codes_are_fixed() {
    assert_eq!(Key::Esc.code(), 9);
    assert_eq!(Key::A.code(), 38);
    assert_eq!(Key::M.code(), 58);
    assert_eq!(Key::Space.code(), 65);
    assert_eq!(Key::NumpadReturn.code(), 104);
}

#[test]
fn tokenizer_primitives_behave() {
    let (data, mut state) = new_parser("hello-w_1 rest\n# note\nlast");
    let token = data.identifier(&mut state).expect("identifier");
    assert_eq!(token.slice, &b"hello-w_1"[..]);
    assert_eq!(token.i, 0);
    assert!(data.identifier(&mut state).is_none());
    data.whitespace(&mut state);
    assert!(data.string(&mut state, "rest"));
    assert!(!data.string(&mut state, "rest"));
    assert!(data.string(&mut state, "\n"));
    let comment = data.comment(&mut state).expect("comment");
    assert_eq!(comment.slice, &b"# note"[..]);
    let line = data.line(&mut state).expect("line");
    assert_eq!(line.slice, &b"last"[..]);
    assert!(data.line(&mut state).is_none());
}

#[test]
fn offside_measures_leading_spaces() {
    let (data, mut state) = new_parser("   x\n\n  y\n");
    let m = data.offside(&mut state);
    assert_eq!(m, 3);
    assert!(!data.offside_rule(&state, m, 2));
    assert!(data.offside_rule(&state, 1, 2));
    data.newlines(&mut state);
}
