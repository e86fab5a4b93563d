use wiremix::config::keybinding::{action_for, action_text, control_char_keybindings, default_keybindings, merge_keybindings, Action};
use wiremix::key::{KeyCode, KeyEvent, CONTROL, NONE, SHIFT};

fn key(code: KeyCode) -> KeyEvent {
    KeyEvent { code, modifiers: NONE }
}

#[test]
fn defaults_bind_the_documented_keys() {
    let b = default_keybindings();
    assert_eq!(action_for(&b, key(KeyCode::Char('q'))), Some(Action::Exit));
    assert_eq!(action_for(&b, key(KeyCode::Char('m'))), Some(Action::ToggleMute));
    assert_eq!(action_for(&b, key(KeyCode::Char('d'))), Some(Action::SetDefault));
    assert_eq!(action_for(&b, key(KeyCode::Char('l'))), Some(Action::SetRelativeVolume(1)));
    assert_eq!(action_for(&b, key(KeyCode::Left)), Some(Action::SetRelativeVolume(-1)));
    assert_eq!(action_for(&b, key(KeyCode::Enter)), Some(Action::ActivateDropdown));
    assert_eq!(action_for(&b, key(KeyCode::Esc)), Some(Action::CloseDropdown));
    assert_eq!(action_for(&b, key(KeyCode::Down)), Some(Action::MoveDown));
    assert_eq!(action_for(&b, key(KeyCode::Tab)), Some(Action::TabRight));
    assert_eq!(action_for(&b, KeyEvent { code: KeyCode::BackTab, modifiers: SHIFT }), Some(Action::TabLeft));
    assert_eq!(action_for(&b, key(KeyCode::BackTab)), None);
    assert_eq!(action_for(&b, key(KeyCode::Char('`'))), Some(Action::SetAbsoluteVolume(0)));
    assert_eq!(action_for(&b, key(KeyCode::Char('7'))), Some(Action::SetAbsoluteVolume(70)));
    assert_eq!(action_for(&b, key(KeyCode::Char('0'))), Some(Action::SetAbsoluteVolume(100)));
    assert_eq!(action_for(&b, key(KeyCode::Char('z'))), None);
    assert_eq!(action_for(&b, KeyEvent { code: KeyCode::Char('q'), modifiers: CONTROL }), None);
    assert_eq!(b.len(), 29);
}

#[test]
fn configured_bindings_override_defaults() {
    let m = merge_keybindings(vec![
        (key(KeyCode::Char('q')), Action::Help),
        (key(KeyCode::Char('x')), Action::Exit),
    ]);
    assert_eq!(action_for(&m, key(KeyCode::Char('q'))), Some(Action::Help));
    assert_eq!(action_for(&m, key(KeyCode::Char('x'))), Some(Action::Exit));
    assert_eq!(action_for(&m, key(KeyCode::Char('m'))), Some(Action::ToggleMute));
}

#[test]
fn nothing_unbinds_a_key() {
    let m = merge_keybindings(vec![(key(KeyCode::Char('m')), Action::Nothing)]);
    assert_eq!(action_for(&m, key(KeyCode::Char('m'))), Some(Action::Nothing));
    assert_eq!(action_for(&m, key(KeyCode::Char('d'))), Some(Action::SetDefault));
}

#[test]
fn last_configured_binding_wins() {
    let m = merge_keybindings(vec![
        (key(KeyCode::Char('x')), Action::Exit),
        (key(KeyCode::Char('x')), Action::SetRelativeVolume(5)),
    ]);
    assert_eq!(action_for(&m, key(KeyCode::Char('x'))), Some(Action::SetRelativeVolume(5)));
}

#[test]
fn merging_nothing_keeps_the_defaults() {
    let m = merge_keybindings(vec![]);
    let d = default_keybindings();
    for (k, a) in d.iter() {
        assert_eq!(action_for(&m, *k), Some(*a));
    }
}

#[test]
fn control_characters_exit() {
    let b = control_char_keybindings(&vec![3, 28, 4]);
    assert_eq!(b, vec![
        (KeyEvent { code: KeyCode::Char('c'), modifiers: CONTROL }, Action::Exit),
        (KeyEvent { code: KeyCode::Char('4'), modifiers: CONTROL }, Action::Exit),
        (KeyEvent { code: KeyCode::Char('d'), modifiers: CONTROL }, Action::Exit),
    ]);
}

#[test]
fn control_characters_skip_unprintable_bytes() {
    let b = control_char_keybindings(&vec![0, 27, 127, b'q']);
    assert_eq!(b, vec![(key(KeyCode::Esc), Action::Exit), (key(KeyCode::Char('q')), Action::Exit)]);
}

#[test]
fn action_formatting() {
    assert_eq!(action_text(Action::Help), "Show/hide help");
    assert_eq!(action_text(Action::SetRelativeVolume(1)), "Increment volume");
    assert_eq!(action_text(Action::SetRelativeVolume(-1)), "Decrement volume");
    assert_eq!(action_text(Action::SetRelativeVolume(2)), "Increase volume by 2%");
    assert_eq!(action_text(Action::SetRelativeVolume(-2)), "Decrease volume by 2%");
    assert_eq!(action_text(Action::SetRelativeVolume(0)), "Increase volume by 0%");
    assert_eq!(action_text(Action::SetAbsoluteVolume(50)), "Set volume to 50%");
}

#[test]
fn action_texts_of_extreme_volumes() {
    assert_eq!(action_text(Action::SetAbsoluteVolume(-5)), "Set volume to -5%");
    assert_eq!(action_text(Action::SetRelativeVolume(i32::MIN)), "Decrease volume by 2147483648%");
    assert_eq!(action_text(Action::SetAbsoluteVolume(100)), "Set volume to 100%");
}
