use wiremix::config::help::{Help, HelpBinding};
use wiremix::config::keybinding::Action;
use wiremix::key::{KeyCode, KeyEvent, CONTROL, NONE};

fn binding(code: KeyCode, action: Action, keys: &str, text: &str) -> HelpBinding {
    (KeyEvent { code, modifiers: NONE }, action, String::from(keys), String::from(text))
}

#[test]
fn help_empty() {
    let help = Help::from_keybindings(vec![]);
    assert!(help.rows.is_empty());
    assert_eq!(help.widths, [0, 0]);
}

#[test]
fn help_single_binding() {
    let help = Help::from_keybindings(vec![binding(KeyCode::Char('?'), Action::Help, "?", "Show/hide help")]);
    assert_eq!(help.rows.len(), 1);
    assert_eq!(help.rows[0], [String::from("Show/hide help"), String::from("?")]);
    assert_eq!(help.widths[0], "Show/hide help".len());
    assert_eq!(help.widths[1], "?".len());
}

#[test]
fn help_nothing_filtered() {
    let help = Help::from_keybindings(vec![
        binding(KeyCode::Char('?'), Action::Help, "?", "Show/hide help"),
        binding(KeyCode::Char('.'), Action::Nothing, ".", "Nothing"),
    ]);
    assert_eq!(help.rows.len(), 1);
    assert_eq!(help.rows[0], [String::from("Show/hide help"), String::from("?")]);
    assert_eq!(help.widths[0], "Show/hide help".len());
    assert_eq!(help.widths[1], "?".len());
}

#[test]
fn help_same_action() {
    let help = Help::from_keybindings(vec![
        binding(KeyCode::Char('?'), Action::Help, "?", "Show/hide help"),
        binding(KeyCode::F(1), Action::Help, "F1", "Show/hide help"),
    ]);
    assert_eq!(help.rows.len(), 2);
    // Keybindings should be sorted
    // First binding shows the action name
    assert_eq!(help.rows[0], [String::from("Show/hide help"), String::from("F1")]);
    // Second binding should have empty action name
    assert_eq!(help.rows[1], [String::from(""), String::from("?")]);
    assert_eq!(help.widths[0], "Show/hide help".len());
    assert_eq!(help.widths[1], "F1".len());
}

#[test]
fn help_orders_by_action_then_key() {
    let help = Help::from_keybindings(vec![
        binding(KeyCode::Char('q'), Action::Exit, "q", "Exit"),
        binding(KeyCode::Char('k'), Action::MoveUp, "k", "Move up"),
        binding(KeyCode::Char('2'), Action::SetAbsoluteVolume(20), "2", "Set volume to 20%"),
        binding(KeyCode::Char('1'), Action::SetAbsoluteVolume(10), "1", "Set volume to 10%"),
        binding(KeyCode::Up, Action::MoveUp, "Up", "Move up"),
    ]);
    let keys: Vec<&str> = help.rows.iter().map(|r| r[1].as_str()).collect();
    assert_eq!(keys, vec!["Up", "k", "1", "2", "q"]);
    assert_eq!(help.rows[0][0], "Move up");
    assert_eq!(help.rows[1][0], "");
    assert_eq!(help.rows[2][0], "Set volume to 10%");
    assert_eq!(help.rows[3][0], "Set volume to 20%");
}

#[test]
fn help_modifiers_come_after_the_plain_key() {
    let help = Help::from_keybindings(vec![
        (KeyEvent { code: KeyCode::Char('c'), modifiers: CONTROL }, Action::Exit, String::from("Ctrl+c"), String::from("Exit")),
        binding(KeyCode::Char('c'), Action::Exit, "c", "Exit"),
    ]);
    assert_eq!(help.rows[0], [String::from("Exit"), String::from("c")]);
    assert_eq!(help.rows[1], [String::from(""), String::from("Ctrl+c")]);
}

#[test]
fn help_widths_count_bytes() {
    let help = Help::from_bindings(&vec![
        (String::from("Ctrl+é"), String::from("Mute")),
        (String::from("m"), String::from("Mute")),
    ]);
    assert_eq!(help.widths, ["Mute".len(), "Ctrl+é".len()]);
    assert_eq!(help.widths[1], 7);
}

#[test]
fn help_calculate_widths_of_rows() {
    let rows = vec![
        [String::from("a"), String::from("bbb")],
        [String::from("cc"), String::from("d")],
    ];
    assert_eq!(Help::calculate_widths(&rows), [2, 3]);
}
