//! Key bindings: what each key does. There is a default table; configured
//! bindings replace the defaults for their keys, and a key bound to
//! `Nothing` does nothing.

use vstd::prelude::*;

use crate::text::{concat, decimal, decimal_text};
use crate::key::{control_char_key, control_char_key_spec, KeyCode, KeyEvent, NONE, SHIFT};

verus! {

/// What a key does. Volumes are in hundredths: a relative change of `1`
/// raises the volume by 1%, an absolute volume of `50` sets it to 50%.
#[derive(Debug, Clone, Copy, PartialEq, Eq, Structural)]
pub enum Action {
    MoveUp,
    MoveDown,
    ActivateDropdown,
    CloseDropdown,
    ToggleMute,
    SetAbsoluteVolume(i32),
    SetRelativeVolume(i32),
    SetDefault,
    TabLeft,
    TabRight,
    Help,
    Exit,
    Nothing,
}

/// Where an action comes in the order of actions: the order in which they
/// are declared, then their volume.
pub open spec fn action_rank(a: Action) -> (int, int) {
    match a {
        Action::MoveUp => (0, 0),
        Action::MoveDown => (1, 0),
        Action::ActivateDropdown => (2, 0),
        Action::CloseDropdown => (3, 0),
        Action::ToggleMute => (4, 0),
        Action::SetAbsoluteVolume(v) => (5, v as int),
        Action::SetRelativeVolume(v) => (6, v as int),
        Action::SetDefault => (7, 0),
        Action::TabLeft => (8, 0),
        Action::TabRight => (9, 0),
        Action::Help => (10, 0),
        Action::Exit => (11, 0),
        Action::Nothing => (12, 0),
    }
}

/// A key with no modifier.
pub open spec fn plain(code: KeyCode) -> KeyEvent {
    KeyEvent { code, modifiers: NONE }
}

/// The default bindings.
pub open spec fn default_bindings_spec() -> Seq<(KeyEvent, Action)> {
    seq![
        (plain(KeyCode::Char('q')), Action::Exit),
        (plain(KeyCode::Char('m')), Action::ToggleMute),
        (plain(KeyCode::Char('d')), Action::SetDefault),
        (plain(KeyCode::Char('l')), Action::SetRelativeVolume(1)),
        (plain(KeyCode::Right), Action::SetRelativeVolume(1)),
        (plain(KeyCode::Char('h')), Action::SetRelativeVolume(-1i32)),
        (plain(KeyCode::Left), Action::SetRelativeVolume(-1i32)),
        (plain(KeyCode::Esc), Action::CloseDropdown),
        (plain(KeyCode::Char('c')), Action::ActivateDropdown),
        (plain(KeyCode::Enter), Action::ActivateDropdown),
        (plain(KeyCode::Char('j')), Action::MoveDown),
        (plain(KeyCode::Down), Action::MoveDown),
        (plain(KeyCode::Char('k')), Action::MoveUp),
        (plain(KeyCode::Up), Action::MoveUp),
        (plain(KeyCode::Char('H')), Action::TabLeft),
        (plain(KeyCode::Char('L')), Action::TabRight),
        (KeyEvent { code: KeyCode::BackTab, modifiers: SHIFT }, Action::TabLeft),
        (plain(KeyCode::Tab), Action::TabRight),
        (plain(KeyCode::Char('`')), Action::SetAbsoluteVolume(0)),
        (plain(KeyCode::Char('1')), Action::SetAbsoluteVolume(10)),
        (plain(KeyCode::Char('2')), Action::SetAbsoluteVolume(20)),
        (plain(KeyCode::Char('3')), Action::SetAbsoluteVolume(30)),
        (plain(KeyCode::Char('4')), Action::SetAbsoluteVolume(40)),
        (plain(KeyCode::Char('5')), Action::SetAbsoluteVolume(50)),
        (plain(KeyCode::Char('6')), Action::SetAbsoluteVolume(60)),
        (plain(KeyCode::Char('7')), Action::SetAbsoluteVolume(70)),
        (plain(KeyCode::Char('8')), Action::SetAbsoluteVolume(80)),
        (plain(KeyCode::Char('9')), Action::SetAbsoluteVolume(90)),
        (plain(KeyCode::Char('0')), Action::SetAbsoluteVolume(100)),
    ]
}

/// The action bound to `key`: that of its first binding, if any.
pub open spec fn bound(b: Seq<(KeyEvent, Action)>, key: KeyEvent) -> Option<Action>
    decreases b.len(),
{
    if b.len() == 0 {
        None
    } else if b[0].0 == key {
        Some(b[0].1)
    } else {
        bound(b.skip(1), key)
    }
}

/// The action of the last configured binding of `key`, if any.
pub open spec fn last_configured(c: Seq<(KeyEvent, Action)>, key: KeyEvent) -> Option<Action>
    decreases c.len(),
{
    if c.len() == 0 {
        None
    } else if c.last().0 == key {
        Some(c.last().1)
    } else {
        last_configured(c.drop_last(), key)
    }
}

/// The bindings in effect: a key's last configured binding, else its
/// default.
pub open spec fn merged_binding(configured: Seq<(KeyEvent, Action)>, key: KeyEvent) -> Option<Action> {
    match last_configured(configured, key) {
        Some(a) => Some(a),
        None => bound(default_bindings_spec(), key),
    }
}


/// The digit that a key writes, if it is a digit key.
pub open spec fn digit_of(code: KeyCode) -> Option<int> {
    match code {
        KeyCode::Char(c) => if '0' <= c && c <= '9' {
            Some(c as int - '0' as int)
        } else {
            None
        },
        _ => None,
    }
}

/// Setting the volume to `n` tenths.
pub open spec fn tenths_volume(n: int) -> Action {
    Action::SetAbsoluteVolume((n * 10) as i32)
}

/// The default action of a key, taken key by key.
spec fn default_action(k: KeyEvent) -> Option<Action> {
    let c = k.code;
    if k == (KeyEvent { code: KeyCode::BackTab, modifiers: SHIFT }) {
        Some(Action::TabLeft)
    } else if k.modifiers != NONE {
        None
    } else if c == KeyCode::Char('q') {
        Some(Action::Exit)
    } else if c == KeyCode::Char('m') {
        Some(Action::ToggleMute)
    } else if c == KeyCode::Char('d') {
        Some(Action::SetDefault)
    } else if c == KeyCode::Char('l') || c == KeyCode::Right {
        Some(Action::SetRelativeVolume(1))
    } else if c == KeyCode::Char('h') || c == KeyCode::Left {
        Some(Action::SetRelativeVolume(-1i32))
    } else if c == KeyCode::Esc {
        Some(Action::CloseDropdown)
    } else if c == KeyCode::Char('c') || c == KeyCode::Enter {
        Some(Action::ActivateDropdown)
    } else if c == KeyCode::Char('j') || c == KeyCode::Down {
        Some(Action::MoveDown)
    } else if c == KeyCode::Char('k') || c == KeyCode::Up {
        Some(Action::MoveUp)
    } else if c == KeyCode::Char('H') {
        Some(Action::TabLeft)
    } else if c == KeyCode::Char('L') || c == KeyCode::Tab {
        Some(Action::TabRight)
    } else if c == KeyCode::Char('`') {
        Some(Action::SetAbsoluteVolume(0))
    } else if c == KeyCode::Char('0') {
        Some(Action::SetAbsoluteVolume(100))
    } else if digit_of(c) is Some && digit_of(c)->0 >= 1 {
        Some(Action::SetAbsoluteVolume((digit_of(c)->0 * 10) as i32))
    } else {
        None
    }
}

proof fn lemma_bound_step(b: Seq<(KeyEvent, Action)>, k: KeyEvent, i: int)
    requires
        0 <= i < b.len(),
    ensures
        bound(b.skip(i), k) == if b[i].0 == k {
            Some(b[i].1)
        } else {
            bound(b.skip(i + 1), k)
        },
{
    assert(b.skip(i).skip(1) =~= b.skip(i + 1));
    assert(b.skip(i)[0] == b[i]);
}

proof fn lemma_default_table(k: KeyEvent)
    ensures
        bound(default_bindings_spec(), k) == default_action(k),
{
    let d = default_bindings_spec();
    assert(d.len() == 29);
    assert(d.skip(0) =~= d);
    assert(bound(d.skip(29), k) is None);
    lemma_bound_step(d, k, 0);
    lemma_bound_step(d, k, 1);
    lemma_bound_step(d, k, 2);
    lemma_bound_step(d, k, 3);
    lemma_bound_step(d, k, 4);
    lemma_bound_step(d, k, 5);
    lemma_bound_step(d, k, 6);
    lemma_bound_step(d, k, 7);
    lemma_bound_step(d, k, 8);
    lemma_bound_step(d, k, 9);
    lemma_bound_step(d, k, 10);
    lemma_bound_step(d, k, 11);
    lemma_bound_step(d, k, 12);
    lemma_bound_step(d, k, 13);
    lemma_bound_step(d, k, 14);
    lemma_bound_step(d, k, 15);
    lemma_bound_step(d, k, 16);
    lemma_bound_step(d, k, 17);
    lemma_bound_step(d, k, 18);
    lemma_bound_step(d, k, 19);
    lemma_bound_step(d, k, 20);
    lemma_bound_step(d, k, 21);
    lemma_bound_step(d, k, 22);
    lemma_bound_step(d, k, 23);
    lemma_bound_step(d, k, 24);
    lemma_bound_step(d, k, 25);
    lemma_bound_step(d, k, 26);
    lemma_bound_step(d, k, 27);
    lemma_bound_step(d, k, 28);
}

/// The default keys, action by action: `q` leaves; `m` mutes; `d` sets the
/// default; `l` or Right raises and `h` or Left lowers the volume by one
/// hundredth; Esc closes and `c` or Enter opens the dropdown; `j` or Down
/// and `k` or Up move; `H` or Shift-BackTab and `L` or Tab change tabs;
/// backtick sets the volume to 0%, a digit from 1 to 9 to ten times it, and
/// `0` to 100%. No other key is bound.
pub proof fn lemma_default_bindings(k: KeyEvent)
    ensures
        ({
            let a = bound(default_bindings_spec(), k);
            &&& a == Some(Action::Exit) <==> k == plain(KeyCode::Char('q'))
            &&& a == Some(Action::ToggleMute) <==> k == plain(KeyCode::Char('m'))
            &&& a == Some(Action::SetDefault) <==> k == plain(KeyCode::Char('d'))
            &&& a == Some(Action::SetRelativeVolume(1)) <==> (k == plain(KeyCode::Char('l')) || k == plain(
                KeyCode::Right,
            ))
            &&& a == Some(Action::SetRelativeVolume(-1i32)) <==> (k == plain(KeyCode::Char('h')) || k == plain(
                KeyCode::Left,
            ))
            &&& a == Some(Action::CloseDropdown) <==> k == plain(KeyCode::Esc)
            &&& a == Some(Action::ActivateDropdown) <==> (k == plain(KeyCode::Char('c')) || k == plain(
                KeyCode::Enter,
            ))
            &&& a == Some(Action::MoveDown) <==> (k == plain(KeyCode::Char('j')) || k == plain(KeyCode::Down))
            &&& a == Some(Action::MoveUp) <==> (k == plain(KeyCode::Char('k')) || k == plain(KeyCode::Up))
            &&& a == Some(Action::TabLeft) <==> (k == plain(KeyCode::Char('H')) || k == (KeyEvent {
                code: KeyCode::BackTab,
                modifiers: SHIFT,
            }))
            &&& a == Some(Action::TabRight) <==> (k == plain(KeyCode::Char('L')) || k == plain(KeyCode::Tab))
            &&& a == Some(Action::SetAbsoluteVolume(0)) <==> k == plain(KeyCode::Char('`'))
            &&& a == Some(Action::SetAbsoluteVolume(100)) <==> k == plain(KeyCode::Char('0'))
            &&& forall|n: int|
                1 <= n <= 9 ==> (a == Some(#[trigger] tenths_volume(n)) <==> (k.modifiers == NONE && digit_of(k.code)
                    == Some(n)))
            &&& a is Some <==> (k.modifiers == NONE && (k.code == KeyCode::Char('q') || k.code == KeyCode::Char('m')
                || k.code == KeyCode::Char('d') || k.code == KeyCode::Char('l') || k.code == KeyCode::Right
                || k.code == KeyCode::Char('h') || k.code == KeyCode::Left || k.code == KeyCode::Esc || k.code
                == KeyCode::Char('c') || k.code == KeyCode::Enter || k.code == KeyCode::Char('j') || k.code
                == KeyCode::Down || k.code == KeyCode::Char('k') || k.code == KeyCode::Up || k.code
                == KeyCode::Char('H') || k.code == KeyCode::Char('L') || k.code == KeyCode::Tab || k.code
                == KeyCode::Char('`') || digit_of(k.code) is Some)) || k
                == (KeyEvent { code: KeyCode::BackTab, modifiers: SHIFT })
        }),
{
    lemma_default_table(k);
}

fn key(code: KeyCode) -> (k: KeyEvent)
    ensures
        k == plain(code),
{
    KeyEvent { code, modifiers: NONE }
}

/// The default bindings.
pub fn default_keybindings() -> (b: Vec<(KeyEvent, Action)>)
    ensures
        b@ == default_bindings_spec(),
{
    let mut b: Vec<(KeyEvent, Action)> = Vec::new();
    b.push((key(KeyCode::Char('q')), Action::Exit));
    b.push((key(KeyCode::Char('m')), Action::ToggleMute));
    b.push((key(KeyCode::Char('d')), Action::SetDefault));
    b.push((key(KeyCode::Char('l')), Action::SetRelativeVolume(1)));
    b.push((key(KeyCode::Right), Action::SetRelativeVolume(1)));
    b.push((key(KeyCode::Char('h')), Action::SetRelativeVolume(-1)));
    b.push((key(KeyCode::Left), Action::SetRelativeVolume(-1)));
    b.push((key(KeyCode::Esc), Action::CloseDropdown));
    b.push((key(KeyCode::Char('c')), Action::ActivateDropdown));
    b.push((key(KeyCode::Enter), Action::ActivateDropdown));
    b.push((key(KeyCode::Char('j')), Action::MoveDown));
    b.push((key(KeyCode::Down), Action::MoveDown));
    b.push((key(KeyCode::Char('k')), Action::MoveUp));
    b.push((key(KeyCode::Up), Action::MoveUp));
    b.push((key(KeyCode::Char('H')), Action::TabLeft));
    b.push((key(KeyCode::Char('L')), Action::TabRight));
    b.push((KeyEvent { code: KeyCode::BackTab, modifiers: SHIFT }, Action::TabLeft));
    b.push((key(KeyCode::Tab), Action::TabRight));
    b.push((key(KeyCode::Char('`')), Action::SetAbsoluteVolume(0)));
    b.push((key(KeyCode::Char('1')), Action::SetAbsoluteVolume(10)));
    b.push((key(KeyCode::Char('2')), Action::SetAbsoluteVolume(20)));
    b.push((key(KeyCode::Char('3')), Action::SetAbsoluteVolume(30)));
    b.push((key(KeyCode::Char('4')), Action::SetAbsoluteVolume(40)));
    b.push((key(KeyCode::Char('5')), Action::SetAbsoluteVolume(50)));
    b.push((key(KeyCode::Char('6')), Action::SetAbsoluteVolume(60)));
    b.push((key(KeyCode::Char('7')), Action::SetAbsoluteVolume(70)));
    b.push((key(KeyCode::Char('8')), Action::SetAbsoluteVolume(80)));
    b.push((key(KeyCode::Char('9')), Action::SetAbsoluteVolume(90)));
    b.push((key(KeyCode::Char('0')), Action::SetAbsoluteVolume(100)));
    assert(b@ =~= default_bindings_spec());
    b
}

/// The first position of `key` in `b`, if any.
fn position_of_key(b: &Vec<(KeyEvent, Action)>, k: KeyEvent) -> (p: Option<usize>)
    ensures
        match p {
            Some(i) => i < b@.len() && b@[i as int].0 == k && forall|j: int| 0 <= j < i ==> b@[j].0 != k,
            None => forall|j: int| 0 <= j < b@.len() ==> b@[j].0 != k,
        },
{
    let mut i: usize = 0;
    while i < b.len()
        invariant
            i <= b@.len(),
            forall|j: int| 0 <= j < i ==> b@[j].0 != k,
        decreases b.len() - i,
    {
        if b[i].0 == k {
            return Some(i);
        }
        i += 1;
    }
    None
}

/// `bound` finds the first binding of a key, at its first position.
proof fn lemma_bound_at(b: Seq<(KeyEvent, Action)>, k: KeyEvent, n: int)
    requires
        0 <= n <= b.len(),
        forall|j: int| 0 <= j < n ==> b[j].0 != k,
    ensures
        bound(b, k) == if n < b.len() && b[n].0 == k {
            Some(b[n].1)
        } else {
            bound(b.skip(n), k)
        },
    decreases n,
{
    if n > 0 {
        assert forall|j: int| 0 <= j < n - 1 implies b.skip(1)[j].0 != k by {
            assert(b.skip(1)[j] == b[j + 1]);
        }
        lemma_bound_at(b.skip(1), k, n - 1);
        assert(b.skip(1).skip(n - 1) =~= b.skip(n));
        if n < b.len() {
            assert(b.skip(1)[n - 1] == b[n]);
        }
    } else {
        assert(b.skip(0) =~= b);
    }
}

/// A key bound nowhere in `b` finds nothing.
proof fn lemma_bound_none(b: Seq<(KeyEvent, Action)>, k: KeyEvent)
    requires
        forall|j: int| 0 <= j < b.len() ==> b[j].0 != k,
    ensures
        bound(b, k) is None,
{
    lemma_bound_at(b, k, b.len() as int);
    assert(b.skip(b.len() as int) =~= Seq::<(KeyEvent, Action)>::empty());
}

/// The action bound to `key`.
pub fn action_for(bindings: &Vec<(KeyEvent, Action)>, key: KeyEvent) -> (a: Option<Action>)
    ensures
        a == bound(bindings@, key),
{
    match position_of_key(bindings, key) {
        Some(i) => {
            proof {
                lemma_bound_at(bindings@, key, i as int);
            }
            Some(bindings[i].1)
        },
        None => {
            proof {
                lemma_bound_none(bindings@, key);
            }
            None
        },
    }
}

/// Binds `k` to `a`, in place of its binding if it has one.
fn set_binding(b: &mut Vec<(KeyEvent, Action)>, k: KeyEvent, a: Action)
    ensures
        forall|key: KeyEvent| #[trigger]
            bound(final(b)@, key) == if key == k {
                Some(a)
            } else {
                bound(old(b)@, key)
            },
{
    match position_of_key(b, k) {
        Some(i) => {
            let ghost before = b@;
            b.set(i, (k, a));
            proof {
                assert forall|key: KeyEvent| #[trigger]
                    bound(b@, key) == if key == k {
                        Some(a)
                    } else {
                        bound(before, key)
                    } by {
                    lemma_bound_at(b@, k, i as int);
                    if key != k {
                        lemma_first_key(before, key, i as int);
                        let f = first_key(before, key, i as int);
                        lemma_bound_at(before, key, f);
                        lemma_bound_at(b@, key, f);
                        if f == i {
                            lemma_bound_at(before, key, i + 1);
                            lemma_bound_at(b@, key, i + 1);
                            assert(b@.skip(i + 1) =~= before.skip(i + 1));
                        }
                    }
                }
            }
        },
        None => {
            let ghost before = b@;
            b.push((k, a));
            proof {
                assert forall|key: KeyEvent| #[trigger]
                    bound(b@, key) == if key == k {
                        Some(a)
                    } else {
                        bound(before, key)
                    } by {
                    lemma_first_key(before, key, before.len() as int);
                    let f = first_key(before, key, before.len() as int);
                    lemma_bound_at(before, key, f);
                    lemma_bound_at(b@, key, f);
                    if f == before.len() && key != k {
                        lemma_bound_at(b@, key, f + 1);
                        assert(b@.skip(f + 1) =~= Seq::<(KeyEvent, Action)>::empty());
                        assert(before.skip(f) =~= Seq::<(KeyEvent, Action)>::empty());
                    }
                }
            }
        },
    }
}

/// The first position before `n` that holds `key`, or `n`.
spec fn first_key(b: Seq<(KeyEvent, Action)>, key: KeyEvent, n: int) -> int
    decreases n,
{
    if n <= 0 {
        0
    } else if first_key(b, key, n - 1) < n - 1 {
        first_key(b, key, n - 1)
    } else if b[n - 1].0 == key {
        n - 1
    } else {
        n
    }
}

proof fn lemma_first_key(b: Seq<(KeyEvent, Action)>, key: KeyEvent, n: int)
    requires
        0 <= n <= b.len(),
    ensures
        0 <= first_key(b, key, n) <= n,
        forall|j: int| 0 <= j < first_key(b, key, n) ==> b[j].0 != key,
        first_key(b, key, n) < n ==> b[first_key(b, key, n)].0 == key,
    decreases n,
{
    if n > 0 {
        lemma_first_key(b, key, n - 1);
    }
}

/// The default bindings with the configured ones over them: a configured
/// binding replaces the binding of its key (the last one configured for a
/// key counts), and `Nothing` leaves a key doing nothing.
pub fn merge_keybindings(configured: Vec<(KeyEvent, Action)>) -> (m: Vec<(KeyEvent, Action)>)
    ensures
        forall|k: KeyEvent| #[trigger] bound(m@, k) == merged_binding(configured@, k),
{
    let mut m = default_keybindings();
    let mut i: usize = 0;
    while i < configured.len()
        invariant
            i <= configured@.len(),
            forall|k: KeyEvent| #[trigger]
                bound(m@, k) == merged_binding(configured@.take(i as int), k),
        decreases configured.len() - i,
    {
        let (k, a) = configured[i];
        set_binding(&mut m, k, a);
        proof {
            let t = configured@.take(i + 1);
            assert(t.drop_last() =~= configured@.take(i as int));
            assert(t.last() == configured@[i as int]);
            assert forall|key: KeyEvent| #[trigger] bound(m@, key) == merged_binding(t, key) by {
                assert(bound(m@, key) == if key == k {
                    Some(a)
                } else {
                    merged_binding(configured@.take(i as int), key)
                });
            }
        }
        i += 1;
    }
    assert(configured@.take(configured@.len() as int) =~= configured@);
    m
}

/// The bindings that end the mixer on the terminal's control characters:
/// one for each byte that stands for a key press, in order.
pub open spec fn control_bindings_spec(bytes: Seq<u8>) -> Seq<(KeyEvent, Action)>
    decreases bytes.len(),
{
    if bytes.len() == 0 {
        seq![]
    } else {
        control_bindings_spec(bytes.drop_last()) + match control_char_key_spec(bytes.last()) {
            Some(k) => seq![(k, Action::Exit)],
            None => seq![],
        }
    }
}

/// The bindings that emulate the terminal's special characters (interrupt,
/// quit, end of file), given their bytes: each makes the mixer end.
pub fn control_char_keybindings(bytes: &Vec<u8>) -> (b: Vec<(KeyEvent, Action)>)
    ensures
        b@ == control_bindings_spec(bytes@),
{
    let mut b: Vec<(KeyEvent, Action)> = Vec::new();
    let mut i: usize = 0;
    while i < bytes.len()
        invariant
            i <= bytes@.len(),
            b@ == control_bindings_spec(bytes@.take(i as int)),
        decreases bytes.len() - i,
    {
        let ghost before = b@;
        match control_char_key(bytes[i]) {
            Some(k) => b.push((k, Action::Exit)),
            None => {},
        }
        proof {
            let t = bytes@.take(i + 1);
            assert(t.drop_last() =~= bytes@.take(i as int));
            assert(t.last() == bytes@[i as int]);
            assert(b@ =~= control_bindings_spec(t));
        }
        i += 1;
    }
    assert(bytes@.take(bytes@.len() as int) =~= bytes@);
    b
}

/// `n` percent, written out.
pub open spec fn percent_text(n: int) -> Seq<char> {
    if n >= 0 {
        decimal_text(n as nat) + "%"@
    } else {
        "-"@ + decimal_text((-n) as nat) + "%"@
    }
}

/// How the help names an action.
pub open spec fn action_text_spec(a: Action) -> Seq<char> {
    match a {
        Action::MoveUp => "Move up"@,
        Action::MoveDown => "Move down"@,
        Action::ActivateDropdown => "Activate dropdown"@,
        Action::CloseDropdown => "Close dropdown"@,
        Action::ToggleMute => "Toggle mute"@,
        Action::SetAbsoluteVolume(v) => "Set volume to "@ + percent_text(v as int),
        Action::SetRelativeVolume(v) => if v == 1 {
            "Increment volume"@
        } else if v == -1 {
            "Decrement volume"@
        } else if v >= 0 {
            "Increase volume by "@ + percent_text(v as int)
        } else {
            "Decrease volume by "@ + percent_text(-v)
        },
        Action::SetDefault => "Set default"@,
        Action::TabLeft => "Previous tab"@,
        Action::TabRight => "Next tab"@,
        Action::Help => "Show/hide help"@,
        Action::Exit => "Exit"@,
        Action::Nothing => "Nothing"@,
    }
}

fn percent(prefix: &str, n: i64) -> (s: String)
    requires
        -0x8000_0000 <= n <= 0x8000_0000,
    ensures
        s@ == prefix@ + percent_text(n as int),
{
    if n >= 0 {
        let d = decimal(n as u32);
        let t = concat(d.as_str(), "%");
        concat(prefix, t.as_str())
    } else {
        let magnitude: i64 = 0i64 - n;
        let d = decimal(magnitude as u32);
        let t = concat(d.as_str(), "%");
        let u = concat("-", t.as_str());
        let r = concat(prefix, u.as_str());
        assert(r@ == prefix@ + ("-"@ + decimal_text((-n) as nat) + "%"@));
        r
    }
}

/// How the help names an action: relative volume changes of one hundredth
/// are an increment or decrement, other volumes are written as percents.
pub fn action_text(a: Action) -> (s: String)
    ensures
        s@ == action_text_spec(a),
{
    match a {
        Action::MoveUp => String::from_str("Move up"),
        Action::MoveDown => String::from_str("Move down"),
        Action::ActivateDropdown => String::from_str("Activate dropdown"),
        Action::CloseDropdown => String::from_str("Close dropdown"),
        Action::ToggleMute => String::from_str("Toggle mute"),
        Action::SetAbsoluteVolume(v) => percent("Set volume to ", v as i64),
        Action::SetRelativeVolume(v) => {
            if v == 1 {
                String::from_str("Increment volume")
            } else if v == -1 {
                String::from_str("Decrement volume")
            } else if v >= 0 {
                percent("Increase volume by ", v as i64)
            } else {
                percent("Decrease volume by ", 0i64 - v as i64)
            }
        },
        Action::SetDefault => String::from_str("Set default"),
        Action::TabLeft => String::from_str("Previous tab"),
        Action::TabRight => String::from_str("Next tab"),
        Action::Help => String::from_str("Show/hide help"),
        Action::Exit => String::from_str("Exit"),
        Action::Nothing => String::from_str("Nothing"),
    }
}

} // verus!
