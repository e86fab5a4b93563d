//! The help text of the keybindings: a table of actions and the keys bound
//! to them, and the width of each column.

use vstd::prelude::*;
use vstd::utf8::encode_utf8;

use crate::config::keybinding::{action_rank, Action};
use crate::key::{key_code_rank, KeyCode, KeyEvent};
use crate::sort::{is_permutation, sort_by, sorted_by_le, stable_permutation, total_preorder};

verus! {

/// The keybinding help, as rows of `[action, keys]`.
#[derive(Debug)]
pub struct Help {
    pub rows: Vec<[String; 2]>,
    /// The widest text of each column, in bytes.
    pub widths: [usize; 2],
}

/// The length of a text in UTF-8 bytes, as `str::len` gives it.
pub open spec fn byte_len(s: Seq<char>) -> usize {
    encode_utf8(s).len() as usize
}

/// The action text of row `i`: empty when the binding before has the same
/// action, so that an action is named once for its run of keys.
pub open spec fn shown_action(bindings: Seq<(String, String)>, i: int) -> Seq<char> {
    let previous = if i == 0 {
        Seq::<char>::empty()
    } else {
        bindings[i - 1].1@
    };
    if previous == bindings[i].1@ {
        Seq::<char>::empty()
    } else {
        bindings[i].1@
    }
}

/// The widest text in column `c` of the first `n` rows.
pub open spec fn column_width(rows: Seq<[String; 2]>, c: int, n: int) -> usize
    decreases n,
{
    if n <= 0 {
        0
    } else {
        let rest = column_width(rows, c, n - 1);
        let here = byte_len(rows[n - 1][c]@);
        if here > rest {
            here
        } else {
            rest
        }
    }
}

/// A binding with its texts for the help: the key, the action, how the key
/// is written, and how the action is written.
pub type HelpBinding = (KeyEvent, Action, String, String);

/// Where a binding comes in the help: by its action, then by its key.
pub open spec fn binding_rank(b: HelpBinding) -> Seq<int> {
    seq![
        action_rank(b.1).0,
        action_rank(b.1).1,
        key_code_rank(b.0.code).0,
        key_code_rank(b.0.code).1,
        b.0.modifiers as int,
    ]
}

/// `a` comes no later than `b` in the order of their ranks.
pub open spec fn rank_le(a: Seq<int>, b: Seq<int>) -> bool
    decreases a.len(),
{
    if a.len() == 0 || b.len() == 0 {
        true
    } else if a[0] != b[0] {
        a[0] < b[0]
    } else {
        rank_le(a.skip(1), b.skip(1))
    }
}

/// The order of bindings in the help.
pub open spec fn help_order() -> spec_fn(HelpBinding, HelpBinding) -> bool {
    |a: HelpBinding, b: HelpBinding| rank_le(binding_rank(a), binding_rank(b))
}

proof fn lemma_rank_le_total(a: Seq<int>, b: Seq<int>)
    requires
        a.len() == b.len(),
    ensures
        rank_le(a, b) || rank_le(b, a),
    decreases a.len(),
{
    if a.len() > 0 && a[0] == b[0] {
        lemma_rank_le_total(a.skip(1), b.skip(1));
    }
}

proof fn lemma_rank_le_transitive(a: Seq<int>, b: Seq<int>, c: Seq<int>)
    requires
        a.len() == b.len(),
        b.len() == c.len(),
        rank_le(a, b),
        rank_le(b, c),
    ensures
        rank_le(a, c),
    decreases a.len(),
{
    if a.len() > 0 && a[0] == b[0] && b[0] == c[0] {
        lemma_rank_le_transitive(a.skip(1), b.skip(1), c.skip(1));
    }
}

proof fn lemma_help_order_total()
    ensures
        total_preorder(help_order()),
{
    assert forall|a: HelpBinding, b: HelpBinding| #[trigger] help_order()(a, b) || help_order()(b, a) by {
        lemma_rank_le_total(binding_rank(a), binding_rank(b));
    }
    assert forall|a: HelpBinding, b: HelpBinding, c: HelpBinding| #[trigger]
        help_order()(a, b) && #[trigger] help_order()(b, c) implies help_order()(a, c) by {
        lemma_rank_le_transitive(binding_rank(a), binding_rank(b), binding_rank(c));
    }
}

fn action_rank_exec(a: &Action) -> (r: (u8, i32))
    ensures
        (r.0 as int, r.1 as int) == action_rank(*a),
{
    match a {
        Action::MoveUp => (0, 0),
        Action::MoveDown => (1, 0),
        Action::ActivateDropdown => (2, 0),
        Action::CloseDropdown => (3, 0),
        Action::ToggleMute => (4, 0),
        Action::SetAbsoluteVolume(v) => (5, *v),
        Action::SetRelativeVolume(v) => (6, *v),
        Action::SetDefault => (7, 0),
        Action::TabLeft => (8, 0),
        Action::TabRight => (9, 0),
        Action::Help => (10, 0),
        Action::Exit => (11, 0),
        Action::Nothing => (12, 0),
    }
}

fn key_rank_exec(c: &KeyCode) -> (r: (u8, u32))
    ensures
        (r.0 as int, r.1 as int) == key_code_rank(*c),
{
    match c {
        KeyCode::Backspace => (0, 0),
        KeyCode::Enter => (1, 0),
        KeyCode::Left => (2, 0),
        KeyCode::Right => (3, 0),
        KeyCode::Up => (4, 0),
        KeyCode::Down => (5, 0),
        KeyCode::Home => (6, 0),
        KeyCode::End => (7, 0),
        KeyCode::PageUp => (8, 0),
        KeyCode::PageDown => (9, 0),
        KeyCode::Tab => (10, 0),
        KeyCode::BackTab => (11, 0),
        KeyCode::Delete => (12, 0),
        KeyCode::Insert => (13, 0),
        KeyCode::F(n) => (14, *n as u32),
        KeyCode::Char(ch) => (15, *ch as u32),
        KeyCode::Null => (16, 0),
        KeyCode::Esc => (17, 0),
        KeyCode::CapsLock => (18, 0),
        KeyCode::ScrollLock => (19, 0),
        KeyCode::NumLock => (20, 0),
        KeyCode::PrintScreen => (21, 0),
        KeyCode::Pause => (22, 0),
        KeyCode::Menu => (23, 0),
        KeyCode::KeypadBegin => (24, 0),
        KeyCode::Other => (25, 0),
    }
}

fn help_le(a: &HelpBinding, b: &HelpBinding) -> (r: bool)
    ensures
        r == help_order()(*a, *b),
{
    let (a0, a1) = action_rank_exec(&a.1);
    let (b0, b1) = action_rank_exec(&b.1);
    let (a2, a3) = key_rank_exec(&a.0.code);
    let (b2, b3) = key_rank_exec(&b.0.code);
    let a4 = a.0.modifiers;
    let b4 = b.0.modifiers;
    proof {
        reveal_with_fuel(rank_le, 6);
        let ra = binding_rank(*a);
        let rb = binding_rank(*b);
        assert(ra.skip(1) =~= seq![ra[1], ra[2], ra[3], ra[4]]);
        assert(rb.skip(1) =~= seq![rb[1], rb[2], rb[3], rb[4]]);
        assert(ra.skip(1).skip(1) =~= seq![ra[2], ra[3], ra[4]]);
        assert(rb.skip(1).skip(1) =~= seq![rb[2], rb[3], rb[4]]);
        assert(ra.skip(1).skip(1).skip(1) =~= seq![ra[3], ra[4]]);
        assert(rb.skip(1).skip(1).skip(1) =~= seq![rb[3], rb[4]]);
        assert(ra.skip(1).skip(1).skip(1).skip(1) =~= seq![ra[4]]);
        assert(rb.skip(1).skip(1).skip(1).skip(1) =~= seq![rb[4]]);
        assert(ra.skip(1).skip(1).skip(1).skip(1).skip(1) =~= Seq::<int>::empty());
    }
    if a0 != b0 {
        a0 < b0
    } else if a1 != b1 {
        a1 < b1
    } else if a2 != b2 {
        a2 < b2
    } else if a3 != b3 {
        a3 < b3
    } else {
        a4 <= b4
    }
}

/// The bindings that the help lists: all but those to `Nothing`.
pub open spec fn listed(bindings: Seq<HelpBinding>) -> Seq<HelpBinding> {
    bindings.filter(|b: HelpBinding| b.1 != Action::Nothing)
}

/// Whether a row shows the action of row `i` of `texts`: not when the row
/// before has the same action.
pub open spec fn shown_text(texts: Seq<Seq<char>>, i: int) -> Seq<char> {
    if i > 0 && texts[i - 1] == texts[i] {
        Seq::<char>::empty()
    } else {
        texts[i]
    }
}

/// `help` lists the bindings of `s` in order, each action named once for
/// its run of keys.
pub open spec fn help_lists(help: Help, s: Seq<HelpBinding>) -> bool {
    &&& help.rows@.len() == s.len()
    &&& forall|i: int|
        0 <= i < s.len() ==> (#[trigger] help.rows@[i])[0]@ == shown_text(
            s.map_values(|b: HelpBinding| b.3@),
            i,
        ) && help.rows@[i][1]@ == s[i].2@
    &&& help.widths[0] == column_width(help.rows@, 0, help.rows@.len() as int)
    &&& help.widths[1] == column_width(help.rows@, 1, help.rows@.len() as int)
}

impl Help {
    /// One row per binding, given as `(keys, action)` texts in the order
    /// shown.
    pub fn generate_rows(bindings: &Vec<(String, String)>) -> (rows: Vec<[String; 2]>)
        ensures
            rows@.len() == bindings@.len(),
            forall|i: int|
                0 <= i < rows@.len() ==> (#[trigger] rows@[i])[0]@ == shown_action(bindings@, i)
                    && rows@[i][1]@ == bindings@[i].0@,
    {
        let mut rows: Vec<[String; 2]> = Vec::new();
        let mut last_action = String::new();
        let mut i: usize = 0;
        while i < bindings.len()
            invariant
                i <= bindings@.len(),
                rows@.len() == i,
                last_action@ == if i == 0 {
                    Seq::<char>::empty()
                } else {
                    bindings@[i - 1].1@
                },
                forall|j: int|
                    0 <= j < i ==> (#[trigger] rows@[j])[0]@ == shown_action(bindings@, j)
                        && rows@[j][1]@ == bindings@[j].0@,
            decreases bindings.len() - i,
        {
            let key_string = bindings[i].0.clone();
            let action_string = bindings[i].1.clone();
            let action_display = if crate::text::str_eq(last_action.as_str(), action_string.as_str()) {
                String::new()
            } else {
                action_string.clone()
            };
            rows.push([action_display, key_string]);
            last_action = action_string;
            i += 1;
        }
        rows
    }

    /// The widest text, in bytes, of each column.
    pub fn calculate_widths(rows: &Vec<[String; 2]>) -> (widths: [usize; 2])
        ensures
            widths[0] == column_width(rows@, 0, rows@.len() as int),
            widths[1] == column_width(rows@, 1, rows@.len() as int),
    {
        let mut widths: [usize; 2] = [0, 0];
        let mut i: usize = 0;
        while i < rows.len()
            invariant
                i <= rows@.len(),
                widths[0] == column_width(rows@, 0, i as int),
                widths[1] == column_width(rows@, 1, i as int),
            decreases rows.len() - i,
        {
            let a = rows[i][0].as_str();
            let b = rows[i][1].as_str();
            let first = a.len();
            let second = b.len();
            assert(first == byte_len(rows@[i as int][0]@));
            assert(second == byte_len(rows@[i as int][1]@));
            if first > widths[0] {
                widths[0] = first;
            }
            if second > widths[1] {
                widths[1] = second;
            }
            i += 1;
        }
        widths
    }

    /// The help for bindings given as `(keys, action)` texts, in the order
    /// shown.
    pub fn from_bindings(bindings: &Vec<(String, String)>) -> (help: Help)
        ensures
            help.rows@.len() == bindings@.len(),
            forall|i: int|
                0 <= i < help.rows@.len() ==> (#[trigger] help.rows@[i])[0]@ == shown_action(bindings@, i)
                    && help.rows@[i][1]@ == bindings@[i].0@,
            help.widths[0] == column_width(help.rows@, 0, help.rows@.len() as int),
            help.widths[1] == column_width(help.rows@, 1, help.rows@.len() as int),
    {
        let rows = Help::generate_rows(bindings);
        let widths = Help::calculate_widths(&rows);
        Help { rows, widths }
    }

    /// The help for the key bindings: bindings to `Nothing` left out, the
    /// rest ordered by action and then by key, each action named once for
    /// its run of keys.
    pub fn from_keybindings(bindings: Vec<HelpBinding>) -> (help: Help)
        ensures
            exists|s: Seq<HelpBinding>|
                sorted_by_le(s, help_order()) && stable_permutation(s, listed(bindings@), help_order())
                    && help_lists(help, s),
    {
        let ghost all = bindings@;
        let ghost keep = |b: HelpBinding| b.1 != Action::Nothing;
        let mut kept: Vec<HelpBinding> = Vec::new();
        let mut rest = bindings;
        let mut i: usize = 0;
        let n = rest.len();
        proof {
            reveal(Seq::filter);
        }
        while i < n
            invariant
                n == all.len(),
                i <= n,
                rest@ == all.skip(i as int),
                keep == (|b: HelpBinding| b.1 != Action::Nothing),
                kept@ == all.take(i as int).filter(keep),
            decreases n - i,
        {
            assert(rest@[0] == all[i as int]);
            let b = rest.remove(0);
            assert(rest@ =~= all.skip(i + 1));
            let nothing = match b.1 {
                Action::Nothing => true,
                _ => false,
            };
            if !nothing {
                kept.push(b);
            }
            proof {
                reveal(Seq::filter);
                assert(all.take(i + 1).drop_last() =~= all.take(i as int));
            }
            i += 1;
        }
        assert(all.take(n as int) =~= all);
        proof {
            lemma_help_order_total();
        }
        let le = |a: &HelpBinding, b: &HelpBinding| -> (r: bool)
            ensures
                r == help_order()(*a, *b),
            { help_le(a, b) };
        let sorted = sort_by(kept, le, Ghost(help_order()));
        let mut labels: Vec<(String, String)> = Vec::new();
        let mut j: usize = 0;
        while j < sorted.len()
            invariant
                j <= sorted@.len(),
                labels@.len() == j,
                forall|k: int|
                    0 <= k < j ==> (#[trigger] labels@[k]).0@ == sorted@[k].2@ && labels@[k].1@ == sorted@[k].3@,
            decreases sorted.len() - j,
        {
            labels.push((sorted[j].2.clone(), sorted[j].3.clone()));
            j += 1;
        }
        let help = Help::from_bindings(&labels);
        proof {
            let s = sorted@;
            let texts = s.map_values(|b: HelpBinding| b.3@);
            assert forall|i: int| 0 <= i < s.len() implies (#[trigger] help.rows@[i])[0]@ == shown_text(texts, i)
                && help.rows@[i][1]@ == s[i].2@ by {
                assert(help.rows@[i][0]@ == shown_action(labels@, i));
                if i > 0 {
                    assert(labels@[i - 1].1@ == texts[i - 1]);
                }
                assert(labels@[i].1@ == texts[i]);
            }
            assert(help_lists(help, s));
        }
        help
    }
}

} // verus!
