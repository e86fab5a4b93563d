//! Styles as a theme writes them: a color by name (spaces, `-` and `_`
//! ignored, in any case), as a palette index or as `#rrggbb`; modifiers as
//! names joined by `|`.

use vstd::prelude::*;

use crate::config::theme::{Color, BOLD, CROSSED_OUT, DIM, HIDDEN, ITALIC, RAPID_BLINK, REVERSED, SLOW_BLINK, UNDERLINED};
use crate::text::{chars_of, concat, push_char, str_eq, string_from_chars};

verus! {

/// `c` in lower case, for the letters `A` to `Z`.
pub open spec fn lower_ascii(c: char) -> char {
    if 'A' <= c && c <= 'Z' {
        ((c as u32) + 32) as char
    } else {
        c
    }
}

/// Whether a color name ignores `c`.
pub open spec fn ignored_in_name(c: char) -> bool {
    c == ' ' || c == '-' || c == '_'
}

/// A color name as it is compared: without spaces, `-` and `_`, in lower
/// case.
pub open spec fn color_key(s: Seq<char>) -> Seq<char>
    decreases s.len(),
{
    if s.len() == 0 {
        seq![]
    } else if ignored_in_name(s.last()) {
        color_key(s.drop_last())
    } else {
        color_key(s.drop_last()).push(lower_ascii(s.last()))
    }
}

/// The color a compared name stands for.
pub open spec fn named_color(k: Seq<char>) -> Option<Color> {
    if k == "reset"@ {
        Some(Color::Reset)
    } else if k == "black"@ {
        Some(Color::Black)
    } else if k == "red"@ {
        Some(Color::Red)
    } else if k == "green"@ {
        Some(Color::Green)
    } else if k == "yellow"@ {
        Some(Color::Yellow)
    } else if k == "blue"@ {
        Some(Color::Blue)
    } else if k == "magenta"@ {
        Some(Color::Magenta)
    } else if k == "cyan"@ {
        Some(Color::Cyan)
    } else if k == "gray"@ {
        Some(Color::Gray)
    } else if k == "darkgray"@ {
        Some(Color::DarkGray)
    } else if k == "lightred"@ {
        Some(Color::LightRed)
    } else if k == "lightgreen"@ {
        Some(Color::LightGreen)
    } else if k == "lightyellow"@ {
        Some(Color::LightYellow)
    } else if k == "lightblue"@ {
        Some(Color::LightBlue)
    } else if k == "lightmagenta"@ {
        Some(Color::LightMagenta)
    } else if k == "lightcyan"@ {
        Some(Color::LightCyan)
    } else if k == "white"@ {
        Some(Color::White)
    } else {
        None
    }
}

/// Whether `c` is a decimal digit.
pub open spec fn is_digit(c: char) -> bool {
    '0' <= c && c <= '9'
}

/// The number that the digits `s` write.
pub open spec fn digits_value(s: Seq<char>) -> int
    decreases s.len(),
{
    if s.len() == 0 {
        0
    } else {
        digits_value(s.drop_last()) * 10 + (s.last() as int - '0' as int)
    }
}

/// The digits of a palette index: those after an optional `+`.
pub open spec fn index_digits(s: Seq<char>) -> Seq<char> {
    if s.len() > 0 && s[0] == '+' {
        s.skip(1)
    } else {
        s
    }
}

/// The palette index that `s` writes: one or more digits, after an optional
/// `+`, for a number up to 255.
pub open spec fn index_text(s: Seq<char>) -> Option<u8> {
    let d = index_digits(s);
    if d.len() > 0 && (forall|i: int| 0 <= i < d.len() ==> is_digit(#[trigger] d[i])) && digits_value(d)
        <= 255 {
        Some(digits_value(d) as u8)
    } else {
        None
    }
}

/// The value of a hexadecimal digit.
pub open spec fn hex_value(c: char) -> Option<int> {
    if '0' <= c && c <= '9' {
        Some(c as int - '0' as int)
    } else if 'a' <= c && c <= 'f' {
        Some(c as int - 'a' as int + 10)
    } else if 'A' <= c && c <= 'F' {
        Some(c as int - 'A' as int + 10)
    } else {
        None
    }
}

/// The byte that the two hexadecimal digits at `i` of `s` write.
pub open spec fn hex_byte(s: Seq<char>, i: int) -> Option<u8> {
    match (hex_value(s[i]), hex_value(s[i + 1])) {
        (Some(a), Some(b)) => Some((a * 16 + b) as u8),
        _ => None,
    }
}

/// The color that `#rrggbb` writes.
pub open spec fn rgb_text(s: Seq<char>) -> Option<Color> {
    if s.len() == 7 && s[0] == '#' {
        match (hex_byte(s, 1), hex_byte(s, 3), hex_byte(s, 5)) {
            (Some(r), Some(g), Some(b)) => Some(Color::Rgb(r, g, b)),
            _ => None,
        }
    } else {
        None
    }
}

/// The color that `s` writes: a name first, then a palette index, then
/// `#rrggbb`.
pub open spec fn color_of_text(s: Seq<char>) -> Option<Color> {
    match named_color(color_key(s)) {
        Some(c) => Some(c),
        None => match index_text(s) {
            Some(i) => Some(Color::Indexed(i)),
            None => rgb_text(s),
        },
    }
}

fn lower(c: char) -> (l: char)
    ensures
        l == lower_ascii(c),
{
    if 'A' <= c && c <= 'Z' {
        ((c as u8) + 32) as char
    } else {
        c
    }
}

fn key_of(chars: &Vec<char>) -> (k: String)
    ensures
        k@ == color_key(chars@),
{
    let mut k = String::new();
    let mut i: usize = 0;
    while i < chars.len()
        invariant
            i <= chars@.len(),
            k@ == color_key(chars@.take(i as int)),
        decreases chars.len() - i,
    {
        let c = chars[i];
        proof {
            assert(chars@.take(i + 1).drop_last() =~= chars@.take(i as int));
        }
        if !(c == ' ' || c == '-' || c == '_') {
            push_char(&mut k, lower(c));
        }
        i += 1;
    }
    assert(chars@.take(chars@.len() as int) =~= chars@);
    k
}

fn named(k: &str) -> (c: Option<Color>)
    ensures
        c == named_color(k@),
{
    if str_eq(k, "reset") {
        Some(Color::Reset)
    } else if str_eq(k, "black") {
        Some(Color::Black)
    } else if str_eq(k, "red") {
        Some(Color::Red)
    } else if str_eq(k, "green") {
        Some(Color::Green)
    } else if str_eq(k, "yellow") {
        Some(Color::Yellow)
    } else if str_eq(k, "blue") {
        Some(Color::Blue)
    } else if str_eq(k, "magenta") {
        Some(Color::Magenta)
    } else if str_eq(k, "cyan") {
        Some(Color::Cyan)
    } else if str_eq(k, "gray") {
        Some(Color::Gray)
    } else if str_eq(k, "darkgray") {
        Some(Color::DarkGray)
    } else if str_eq(k, "lightred") {
        Some(Color::LightRed)
    } else if str_eq(k, "lightgreen") {
        Some(Color::LightGreen)
    } else if str_eq(k, "lightyellow") {
        Some(Color::LightYellow)
    } else if str_eq(k, "lightblue") {
        Some(Color::LightBlue)
    } else if str_eq(k, "lightmagenta") {
        Some(Color::LightMagenta)
    } else if str_eq(k, "lightcyan") {
        Some(Color::LightCyan)
    } else if str_eq(k, "white") {
        Some(Color::White)
    } else {
        None
    }
}

proof fn lemma_digits_value_nonneg(s: Seq<char>)
    requires
        forall|i: int| 0 <= i < s.len() ==> is_digit(#[trigger] s[i]),
    ensures
        digits_value(s) >= 0,
    decreases s.len(),
{
    if s.len() > 0 {
        assert(is_digit(s[s.len() - 1]));
        lemma_digits_value_nonneg(s.drop_last());
    }
}

fn index_of_text(chars: &Vec<char>) -> (i: Option<u8>)
    ensures
        i == index_text(chars@),
{
    let start: usize = if chars.len() > 0 && chars[0] == '+' {
        1
    } else {
        0
    };
    let ghost d = index_digits(chars@);
    assert(d =~= chars@.skip(start as int));
    if start == chars.len() {
        return None;
    }
    // `value` is the number written so far, held at 256 once it is past 255.
    let mut value: u32 = 0;
    let mut j: usize = start;
    while j < chars.len()
        invariant
            start <= j <= chars@.len(),
            start < chars@.len(),
            d == chars@.skip(start as int),
            d == index_digits(chars@),
            forall|k: int| 0 <= k < j - start ==> is_digit(#[trigger] d[k]),
            value <= 256,
            value == if digits_value(d.take(j - start)) <= 255 {
                digits_value(d.take(j - start))
            } else {
                256
            },
        decreases chars.len() - j,
    {
        let c = chars[j];
        if !('0' <= c && c <= '9') {
            assert(d[j - start] == c);
            assert(!is_digit(d[j - start]));
            return None;
        }
        let ghost t = d.take(j - start + 1);
        proof {
            assert(t.drop_last() =~= d.take(j - start));
            assert(t.last() == c);
            lemma_digits_value_nonneg(d.take(j - start));
            assert(digits_value(t) == digits_value(d.take(j - start)) * 10 + (c as int - '0' as int));
        }
        let digit: u32 = (c as u32) - ('0' as u32);
        if value > 255 {
            value = 256;
            proof {
                assert(digits_value(d.take(j - start)) > 255);
                assert(digits_value(t) > 255) by (nonlinear_arith)
                    requires
                        digits_value(t) == digits_value(d.take(j - start)) * 10 + (c as int - '0' as int),
                        digits_value(d.take(j - start)) > 255,
                        c as int - '0' as int >= 0,
                ;
            }
        } else {
            let next = value * 10 + digit;
            value = if next > 255 {
                256
            } else {
                next
            };
        }
        j += 1;
    }
    assert(d.take(j - start) =~= d);
    if value <= 255 {
        Some(value as u8)
    } else {
        None
    }
}

fn hex_digit(c: char) -> (v: Option<u8>)
    ensures
        match v {
            Some(x) => hex_value(c) == Some(x as int),
            None => hex_value(c) is None,
        },
{
    if '0' <= c && c <= '9' {
        Some((c as u8) - ('0' as u8))
    } else if 'a' <= c && c <= 'f' {
        Some((c as u8) - ('a' as u8) + 10)
    } else if 'A' <= c && c <= 'F' {
        Some((c as u8) - ('A' as u8) + 10)
    } else {
        None
    }
}

fn byte_at(chars: &Vec<char>, i: usize) -> (b: Option<u8>)
    requires
        i + 1 < chars.len(),
    ensures
        b == hex_byte(chars@, i as int),
{
    match (hex_digit(chars[i]), hex_digit(chars[i + 1])) {
        (Some(a), Some(b)) => Some(a * 16 + b),
        _ => None,
    }
}

fn rgb_of_text(chars: &Vec<char>) -> (c: Option<Color>)
    ensures
        c == rgb_text(chars@),
{
    if chars.len() != 7 || chars[0] != '#' {
        return None;
    }
    match (byte_at(chars, 1), byte_at(chars, 3), byte_at(chars, 5)) {
        (Some(r), Some(g), Some(b)) => Some(Color::Rgb(r, g, b)),
        _ => None,
    }
}

/// Reads a color: a name (spaces, `-` and `_` ignored, in any case), a
/// palette index, or `#rrggbb`.
pub fn parse_color(text: &str) -> (result: Result<Color, String>)
    ensures
        match result {
            Ok(c) => color_of_text(text@) == Some(c),
            Err(e) => color_of_text(text@) is None && e@ == "unknown color '"@ + text@ + "'"@,
        },
{
    let chars = chars_of(text);
    let key = key_of(&chars);
    match named(key.as_str()) {
        Some(c) => return Ok(c),
        None => {},
    }
    match index_of_text(&chars) {
        Some(i) => return Ok(Color::Indexed(i)),
        None => {},
    }
    match rgb_of_text(&chars) {
        Some(c) => Ok(c),
        None => {
            let m = concat("unknown color '", text);
            Err(concat(m.as_str(), "'"))
        },
    }
}

/// Whether `c` is white space, as `char::is_whitespace` has it.
pub open spec fn is_space(c: char) -> bool {
    ||| ('\t' <= c && c <= '\r')
    ||| c == ' '
    ||| c == '\u{85}'
    ||| c == '\u{a0}'
    ||| c == '\u{1680}'
    ||| ('\u{2000}' <= c && c <= '\u{200a}')
    ||| c == '\u{2028}'
    ||| c == '\u{2029}'
    ||| c == '\u{202f}'
    ||| c == '\u{205f}'
    ||| c == '\u{3000}'
}

/// `w` without its leading white space.
pub open spec fn trim_start(w: Seq<char>) -> Seq<char>
    decreases w.len(),
{
    if w.len() > 0 && is_space(w[0]) {
        trim_start(w.skip(1))
    } else {
        w
    }
}

/// `w` without its trailing white space.
pub open spec fn trim_end(w: Seq<char>) -> Seq<char>
    decreases w.len(),
{
    if w.len() > 0 && is_space(w.last()) {
        trim_end(w.drop_last())
    } else {
        w
    }
}

/// `w` without white space at either end.
pub open spec fn trim(w: Seq<char>) -> Seq<char> {
    trim_end(trim_start(w))
}

/// The pieces of `s` between the `|` that separate them.
pub open spec fn pieces(s: Seq<char>) -> Seq<Seq<char>>
    decreases s.len(),
{
    if s.len() == 0 {
        seq![seq![]]
    } else if s.last() == '|' {
        pieces(s.drop_last()).push(seq![])
    } else {
        let p = pieces(s.drop_last());
        p.update(p.len() - 1, p.last().push(s.last()))
    }
}

/// The modifier that a name stands for.
pub open spec fn modifier_bit(name: Seq<char>) -> Option<u16> {
    if name == "BOLD"@ {
        Some(BOLD)
    } else if name == "DIM"@ {
        Some(DIM)
    } else if name == "ITALIC"@ {
        Some(ITALIC)
    } else if name == "UNDERLINED"@ {
        Some(UNDERLINED)
    } else if name == "SLOW_BLINK"@ {
        Some(SLOW_BLINK)
    } else if name == "RAPID_BLINK"@ {
        Some(RAPID_BLINK)
    } else if name == "REVERSED"@ {
        Some(REVERSED)
    } else if name == "HIDDEN"@ {
        Some(HIDDEN)
    } else if name == "CROSSED_OUT"@ {
        Some(CROSSED_OUT)
    } else {
        None
    }
}

/// The modifiers that the pieces `ws` name, trimmed, empty ones skipped;
/// or the first name that is no modifier.
pub open spec fn modifiers_of(ws: Seq<Seq<char>>) -> Result<u16, Seq<char>>
    decreases ws.len(),
{
    if ws.len() == 0 {
        Ok(0)
    } else {
        match modifiers_of(ws.drop_last()) {
            Err(e) => Err(e),
            Ok(b) => {
                let t = trim(ws.last());
                if t.len() == 0 {
                    Ok(b)
                } else {
                    match modifier_bit(t) {
                        Some(m) => Ok(b | m),
                        None => Err(t),
                    }
                }
            },
        }
    }
}

fn space(c: char) -> (b: bool)
    ensures
        b == is_space(c),
{
    ('\t' <= c && c <= '\r') || c == ' ' || c == '\u{85}' || c == '\u{a0}' || c == '\u{1680}' || ('\u{2000}' <= c
        && c <= '\u{200a}') || c == '\u{2028}' || c == '\u{2029}' || c == '\u{202f}' || c == '\u{205f}' || c
        == '\u{3000}'
}

fn trimmed(w: &Vec<char>) -> (t: String)
    ensures
        t@ == trim(w@),
{
    let mut a: usize = 0;
    assert(w@.skip(0) =~= w@);
    while a < w.len() && space(w[a])
        invariant
            a <= w@.len(),
            trim_start(w@) == trim_start(w@.skip(a as int)),
        decreases w.len() - a,
    {
        assert(w@.skip(a as int).skip(1) =~= w@.skip(a + 1));
        a += 1;
    }
    let ghost st = w@.skip(a as int);
    assert(trim_start(w@) == st) by {
        if st.len() > 0 {
            assert(st[0] == w@[a as int]);
        }
    }
    let mut b: usize = w.len();
    while b > a && space(w[b - 1])
        invariant
            a <= b <= w@.len(),
            st == w@.skip(a as int),
            trim_end(st) == trim_end(w@.subrange(a as int, b as int)),
        decreases b,
    {
        assert(w@.subrange(a as int, b as int).drop_last() =~= w@.subrange(a as int, b - 1));
        b -= 1;
    }
    assert(w@.subrange(a as int, w@.len() as int) =~= st);
    proof {
        let r = w@.subrange(a as int, b as int);
        if r.len() > 0 {
            assert(r.last() == w@[b - 1]);
        }
        assert(trim_end(r) == r);
    }
    string_from_chars(w, a, b)
}

fn modifier_named(name: &str) -> (m: Option<u16>)
    ensures
        m == modifier_bit(name@),
{
    if str_eq(name, "BOLD") {
        Some(BOLD)
    } else if str_eq(name, "DIM") {
        Some(DIM)
    } else if str_eq(name, "ITALIC") {
        Some(ITALIC)
    } else if str_eq(name, "UNDERLINED") {
        Some(UNDERLINED)
    } else if str_eq(name, "SLOW_BLINK") {
        Some(SLOW_BLINK)
    } else if str_eq(name, "RAPID_BLINK") {
        Some(RAPID_BLINK)
    } else if str_eq(name, "REVERSED") {
        Some(REVERSED)
    } else if str_eq(name, "HIDDEN") {
        Some(HIDDEN)
    } else if str_eq(name, "CROSSED_OUT") {
        Some(CROSSED_OUT)
    } else {
        None
    }
}

/// Adds the modifier that the piece `word` names to `bits`, or gives the
/// name that is no modifier.
fn add_piece(bits: u16, word: &Vec<char>) -> (r: Result<u16, String>)
    ensures
        match r {
            Ok(b) => ({
                let t = trim(word@);
                if t.len() == 0 {
                    b == bits
                } else {
                    modifier_bit(t) matches Some(m) && b == bits | m
                }
            }),
            Err(e) => trim(word@).len() > 0 && modifier_bit(trim(word@)) is None && e@ == trim(word@),
        },
{
    let t = trimmed(word);
    if t.unicode_len() == 0 {
        return Ok(bits);
    }
    match modifier_named(t.as_str()) {
        Some(m) => Ok(bits | m),
        None => Err(t),
    }
}

proof fn lemma_pieces_nonempty(s: Seq<char>)
    ensures
        pieces(s).len() >= 1,
    decreases s.len(),
{
    if s.len() > 0 {
        lemma_pieces_nonempty(s.drop_last());
    }
}

/// The finished pieces of a prefix stay pieces of the whole.
proof fn lemma_pieces_grow(s: Seq<char>, k: int, j: int)
    requires
        0 <= k <= j <= s.len(),
    ensures
        pieces(s.take(j)).len() >= pieces(s.take(k)).len(),
        forall|x: int| 0 <= x < pieces(s.take(k)).len() - 1 ==> pieces(s.take(j))[x] == pieces(s.take(k))[x],
    decreases j - k,
{
    if j > k {
        lemma_pieces_grow(s, k, j - 1);
        assert(s.take(j).drop_last() =~= s.take(j - 1));
        lemma_pieces_nonempty(s.take(j - 1));
    }
}

proof fn lemma_error_prefix(ws: Seq<Seq<char>>, ws2: Seq<Seq<char>>, e: Seq<char>)
    requires
        modifiers_of(ws) == Err::<u16, Seq<char>>(e),
        ws.len() <= ws2.len(),
        forall|x: int| 0 <= x < ws.len() ==> ws2[x] == ws[x],
    ensures
        modifiers_of(ws2) == Err::<u16, Seq<char>>(e),
    decreases ws2.len(),
{
    if ws2.len() > ws.len() {
        lemma_error_prefix(ws, ws2.drop_last(), e);
    } else {
        assert(ws2 =~= ws);
    }
}

/// A name refused among the finished pieces of a prefix is refused for
/// the whole text.
proof fn lemma_error_stays(s: Seq<char>, k: int, e: Seq<char>)
    requires
        0 <= k <= s.len(),
        pieces(s.take(k)).len() >= 1,
        modifiers_of(pieces(s.take(k)).drop_last()) == Err::<u16, Seq<char>>(e),
    ensures
        modifiers_of(pieces(s)) == Err::<u16, Seq<char>>(e),
{
    lemma_pieces_grow(s, k, s.len() as int);
    assert(s.take(s.len() as int) =~= s);
    lemma_error_prefix(pieces(s.take(k)).drop_last(), pieces(s), e);
}

/// The modifiers that `text` names: names joined by `|`, with white space
/// around them and empty pieces ignored.
pub fn parse_modifiers(text: &str) -> (result: Result<u16, String>)
    ensures
        match result {
            Ok(b) => modifiers_of(pieces(text@)) == Ok::<u16, Seq<char>>(b),
            Err(e) => exists|name: Seq<char>|
                modifiers_of(pieces(text@)) == Err::<u16, Seq<char>>(name) && e@ == "unknown modifier '"@ + name
                    + "'"@,
        },
{
    let chars = chars_of(text);
    let mut bits: u16 = 0;
    let mut word: Vec<char> = Vec::new();
    let ghost mut done: Seq<Seq<char>> = seq![];
    let mut i: usize = 0;
    while i < chars.len()
        invariant
            i <= chars@.len(),
            chars@ == text@,
            pieces(chars@.take(i as int)) == done.push(word@),
            modifiers_of(done) == Ok::<u16, Seq<char>>(bits),
        decreases chars.len() - i,
    {
        let c = chars[i];
        let ghost t = chars@.take(i + 1);
        proof {
            assert(t.drop_last() =~= chars@.take(i as int));
            assert(t.last() == c);
        }
        if c == '|' {
            match add_piece(bits, &word) {
                Ok(b) => {
                    bits = b;
                },
                Err(name) => {
                    proof {
                        assert(done.push(word@).drop_last() =~= done);
                        assert(modifiers_of(done.push(word@)) == Err::<u16, Seq<char>>(name@));
                        assert(pieces(t) == done.push(word@).push(seq![]));
                        assert(pieces(t).drop_last() =~= done.push(word@));
                        lemma_error_stays(chars@, i + 1, name@);
                    }
                    let m = concat("unknown modifier '", name.as_str());
                    let e = concat(m.as_str(), "'");
                    assert(modifiers_of(pieces(text@)) == Err::<u16, Seq<char>>(name@));
                    assert(e@ == "unknown modifier '"@ + name@ + "'"@);
                    return Err(e);
                },
            }
            proof {
                assert(done.push(word@).drop_last() =~= done);
                done = done.push(word@);
            }
            word = Vec::new();
            assert(pieces(t) =~= done.push(word@));
        } else {
            word.push(c);
            assert(pieces(t) =~= done.push(word@));
        }
        i += 1;
    }
    assert(chars@.take(chars@.len() as int) =~= chars@);
    assert(done.push(word@).drop_last() =~= done);
    match add_piece(bits, &word) {
        Ok(b) => Ok(b),
        Err(name) => {
            let m = concat("unknown modifier '", name.as_str());
            let e = concat(m.as_str(), "'");
            assert(modifiers_of(pieces(text@)) == Err::<u16, Seq<char>>(name@));
            assert(e@ == "unknown modifier '"@ + name@ + "'"@);
            Err(e)
        },
    }
}

} // verus!
