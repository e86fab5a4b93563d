//! Shortening text to a width, marking the cut with an ellipsis.

use vstd::prelude::*;

use crate::text::{chars_of, push_char};
use crate::width::{char_width, str_width, text_width, width_of_char};

verus! {

/// The columns a character counts for when text is shortened: control
/// characters count for none.
pub open spec fn columns(c: char) -> int {
    match char_width(c) {
        Some(w) => w as int,
        None => 0,
    }
}

/// The longest start of `chars` that, after `used` columns, leaves room for
/// three more within `len`.
pub open spec fn fitting_prefix(chars: Seq<char>, len: int, used: int) -> Seq<char>
    decreases chars.len(),
{
    if chars.len() == 0 {
        seq![]
    } else if used + columns(chars[0]) + 3 > len {
        seq![]
    } else {
        seq![chars[0]] + fitting_prefix(chars.skip(1), len, used + columns(chars[0]))
    }
}

/// `text` when it fits in `len` columns, else as much of it as leaves room
/// for `...`, followed by as much of `...` as fits in `len`.
pub open spec fn shortened(text: Seq<char>, len: int) -> Seq<char> {
    if text_width(text) <= len {
        text
    } else {
        fitting_prefix(text, len, 0) + "..."@.take(if len < 3 { len } else { 3 })
    }
}

/// Shortens `text` to `len` columns, ending it with `...` when it is cut.
pub fn with_ellipses(text: &str, len: usize) -> (shown: String)
    ensures
        shown@ == shortened(text@, len as int),
{
    proof {
        reveal_strlit("...");
    }
    if str_width(text) <= len {
        return String::from_str(text);
    }
    let chars = chars_of(text);
    let mut result = String::new();
    let mut current_width: usize = 0;
    let mut i: usize = 0;
    assert(chars@.skip(0) =~= chars@);
    while i < chars.len()
        invariant
            chars@ == text@,
            i <= chars@.len(),
            current_width as int + 3 <= len || i == 0,
            i == 0 ==> current_width == 0,
            fitting_prefix(text@, len as int, 0) == result@ + fitting_prefix(
                chars@.skip(i as int),
                len as int,
                current_width as int,
            ),
        ensures
            fitting_prefix(text@, len as int, 0) == result@,
        decreases chars.len() - i,
    {
        let c = chars[i];
        let char_width = match width_of_char(c) {
            Some(w) => w,
            None => 0,
        };
        assert(chars@.skip(i as int)[0] == c);
        assert(chars@.skip(i as int).skip(1) =~= chars@.skip(i + 1));
        if len < current_width + 3 || char_width > len - current_width - 3 {
            assert(fitting_prefix(chars@.skip(i as int), len as int, current_width as int) =~= seq![]);
            assert(result@ + seq![] =~= result@);
            break;
        }
        push_char(&mut result, c);
        current_width += char_width;
        i += 1;
    }
    let ellipses: &str = if len < 1 {
        ""
    } else if len < 2 {
        "."
    } else if len < 3 {
        ".."
    } else {
        "..."
    };
    proof {
        reveal_strlit("");
        reveal_strlit(".");
        reveal_strlit("..");
    }
    result.append(ellipses);
    assert(ellipses@ =~= "..."@.take(if len < 3 { len as int } else { 3 }));
    result
}

} // verus!
