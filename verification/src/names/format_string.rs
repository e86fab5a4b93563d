//! Format strings of the older naming scheme: text with tags in braces,
//! accepted when every tag is one the scheme knows.

use vstd::prelude::*;

use crate::names::tag::{is_format_tag_text, Tag};
use crate::property_store::opt_text;
use crate::text::concat;

verus! {

/// A format string that was accepted, or taken as it is.
#[derive(Debug)]
pub struct FormatString(pub String);

/// A character of a tag: a lower-case letter, or one of `.`, `/`, the
/// digits and `:` (the range from `.` to `:`).
pub open spec fn tag_char(c: char) -> bool {
    ('a' <= c && c <= 'z') || ('.' <= c && c <= ':')
}

/// The number of tag characters that `s` starts with.
pub open spec fn tag_run(s: Seq<char>) -> nat
    decreases s.len(),
{
    if s.len() > 0 && tag_char(s[0]) {
        1 + tag_run(s.skip(1))
    } else {
        0
    }
}

/// The texts between braces in `s`, left to right without overlap: each
/// `{` followed by tag characters and then `}` gives the characters
/// between. Neither brace is a tag character, so a `{` whose run of tag
/// characters is not closed by `}` starts no match.
pub open spec fn brace_texts(s: Seq<char>) -> Seq<Seq<char>>
    decreases s.len(),
{
    let n = tag_run(s.skip(1)) as int;
    if s.len() == 0 {
        seq![]
    } else if s[0] == '{' && n + 1 < s.len() && s[n + 1] == '}' {
        seq![s.subrange(1, n + 1)] + brace_texts(s.skip(n + 2))
    } else {
        brace_texts(s.skip(1))
    }
}

/// What the pattern `\{([a-z.-:]*)\}` finds in `s` with the `regex`
/// crate, left to right without overlap: the group of each match, which
/// every match has. The pattern is valid, so there is always a result.
pub open spec fn brace_tags(s: Seq<char>) -> Option<Seq<Option<Seq<char>>>> {
    Some(brace_texts(s).map_values(|t: Seq<char>| Some(t)))
}

pub open spec fn opt_texts(v: Seq<Option<String>>) -> Seq<Option<Seq<char>>> {
    v.map_values(|o: Option<String>| opt_text(o))
}

/// The pattern of a tag in braces: `\{([a-z.-:]*)\}`.
pub open spec fn tag_pattern() -> Seq<char> {
    "\\{([a-z.-:]*)\\}"@
}

/// `regex::Regex::new` on `pattern`, then `Regex::captures_iter` over `s`,
/// taking `Captures::get(1)` of each. Stated only for the tag pattern, which
/// is valid: claimed, the result is `brace_tags` of `s`, the leftmost-first
/// matches of the pattern, so it is never nothing.
#[verifier::external_body]
fn tag_captures(pattern: &str, s: &str) -> (tags: Option<Vec<Option<String>>>)
    requires
        pattern@ == tag_pattern(),
    ensures
        match tags {
            Some(t) => brace_tags(s@) == Some(opt_texts(t@)),
            None => brace_tags(s@) is None,
        },
{
    match regex::Regex::new(pattern) {
        Ok(pattern) => Some(
            pattern.captures_iter(s).map(|c| c.get(1).map(|m| String::from(m.as_str()))).collect(),
        ),
        Err(_) => None,
    }
}

/// Why a format string is refused: the first captured tag that is missing
/// or unknown.
pub open spec fn first_refusal(tags: Seq<Option<Seq<char>>>) -> Option<Seq<char>>
    decreases tags.len(),
{
    if tags.len() == 0 {
        None
    } else {
        match tags[0] {
            None => Some("Failed to parse tag"@),
            Some(t) => if !is_format_tag_text(t) {
                Some(seq!['"'] + t + "\" is not implemented"@)
            } else {
                first_refusal(tags.skip(1))
            },
        }
    }
}

/// What reading a format string gives: an error for the first refused tag,
/// else the string.
pub open spec fn format_outcome(s: Seq<char>, result: Result<FormatString, String>) -> bool {
    match brace_tags(s) {
        None => result is Err,
        Some(tags) => match first_refusal(tags) {
            Some(m) => result matches Err(e) && e@ == m,
            None => result matches Ok(f) && f.0@ == s,
        },
    }
}

impl FormatString {
    /// Takes a string as a format string, unchecked.
    pub fn from_raw(s: &str) -> (f: FormatString)
        ensures
            f.0@ == s@,
    {
        FormatString(String::from_str(s))
    }

    /// Accepts `s` given the tags found in it: refuses it for the first tag
    /// that is missing or unknown.
    pub fn check_tags(s: &str, tags: &Vec<Option<String>>) -> (result: Result<FormatString, String>)
        ensures
            match first_refusal(opt_texts(tags@)) {
                Some(m) => result matches Err(e) && e@ == m,
                None => result matches Ok(f) && f.0@ == s@,
            },
    {
        let ghost all = opt_texts(tags@);
        let mut i: usize = 0;
        assert(all.skip(0) =~= all);
        while i < tags.len()
            invariant
                all == opt_texts(tags@),
                i <= tags@.len(),
                first_refusal(all.skip(i as int)) == first_refusal(all),
            decreases tags.len() - i,
        {
            assert(all.skip(i as int)[0] == opt_text(tags@[i as int]));
            assert(all.skip(i as int).skip(1) =~= all.skip(i + 1));
            match &tags[i] {
                None => {
                    proof {
                        reveal_strlit("Failed to parse tag");
                    }
                    return Err(String::from_str("Failed to parse tag"));
                },
                Some(t) => {
                    match Tag::parse(t.as_str()) {
                        Ok(_) => {},
                        Err(_) => {
                            let m = concat("\"", t.as_str());
                            let m = concat(m.as_str(), "\" is not implemented");
                            proof {
                                reveal_strlit("\"");
                            }
                            assert(m@ =~= seq!['"'] + t@ + "\" is not implemented"@);
                            return Err(m);
                        },
                    }
                },
            }
            i += 1;
        }
        Ok(FormatString(String::from_str(s)))
    }

    /// Reads a format string, refusing it when a tag in it is unknown.
    pub fn parse(s: &str) -> (result: Result<FormatString, String>)
        ensures
            format_outcome(s@, result),
    {
        match tag_captures("\\{([a-z.-:]*)\\}", s) {
            Some(tags) => FormatString::check_tags(s, &tags),
            None => Err(String::from_str("invalid tag pattern")),
        }
    }

    /// The text of the format string.
    pub fn to_string(&self) -> (s: String)
        ensures
            s@ == self.0@,
    {
        self.0.clone()
    }
}

impl std::str::FromStr for FormatString {
    type Err = String;

    fn from_str(s: &str) -> (result: Result<Self, Self::Err>)
        ensures
            format_outcome(s@, result),
    {
        FormatString::parse(s)
    }
}

} // verus!
