//! Name templates: strings with tags enclosed in `{` and `}`, such as
//! `{node:node.name}: {node:media.name}`.
//!
//! Every tag must be one of the known [`Tag`]s for a template to be accepted.
//! A `{` without a matching `}`, or a `}` without a matching `{`, is refused.
//! `{` and `}` are written as `{{` and `}}` outside tags.

use vstd::prelude::*;

use crate::config::tag::{is_tag_text, tag_text, Tag};
use crate::text::{chars_of, concat, push_char, string_from_chars};

verus! {

/// A parsed template: literal text and tags, in order.
#[derive(Debug, PartialEq, Eq)]
pub struct NameTemplate {
    pub parts: Vec<Part>,
}

#[derive(Debug, PartialEq, Eq)]
pub enum Part {
    Literal(String),
    Tag(Tag),
}

/// What a part of a template is, as mathematical text.
pub enum PartView {
    Literal(Seq<char>),
    Tag(Tag),
}

impl View for Part {
    type V = PartView;

    open spec fn view(&self) -> PartView {
        match self {
            Part::Literal(s) => PartView::Literal(s@),
            Part::Tag(t) => PartView::Tag(*t),
        }
    }
}

impl View for NameTemplate {
    type V = Seq<PartView>;

    open spec fn view(&self) -> Seq<PartView> {
        self.parts@.map_values(|p: Part| p@)
    }
}

/// Why a template was refused.
#[derive(Debug, Clone, PartialEq, Eq)]
pub enum TemplateError {
    /// A `{` with no `}` after it before the next `{` or the end.
    UnmatchedOpen,
    /// A `}` that neither closes a tag nor is doubled.
    UnmatchedClose,
    /// The text between braces is not a known tag.
    UnknownTag(String),
}

pub enum TemplateErrorView {
    UnmatchedOpen,
    UnmatchedClose,
    UnknownTag(Seq<char>),
}

impl View for TemplateError {
    type V = TemplateErrorView;

    open spec fn view(&self) -> TemplateErrorView {
        match self {
            TemplateError::UnmatchedOpen => TemplateErrorView::UnmatchedOpen,
            TemplateError::UnmatchedClose => TemplateErrorView::UnmatchedClose,
            TemplateError::UnknownTag(s) => TemplateErrorView::UnknownTag(s@),
        }
    }
}

/// The message of an error, as the configuration loader reports it.
pub open spec fn error_message(e: TemplateErrorView) -> Seq<char> {
    match e {
        TemplateErrorView::UnmatchedOpen => "'{' without '}'"@,
        TemplateErrorView::UnmatchedClose => "'}' without '{'"@,
        TemplateErrorView::UnknownTag(s) => seq!['"'] + s + "\" is not implemented"@,
    }
}

impl TemplateError {
    pub fn message(&self) -> (m: String)
        ensures
            m@ == error_message(self@),
    {
        match self {
            TemplateError::UnmatchedOpen => String::from_str("'{' without '}'"),
            TemplateError::UnmatchedClose => String::from_str("'}' without '{'"),
            TemplateError::UnknownTag(s) => {
                let front = concat("\"", s.as_str());
                let m = concat(front.as_str(), "\" is not implemented");
                proof {
                    reveal_strlit("\"");
                }
                assert(m@ =~= error_message(self@));
                m
            },
        }
    }
}

pub open spec fn is_brace(c: char) -> bool {
    c == '{' || c == '}'
}

/// How many characters at the start of `s` are not braces.
pub open spec fn brace_free_len(s: Seq<char>) -> nat
    decreases s.len(),
{
    if s.len() == 0 {
        0
    } else if is_brace(s[0]) {
        0
    } else {
        1 + brace_free_len(s.skip(1))
    }
}

pub proof fn lemma_brace_free_len_bound(s: Seq<char>)
    ensures
        brace_free_len(s) <= s.len(),
    decreases s.len(),
{
    if s.len() > 0 && !is_brace(s[0]) {
        lemma_brace_free_len_bound(s.skip(1));
    }
}

/// The length of the brace-free start of `s` is the first brace position.
pub proof fn lemma_brace_free_len_is(s: Seq<char>, k: int)
    requires
        0 <= k <= s.len(),
        forall|j: int| 0 <= j < k ==> !is_brace(s[j]),
        k == s.len() || is_brace(s[k]),
    ensures
        brace_free_len(s) == k,
    decreases k,
{
    if k > 0 {
        lemma_brace_free_len_is(s.skip(1), k - 1);
    }
}

/// Puts literal text in front of a list of parts, merging it with a literal
/// that comes first.
pub open spec fn lit_prepend(cur: Seq<char>, ps: Seq<PartView>) -> Seq<PartView> {
    if cur.len() == 0 {
        ps
    } else if ps.len() > 0 && ps[0] is Literal {
        seq![PartView::Literal(cur + ps[0]->Literal_0)] + ps.skip(1)
    } else {
        seq![PartView::Literal(cur)] + ps
    }
}

pub open spec fn prepend_char(c: char, r: Result<Seq<PartView>, TemplateErrorView>) -> Result<
    Seq<PartView>,
    TemplateErrorView,
> {
    match r {
        Ok(ps) => Ok(lit_prepend(seq![c], ps)),
        Err(e) => Err(e),
    }
}

/// The tag written as `s`, for a text that is one.
pub open spec fn tag_of_text(s: Seq<char>) -> Tag {
    choose|t: Tag| tag_text(t) == s
}

/// How a string reads as a template: its parts, or the first error met
/// going from left to right.
pub open spec fn parse_spec(s: Seq<char>) -> Result<Seq<PartView>, TemplateErrorView>
    decreases s.len(),
{
    if s.len() == 0 {
        Ok(seq![])
    } else if s[0] == '{' {
        if s.len() >= 2 && s[1] == '{' {
            prepend_char('{', parse_spec(s.skip(2)))
        } else {
            let body = s.skip(1);
            let k = brace_free_len(body);
            proof {
                lemma_brace_free_len_bound(body);
            }
            if k == body.len() || body[k as int] == '{' {
                Err(TemplateErrorView::UnmatchedOpen)
            } else {
                let content = body.take(k as int);
                if is_tag_text(content) {
                    match parse_spec(body.skip(k + 1int)) {
                        Ok(ps) => Ok(seq![PartView::Tag(tag_of_text(content))] + ps),
                        Err(e) => Err(e),
                    }
                } else {
                    Err(TemplateErrorView::UnknownTag(content))
                }
            }
        }
    } else if s[0] == '}' {
        if s.len() >= 2 && s[1] == '}' {
            prepend_char('}', parse_spec(s.skip(2)))
        } else {
            Err(TemplateErrorView::UnmatchedClose)
        }
    } else {
        prepend_char(s[0], parse_spec(s.skip(1)))
    }
}

/// Parts found so far, then literal text not yet closed, then the parse of
/// the rest.
pub open spec fn extend(
    parts: Seq<PartView>,
    cur: Seq<char>,
    rest: Result<Seq<PartView>, TemplateErrorView>,
) -> Result<Seq<PartView>, TemplateErrorView> {
    match rest {
        Ok(ps) => Ok(parts + lit_prepend(cur, ps)),
        Err(e) => Err(e),
    }
}

proof fn lemma_extend_char(
    parts: Seq<PartView>,
    cur: Seq<char>,
    c: char,
    rest: Result<Seq<PartView>, TemplateErrorView>,
)
    ensures
        extend(parts, cur, prepend_char(c, rest)) == extend(parts, cur.push(c), rest),
{
    match rest {
        Ok(ps) => {
            if ps.len() > 0 && ps[0] is Literal {
                assert(cur + (seq![c] + ps[0]->Literal_0) =~= cur.push(c) + ps[0]->Literal_0);
                if cur.len() > 0 {
                    assert(lit_prepend(cur, lit_prepend(seq![c], ps)) =~= lit_prepend(
                        cur.push(c),
                        ps,
                    ));
                } else {
                    assert(seq![c] =~= cur.push(c));
                }
            } else {
                if cur.len() > 0 {
                    assert(cur + seq![c] =~= cur.push(c));
                    assert(lit_prepend(cur, lit_prepend(seq![c], ps)) =~= lit_prepend(
                        cur.push(c),
                        ps,
                    ));
                } else {
                    assert(seq![c] =~= cur.push(c));
                }
            }
        },
        Err(e) => {},
    }
}

/// No literal part is empty, and no two literals are next to each other.
pub open spec fn well_formed(ps: Seq<PartView>) -> bool {
    &&& forall|i: int| 0 <= i < ps.len() && ps[i] is Literal ==> ps[i]->Literal_0.len() > 0
    &&& forall|i: int|
        0 <= i < ps.len() - 1 && (#[trigger] ps[i]) is Literal ==> !(ps[i + 1] is Literal)
}

/// Putting literal text in front keeps the parts well formed.
proof fn lemma_lit_prepend_well_formed(cur: Seq<char>, ps: Seq<PartView>)
    requires
        well_formed(ps),
    ensures
        well_formed(lit_prepend(cur, ps)),
{
    let r = lit_prepend(cur, ps);
    if cur.len() > 0 {
        if ps.len() > 0 && ps[0] is Literal {
            assert forall|i: int| 0 <= i < r.len() && r[i] is Literal implies r[i]->Literal_0.len() > 0 by {
                if i > 0 {
                    assert(r[i] == ps[i]);
                }
            }
            assert forall|i: int| 0 <= i < r.len() - 1 && (#[trigger] r[i]) is Literal implies !(r[i
                + 1] is Literal) by {
                assert(r[i + 1] == ps[i + 1]);
                if i > 0 {
                    assert(r[i] == ps[i]);
                }
            }
        } else {
            assert forall|i: int| 0 <= i < r.len() && r[i] is Literal implies r[i]->Literal_0.len() > 0 by {
                if i > 0 {
                    assert(r[i] == ps[i - 1]);
                }
            }
            assert forall|i: int| 0 <= i < r.len() - 1 && (#[trigger] r[i]) is Literal implies !(r[i
                + 1] is Literal) by {
                assert(r[i + 1] == ps[i]);
                if i > 0 {
                    assert(r[i] == ps[i - 1]);
                }
            }
        }
    }
}

/// Every template that parses is well formed: no literal part is empty,
/// and no two literals are next to each other.
pub proof fn lemma_parsed_well_formed(s: Seq<char>)
    ensures
        parse_spec(s) matches Ok(ps) ==> well_formed(ps),
    decreases s.len(),
{
    if s.len() == 0 {
    } else if s[0] == '{' {
        if s.len() >= 2 && s[1] == '{' {
            lemma_parsed_well_formed(s.skip(2));
            if let Ok(ps) = parse_spec(s.skip(2)) {
                lemma_lit_prepend_well_formed(seq!['{'], ps);
            }
        } else {
            let body = s.skip(1);
            let k = brace_free_len(body);
            lemma_brace_free_len_bound(body);
            if k < body.len() && body[k as int] != '{' {
                lemma_parsed_well_formed(body.skip(k + 1int));
                if let Ok(ps) = parse_spec(body.skip(k + 1int)) {
                    let content = body.take(k as int);
                    let r = seq![PartView::Tag(tag_of_text(content))] + ps;
                    assert forall|i: int| 0 <= i < r.len() && r[i] is Literal implies r[i]->Literal_0.len()
                        > 0 by {
                        assert(r[i] == ps[i - 1]);
                    }
                    assert forall|i: int| 0 <= i < r.len() - 1 && (#[trigger] r[i]) is Literal implies !(r[i
                        + 1] is Literal) by {
                        assert(r[i] == ps[i - 1]);
                        assert(r[i + 1] == ps[i]);
                    }
                }
            }
        }
    } else if s[0] == '}' {
        if s.len() >= 2 && s[1] == '}' {
            lemma_parsed_well_formed(s.skip(2));
            if let Ok(ps) = parse_spec(s.skip(2)) {
                lemma_lit_prepend_well_formed(seq!['}'], ps);
            }
        }
    } else {
        lemma_parsed_well_formed(s.skip(1));
        if let Ok(ps) = parse_spec(s.skip(1)) {
            lemma_lit_prepend_well_formed(seq![s[0]], ps);
        }
    }
}

/// Text without braces parses to itself as one literal, or to no parts when
/// it is empty.
pub proof fn lemma_brace_free_is_literal(s: Seq<char>)
    requires
        forall|i: int| 0 <= i < s.len() ==> !is_brace(s[i]),
    ensures
        parse_spec(s) == Ok::<Seq<PartView>, TemplateErrorView>(if s.len() == 0 {
            seq![]
        } else {
            seq![PartView::Literal(s)]
        }),
    decreases s.len(),
{
    if s.len() > 0 {
        let rest = s.skip(1);
        assert forall|i: int| 0 <= i < rest.len() implies !is_brace(rest[i]) by {
            assert(rest[i] == s[i + 1]);
        }
        assert(!is_brace(s[0]));
        lemma_brace_free_is_literal(rest);
        if rest.len() > 0 {
            assert(seq![s[0]] + rest =~= s);
        } else {
            assert(seq![s[0]] =~= s);
        }
    }
}

/// A tag part needs no lookup result; a literal part needs none either.
pub open spec fn part_text(p: PartView, value: Seq<char>) -> Seq<char> {
    match p {
        PartView::Literal(l) => l,
        PartView::Tag(_) => value,
    }
}

/// The text of the parts, each tag replaced by the value at its position.
pub open spec fn rendered(parts: Seq<PartView>, values: Seq<Seq<char>>) -> Seq<char>
    decreases parts.len(),
{
    if parts.len() == 0 {
        seq![]
    } else {
        rendered(parts.drop_last(), values) + part_text(
            parts.last(),
            values[parts.len() - 1],
        )
    }
}

/// Rendering with a lookup that gives each tag a fixed value, or none.
pub open spec fn render_spec(parts: Seq<PartView>, lookup: spec_fn(Tag) -> Option<Seq<char>>) -> Option<
    Seq<char>,
>
    decreases parts.len(),
{
    if parts.len() == 0 {
        Some(seq![])
    } else {
        match render_spec(parts.drop_last(), lookup) {
            None => None,
            Some(front) => match parts.last() {
                PartView::Literal(l) => Some(front + l),
                PartView::Tag(t) => match lookup(t) {
                    Some(v) => Some(front + v),
                    None => None,
                },
            },
        }
    }
}

pub open spec fn part_tag(p: PartView) -> Tag {
    p->Tag_0
}

/// The lookup can answer `t` with a string whose text is `v`.
pub open spec fn answered<F: Fn(Tag) -> Option<String>>(lookup: F, t: Tag, v: Seq<char>) -> bool {
    exists|r: String| r@ == v && call_ensures(lookup, (t,), Some(r))
}

/// What rendering promises: either text built from one answer per tag, or
/// a tag that the lookup could not answer.
pub open spec fn render_outcome<F: Fn(Tag) -> Option<String>>(
    parts: Seq<PartView>,
    lookup: F,
    result: Option<Seq<char>>,
) -> bool {
    match result {
        Some(s) => exists|answers: Seq<Seq<char>>|
            {
                &&& answers.len() == parts.len()
                &&& forall|i: int|
                    0 <= i < parts.len() && (#[trigger] parts[i]) is Tag ==> answered(
                        lookup,
                        part_tag(parts[i]),
                        answers[i],
                    )
                &&& s == rendered(parts, answers)
            },
        None => exists|i: int|
            0 <= i < parts.len() && (#[trigger] parts[i]) is Tag && call_ensures(
                lookup,
                (part_tag(parts[i]),),
                None::<String>,
            ),
    }
}

pub open spec fn opt_view(r: Option<String>) -> Option<Seq<char>> {
    match r {
        Some(s) => Some(s@),
        None => None,
    }
}

proof fn lemma_rendered_prefix(parts: Seq<PartView>, answers: Seq<Seq<char>>, g: spec_fn(Tag) -> Option<Seq<char>>, n: int)
    requires
        0 <= n <= parts.len(),
        answers.len() == parts.len(),
        forall|i: int| 0 <= i < parts.len() && (#[trigger] parts[i]) is Tag ==> g(part_tag(parts[i])) == Some(answers[i]),
    ensures
        render_spec(parts.take(n), g) == Some(rendered(parts.take(n), answers)),
    decreases n,
{
    if n > 0 {
        lemma_rendered_prefix(parts, answers, g, n - 1);
        assert(parts.take(n).drop_last() =~= parts.take(n - 1));
    }
}

proof fn lemma_render_none(parts: Seq<PartView>, g: spec_fn(Tag) -> Option<Seq<char>>, i: int, n: int)
    requires
        0 <= i < n <= parts.len(),
        parts[i] is Tag,
        g(part_tag(parts[i])) is None,
    ensures
        render_spec(parts.take(n), g) is None,
    decreases n,
{
    assert(parts.take(n).drop_last() =~= parts.take(n - 1));
    if i < n - 1 {
        lemma_render_none(parts, g, i, n - 1);
    }
}

proof fn lemma_rendered_depends_on_prefix(parts: Seq<PartView>, a: Seq<Seq<char>>, b: Seq<Seq<char>>)
    requires
        parts.len() <= a.len(),
        parts.len() <= b.len(),
        forall|j: int| 0 <= j < parts.len() ==> a[j] == b[j],
    ensures
        rendered(parts, a) == rendered(parts, b),
    decreases parts.len(),
{
    if parts.len() > 0 {
        lemma_rendered_depends_on_prefix(parts.drop_last(), a, b);
    }
}

/// When the lookup answers every tag as `g` says, rendering gives exactly
/// `render_spec(parts, g)`.
pub proof fn lemma_render_determined<F: Fn(Tag) -> Option<String>>(
    parts: Seq<PartView>,
    lookup: F,
    g: spec_fn(Tag) -> Option<Seq<char>>,
    result: Option<Seq<char>>,
)
    requires
        forall|t: Tag, r: Option<String>| call_ensures(lookup, (t,), r) ==> opt_view(r) == g(t),
        render_outcome(parts, lookup, result),
    ensures
        result == render_spec(parts, g),
{
    assert(parts.take(parts.len() as int) =~= parts);
    match result {
        Some(s) => {
            let answers = choose|answers: Seq<Seq<char>>|
                {
                    &&& answers.len() == parts.len()
                    &&& forall|i: int|
                        0 <= i < parts.len() && (#[trigger] parts[i]) is Tag ==> answered(
                            lookup,
                            part_tag(parts[i]),
                            answers[i],
                        )
                    &&& s == rendered(parts, answers)
                };
            assert forall|i: int| 0 <= i < parts.len() && (#[trigger] parts[i]) is Tag implies g(
                part_tag(parts[i]),
            ) == Some(answers[i]) by {
                let r = choose|r: String| r@ == answers[i] && call_ensures(lookup, (part_tag(parts[i]),), Some(r));
                assert(opt_view(Some(r)) == g(part_tag(parts[i])));
            }
            lemma_rendered_prefix(parts, answers, g, parts.len() as int);
        },
        None => {
            let i = choose|i: int|
                0 <= i < parts.len() && (#[trigger] parts[i]) is Tag && call_ensures(
                    lookup,
                    (part_tag(parts[i]),),
                    None::<String>,
                );
            assert(opt_view(None::<String>) == g(part_tag(parts[i])));
            lemma_render_none(parts, g, i, parts.len() as int);
        },
    }
}

impl NameTemplate {
    /// Reads a template from its text.
    pub fn parse_string(s: &str) -> (result: Result<NameTemplate, TemplateError>)
        ensures
            match result {
                Ok(t) => parse_spec(s@) == Ok::<Seq<PartView>, TemplateErrorView>(t@),
                Err(e) => parse_spec(s@) == Err::<Seq<PartView>, TemplateErrorView>(e@),
            },
            result matches Ok(t) ==> well_formed(t@),
    {
        proof {
            lemma_parsed_well_formed(s@);
        }
        let chars = chars_of(s);
        let n = chars.len();
        let mut parts: Vec<Part> = Vec::new();
        let mut current = String::new();
        let mut i: usize = 0;
        assert(s@.skip(0) =~= s@);
        while i < n
            invariant
                chars@ == s@,
                n == chars.len(),
                i <= n,
                parse_spec(s@) == extend(
                    parts@.map_values(|p: Part| p@),
                    current@,
                    parse_spec(s@.skip(i as int)),
                ),
            decreases n - i,
        {
            let ghost rest = s@.skip(i as int);
            let ghost ps = parts@.map_values(|p: Part| p@);
            assert(rest[0] == chars@[i as int]);
            let ch = chars[i];
            if ch == '{' {
                if i + 1 < n && chars[i + 1] == '{' {
                    assert(rest.skip(2) =~= s@.skip(i + 2));
                    proof {
                        lemma_extend_char(ps, current@, '{', parse_spec(rest.skip(2)));
                    }
                    push_char(&mut current, '{');
                    i = i + 2;
                } else {
                    let ghost body = rest.skip(1);
                    let ghost cur0 = current@;
                    assert(i + 1 < n ==> rest[1] == chars@[i + 1]);
                    assert(rest.len() == n - i);
                    assert(body =~= s@.skip(i + 1));
                    if current.as_str().unicode_len() > 0 {
                        parts.push(Part::Literal(current));
                        current = String::new();
                        assert(parts@.map_values(|p: Part| p@) =~= ps.push(
                            PartView::Literal(cur0),
                        ));
                    }
                    let ghost ps2 = parts@.map_values(|p: Part| p@);
                    let tag_result = Self::parse_tag(&chars, i + 1);
                    match tag_result {
                        Err(e) => {
                            proof {
                                let k = brace_free_len(body);
                                lemma_brace_free_len_bound(body);
                                assert(chars@.skip(i + 1) =~= body);
                                assert(k == body.len() || body[k as int] == '{');
                                assert(parse_spec(rest) == Err::<Seq<PartView>, TemplateErrorView>(
                                    TemplateErrorView::UnmatchedOpen,
                                ));
                            }
                            return Err(e);
                        },
                        Ok((content, next)) => {
                            let ghost k = brace_free_len(body);
                            assert(body.take(k as int) =~= content@);
                            match Tag::parse(content.as_str()) {
                                Err(_) => {
                                    return Err(TemplateError::UnknownTag(content));
                                },
                                Ok(tag) => {
                                    assert(tag_text(tag) == content@);
                                    assert(is_tag_text(content@));
                                    proof {
                                        let t2 = tag_of_text(content@);
                                        crate::config::tag::lemma_tag_text_injective(tag, t2);
                                    }
                                    assert(body.skip(k + 1int) =~= s@.skip(next as int));
                                    parts.push(Part::Tag(tag));
                                    assert(parts@.map_values(|p: Part| p@) =~= ps2.push(
                                        PartView::Tag(tag),
                                    ));
                                    i = next;
                                    proof {
                                        match parse_spec(s@.skip(next as int)) {
                                            Ok(tail) => {
                                                assert(ps + lit_prepend(
                                                    cur0,
                                                    seq![PartView::Tag(tag)] + tail,
                                                ) =~= ps2.push(PartView::Tag(tag)) + lit_prepend(
                                                    current@,
                                                    tail,
                                                ));
                                            },
                                            Err(_) => {},
                                        }
                                    }
                                },
                            }
                        },
                    }
                }
            } else if ch == '}' {
                if i + 1 < n && chars[i + 1] == '}' {
                    assert(rest.skip(2) =~= s@.skip(i + 2));
                    proof {
                        lemma_extend_char(ps, current@, '}', parse_spec(rest.skip(2)));
                    }
                    push_char(&mut current, '}');
                    i = i + 2;
                } else {
                    return Err(TemplateError::UnmatchedClose);
                }
            } else {
                assert(rest.skip(1) =~= s@.skip(i + 1));
                proof {
                    lemma_extend_char(ps, current@, ch, parse_spec(rest.skip(1)));
                }
                push_char(&mut current, ch);
                i = i + 1;
            }
        }
        assert(s@.skip(n as int) =~= Seq::<char>::empty());
        let ghost ps = parts@.map_values(|p: Part| p@);
        if current.as_str().unicode_len() > 0 {
            parts.push(Part::Literal(current));
            assert(parts@.map_values(|p: Part| p@) =~= ps + lit_prepend(
                current@,
                Seq::<PartView>::empty(),
            ));
        } else {
            assert(parts@.map_values(|p: Part| p@) =~= ps + Seq::<PartView>::empty());
        }
        Ok(NameTemplate { parts })
    }

    /// Renders the template, replacing each tag with what `lookup` gives for
    /// it. Gives nothing if `lookup` gives nothing for some tag.
    pub fn render<F: Fn(Tag) -> Option<String>>(&self, lookup: F) -> (result: Option<String>)
        requires
            forall|t: Tag| lookup.requires((t,)),
        ensures
            render_outcome(self@, lookup, opt_view(result)),
    {
        let mut result = String::new();
        let ghost parts = self@;
        let ghost mut answers: Seq<Seq<char>> = seq![];
        let mut i: usize = 0;
        while i < self.parts.len()
            invariant
                parts == self@,
                parts.len() == self.parts.len(),
                i <= self.parts.len(),
                answers.len() == i,
                forall|j: int| 0 <= j < i && (#[trigger] parts[j]) is Tag ==> answered(
                    lookup,
                    part_tag(parts[j]),
                    answers[j],
                ),
                forall|t: Tag| lookup.requires((t,)),
                result@ == rendered(parts.take(i as int), answers),
            decreases self.parts.len() - i,
        {
            assert(parts[i as int] == self.parts[i as int]@);
            let ghost prev = answers;
            match &self.parts[i] {
                Part::Literal(literal) => {
                    result.append(literal.as_str());
                    proof {
                        answers = answers.push(Seq::<char>::empty());
                    }
                },
                Part::Tag(tag) => {
                    match lookup(*tag) {
                        Some(value) => {
                            result.append(value.as_str());
                            proof {
                                answers = answers.push(value@);
                                assert(answered(lookup, *tag, value@));
                            }
                        },
                        None => {
                            assert(call_ensures(lookup, (part_tag(parts[i as int]),), None::<String>));
                            return None;
                        },
                    }
                },
            }
            proof {
                let t1 = parts.take(i + 1);
                assert(t1.drop_last() =~= parts.take(i as int));
                assert(t1.last() == parts[i as int]);
                lemma_rendered_depends_on_prefix(parts.take(i as int), answers, prev);
                assert(rendered(t1, answers) == rendered(parts.take(i as int), answers) + part_text(
                    parts[i as int],
                    answers[i as int],
                ));
            }
            i += 1;
        }
        assert(parts.take(parts.len() as int) =~= parts);
        Some(result)
    }

    /// Reads the text of a tag that starts at `start`, just after a `{`:
    /// everything up to the next brace, which must be a `}`. Returns the text
    /// and the position after the `}`.
    pub fn parse_tag(chars: &Vec<char>, start: usize) -> (result: Result<(String, usize), TemplateError>)
        requires
            start <= chars.len(),
        ensures
            ({
                let k = brace_free_len(chars@.skip(start as int));
                match result {
                    Ok((content, next)) => {
                        &&& start + k < chars.len()
                        &&& chars@[start + k] == '}'
                        &&& content@ == chars@.subrange(start as int, start + k)
                        &&& next == start + k + 1
                    },
                    Err(e) => {
                        &&& e == TemplateError::UnmatchedOpen
                        &&& (start + k == chars.len() || chars@[start + k] == '{')
                    },
                }
            }),
    {
        let mut j = start;
        while j < chars.len() && chars[j] != '{' && chars[j] != '}'
            invariant
                start <= j <= chars.len(),
                forall|x: int| start <= x < j ==> !is_brace(chars@[x]),
            decreases chars.len() - j,
        {
            j += 1;
        }
        proof {
            let t = chars@.skip(start as int);
            lemma_brace_free_len_is(t, j - start);
        }
        if j < chars.len() && chars[j] == '}' {
            let content = string_from_chars(chars, start, j);
            Ok((content, j + 1))
        } else {
            Err(TemplateError::UnmatchedOpen)
        }
    }
}

impl std::str::FromStr for NameTemplate {
    type Err = TemplateError;

    fn from_str(s: &str) -> (result: Result<Self, Self::Err>)
        ensures
            match result {
                Ok(t) => parse_spec(s@) == Ok::<Seq<PartView>, TemplateErrorView>(t@),
                Err(e) => parse_spec(s@) == Err::<Seq<PartView>, TemplateErrorView>(e@),
            },
    {
        NameTemplate::parse_string(s)
    }
}

} // verus!
