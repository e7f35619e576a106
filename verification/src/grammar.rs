//! What holds of every parse: where sequences end, when a list item starts, and
//! how the ranges of the elements lie in each other.
use crate::ast::{Elem, Span};
use crate::lower::{render, render_all, render_first};
use crate::cursor::{byte_pos, lemma_byte_pos_step};
use crate::lexer::{lemma_token_advances, markup_token, markup_token_end};
use crate::parser::{
    column, error_at, lemma_elem_advances, line_boundary, parse_elem, parse_seq, parse_template,
    span_of, ParseError, ParseErrorKind, StopRule,
};
use crate::token::Tok;
use vstd::prelude::*;

verus! {

/// True when the range of each element nested in `e` lies inside the range of the
/// element that holds it.
pub open spec fn nested(e: Elem) -> bool
    decreases e,
{
    match e {
        Elem::Strong { span, elems } => forall|k: int|
            0 <= k < elems.len() ==> (#[trigger] elems[k]).span().within(span) && nested(elems[k]),
        Elem::List { span, elems } => forall|k: int|
            0 <= k < elems.len() ==> (#[trigger] elems[k]).span().within(span) && nested(elems[k]),
        _ => true,
    }
}

/// True when each element of `es` lies inside `outer`, and what is nested in it
/// inside it.
pub open spec fn all_within(es: Seq<Elem>, outer: Span) -> bool {
    forall|k: int| 0 <= k < es.len() ==> (#[trigger] es[k]).span().within(outer) && nested(es[k])
}

/// An emphasis span that is still open at a paragraph break ends before the
/// break: the break is left for the sequence around the span.
pub proof fn lemma_strong_ends_before_parbreak(
    s: Seq<char>,
    i: int,
    at_start: bool,
    min_indent: nat,
    acc: Seq<Elem>,
)
    ensures
        markup_token(s, i) is Parbreak ==> parse_seq(
            s,
            i,
            at_start,
            min_indent,
            StopRule::Strong,
            acc,
        ) == Ok::<(Seq<Elem>, int), ParseError>((acc, i)),
{
}

/// A list marker starts a list item only where it is the first token on its
/// line; elsewhere it is an error. Nothing but a list marker at the start of a
/// line gives a list item.
pub proof fn lemma_list_item_needs_line_start(s: Seq<char>, i: int, at_start: bool)
    ensures
        markup_token(s, i) is ListMarker && !at_start ==> parse_elem(s, i, at_start) == Err::<
            (Elem, int),
            ParseError,
        >(error_at(s, i, ParseErrorKind::UnexpectedToken)),
        parse_elem(s, i, at_start) matches Ok((e, _)) ==> (e is List <==> markup_token(s, i)
            is ListMarker),
        parse_elem(s, i, at_start) matches Ok((e, _)) ==> (e is List ==> at_start),
{
}

/// In a sequence, the element after a line boundary starts a line: a list
/// marker there starts a list item whatever came before the boundary.
pub proof fn lemma_line_boundary_starts_a_line(
    s: Seq<char>,
    i: int,
    at_start: bool,
    rule: StopRule,
    acc: Seq<Elem>,
)
    requires
        0 <= i <= s.len(),
    ensures
        line_boundary(markup_token(s, i)) && !(rule == StopRule::Strong && markup_token(s, i)
            is Parbreak) ==> (parse_elem(s, i, true) matches Ok((e, next)) && parse_seq(
            s,
            i,
            at_start,
            0,
            rule,
            acc,
        ) == parse_seq(s, next, true, 0, rule, acc.push(e))),
{
    lemma_token_advances(s, i);
    lemma_elem_advances(s, i, true);
}

/// A sequence that nothing but a closing brace can end does end before one.
pub proof fn lemma_top_level_ends_at_brace(s: Seq<char>, i: int, at_start: bool, acc: Seq<Elem>)
    requires
        0 <= i <= s.len(),
    ensures
        parse_seq(s, i, at_start, 0, StopRule::Never, acc) matches Ok((_, next)) ==> markup_token(
            s,
            next,
        ) is RightBrace,
    decreases s.len() - i,
{
    let tok = markup_token(s, i);
    if !(tok is RightBrace) {
        match parse_elem(s, i, at_start || line_boundary(tok)) {
            Ok((elem, next)) => {
                if i < next <= s.len() {
                    lemma_top_level_ends_at_brace(s, next, line_boundary(tok), acc.push(elem));
                }
            },
            Err(_) => {},
        }
    }
}

/// A template that parses ends with its closing brace, inside the text.
pub proof fn lemma_template_is_closed(s: Seq<char>, i: int, expr_allowed: bool)
    requires
        0 <= i <= s.len(),
    ensures
        parse_template(s, i, expr_allowed) matches Ok((_, _, next)) ==> i + 2 < next <= s.len()
            && s[next - 1] == '}',
{
    if i + 2 <= s.len() {
        lemma_top_level_ends_at_brace(s, i + 2, true, Seq::empty());
        crate::parser::lemma_seq_bounds(s, i + 2, true, 0, StopRule::Never, Seq::empty());
        match parse_seq(s, i + 2, true, 0, StopRule::Never, Seq::empty()) {
            Ok((_, next)) => {
                lemma_token_advances(s, next);
            },
            Err(_) => {},
        }
    }
}

/// A text element stands for the very characters of the source that it was read
/// from, and whitespace for one space, one newline or two newlines.
pub proof fn lemma_render_of_plain_elements(s: Seq<char>, i: int, at_start: bool)
    ensures
        parse_elem(s, i, at_start) matches Ok((e, next)) ==> {
            &&& e is Text ==> render(e) == s.subrange(i, next)
            &&& e is Space ==> render(e) == (if markup_token(s, i) == (Tok::Space { newline: true }) {
                seq!['\n']
            } else {
                seq![' ']
            })
            &&& e is Parbreak ==> render(e) == seq!['\n', '\n']
        },
{
}

/// The range between two indices, where the text is short enough for byte
/// offsets to fit: its ends are the byte offsets, and a range between later
/// indices does not start or end earlier.
proof fn lemma_span_of(s: Seq<char>, a: int, b: int)
    requires
        0 <= a <= b <= s.len(),
        s.len() * 4 <= usize::MAX,
    ensures
        span_of(s, a, b).lo == byte_pos(s, a),
        span_of(s, a, b).hi == byte_pos(s, b),
        byte_pos(s, a) <= byte_pos(s, b),
{
    lemma_byte_pos_step(s, 0, a);
    lemma_byte_pos_step(s, a, b);
    lemma_byte_pos_step(s, b, s.len() as int);
    lemma_byte_pos_step(s, 0, s.len() as int);
}

/// An element's range runs from its first character to its last, and the ranges
/// of what is nested in it lie inside it.
pub proof fn lemma_elem_ranges(s: Seq<char>, i: int, at_start: bool)
    requires
        0 <= i <= s.len(),
        s.len() * 4 <= usize::MAX,
    ensures
        parse_elem(s, i, at_start) matches Ok((e, next)) ==> e.span() == span_of(s, i, next)
            && nested(e),
    decreases s.len() - i, 0int,
{
    lemma_token_advances(s, i);
    match markup_token(s, i) {
        Tok::Star => {
            if i < s.len() {
                lemma_seq_ranges(s, i + 1, false, 0, StopRule::Strong, Seq::empty(), i);
            }
        },
        Tok::ListMarker => {
            if at_start && i < s.len() {
                lemma_seq_ranges(
                    s,
                    i + 1,
                    false,
                    column(s, i) + 1,
                    StopRule::Never,
                    Seq::empty(),
                    i,
                );
            }
        },
        _ => {},
    }
}

/// The elements of a sequence lie between the index `lo`, at or before the
/// sequence's start, and its end, where those put before them do.
pub proof fn lemma_seq_ranges(
    s: Seq<char>,
    i: int,
    at_start: bool,
    min_indent: nat,
    rule: StopRule,
    acc: Seq<Elem>,
    lo: int,
)
    requires
        0 <= lo <= i <= s.len(),
        s.len() * 4 <= usize::MAX,
        all_within(acc, span_of(s, lo, i)),
    ensures
        parse_seq(s, i, at_start, min_indent, rule, acc) matches Ok((all, next)) ==> i <= next
            <= s.len() && all_within(all, span_of(s, lo, next)),
    decreases s.len() - i, 1int,
{
    lemma_token_advances(s, i);
    let tok = markup_token(s, i);
    let end = markup_token_end(s, i);
    lemma_span_of(s, lo, i);
    if rule == StopRule::Strong && tok is Star {
        lemma_span_of(s, lo, end);
        lemma_span_of(s, i, end);
    } else if rule == StopRule::Strong && tok is Parbreak {
    } else if tok is RightBrace {
    } else if line_boundary(tok) && min_indent > 0 {
    } else {
        let first = at_start || line_boundary(tok);
        lemma_elem_ranges(s, i, first);
        match parse_elem(s, i, first) {
            Ok((elem, next)) => {
                if i < next <= s.len() {
                    lemma_span_of(s, lo, next);
                    lemma_span_of(s, i, next);
                    let more = acc.push(elem);
                    assert(all_within(more, span_of(s, lo, next))) by {
                        assert forall|k: int| 0 <= k < more.len() implies (#[trigger] more[k]).span().within(
                            span_of(s, lo, next),
                        ) && nested(more[k]) by {
                            if k < acc.len() {
                                assert(more[k] == acc[k]);
                            }
                        }
                    }
                    lemma_seq_ranges(s, next, line_boundary(tok), min_indent, rule, more, lo);
                }
            },
            Err(_) => {},
        }
    }
}

/// The ranges of a template's elements lie inside the template's range, and the
/// ranges of what is nested in an element inside that element's range.
pub proof fn lemma_template_ranges(s: Seq<char>, i: int, expr_allowed: bool)
    requires
        0 <= i <= s.len(),
        s.len() * 4 <= usize::MAX,
    ensures
        parse_template(s, i, expr_allowed) matches Ok((span, elems, next)) ==> span == span_of(
            s,
            i,
            next,
        ) && all_within(elems, span),
{
    if i + 2 <= s.len() {
        lemma_seq_ranges(s, i + 2, true, 0, StopRule::Never, Seq::empty(), i);
        match parse_seq(s, i + 2, true, 0, StopRule::Never, Seq::empty()) {
            Ok((elems, next)) => {
                lemma_token_advances(s, next);
                if markup_token(s, next) is RightBrace {
                    lemma_span_of(s, i, next);
                    lemma_span_of(s, i, next + 1);
                }
            },
            Err(_) => {},
        }
    }
}

/// The text that a token stands for: text as it is, one space or one newline
/// for whitespace, two newlines for a paragraph break, and the marker itself for a
/// marker.
pub open spec fn token_text(t: Tok) -> Seq<char> {
    match t {
        Tok::Text { value } => value,
        Tok::Space { newline } => if newline {
            seq!['\n']
        } else {
            seq![' ']
        },
        Tok::Parbreak => seq!['\n', '\n'],
        Tok::Star => seq!['*'],
        Tok::ListMarker => seq!['-'],
        Tok::RightBrace => seq!['}'],
        Tok::Eof => Seq::empty(),
    }
}

/// The source between the indices `i` and `j` with its whitespace normalized:
/// the texts of the tokens that start there, one after the other.
pub open spec fn canonical(s: Seq<char>, i: int, j: int) -> Seq<char>
    decreases j - i,
{
    let end = markup_token_end(s, i);
    if i < end <= j {
        token_text(markup_token(s, i)) + canonical(s, end, j)
    } else {
        Seq::empty()
    }
}

/// True when no emphasis marker starts between the indices `i` and `j`.
pub open spec fn star_free(s: Seq<char>, i: int, j: int) -> bool {
    forall|k: int| i <= k < j ==> !(#[trigger] markup_token(s, k) is Star)
}

/// The texts of a sequence with one more element are the texts of the sequence
/// and then that of the element.
pub proof fn lemma_render_push(es: Seq<Elem>, e: Elem)
    ensures
        render_all(es.push(e)) == render_all(es) + render(e),
{
    lemma_render_first_prefix(es, e, es.len());
    assert(es.push(e)[es.len() as int] == e);
}

/// The texts of the first elements of a sequence do not depend on what follows them.
proof fn lemma_render_first_prefix(es: Seq<Elem>, e: Elem, n: nat)
    requires
        n <= es.len(),
    ensures
        render_first(es.push(e), n) == render_first(es, n),
    decreases n,
{
    if n > 0 {
        lemma_render_first_prefix(es, e, (n - 1) as nat);
        assert(es.push(e)[n - 1] == es[n - 1]);
    }
}

/// Where no emphasis marker starts inside an element, its text is the normalized
/// source that it was read from: the normalized source from its start to any
/// index `j` behind it is the element's text and then the normalized source from
/// its end to `j`.
pub proof fn lemma_elem_text(s: Seq<char>, i: int, at_start: bool, j: int)
    requires
        0 <= i <= s.len(),
    ensures
        parse_elem(s, i, at_start) matches Ok((e, next)) ==> (star_free(s, i, next) && next <= j
            ==> canonical(s, i, j) == render(e) + canonical(s, next, j)),
    decreases s.len() - i, 0int,
{
    lemma_token_advances(s, i);
    lemma_elem_advances(s, i, at_start);
    match parse_elem(s, i, at_start) {
        Ok((e, next)) => {
            if star_free(s, i, next) && next <= j {
                assert(!(markup_token(s, i) is Star));
                match markup_token(s, i) {
                    Tok::ListMarker => {
                        let inner = parse_seq(
                            s,
                            i + 1,
                            false,
                            column(s, i) + 1,
                            StopRule::Never,
                            Seq::empty(),
                        );
                        lemma_seq_text(
                            s,
                            i + 1,
                            false,
                            column(s, i) + 1,
                            StopRule::Never,
                            Seq::empty(),
                            j,
                        );
                        let elems = inner->Ok_0.0;
                        assert(render_all(Seq::<Elem>::empty()) =~= Seq::<char>::empty());
                        assert(canonical(s, i, j) =~= seq!['-'] + (Seq::<char>::empty() + canonical(
                            s,
                            i + 1,
                            j,
                        )));
                        assert(render(e) + canonical(s, next, j) =~= seq!['-'] + (render_all(elems)
                            + canonical(s, next, j)));
                    },
                    _ => {},
                }
            }
        },
        Err(_) => {},
    }
}

/// Where no emphasis marker starts inside a sequence, the texts of its elements
/// are the normalized source that they were read from.
pub proof fn lemma_seq_text(
    s: Seq<char>,
    i: int,
    at_start: bool,
    min_indent: nat,
    rule: StopRule,
    acc: Seq<Elem>,
    j: int,
)
    requires
        0 <= i <= s.len(),
    ensures
        parse_seq(s, i, at_start, min_indent, rule, acc) matches Ok((all, next)) ==> (star_free(
            s,
            i,
            next,
        ) && next <= j ==> render_all(acc) + canonical(s, i, j) == render_all(all) + canonical(
            s,
            next,
            j,
        )),
    decreases s.len() - i, 1int,
{
    lemma_token_advances(s, i);
    let tok = markup_token(s, i);
    match parse_seq(s, i, at_start, min_indent, rule, acc) {
        Ok((all, next)) => {
            if star_free(s, i, next) && next <= j {
                if rule == StopRule::Strong && tok is Star {
                    assert(markup_token(s, i) is Star);
                } else if rule == StopRule::Strong && tok is Parbreak {
                } else if tok is RightBrace {
                } else if line_boundary(tok) && min_indent > 0 {
                } else {
                    let first = at_start || line_boundary(tok);
                    lemma_elem_advances(s, i, first);
                    let (e, mid) = parse_elem(s, i, first)->Ok_0;
                    crate::parser::lemma_seq_bounds(
                        s,
                        mid,
                        line_boundary(tok),
                        min_indent,
                        rule,
                        acc.push(e),
                    );
                    lemma_elem_text(s, i, first, j);
                    lemma_seq_text(s, mid, line_boundary(tok), min_indent, rule, acc.push(e), j);
                    lemma_render_push(acc, e);
                    assert(render_all(acc) + canonical(s, i, j) =~= (render_all(acc) + render(e))
                        + canonical(s, mid, j));
                }
            }
        },
        Err(_) => {},
    }
}

/// Lowering a template in which no emphasis marker starts gives its source back,
/// with the whitespace normalized: the strings of the lowered array, one after
/// the other, are the normalized source between `@{` and the closing brace.
pub proof fn lemma_lowering_gives_source_back(s: Seq<char>, i: int, expr_allowed: bool)
    requires
        0 <= i <= s.len(),
    ensures
        parse_template(s, i, expr_allowed) matches Ok((_, elems, next)) ==> (star_free(
            s,
            i + 2,
            next - 1,
        ) ==> render_all(elems) == canonical(s, i + 2, next - 1)),
{
    if i + 2 <= s.len() {
        lemma_seq_text(s, i + 2, true, 0, StopRule::Never, Seq::empty(), s.len() as int);
        match parse_seq(s, i + 2, true, 0, StopRule::Never, Seq::empty()) {
            Ok((elems, end)) => {
                crate::parser::lemma_seq_bounds(s, i + 2, true, 0, StopRule::Never, Seq::empty());
                lemma_seq_text(s, i + 2, true, 0, StopRule::Never, Seq::empty(), end);
                lemma_token_advances(s, end);
                assert(render_all(Seq::<Elem>::empty()) =~= Seq::<char>::empty());
                assert(canonical(s, end, end) =~= Seq::<char>::empty());
                assert(Seq::<char>::empty() + canonical(s, i + 2, end) =~= canonical(s, i + 2, end));
                assert(render_all(elems) + Seq::<char>::empty() =~= render_all(elems));
            },
            Err(_) => {},
        }
    }
}

} // verus!
