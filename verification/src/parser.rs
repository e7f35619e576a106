//! The parser of markup: from the tokens of a template to its tree.
use crate::ast::{
    elems_view, Elem, NotaElem, NotaListItem, NotaParbreak, NotaSpace, NotaStrong, NotaTemplate,
    NotaText, Span,
};
use crate::chars::{is_newline, line_break};
use crate::cursor::byte_pos;
use crate::lexer::{
    at_template_open, lemma_token_advances, markup_token, markup_token_end, Lexer,
};
use crate::token::{NotaToken, NotaTokenContext, Tok, Token, TokenContext};
use vstd::prelude::*;

verus! {

/// What went wrong in a template.
#[derive(Debug, Copy, Clone, PartialEq, Eq, Structural)]
pub enum ParseErrorKind {
    /// The text ended before the template's closing brace.
    UnterminatedTemplate,
    /// A token stands where the grammar has no rule for it.
    UnexpectedToken,
    /// The text at the cursor does not open a template.
    EntryMismatch,
}

/// A failure to parse, with the byte offset at which it was found.
#[derive(Debug, Copy, Clone, PartialEq, Eq, Structural)]
pub struct ParseError {
    pub kind: ParseErrorKind,
    pub pos: usize,
}

impl ParseError {
    /// What a diagnostic says of this error.
    pub fn message(&self) -> (m: &'static str)
        ensures
            m@ == (match self.kind {
                ParseErrorKind::UnterminatedTemplate => "unterminated template"@,
                ParseErrorKind::UnexpectedToken => "unexpected markup token"@,
                ParseErrorKind::EntryMismatch => "expected the start of a template"@,
            }),
    {
        match self.kind {
            ParseErrorKind::UnterminatedTemplate => "unterminated template",
            ParseErrorKind::UnexpectedToken => "unexpected markup token",
            ParseErrorKind::EntryMismatch => "expected the start of a template",
        }
    }
}

/// What ends a sequence of elements besides a closing brace and, inside a list
/// item, a line boundary.
#[derive(Debug, Copy, Clone, PartialEq, Eq, Structural)]
pub enum StopRule {
    /// Nothing else ends it.
    Never,
    /// A `*` ends it and is consumed; a paragraph break ends it and stays.
    Strong,
}

/// The range of bytes between the characters with indices `a` and `b`.
pub open spec fn span_of(s: Seq<char>, a: int, b: int) -> Span {
    Span { lo: byte_pos(s, a) as usize, hi: byte_pos(s, b) as usize }
}

/// The error of the given kind at the character with index `i`.
pub open spec fn error_at(s: Seq<char>, i: int, kind: ParseErrorKind) -> ParseError {
    ParseError { kind, pos: byte_pos(s, i) as usize }
}

/// True for the tokens that cross a line boundary.
pub open spec fn line_boundary(t: Tok) -> bool {
    match t {
        Tok::Parbreak => true,
        Tok::Space { newline } => newline,
        _ => false,
    }
}

/// The number of characters between the last line boundary before index `i` and `i`.
pub open spec fn column(s: Seq<char>, i: int) -> nat
    decreases i,
{
    if i <= 0 || i > s.len() || line_break(s[i - 1]) {
        0
    } else {
        1 + column(s, i - 1)
    }
}

/// The element that starts at index `i`, and the index behind it. `at_start` says
/// that nothing but whitespace stands before it on its line.
pub open spec fn parse_elem(s: Seq<char>, i: int, at_start: bool) -> Result<(Elem, int), ParseError>
    decreases s.len() - i, 0int,
{
    let end = markup_token_end(s, i);
    match markup_token(s, i) {
        Tok::Space { newline } => Ok(
            (Elem::Space { span: span_of(s, i, end), has_newline: newline }, end),
        ),
        Tok::Parbreak => Ok((Elem::Parbreak { span: span_of(s, i, end) }, end)),
        Tok::Text { value } => Ok((Elem::Text { span: span_of(s, i, end), value }, end)),
        Tok::Star => if i < s.len() {
            match parse_seq(s, i + 1, false, 0, StopRule::Strong, Seq::empty()) {
                Ok((elems, next)) => Ok((Elem::Strong { span: span_of(s, i, next), elems }, next)),
                Err(e) => Err(e),
            }
        } else {
            Err(error_at(s, i, ParseErrorKind::UnterminatedTemplate))
        },
        Tok::ListMarker => if at_start && i < s.len() {
            match parse_seq(s, i + 1, false, column(s, i) + 1, StopRule::Never, Seq::empty()) {
                Ok((elems, next)) => Ok((Elem::List { span: span_of(s, i, next), elems }, next)),
                Err(e) => Err(e),
            }
        } else {
            Err(error_at(s, i, ParseErrorKind::UnexpectedToken))
        },
        Tok::RightBrace => Err(error_at(s, i, ParseErrorKind::UnexpectedToken)),
        Tok::Eof => Err(error_at(s, i, ParseErrorKind::UnterminatedTemplate)),
    }
}

/// The elements from index `i` on, put behind `acc`, and the index at which the
/// sequence ends. The sequence ends where `rule` says so, before a closing brace,
/// and, for `min_indent > 0`, before a line boundary. Elsewhere a line boundary is
/// an element like any other, and the element after it starts a line. The test
/// that an element ends behind its start is there for the recursion's sake: it
/// holds of every element, as `lemma_elem_advances` shows.
pub open spec fn parse_seq(
    s: Seq<char>,
    i: int,
    at_start: bool,
    min_indent: nat,
    rule: StopRule,
    acc: Seq<Elem>,
) -> Result<(Seq<Elem>, int), ParseError>
    decreases s.len() - i, 1int,
{
    let tok = markup_token(s, i);
    if rule == StopRule::Strong && tok is Star {
        Ok((acc, markup_token_end(s, i)))
    } else if rule == StopRule::Strong && tok is Parbreak {
        Ok((acc, i))
    } else if tok is RightBrace {
        Ok((acc, i))
    } else if line_boundary(tok) && min_indent > 0 {
        Ok((acc, i))
    } else {
        match parse_elem(s, i, at_start || line_boundary(tok)) {
            Ok((elem, next)) => if i < next <= s.len() {
                parse_seq(s, next, line_boundary(tok), min_indent, rule, acc.push(elem))
            } else {
                Err(error_at(s, i, ParseErrorKind::UnexpectedToken))
            },
            Err(e) => Err(e),
        }
    }
}

/// The template that opens at index `i`, and the index behind its closing brace.
pub open spec fn parse_template(s: Seq<char>, i: int, expr_allowed: bool) -> Result<
    (Span, Seq<Elem>, int),
    ParseError,
> {
    if !(at_template_open(s, i) && expr_allowed) {
        Err(error_at(s, i, ParseErrorKind::EntryMismatch))
    } else {
        match parse_seq(s, i + 2, true, 0, StopRule::Never, Seq::empty()) {
            Ok((elems, next)) => if markup_token(s, next) is RightBrace {
                Ok((span_of(s, i, next + 1), elems, next + 1))
            } else {
                Err(error_at(s, next, ParseErrorKind::UnterminatedTemplate))
            },
            Err(e) => Err(e),
        }
    }
}

/// An element takes at least one character and ends inside the text; a sequence
/// ends inside the text and not before its start.
pub proof fn lemma_elem_advances(s: Seq<char>, i: int, at_start: bool)
    requires
        0 <= i <= s.len(),
    ensures
        parse_elem(s, i, at_start) matches Ok((_, next)) ==> i < next <= s.len(),
    decreases s.len() - i, 0int,
{
    lemma_token_advances(s, i);
    match markup_token(s, i) {
        Tok::Star => {
            if i < s.len() {
                lemma_seq_bounds(s, i + 1, false, 0, StopRule::Strong, Seq::empty());
            }
        },
        Tok::ListMarker => {
            if at_start && i < s.len() {
                lemma_seq_bounds(s, i + 1, false, column(s, i) + 1, StopRule::Never, Seq::empty());
            }
        },
        _ => {},
    }
}

/// A sequence ends inside the text and not before its start.
pub proof fn lemma_seq_bounds(
    s: Seq<char>,
    i: int,
    at_start: bool,
    min_indent: nat,
    rule: StopRule,
    acc: Seq<Elem>,
)
    requires
        0 <= i <= s.len(),
    ensures
        parse_seq(s, i, at_start, min_indent, rule, acc) matches Ok((_, next)) ==> i <= next
            <= s.len(),
    decreases s.len() - i, 1int,
{
    lemma_token_advances(s, i);
    let tok = markup_token(s, i);
    if rule == StopRule::Strong && tok is Star {
    } else if rule == StopRule::Strong && tok is Parbreak {
    } else if tok is RightBrace {
    } else if line_boundary(tok) && min_indent > 0 {
    } else {
        lemma_elem_advances(s, i, at_start || line_boundary(tok));
        match parse_elem(s, i, at_start || line_boundary(tok)) {
            Ok((elem, next)) => {
                if i < next <= s.len() {
                    lemma_seq_bounds(s, next, line_boundary(tok), min_indent, rule, acc.push(elem));
                }
            },
            Err(_) => {},
        }
    }
}

/// The models of a sequence with one more element are the models with one more.
pub proof fn lemma_elems_view_push(v: Seq<NotaElem>, e: NotaElem)
    ensures
        elems_view(v.push(e)) == elems_view(v).push(e@),
{
    assert(elems_view(v.push(e)) =~= elems_view(v).push(e@));
}

/// A parser of templates over a tokenizer.
pub struct Parser {
    pub lexer: Lexer,
}

impl Parser {
    /// The tokenizer is well-formed.
    pub open spec fn wf(&self) -> bool {
        self.lexer.wf()
    }

    /// The tokenizer is well-formed and in markup mode.
    pub open spec fn in_markup(&self) -> bool {
        self.lexer.wf() && self.lexer.spec_nota_context() == Some(NotaTokenContext::Markup)
    }

    /// The source text.
    pub open spec fn text(&self) -> Seq<char> {
        self.lexer.src@
    }

    /// The index of the current character.
    pub open spec fn at(&self) -> int {
        self.lexer.idx as int
    }

    /// True when `self` differs from `before` in its position at most.
    pub open spec fn moved_from(&self, before: &Parser) -> bool {
        self.lexer.moved_from(&before.lexer)
    }

    /// A parser that reads from `lexer`.
    pub fn new(lexer: Lexer) -> (p: Parser)
        ensures
            p.lexer == lexer,
    {
        Parser { lexer }
    }

    /// Reads the current token and steps over it.
    fn bump_token(&mut self) -> (t: NotaToken)
        requires
            old(self).in_markup(),
        ensures
            final(self).moved_from(old(self)),
            final(self).at() == markup_token_end(old(self).text(), old(self).at()),
            t@ == markup_token(old(self).text(), old(self).at()),
    {
        match self.lexer.maybe_read_nota_template() {
            Ok(Some(Token::Nota(t))) => t,
            _ => {
                proof {
                    assert(false);
                }
                NotaToken::Eof
            },
        }
    }

    /// Reads the current token and stays before it.
    fn cur_token(&mut self) -> (t: NotaToken)
        requires
            old(self).in_markup(),
        ensures
            final(self).moved_from(old(self)),
            final(self).at() == old(self).at(),
            t@ == markup_token(old(self).text(), old(self).at()),
    {
        let idx: usize = self.lexer.idx;
        let pos: usize = self.lexer.pos;
        let t = self.bump_token();
        self.lexer.idx = idx;
        self.lexer.pos = pos;
        t
    }

    /// Tests whether the current token crosses a line boundary.
    pub fn newline(&mut self) -> (b: bool)
        requires
            old(self).in_markup(),
        ensures
            final(self).moved_from(old(self)),
            final(self).at() == old(self).at(),
            b == line_boundary(markup_token(old(self).text(), old(self).at())),
    {
        match self.cur_token() {
            NotaToken::Parbreak => true,
            NotaToken::Space { newline } => newline,
            _ => false,
        }
    }

    /// The number of characters between the last line boundary before the
    /// character with index `at` and that character.
    pub fn column(&self, at: usize) -> (n: usize)
        requires
            at <= self.lexer.src.len(),
        ensures
            n == column(self.text(), at as int),
            n <= at,
    {
        let mut j: usize = at;
        while j > 0 && !is_newline(self.lexer.src[j - 1])
            invariant
                j <= at <= self.lexer.src.len(),
                column(self.text(), at as int) == column(self.text(), j as int) + (at - j),
            decreases j,
        {
            j = j - 1;
        }
        at - j
    }

    /// Parses one element. `at_start` says that nothing but whitespace stands
    /// before it on its line; only there a list marker starts a list item.
    pub fn parse_nota_markup_elem(&mut self, at_start: bool) -> (r: Result<NotaElem, ParseError>)
        requires
            old(self).in_markup(),
        ensures
            final(self).moved_from(old(self)),
            match parse_elem(old(self).text(), old(self).at(), at_start) {
                Ok((elem, next)) => r matches Ok(e) && e@ == elem && final(self).at() == next,
                Err(e) => r == Err::<NotaElem, ParseError>(e),
            },
        decreases old(self).text().len() - old(self).at(), 0int,
    {
        let start: usize = self.lexer.pos;
        let at: usize = self.lexer.idx;
        proof {
            lemma_token_advances(self.text(), self.at());
        }
        match self.bump_token() {
            NotaToken::Space { newline } => Ok(
                NotaElem::Space(
                    NotaSpace { span: Span { lo: start, hi: self.lexer.pos }, has_newline: newline },
                ),
            ),
            NotaToken::Parbreak => Ok(
                NotaElem::Parbreak(NotaParbreak { span: Span { lo: start, hi: self.lexer.pos } }),
            ),
            NotaToken::Text { value } => Ok(
                NotaElem::Text(NotaText { span: Span { lo: start, hi: self.lexer.pos }, value }),
            ),
            NotaToken::Star => match self.parse_nota_strong(start) {
                Ok(strong) => Ok(NotaElem::Strong(strong)),
                Err(e) => Err(e),
            },
            NotaToken::ListMarker => if at_start {
                match self.parse_nota_list(start, at) {
                    Ok(item) => Ok(NotaElem::List(item)),
                    Err(e) => Err(e),
                }
            } else {
                Err(ParseError { kind: ParseErrorKind::UnexpectedToken, pos: start })
            },
            NotaToken::RightBrace => Err(
                ParseError { kind: ParseErrorKind::UnexpectedToken, pos: start },
            ),
            NotaToken::Eof => Err(
                ParseError { kind: ParseErrorKind::UnterminatedTemplate, pos: start },
            ),
        }
    }

    /// Parses the content of an emphasis span whose opening `*`, at byte offset
    /// `start`, the cursor has just passed. The span ends behind the closing `*`, or
    /// before a paragraph break or a closing brace.
    pub fn parse_nota_strong(&mut self, start: usize) -> (r: Result<NotaStrong, ParseError>)
        requires
            old(self).in_markup(),
        ensures
            final(self).moved_from(old(self)),
            match parse_seq(
                old(self).text(),
                old(self).at(),
                false,
                0,
                StopRule::Strong,
                Seq::empty(),
            ) {
                Ok((elems, next)) => r matches Ok(strong) && elems_view(strong.elems@) == elems
                    && strong.span == (Span { lo: start, hi: byte_pos(old(self).text(), next) as usize })
                    && final(self).at() == next,
                Err(e) => r == Err::<NotaStrong, ParseError>(e),
            },
        decreases old(self).text().len() - old(self).at(), 2int,
    {
        match self.parse_nota_markup(false, 0, StopRule::Strong) {
            Ok(elems) => Ok(NotaStrong { span: Span { lo: start, hi: self.lexer.pos }, elems }),
            Err(e) => Err(e),
        }
    }

    /// Parses the content of a list item whose marker, at byte offset `start` and
    /// index `marker`, the cursor has just passed. The item ends before the first
    /// line boundary or closing brace.
    pub fn parse_nota_list(&mut self, start: usize, marker: usize) -> (r: Result<
        NotaListItem,
        ParseError,
    >)
        requires
            old(self).in_markup(),
            marker < old(self).lexer.src.len(),
        ensures
            final(self).moved_from(old(self)),
            match parse_seq(
                old(self).text(),
                old(self).at(),
                false,
                column(old(self).text(), marker as int) + 1,
                StopRule::Never,
                Seq::empty(),
            ) {
                Ok((elems, next)) => r matches Ok(item) && elems_view(item.elems@) == elems
                    && item.span == (Span { lo: start, hi: byte_pos(old(self).text(), next) as usize })
                    && final(self).at() == next,
                Err(e) => r == Err::<NotaListItem, ParseError>(e),
            },
        decreases old(self).text().len() - old(self).at(), 2int,
    {
        let min_indent: usize = self.column(marker) + 1;
        match self.parse_nota_markup(false, min_indent, StopRule::Never) {
            Ok(elems) => Ok(NotaListItem { span: Span { lo: start, hi: self.lexer.pos }, elems }),
            Err(e) => Err(e),
        }
    }

    /// Tests whether `stop` ends a sequence at the current token, and steps over
    /// the token where the rule consumes it.
    fn stops(&mut self, stop: StopRule) -> (b: bool)
        requires
            old(self).in_markup(),
        ensures
            final(self).moved_from(old(self)),
            b == (stop == StopRule::Strong && (markup_token(old(self).text(), old(self).at()) is Star
                || markup_token(old(self).text(), old(self).at()) is Parbreak)),
            final(self).at() == (if stop == StopRule::Strong && markup_token(
                old(self).text(),
                old(self).at(),
            ) is Star {
                markup_token_end(old(self).text(), old(self).at())
            } else {
                old(self).at()
            }),
    {
        match stop {
            StopRule::Never => false,
            StopRule::Strong => match self.cur_token() {
                NotaToken::Star => {
                    let _ = self.bump_token();
                    true
                },
                NotaToken::Parbreak => true,
                _ => false,
            },
        }
    }

    /// Parses a sequence of elements. It ends where `stop` says so, before a
    /// closing brace, and, for `min_indent > 0`, before a line boundary.
    pub fn parse_nota_markup(&mut self, at_start: bool, min_indent: usize, stop: StopRule) -> (r:
        Result<Vec<NotaElem>, ParseError>)
        requires
            old(self).in_markup(),
        ensures
            final(self).moved_from(old(self)),
            match parse_seq(
                old(self).text(),
                old(self).at(),
                at_start,
                min_indent as nat,
                stop,
                Seq::empty(),
            ) {
                Ok((elems, next)) => r matches Ok(v) && elems_view(v@) == elems && final(self).at()
                    == next,
                Err(e) => r == Err::<Vec<NotaElem>, ParseError>(e),
            },
        decreases old(self).text().len() - old(self).at(), 1int,
    {
        let ghost s = self.text();
        let ghost whole = parse_seq(s, self.at(), at_start, min_indent as nat, stop, Seq::empty());
        let mut line_start = at_start;
        let mut elems: Vec<NotaElem> = Vec::new();
        assert(elems_view(elems@) =~= Seq::<Elem>::empty());
        loop
            invariant
                self.moved_from(old(self)),
                self.in_markup(),
                s == self.text(),
                s == old(self).text(),
                old(self).at() <= self.at(),
                whole == parse_seq(s, old(self).at(), at_start, min_indent as nat, stop, Seq::empty()),
                whole == parse_seq(
                    s,
                    self.at(),
                    line_start,
                    min_indent as nat,
                    stop,
                    elems_view(elems@),
                ),
            decreases s.len() - self.at(),
        {
            let ghost i = self.at();
            proof {
                lemma_token_advances(s, i);
            }
            if self.stops(stop) {
                return Ok(elems);
            }
            if let NotaToken::RightBrace = self.cur_token() {
                return Ok(elems);
            }
            let boundary = self.newline();
            if boundary && min_indent > 0 {
                return Ok(elems);
            }
            proof {
                lemma_elem_advances(s, i, line_start || boundary);
            }
            match self.parse_nota_markup_elem(line_start || boundary) {
                Ok(elem) => {
                    proof {
                        lemma_elems_view_push(elems@, elem);
                    }
                    elems.push(elem);
                },
                Err(e) => {
                    return Err(e);
                },
            }
            line_start = boundary;
        }
    }

    /// Parses the template that opens at the cursor: `@{`, a sequence of elements,
    /// and the closing brace. Markup is the active mode while the elements are
    /// read, and the stack of modes is as before on return, with or without an
    /// error.
    pub fn parse_nota_template(&mut self) -> (r: Result<NotaTemplate, ParseError>)
        requires
            old(self).wf(),
        ensures
            final(self).moved_from(old(self)),
            match parse_template(old(self).text(), old(self).at(), old(self).lexer.is_expr_allowed) {
                Ok((span, elems, next)) => r matches Ok(tpl) && tpl.span == span && elems_view(
                    tpl.elems@,
                ) == elems && final(self).at() == next,
                Err(e) => r == Err::<NotaTemplate, ParseError>(e) && final(self).at() == old(
                    self,
                ).at(),
            },
    {
        let start: usize = self.lexer.pos;
        let at: usize = self.lexer.idx;
        let ghost before = self.lexer.contexts@;
        let opens = match self.lexer.cur() {
            Some(c) => c == '@',
            None => false,
        } && match self.lexer.peek() {
            Some(c) => c == '{',
            None => false,
        } && self.lexer.is_expr_allowed;
        if !opens {
            return Err(ParseError { kind: ParseErrorKind::EntryMismatch, pos: start });
        }
        self.lexer.bump();
        self.lexer.bump();
        self.lexer.push_context(TokenContext::Nota(NotaTokenContext::Markup));
        let parsed = self.parse_nota_markup(true, 0, StopRule::Never);
        let closed = match &parsed {
            Ok(_) => match self.cur_token() {
                NotaToken::RightBrace => {
                    let _ = self.bump_token();
                    true
                },
                _ => false,
            },
            Err(_) => false,
        };
        let fail: usize = self.lexer.pos;
        let _ = self.lexer.pop_context();
        assert(self.lexer.contexts@ =~= before);
        match parsed {
            Ok(elems) => if closed {
                Ok(NotaTemplate { span: Span { lo: start, hi: self.lexer.pos }, elems })
            } else {
                self.lexer.idx = at;
                self.lexer.pos = start;
                Err(ParseError { kind: ParseErrorKind::UnterminatedTemplate, pos: fail })
            },
            Err(e) => {
                self.lexer.idx = at;
                self.lexer.pos = start;
                Err(e)
            },
        }
    }
}

} // verus!
