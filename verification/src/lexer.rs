//! The tokenizer of markup: from a position in the source text to the next token.
use crate::atom::atom_new;
use crate::buffer::{buffer_as_str, buffer_new, buffer_push, buffer_text};
use crate::chars::{alphanumeric, count_newlines, is_alphanumeric, is_whitespace, newlines, whitespace};
use crate::cursor::{
    byte_pos, char_at, char_at_byte, char_len, lemma_byte_pos_step, lemma_char_at_byte_found,
    lemma_char_at_byte_none,
};
use crate::token::{LexError, NotaToken, NotaTokenContext, Tok, Token, TokenContext};
use vstd::prelude::*;
use vstd::slice::slice_subrange;

verus! {

/// The end of the longest run of whitespace that starts at index `i`.
pub open spec fn ws_end(s: Seq<char>, i: int) -> int
    decreases s.len() - i,
{
    if 0 <= i < s.len() && whitespace(s[i]) {
        ws_end(s, i + 1)
    } else {
        i
    }
}

/// The characters that have a meaning of their own in markup.
pub open spec fn sigil(c: char) -> bool {
    c == ' ' || c == '\t' || c == '\n' || c == '\x0b' || c == '\x0c' || c == '\r' || c == '\\'
        || c == '/' || c == '[' || c == ']' || c == '{' || c == '}' || c == '~' || c == '-'
        || c == '.' || c == '\'' || c == '"' || c == '*' || c == '_' || c == ':' || c == 'h'
        || c == '`' || c == '$' || c == '<' || c == '>' || c == '@' || c == '#'
}

/// The characters at which a run of text may stop: the sigils and all whitespace.
pub open spec fn reserved(c: char) -> bool {
    sigil(c) || whitespace(c)
}

/// True when a run of text that has reached index `i` goes on past it: the
/// character is not reserved, or it is a single space before a letter or digit.
pub open spec fn text_goes_on(s: Seq<char>, i: int) -> bool {
    0 <= i < s.len() && (!reserved(s[i]) || (s[i] == ' ' && i + 1 < s.len() && alphanumeric(
        s[i + 1],
    )))
}

/// The end of the run of text that has reached index `i`.
pub open spec fn text_end(s: Seq<char>, i: int) -> int
    decreases s.len() - i,
{
    if text_goes_on(s, i) {
        text_end(s, i + 1)
    } else {
        i
    }
}

/// True for a letter or digit, false where there is no character.
pub open spec fn alphanumeric_at(c: Option<char>) -> bool {
    match c {
        Some(c) => alphanumeric(c),
        None => false,
    }
}

/// True when index `i` is inside a word: the character that starts two bytes
/// before it and the character at it are both letters or digits.
pub open spec fn in_word(s: Seq<char>, i: int) -> bool {
    alphanumeric_at(char_at_byte(s, byte_pos(s, i) - 2)) && alphanumeric_at(char_at(s, i))
}

/// True when index `i` holds whitespace or lies at the end of the text.
pub open spec fn space_or_end(s: Seq<char>, i: int) -> bool {
    match char_at(s, i) {
        Some(c) => whitespace(c),
        None => true,
    }
}

/// The token for a run of whitespace with `k` line boundaries. Only markup knows
/// paragraph breaks.
pub open spec fn whitespace_token(k: nat, markup: bool) -> Tok {
    if markup && k >= 2 {
        Tok::Parbreak
    } else {
        Tok::Space { newline: k > 0 }
    }
}

/// The markup token that starts at index `i`.
pub open spec fn markup_token(s: Seq<char>, i: int) -> Tok {
    if !(0 <= i < s.len()) {
        Tok::Eof
    } else if whitespace(s[i]) {
        whitespace_token(newlines(s.subrange(i, ws_end(s, i))), true)
    } else if s[i] == '*' && !in_word(s, i + 1) {
        Tok::Star
    } else if s[i] == '-' && space_or_end(s, i + 1) {
        Tok::ListMarker
    } else if s[i] == '}' {
        Tok::RightBrace
    } else {
        Tok::Text { value: s.subrange(i, text_end(s, i + 1)) }
    }
}

/// The index just behind the markup token that starts at index `i`.
pub open spec fn markup_token_end(s: Seq<char>, i: int) -> int {
    if !(0 <= i < s.len()) {
        i
    } else if whitespace(s[i]) {
        ws_end(s, i)
    } else if s[i] == '*' && !in_word(s, i + 1) {
        i + 1
    } else if s[i] == '-' && space_or_end(s, i + 1) {
        i + 1
    } else if s[i] == '}' {
        i + 1
    } else {
        text_end(s, i + 1)
    }
}

/// A run of whitespace ends inside the text and not before its start.
pub proof fn lemma_ws_end_bounds(s: Seq<char>, i: int)
    requires
        0 <= i <= s.len(),
    ensures
        i <= ws_end(s, i) <= s.len(),
        i < s.len() && whitespace(s[i]) ==> i < ws_end(s, i),
    decreases s.len() - i,
{
    if i < s.len() && whitespace(s[i]) {
        lemma_ws_end_bounds(s, i + 1);
    }
}

/// A run of text ends inside the text and not before its start.
pub proof fn lemma_text_end_bounds(s: Seq<char>, i: int)
    requires
        0 <= i <= s.len(),
    ensures
        i <= text_end(s, i) <= s.len(),
    decreases s.len() - i,
{
    if text_goes_on(s, i) {
        lemma_text_end_bounds(s, i + 1);
    }
}

/// Every token but the end of input takes at least one character, and none
/// reaches past the end of the text.
pub proof fn lemma_token_advances(s: Seq<char>, i: int)
    requires
        0 <= i <= s.len(),
    ensures
        i <= markup_token_end(s, i) <= s.len(),
        i < s.len() ==> i < markup_token_end(s, i),
        markup_token(s, i) is Eof <==> i == s.len(),
{
    if i < s.len() {
        lemma_ws_end_bounds(s, i);
        lemma_text_end_bounds(s, i + 1);
    }
}

/// A `*` with a letter or digit on both sides is text, not a marker.
pub proof fn lemma_star_in_word_is_text(s: Seq<char>, i: int)
    requires
        0 <= i < s.len(),
    ensures
        s[i] == '*' && !whitespace(s[i]) && in_word(s, i + 1) ==> markup_token(s, i) == (Tok::Text {
            value: s.subrange(i, text_end(s, i + 1)),
        }),
{
}

/// A single space before a letter or digit does not end a run of text.
pub proof fn lemma_single_space_joins_words(s: Seq<char>, i: int)
    requires
        0 <= i,
        i + 1 < s.len(),
    ensures
        s[i] == ' ' && alphanumeric(s[i + 1]) ==> text_end(s, i) == text_end(s, i + 1) && text_end(
            s,
            i,
        ) > i,
{
    lemma_text_end_bounds(s, i + 1);
}

/// A run of whitespace with `k` line boundaries is a space without a newline for
/// `k == 0`, a space with a newline for `k == 1`, and a paragraph break from two on.
pub proof fn lemma_whitespace_token_by_newlines(k: nat)
    ensures
        k == 0 ==> whitespace_token(k, true) == (Tok::Space { newline: false }),
        k == 1 ==> whitespace_token(k, true) == (Tok::Space { newline: true }),
        k >= 2 ==> whitespace_token(k, true) == Tok::Parbreak,
{
}

/// Whether `c` is one of the characters at which a run of text may stop.
pub fn is_reserved(c: char) -> (b: bool)
    ensures
        b == reserved(c),
{
    c == ' ' || c == '\t' || c == '\n' || c == '\x0b' || c == '\x0c' || c == '\r' || c == '\\'
        || c == '/' || c == '[' || c == ']' || c == '{' || c == '}' || c == '~' || c == '-'
        || c == '.' || c == '\'' || c == '"' || c == '*' || c == '_' || c == ':' || c == 'h'
        || c == '`' || c == '$' || c == '<' || c == '>' || c == '@' || c == '#'
        || is_whitespace(c)
}

/// A cursor over the source text, with the stack of modes that the host tokenizer
/// and the markup tokenizer share.
pub struct Lexer {
    /// The source text.
    pub src: Vec<char>,
    /// The index of the current character.
    pub idx: usize,
    /// The byte offset of the current character.
    pub pos: usize,
    /// The stack of modes; the active one is last.
    pub contexts: Vec<TokenContext>,
    /// Whether the host parser expects an expression here.
    pub is_expr_allowed: bool,
}

impl Lexer {
    /// The cursor stands inside the text, and its byte offset is that of its index.
    pub open spec fn wf(&self) -> bool {
        &&& self.idx <= self.src.len()
        &&& self.pos == byte_pos(self.src@, self.idx as int)
        &&& self.src.len() * 4 <= usize::MAX
    }

    /// True when `self` differs from `before` in its position at most.
    pub open spec fn moved_from(&self, before: &Lexer) -> bool {
        &&& self.wf()
        &&& self.src@ == before.src@
        &&& self.contexts@ == before.contexts@
        &&& self.is_expr_allowed == before.is_expr_allowed
    }

    /// The active mode, where it is one of markup's.
    pub open spec fn spec_nota_context(&self) -> Option<NotaTokenContext> {
        if self.contexts.len() > 0 {
            match self.contexts[self.contexts.len() - 1] {
                TokenContext::Nota(ctx) => Some(ctx),
                TokenContext::Host => None,
            }
        } else {
            None
        }
    }

    /// A cursor at the start of `src`, with an empty stack of modes, at a place
    /// where an expression may start.
    pub fn new(src: Vec<char>) -> (l: Lexer)
        requires
            src.len() * 4 <= usize::MAX,
        ensures
            l.wf(),
            l.src == src,
            l.idx == 0,
            l.pos == 0,
            l.contexts@ == Seq::<TokenContext>::empty(),
            l.is_expr_allowed,
    {
        Lexer { src, idx: 0, pos: 0, contexts: Vec::new(), is_expr_allowed: true }
    }

    /// The current character.
    pub fn cur(&self) -> (c: Option<char>)
        requires
            self.wf(),
        ensures
            c == char_at(self.src@, self.idx as int),
    {
        if self.idx < self.src.len() {
            Some(self.src[self.idx])
        } else {
            None
        }
    }

    /// The character after the current one.
    pub fn peek(&self) -> (c: Option<char>)
        requires
            self.wf(),
        ensures
            c == char_at(self.src@, self.idx + 1),
    {
        if self.idx < self.src.len() && self.idx + 1 < self.src.len() {
            Some(self.src[self.idx + 1])
        } else {
            None
        }
    }

    /// Steps over the current character.
    pub fn bump(&mut self)
        requires
            old(self).wf(),
            old(self).idx < old(self).src.len(),
        ensures
            final(self).moved_from(old(self)),
            final(self).idx == old(self).idx + 1,
    {
        proof {
            lemma_byte_pos_step(self.src@, 0, self.idx + 1);
        }
        self.pos = self.pos + char_len(self.src[self.idx]);
        self.idx = self.idx + 1;
    }

    /// Makes `mode` the active mode.
    pub fn push_context(&mut self, mode: TokenContext)
        ensures
            final(self).contexts@ == old(self).contexts@.push(mode),
            final(self).src == old(self).src,
            final(self).idx == old(self).idx,
            final(self).pos == old(self).pos,
            final(self).is_expr_allowed == old(self).is_expr_allowed,
    {
        self.contexts.push(mode);
    }

    /// Leaves the active mode, and returns it.
    pub fn pop_context(&mut self) -> (mode: Option<TokenContext>)
        ensures
            final(self).src == old(self).src,
            final(self).idx == old(self).idx,
            final(self).pos == old(self).pos,
            final(self).is_expr_allowed == old(self).is_expr_allowed,
            old(self).contexts.len() == 0 ==> mode.is_none() && final(self).contexts@
                == old(self).contexts@,
            old(self).contexts.len() > 0 ==> mode == Some(
                old(self).contexts[old(self).contexts.len() - 1],
            ) && final(self).contexts@ == old(self).contexts@.drop_last(),
    {
        self.contexts.pop()
    }

    /// The active mode, where it is one of markup's.
    pub fn nota_context(&self) -> (ctx: Option<NotaTokenContext>)
        ensures
            ctx == self.spec_nota_context(),
    {
        let n = self.contexts.len();
        if n == 0 {
            return None;
        }
        match self.contexts[n - 1] {
            TokenContext::Nota(ctx) => Some(ctx),
            TokenContext::Host => None,
        }
    }

    /// The character that starts `n` bytes from the current position, if one does.
    pub fn scout(&self, n: isize) -> (c: Option<char>)
        requires
            self.wf(),
        ensures
            c == char_at_byte(self.src@, self.pos + n),
    {
        let ghost s = self.src@;
        let ghost target = self.pos + n;
        let mut j: usize = self.idx;
        let mut off: usize = self.pos;
        proof {
            lemma_byte_pos_step(s, 0, s.len() as int);
            lemma_byte_pos_step(s, self.idx as int, s.len() as int);
        }
        if n >= 0 {
            let d: usize = n as usize;
            if d > usize::MAX - self.pos {
                proof {
                    lemma_char_at_byte_none(s, s.len() as int, target);
                }
                return None;
            }
            let goal: usize = self.pos + d;
            while j < self.src.len() && off < goal
                invariant
                    self.wf(),
                    s == self.src@,
                    self.idx <= j <= s.len(),
                    off == byte_pos(s, j as int),
                    goal == target,
                    self.pos <= goal,
                    j == self.idx || byte_pos(s, j - 1) < goal,
                decreases s.len() - j,
            {
                proof {
                    lemma_byte_pos_step(s, 0, j + 1);
                    lemma_byte_pos_step(s, j + 1, s.len() as int);
                }
                off = off + char_len(self.src[j]);
                j = j + 1;
            }
            if j < self.src.len() && off == goal {
                proof {
                    lemma_char_at_byte_found(s, j as int);
                }
                Some(self.src[j])
            } else {
                proof {
                    if j > 0 && j == self.idx {
                        lemma_byte_pos_step(s, j - 1, j as int);
                    }
                    lemma_char_at_byte_none(s, j as int, target);
                }
                None
            }
        } else {
            let d: usize = ((-(n + 1)) as usize) + 1;
            if d > self.pos {
                proof {
                    lemma_char_at_byte_none(s, 0, target);
                }
                return None;
            }
            let goal: usize = self.pos - d;
            while j > 0 && off > goal
                invariant
                    self.wf(),
                    s == self.src@,
                    j <= self.idx,
                    off == byte_pos(s, j as int),
                    goal == target,
                    goal < self.pos,
                    j == self.idx || byte_pos(s, j + 1) > goal,
                decreases j,
            {
                j = j - 1;
                proof {
                    lemma_byte_pos_step(s, 0, j as int);
                }
                off = off - char_len(self.src[j]);
            }
            if off == goal {
                proof {
                    lemma_char_at_byte_found(s, j as int);
                }
                Some(self.src[j])
            } else {
                proof {
                    lemma_char_at_byte_none(s, j + 1, target);
                }
                None
            }
        }
    }

    /// Tests whether the cursor is in the middle of a word: there are letters or
    /// digits two bytes back and at the current position.
    pub fn in_word(&self) -> (b: bool)
        requires
            self.wf(),
        ensures
            b == in_word(self.src@, self.idx as int),
    {
        let prev = match self.scout(-2) {
            Some(c) => is_alphanumeric(c),
            None => false,
        };
        let cur = match self.cur() {
            Some(c) => is_alphanumeric(c),
            None => false,
        };
        prev && cur
    }

    /// Tests whether a word ends at the cursor: the current character is
    /// whitespace, or the text ends here.
    pub fn space_or_end(&self) -> (b: bool)
        requires
            self.wf(),
        ensures
            b == space_or_end(self.src@, self.idx as int),
    {
        match self.cur() {
            Some(c) => is_whitespace(c),
            None => true,
        }
    }

    /// Reads the longest run of whitespace at the cursor. With `k` line boundaries
    /// in it the token is a space without a newline for `k == 0`, a space with a
    /// newline for `k == 1`, and from two on a paragraph break in markup.
    pub fn nota_whitespace(&mut self) -> (t: NotaToken)
        requires
            old(self).wf(),
        ensures
            final(self).moved_from(old(self)),
            final(self).idx == ws_end(old(self).src@, old(self).idx as int),
            t@ == whitespace_token(
                newlines(old(self).src@.subrange(old(self).idx as int, final(self).idx as int)),
                old(self).spec_nota_context() == Some(NotaTokenContext::Markup),
            ),
    {
        let start: usize = self.idx;
        while self.idx < self.src.len() && is_whitespace(self.src[self.idx])
            invariant
                self.moved_from(old(self)),
                start <= self.idx,
                ws_end(self.src@, self.idx as int) == ws_end(self.src@, start as int),
            decreases self.src.len() - self.idx,
        {
            self.bump();
        }
        let more = slice_subrange(self.src.as_slice(), start, self.idx);
        let newlines: usize = count_newlines(more);
        let markup = match self.nota_context() {
            Some(NotaTokenContext::Markup) => true,
            _ => false,
        };
        if markup && newlines >= 2 {
            NotaToken::Parbreak
        } else {
            NotaToken::Space { newline: newlines > 0 }
        }
    }

    /// Tests whether a run of text that has reached the cursor goes on past it.
    pub fn text_goes_on(&self) -> (b: bool)
        requires
            self.wf(),
        ensures
            b == text_goes_on(self.src@, self.idx as int),
    {
        match self.cur() {
            Some(c) => !is_reserved(c) || (c == ' ' && match self.peek() {
                Some(next) => is_alphanumeric(next),
                None => false,
            }),
            None => false,
        }
    }

    /// Reads a run of text whose first character, `c`, the cursor has just passed.
    pub fn nota_text(&mut self, c: char) -> (t: NotaToken)
        requires
            old(self).wf(),
            old(self).idx > 0,
            old(self).src[old(self).idx - 1] == c,
        ensures
            final(self).moved_from(old(self)),
            final(self).idx == text_end(old(self).src@, old(self).idx as int),
            t@ == (Tok::Text {
                value: old(self).src@.subrange(old(self).idx - 1, final(self).idx as int),
            }),
    {
        let ghost s = self.src@;
        let start: usize = self.idx;
        let mut out = buffer_new();
        buffer_push(&mut out, c);
        assert(buffer_text(out) =~= s.subrange(start - 1, start as int));
        let mut going = self.text_goes_on();
        while going
            invariant
                self.moved_from(old(self)),
                s == self.src@,
                1 <= start <= self.idx,
                start == old(self).idx,
                going == text_goes_on(s, self.idx as int),
                text_end(s, self.idx as int) == text_end(s, start as int),
                buffer_text(out) == s.subrange(start - 1, self.idx as int),
            decreases s.len() - self.idx,
        {
            let c: char = self.src[self.idx];
            buffer_push(&mut out, c);
            assert(s.subrange(start - 1, self.idx as int).push(c) =~= s.subrange(
                start - 1,
                self.idx + 1,
            ));
            self.bump();
            going = self.text_goes_on();
        }
        NotaToken::Text { value: atom_new(buffer_as_str(&out)) }
    }

    /// Reads the markup token that starts with `c`, the current character, which
    /// is no whitespace.
    pub fn nota_markup(&mut self, c: char) -> (t: NotaToken)
        requires
            old(self).wf(),
            char_at(old(self).src@, old(self).idx as int) == Some(c),
            !whitespace(c),
        ensures
            final(self).moved_from(old(self)),
            final(self).idx == markup_token_end(old(self).src@, old(self).idx as int),
            t@ == markup_token(old(self).src@, old(self).idx as int),
    {
        self.bump();
        if c == '*' && !self.in_word() {
            NotaToken::Star
        } else if c == '-' && self.space_or_end() {
            NotaToken::ListMarker
        } else if c == '}' {
            NotaToken::RightBrace
        } else {
            self.nota_text(c)
        }
    }

    /// What the markup tokenizer does at the cursor. In one of markup's modes it
    /// reads a token; the modes other than markup have rules for whitespace and the
    /// end of input only, and fail on anything else. Outside markup it reads `@{`
    /// where an expression may start, and otherwise leaves the text to the host.
    pub fn maybe_read_nota_template(&mut self) -> (r: Result<Option<Token>, LexError>)
        requires
            old(self).wf(),
        ensures
            final(self).moved_from(old(self)),
            read_outcome(*old(self), r, final(self).idx as int),
    {
        let c = self.cur();
        if let Some(ctx) = self.nota_context() {
            let token = match c {
                Some(c) => {
                    if is_whitespace(c) {
                        proof {
                            lemma_ws_end_bounds(self.src@, self.idx as int);
                        }
                        self.nota_whitespace()
                    } else {
                        match ctx {
                            NotaTokenContext::Markup => self.nota_markup(c),
                            _ => {
                                return Err(LexError::UnsupportedMode { mode: ctx, pos: self.pos });
                            },
                        }
                    }
                },
                None => NotaToken::Eof,
            };
            return Ok(Some(Token::Nota(token)));
        }
        if c == Some('@') && self.peek() == Some('{') && self.is_expr_allowed {
            self.bump();
            self.bump();
            return Ok(Some(Token::TemplateOpen));
        }
        Ok(None)
    }
}

/// True when the text at index `i` is `@{`.
pub open spec fn at_template_open(s: Seq<char>, i: int) -> bool {
    char_at(s, i) == Some('@') && char_at(s, i + 1) == Some('{')
}

/// What a read at the cursor of `l` returns, and the index `end` at which it
/// leaves the cursor.
pub open spec fn read_outcome(l: Lexer, r: Result<Option<Token>, LexError>, end: int) -> bool {
    let s = l.src@;
    let i = l.idx as int;
    match l.spec_nota_context() {
        Some(NotaTokenContext::Markup) => {
            &&& r matches Ok(Some(Token::Nota(t)))
            &&& t@ == markup_token(s, i)
            &&& end == markup_token_end(s, i)
        },
        Some(mode) => {
            if i >= s.len() {
                &&& r matches Ok(Some(Token::Nota(t)))
                &&& t@ == Tok::Eof
                &&& end == i
            } else if whitespace(s[i]) {
                &&& r matches Ok(Some(Token::Nota(t)))
                &&& t@ == whitespace_token(newlines(s.subrange(i, ws_end(s, i))), false)
                &&& end == ws_end(s, i)
            } else {
                &&& r == Err::<Option<Token>, LexError>(
                    LexError::UnsupportedMode { mode, pos: l.pos },
                )
                &&& end == i
            }
        },
        None => {
            if at_template_open(s, i) && l.is_expr_allowed {
                &&& r matches Ok(Some(Token::TemplateOpen))
                &&& end == i + 2
            } else {
                &&& r matches Ok(None)
                &&& end == i
            }
        },
    }
}

} // verus!
