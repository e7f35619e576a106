use nota::chars::{count_newlines, is_newline};
use nota::cursor::char_len;
use nota::lexer::{is_reserved, Lexer};
use swc_atoms::Atom;
use nota::token::{LexError, NotaToken, NotaTokenContext, Token, TokenContext};

fn markup_lexer(text: &str) -> Lexer {
    let mut lexer = Lexer::new(text.chars().collect());
    lexer.push_context(TokenContext::Nota(NotaTokenContext::Markup));
    lexer
}

fn tokens(text: &str) -> Vec<NotaToken> {
    let mut lexer = markup_lexer(text);
    let mut out = Vec::new();
    loop {
        match lexer.maybe_read_nota_template() {
            Ok(Some(Token::Nota(NotaToken::Eof))) => break,
            Ok(Some(Token::Nota(t))) => out.push(t),
            other => panic!("no markup token: {:?}", other),
        }
    }
    out
}

fn text(value: &str) -> NotaToken {
    NotaToken::Text { value: Atom::new(value) }
}

#[test]
fn newline_characters() {
    for c in ['\n', '\x0B', '\x0C', '\r', '\u{0085}', '\u{2028}', '\u{2029}'] {
        assert!(is_newline(c));
    }
    for c in [' ', '\t', 'a', '\u{00A0}', '\u{3000}'] {
        assert!(!is_newline(c));
    }
}

#[test]
fn count_newlines_takes_cr_lf_as_one() {
    assert_eq!(count_newlines(&['\r', '\n']), 1);
    assert_eq!(count_newlines(&['\r', '\r']), 2);
    assert_eq!(count_newlines(&['\n', '\r']), 2);
    assert_eq!(count_newlines(&['\r', '\n', '\r', '\n']), 2);
    assert_eq!(count_newlines(&['\r']), 1);
    assert_eq!(count_newlines(&[]), 0);
    assert_eq!(count_newlines(&[' ', '\t']), 0);
    assert_eq!(count_newlines(&['a', '\n', 'b', '\u{2028}', '\u{2029}', '\u{0085}']), 4);
}

#[test]
fn utf8_lengths() {
    assert_eq!(char_len('a'), 1);
    assert_eq!(char_len('\u{7f}'), 1);
    assert_eq!(char_len('\u{80}'), 2);
    assert_eq!(char_len('\u{7ff}'), 2);
    assert_eq!(char_len('\u{800}'), 3);
    assert_eq!(char_len('\u{ffff}'), 3);
    assert_eq!(char_len('\u{10000}'), 4);
    for c in ['a', 'é', '€', '😀'] {
        assert_eq!(char_len(c), c.len_utf8());
    }
}

#[test]
fn whitespace_without_newline_is_a_space() {
    assert_eq!(tokens(" "), vec![NotaToken::Space { newline: false }]);
    assert_eq!(tokens(" \t  "), vec![NotaToken::Space { newline: false }]);
}

#[test]
fn whitespace_with_one_newline_is_a_space_with_newline() {
    assert_eq!(tokens(" \n "), vec![NotaToken::Space { newline: true }]);
    assert_eq!(tokens("\r\n"), vec![NotaToken::Space { newline: true }]);
}

#[test]
fn whitespace_with_two_newlines_is_a_parbreak() {
    assert_eq!(tokens("\n\n"), vec![NotaToken::Parbreak]);
    assert_eq!(tokens(" \n \n\n "), vec![NotaToken::Parbreak]);
    assert_eq!(tokens("\r\n\r\n"), vec![NotaToken::Parbreak]);
    assert_eq!(tokens("\r\r"), vec![NotaToken::Parbreak]);
}

#[test]
fn blank_line_between_words() {
    assert_eq!(tokens("a\n\nb"), vec![text("a"), NotaToken::Parbreak, text("b")]);
}

#[test]
fn single_space_merges_into_text() {
    assert_eq!(tokens("hello world"), vec![text("hello world")]);
    assert_eq!(tokens("one two 3"), vec![text("one two 3")]);
}

#[test]
fn space_before_a_sigil_ends_text() {
    assert_eq!(
        tokens("a ."),
        vec![text("a"), NotaToken::Space { newline: false }, text(".")]
    );
    assert_eq!(
        tokens("a  b"),
        vec![text("a"), NotaToken::Space { newline: false }, text("b")]
    );
}

#[test]
fn reserved_letter_splits_text() {
    assert_eq!(tokens("there"), vec![text("t"), text("here")]);
    assert_eq!(tokens("a h"), vec![text("a "), text("h")]);
    assert_eq!(tokens("alpha beta"), vec![text("alp"), text("ha beta")]);
}

#[test]
fn star_inside_a_word_is_text() {
    assert_eq!(tokens("a*b"), vec![text("a"), text("*b")]);
}

#[test]
fn star_at_a_word_boundary_is_a_marker() {
    assert_eq!(tokens("*bold*"), vec![NotaToken::Star, text("bold"), NotaToken::Star]);
    assert_eq!(tokens("a* b"), vec![
        text("a"),
        NotaToken::Star,
        NotaToken::Space { newline: false },
        text("b"),
    ]);
}

#[test]
fn star_after_a_wide_character_is_a_marker() {
    assert_eq!(tokens("é*b"), vec![text("é"), NotaToken::Star, text("b")]);
}

#[test]
fn dash_before_whitespace_or_end_is_a_list_marker() {
    assert_eq!(
        tokens("- a"),
        vec![NotaToken::ListMarker, NotaToken::Space { newline: false }, text("a")]
    );
    assert_eq!(tokens("-"), vec![NotaToken::ListMarker]);
    assert_eq!(tokens("-a"), vec![text("-a")]);
}

#[test]
fn right_brace_is_a_token() {
    assert_eq!(tokens("a}"), vec![text("a"), NotaToken::RightBrace]);
}

#[test]
fn end_of_input_is_eof_and_stays() {
    let mut lexer = markup_lexer("");
    assert_eq!(lexer.maybe_read_nota_template(), Ok(Some(Token::Nota(NotaToken::Eof))));
    assert_eq!(lexer.maybe_read_nota_template(), Ok(Some(Token::Nota(NotaToken::Eof))));
    assert_eq!(lexer.idx, 0);
}

#[test]
fn reserved_characters() {
    for c in " \t\n\x0b\x0c\r\\/[]{}~-.'\"*_:h`$<>@#".chars() {
        assert!(is_reserved(c), "{:?}", c);
    }
    assert!(is_reserved('\u{2028}'));
    assert!(is_reserved('\u{00A0}'));
    for c in "abcgixyzH019!?,;()=+é".chars() {
        assert!(!is_reserved(c), "{:?}", c);
    }
}

#[test]
fn opening_is_read_where_an_expression_may_start() {
    let mut lexer = Lexer::new("@{a}".chars().collect());
    assert_eq!(lexer.maybe_read_nota_template(), Ok(Some(Token::TemplateOpen)));
    assert_eq!(lexer.idx, 2);
    assert_eq!(lexer.pos, 2);

    let mut lexer = Lexer::new("@{a}".chars().collect());
    lexer.is_expr_allowed = false;
    assert_eq!(lexer.maybe_read_nota_template(), Ok(None));
    assert_eq!(lexer.idx, 0);
}

#[test]
fn host_text_is_not_handled() {
    let mut lexer = Lexer::new("@a".chars().collect());
    assert_eq!(lexer.maybe_read_nota_template(), Ok(None));
    let mut lexer = Lexer::new("*a*".chars().collect());
    lexer.push_context(TokenContext::Host);
    assert_eq!(lexer.maybe_read_nota_template(), Ok(None));
    assert_eq!(lexer.idx, 0);
}

#[test]
fn math_and_code_are_not_supported() {
    for mode in [NotaTokenContext::Math, NotaTokenContext::Code] {
        let mut lexer = Lexer::new(" x".chars().collect());
        lexer.push_context(TokenContext::Nota(mode));
        assert_eq!(
            lexer.maybe_read_nota_template(),
            Ok(Some(Token::Nota(NotaToken::Space { newline: false })))
        );
        assert_eq!(
            lexer.maybe_read_nota_template(),
            Err(LexError::UnsupportedMode { mode, pos: 1 })
        );
        assert_eq!(lexer.idx, 1);
    }
}

#[test]
fn only_markup_has_paragraph_breaks() {
    let mut lexer = Lexer::new("\n\n".chars().collect());
    lexer.push_context(TokenContext::Nota(NotaTokenContext::Math));
    assert_eq!(
        lexer.maybe_read_nota_template(),
        Ok(Some(Token::Nota(NotaToken::Space { newline: true })))
    );
    assert_eq!(lexer.maybe_read_nota_template(), Ok(Some(Token::Nota(NotaToken::Eof))));
}

#[test]
fn mode_stack_pushes_and_pops() {
    let mut lexer = Lexer::new(Vec::new());
    assert_eq!(lexer.nota_context(), None);
    assert_eq!(lexer.pop_context(), None);
    lexer.push_context(TokenContext::Host);
    assert_eq!(lexer.nota_context(), None);
    lexer.push_context(TokenContext::Nota(NotaTokenContext::Code));
    assert_eq!(lexer.nota_context(), Some(NotaTokenContext::Code));
    assert_eq!(lexer.pop_context(), Some(TokenContext::Nota(NotaTokenContext::Code)));
    assert_eq!(lexer.pop_context(), Some(TokenContext::Host));
    assert_eq!(lexer.contexts.len(), 0);
}

#[test]
fn scout_looks_by_bytes() {
    let mut lexer = Lexer::new("aé€b".chars().collect());
    assert_eq!(lexer.scout(0), Some('a'));
    assert_eq!(lexer.scout(1), Some('é'));
    assert_eq!(lexer.scout(2), None);
    assert_eq!(lexer.scout(3), Some('€'));
    assert_eq!(lexer.scout(6), Some('b'));
    assert_eq!(lexer.scout(7), None);
    assert_eq!(lexer.scout(-1), None);
    assert_eq!(lexer.scout(isize::MAX), None);
    assert_eq!(lexer.scout(isize::MIN), None);
    lexer.bump();
    lexer.bump();
    lexer.bump();
    assert_eq!(lexer.pos, 6);
    assert_eq!(lexer.cur(), Some('b'));
    assert_eq!(lexer.peek(), None);
    assert_eq!(lexer.scout(-3), Some('€'));
    assert_eq!(lexer.scout(-4), None);
    assert_eq!(lexer.scout(-5), Some('é'));
    assert_eq!(lexer.scout(-6), Some('a'));
    assert_eq!(lexer.scout(-7), None);
}

#[test]
fn word_tests() {
    let mut lexer = Lexer::new("a*b *".chars().collect());
    lexer.bump();
    lexer.bump();
    assert!(lexer.in_word());
    assert!(!lexer.space_or_end());
    lexer.bump();
    assert!(!lexer.in_word());
    assert!(lexer.space_or_end());
    lexer.bump();
    lexer.bump();
    assert!(lexer.space_or_end());
    assert!(!lexer.in_word());
    assert!(!lexer.text_goes_on());
}
