use nota::ast::{
    NotaElem, NotaListItem, NotaParbreak, NotaSpace, NotaStrong, NotaTemplate, NotaText, Span,
};
use nota::lexer::Lexer;
use nota::lower::{nota_template_to_expr, to_string};
use nota::parser::{ParseError, ParseErrorKind, Parser, StopRule};
use swc_atoms::Atom;
use nota::token::{NotaTokenContext, TokenContext};

fn sp(lo: usize, hi: usize) -> Span {
    Span { lo, hi }
}

fn text(lo: usize, hi: usize, value: &str) -> NotaElem {
    NotaElem::Text(NotaText { span: sp(lo, hi), value: Atom::new(value) })
}

fn space(lo: usize, hi: usize, has_newline: bool) -> NotaElem {
    NotaElem::Space(NotaSpace { span: sp(lo, hi), has_newline })
}

fn parbreak(lo: usize, hi: usize) -> NotaElem {
    NotaElem::Parbreak(NotaParbreak { span: sp(lo, hi) })
}

fn strong(lo: usize, hi: usize, elems: Vec<NotaElem>) -> NotaElem {
    NotaElem::Strong(NotaStrong { span: sp(lo, hi), elems })
}

fn list(lo: usize, hi: usize, elems: Vec<NotaElem>) -> NotaElem {
    NotaElem::List(NotaListItem { span: sp(lo, hi), elems })
}

fn strings(lits: &[Atom]) -> Vec<String> {
    lits.iter().map(|a| a.as_str().to_string()).collect()
}

fn parse(source: &str) -> Result<NotaTemplate, ParseError> {
    let chars: Vec<char> = source.chars().collect();
    assert!(chars.len() <= usize::MAX / 4);
    let mut parser = Parser::new(Lexer::new(chars));
    let parsed = parser.parse_nota_template();
    assert_eq!(parser.lexer.contexts.len(), 0);
    match &parsed {
        Ok(tpl) => {
            assert_eq!(parser.lexer.pos, tpl.span.hi);
            assert_eq!(parser.lexer.pos, source.len());
        }
        Err(_) => assert_eq!(parser.lexer.idx, 0),
    }
    parsed
}

#[test]
fn empty_template() {
    assert_eq!(parse("@{}"), Ok(NotaTemplate { span: sp(0, 3), elems: vec![] }));
}

#[test]
fn bold_word_is_a_strong_span() {
    assert_eq!(
        parse("@{*bold*}"),
        Ok(NotaTemplate {
            span: sp(0, 9),
            elems: vec![strong(2, 8, vec![text(3, 7, "bold")])],
        })
    );
}

#[test]
fn star_inside_a_word_stays_text() {
    assert_eq!(
        parse("@{a*b}"),
        Ok(NotaTemplate { span: sp(0, 6), elems: vec![text(2, 3, "a"), text(3, 5, "*b")] })
    );
}

#[test]
fn open_strong_ends_before_a_parbreak() {
    assert_eq!(
        parse("@{*open\n\nnext}"),
        Ok(NotaTemplate {
            span: sp(0, 14),
            elems: vec![
                strong(2, 7, vec![text(3, 7, "open")]),
                parbreak(7, 9),
                text(9, 13, "next"),
            ],
        })
    );
}

#[test]
fn open_strong_ends_before_the_closing_brace() {
    assert_eq!(
        parse("@{*open}"),
        Ok(NotaTemplate { span: sp(0, 8), elems: vec![strong(2, 7, vec![text(3, 7, "open")])] })
    );
}

#[test]
fn strong_may_cross_a_single_newline() {
    assert_eq!(
        parse("@{*a\nb*}"),
        Ok(NotaTemplate {
            span: sp(0, 8),
            elems: vec![strong(
                2,
                7,
                vec![text(3, 4, "a"), space(4, 5, true), text(5, 6, "b")]
            )],
        })
    );
}

#[test]
fn list_marker_in_mid_line_is_an_error() {
    assert_eq!(
        parse("@{x - y}"),
        Err(ParseError { kind: ParseErrorKind::UnexpectedToken, pos: 4 })
    );
}

#[test]
fn list_marker_at_line_start_is_a_list_item() {
    assert_eq!(
        parse("@{- item}"),
        Ok(NotaTemplate {
            span: sp(0, 9),
            elems: vec![list(2, 8, vec![space(3, 4, false), text(4, 8, "item")])],
        })
    );
}

#[test]
fn list_marker_after_indentation_is_a_list_item() {
    assert_eq!(
        parse("@{a\n  - b}"),
        Ok(NotaTemplate {
            span: sp(0, 10),
            elems: vec![
                text(2, 3, "a"),
                space(3, 6, true),
                list(6, 9, vec![space(7, 8, false), text(8, 9, "b")]),
            ],
        })
    );
}

#[test]
fn list_marker_after_a_plain_space_is_an_error() {
    assert_eq!(
        parse("@{ - b}"),
        Err(ParseError { kind: ParseErrorKind::UnexpectedToken, pos: 3 })
    );
}

#[test]
fn strong_and_two_list_items() {
    let tpl = parse("@{*Hi* there\n- a\n- b}").unwrap();
    assert_eq!(tpl.span, sp(0, 21));
    assert_eq!(
        tpl.elems,
        vec![
            strong(2, 6, vec![text(3, 5, "Hi")]),
            space(6, 7, false),
            text(7, 8, "t"),
            text(8, 12, "here"),
            space(12, 13, true),
            list(13, 16, vec![space(14, 15, false), text(15, 16, "a")]),
            space(16, 17, true),
            list(17, 20, vec![space(18, 19, false), text(19, 20, "b")]),
        ]
    );
    let lits = nota_template_to_expr(&tpl);
    assert_eq!(lits.len(), tpl.elems.len());
    assert_eq!(strings(&lits), vec!["*Hi*", " ", "t", "here", "\n", "- a", "\n", "- b"]);
    assert_eq!(strings(&lits).concat(), "*Hi* there\n- a\n- b");
}

#[test]
fn unterminated_template() {
    assert_eq!(
        parse("@{abc"),
        Err(ParseError { kind: ParseErrorKind::UnterminatedTemplate, pos: 5 })
    );
    assert_eq!(
        parse("@{"),
        Err(ParseError { kind: ParseErrorKind::UnterminatedTemplate, pos: 2 })
    );
    assert_eq!(
        parse("@{*a"),
        Err(ParseError { kind: ParseErrorKind::UnterminatedTemplate, pos: 4 })
    );
    assert_eq!(
        parse("@{- a"),
        Err(ParseError { kind: ParseErrorKind::UnterminatedTemplate, pos: 5 })
    );
}

#[test]
fn entry_mismatch() {
    assert_eq!(parse("x"), Err(ParseError { kind: ParseErrorKind::EntryMismatch, pos: 0 }));
    assert_eq!(parse(""), Err(ParseError { kind: ParseErrorKind::EntryMismatch, pos: 0 }));
    assert_eq!(parse("@"), Err(ParseError { kind: ParseErrorKind::EntryMismatch, pos: 0 }));
    let mut lexer = Lexer::new("@{}".chars().collect());
    lexer.is_expr_allowed = false;
    let mut parser = Parser::new(lexer);
    assert_eq!(
        parser.parse_nota_template(),
        Err(ParseError { kind: ParseErrorKind::EntryMismatch, pos: 0 })
    );
}

#[test]
fn mode_stack_is_restored() {
    let mut lexer = Lexer::new("@{a}@{*b".chars().collect());
    lexer.push_context(TokenContext::Host);
    let mut parser = Parser::new(lexer);
    assert!(parser.parse_nota_template().is_ok());
    assert_eq!(parser.lexer.contexts, vec![TokenContext::Host]);
    assert_eq!(parser.lexer.idx, 4);
    assert_eq!(
        parser.parse_nota_template(),
        Err(ParseError { kind: ParseErrorKind::UnterminatedTemplate, pos: 8 })
    );
    assert_eq!(parser.lexer.contexts, vec![TokenContext::Host]);
    assert_eq!(parser.lexer.idx, 4);
}

#[test]
fn spans_count_bytes() {
    assert_eq!(
        parse("@{é€}"),
        Ok(NotaTemplate { span: sp(0, 8), elems: vec![text(2, 7, "é€")] })
    );
}

#[test]
fn right_brace_is_no_element() {
    let mut lexer = Lexer::new("}".chars().collect());
    lexer.push_context(TokenContext::Nota(NotaTokenContext::Markup));
    let mut parser = Parser::new(lexer);
    assert_eq!(
        parser.parse_nota_markup_elem(true),
        Err(ParseError { kind: ParseErrorKind::UnexpectedToken, pos: 0 })
    );
    assert_eq!(parser.lexer.idx, 1);
    let mut lexer = Lexer::new("}".chars().collect());
    lexer.push_context(TokenContext::Nota(NotaTokenContext::Markup));
    let mut parser = Parser::new(lexer);
    assert_eq!(parser.parse_nota_markup(true, 0, StopRule::Never), Ok(vec![]));
    assert_eq!(parser.lexer.idx, 0);
}

#[test]
fn list_item_ends_at_the_line_boundary() {
    let mut lexer = Lexer::new("a b\nc".chars().collect());
    lexer.push_context(TokenContext::Nota(NotaTokenContext::Markup));
    let mut parser = Parser::new(lexer);
    assert_eq!(parser.parse_nota_markup(false, 1, StopRule::Never), Ok(vec![text(0, 3, "a b")]));
    assert_eq!(parser.lexer.idx, 3);
    assert!(parser.newline());
    assert_eq!(parser.lexer.idx, 3);
}

#[test]
fn column_counts_back_to_the_line_start() {
    let parser = Parser::new(Lexer::new("ab\n  - x".chars().collect()));
    assert_eq!(parser.column(0), 0);
    assert_eq!(parser.column(2), 2);
    assert_eq!(parser.column(3), 0);
    assert_eq!(parser.column(5), 2);
    assert_eq!(parser.column(8), 5);
}

#[test]
fn error_messages() {
    let e = ParseError { kind: ParseErrorKind::UnterminatedTemplate, pos: 3 };
    assert_eq!(e.message(), "unterminated template");
    let e = ParseError { kind: ParseErrorKind::UnexpectedToken, pos: 3 };
    assert_eq!(e.message(), "unexpected markup token");
    let e = ParseError { kind: ParseErrorKind::EntryMismatch, pos: 3 };
    assert_eq!(e.message(), "expected the start of a template");
}

#[test]
fn rendering_of_each_element() {
    assert_eq!(to_string(&text(0, 0, "abc")), "abc");
    assert_eq!(to_string(&space(0, 0, false)), " ");
    assert_eq!(to_string(&space(0, 0, true)), "\n");
    assert_eq!(to_string(&parbreak(0, 0)), "\n\n");
    assert_eq!(to_string(&strong(0, 0, vec![])), "**");
    assert_eq!(to_string(&list(0, 0, vec![])), "-");
    assert_eq!(
        to_string(&strong(
            0,
            0,
            vec![text(0, 0, "a"), space(0, 0, false), strong(0, 0, vec![text(0, 0, "b")])]
        )),
        "*a *b**"
    );
    assert_eq!(to_string(&list(0, 0, vec![space(0, 0, false), text(0, 0, "x")])), "- x");
}

#[test]
fn lowering_gives_one_string_for_each_element() {
    let tpl = parse("@{one *two*\n\n- three}").unwrap();
    let lits = nota_template_to_expr(&tpl);
    assert_eq!(strings(&lits), vec!["one", " ", "*two*", "\n\n", "- three"]);
    assert_eq!(nota_template_to_expr(&NotaTemplate { span: sp(0, 3), elems: vec![] }).len(), 0);
}

#[test]
fn rendering_text_gives_the_source_back() {
    let source = "@{*Hi* you\n- a}";
    let tpl = parse(source).unwrap();
    let lits = nota_template_to_expr(&tpl);
    assert_eq!(strings(&lits).concat(), &source[2..source.len() - 1]);
}

#[test]
fn rendering_is_stable_under_reparsing() {
    for source in ["@{*Hi* you\n- a}", "@{a   b\n\n\n*c}", "@{one*two}"] {
        let first = strings(&nota_template_to_expr(&parse(source).unwrap())).concat();
        let again = format!("@{{{}}}", first);
        let second = strings(&nota_template_to_expr(&parse(&again).unwrap())).concat();
        assert_eq!(first, second);
    }
    let lits = strings(&nota_template_to_expr(&parse("@{a   b\n\n\n*c}").unwrap()));
    assert_eq!(lits, vec!["a", " ", "b", "\n\n", "*c*"]);
}
