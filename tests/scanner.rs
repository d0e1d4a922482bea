use exprparse::cursor::{MorePeekable, MorePeekableIter};
use exprparse::lexer::{scan, Lexer};
use exprparse::token::{IntBase, Span, Token, TokenKind};

fn kinds(input: &str) -> Vec<TokenKind> {
    scan(input).iter().map(|t| t.kind).collect()
}

fn texts(input: &str) -> Vec<&str> {
    scan(input).iter().map(|t| t.span.as_str()).collect()
}

#[test]
fn decimal_digits_scan_as_one_integer() {
    for d in ["0", "7", "12345", "0123", "18446744073709551615"] {
        let toks = scan(d);
        assert_eq!(toks.len(), 1);
        assert_eq!(toks[0].kind, TokenKind::Integer(IntBase::Decimal));
        assert_eq!(toks[0].span.as_str(), d);
    }
}

#[test]
fn decimal_with_separators_keeps_them_in_text() {
    let toks = scan("1_000_000");
    assert_eq!(toks.len(), 1);
    assert_eq!(toks[0].kind, TokenKind::Integer(IntBase::Decimal));
    assert_eq!(toks[0].span.as_str(), "1_000_000");
}

#[test]
fn prefixed_literals_scan_with_prefix() {
    let cases = [
        ("0x1F", IntBase::Hexadecimal),
        ("0xdead_BEEF", IntBase::Hexadecimal),
        ("0o17", IntBase::Octadecimal),
        ("0b1010_1", IntBase::Binary),
        ("0x", IntBase::Hexadecimal),
    ];
    for (text, base) in cases {
        let toks = scan(text);
        assert_eq!(toks.len(), 1);
        assert_eq!(toks[0].kind, TokenKind::Integer(base));
        assert_eq!(toks[0].span.as_str(), text);
    }
}

#[test]
fn prefixed_literal_stops_at_foreign_digit() {
    assert_eq!(
        kinds("0b102"),
        vec![TokenKind::Integer(IntBase::Binary), TokenKind::Integer(IntBase::Decimal)]
    );
    assert_eq!(texts("0b102"), vec!["0b10", "2"]);
    assert_eq!(texts("0o78"), vec!["0o7", "8"]);
}

#[test]
fn equality_and_inequality_are_single_tokens() {
    assert_eq!(kinds("=="), vec![TokenKind::EQ]);
    assert_eq!(texts("=="), vec!["=="]);
    assert_eq!(kinds("!="), vec![TokenKind::NE]);
    assert_eq!(texts("!="), vec!["!="]);
}

#[test]
fn lone_assign_is_invalid() {
    assert_eq!(kinds("="), vec![TokenKind::Invalid]);
    assert_eq!(kinds("!"), vec![TokenKind::Invalid]);
    assert_eq!(kinds("= ="), vec![TokenKind::Invalid, TokenKind::Invalid]);
}

#[test]
fn operators_and_terminator() {
    assert_eq!(
        kinds("+ - * / ;"),
        vec![
            TokenKind::Plus,
            TokenKind::Minus,
            TokenKind::Star,
            TokenKind::Slash,
            TokenKind::Semicolon
        ]
    );
}

#[test]
fn tokens_at_end_of_input_are_kept() {
    assert_eq!(kinds("a+"), vec![TokenKind::Identifier, TokenKind::Plus]);
    assert_eq!(kinds("a=="), vec![TokenKind::Identifier, TokenKind::EQ]);
    assert_eq!(texts("x 42"), vec!["x", "42"]);
}

#[test]
fn identifiers_take_letters_digits_underscores() {
    assert_eq!(texts("foo_bar1 baz"), vec!["foo_bar1", "baz"]);
    assert_eq!(kinds("_x"), vec![TokenKind::Invalid, TokenKind::Identifier]);
}

#[test]
fn empty_and_blank_inputs_have_no_tokens() {
    assert!(scan("").is_empty());
    assert!(scan(" \t\r\n").is_empty());
}

#[test]
fn non_ascii_character_is_one_invalid_token() {
    let toks = scan("a é b");
    assert_eq!(
        toks.iter().map(|t| t.kind).collect::<Vec<_>>(),
        vec![TokenKind::Identifier, TokenKind::Invalid, TokenKind::Identifier]
    );
    assert_eq!(toks[1].span.as_str(), "é");
    assert_eq!((toks[1].span.start, toks[1].span.end), (2, 4));
}

#[test]
fn spans_hold_byte_offsets() {
    let toks = scan("  ab + 0x1;");
    let offsets: Vec<(usize, usize)> = toks.iter().map(|t| (t.span.start, t.span.end)).collect();
    assert_eq!(offsets, vec![(2, 4), (5, 6), (7, 10), (10, 11)]);
}

#[test]
fn rescanning_gives_equal_tokens() {
    let input = "a + 0x1F * b_2 != c; @";
    let first = scan(input);
    let second = scan(input);
    assert_eq!(first, second);
    let mut l1 = Lexer::new(input);
    let mut l2 = Lexer::new(input);
    assert_eq!(l1.tokenize(), l2.tokenize());
}

#[test]
fn lexer_hands_out_tokens_one_by_one() {
    let input = "x*2";
    let mut lexer = Lexer::new(input);
    let t = lexer.next().unwrap();
    assert_eq!(t, Token::new(TokenKind::Identifier, Span::new(input, 0, 1)));
    assert_eq!(lexer.next().unwrap().kind, TokenKind::Star);
    assert_eq!(lexer.next().unwrap().span.as_str(), "2");
    assert!(lexer.next().is_none());
    assert!(lexer.next().is_none());
}

#[test]
fn span_as_str_takes_the_range() {
    let span = Span::new("hello world", 6, 11);
    assert_eq!(span.as_str(), "world");
    assert_eq!(Span::new("abc", 1, 1).as_str(), "");
}

#[test]
fn radix_values() {
    assert_eq!(IntBase::Binary.radix(), 2);
    assert_eq!(IntBase::Octadecimal.radix(), 8);
    assert_eq!(IntBase::Decimal.radix(), 10);
    assert_eq!(IntBase::Hexadecimal.radix(), 16);
}

#[test]
fn cursor_peeks_two_ahead() {
    let mut it = MorePeekableIter::new(vec![1u32, 2, 3]);
    assert_eq!(it.peek_curr(), Some(&1));
    assert_eq!(it.peek_next(), Some(&2));
    assert_eq!(it.next(), Some(1));
    assert_eq!(it.peek_curr(), Some(&2));
    assert_eq!(it.peek_next(), Some(&3));
    assert_eq!(it.next(), Some(2));
    assert_eq!(it.peek_curr(), Some(&3));
    assert_eq!(it.peek_next(), None);
    assert_eq!(it.next(), Some(3));
    assert_eq!(it.peek_curr(), None);
    assert_eq!(it.next(), None);
}

#[test]
fn cursor_over_short_sources() {
    let empty: MorePeekableIter<u8> = Vec::new().more_peekable();
    assert_eq!(empty.peek_curr(), None);
    assert_eq!(empty.peek_next(), None);
    let one = vec![9u8].more_peekable();
    assert_eq!(one.peek_curr(), Some(&9));
    assert_eq!(one.peek_next(), None);
}

#[test]
fn base_converts_to_radix() {
    assert_eq!(u32::from(IntBase::Binary), 2);
    assert_eq!(u32::from(IntBase::Octadecimal), 8);
    let r: u32 = IntBase::Decimal.into();
    assert_eq!(r, 10);
    assert_eq!(u32::from(IntBase::Hexadecimal), 16);
}

#[test]
fn tokens_order_by_kind_then_span() {
    let input = "a+";
    let toks = scan(input);
    assert!(toks[1] < toks[0]);
    assert!(Span::new(input, 0, 1) < Span::new(input, 1, 2));
}

#[test]
fn two_scanners_agree_call_by_call() {
    let input = "x1 == 0b1_0; é";
    let mut l1 = Lexer::new(input);
    let mut l2 = Lexer::new(input);
    loop {
        let a = l1.next();
        let b = l2.next();
        assert_eq!(a, b);
        if a.is_none() {
            break;
        }
    }
}
