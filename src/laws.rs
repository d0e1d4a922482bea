use vstd::prelude::*;
use crate::lexer::tokens_of;
use crate::scan::{
    CharClass, in_class, is_ascii_digit, run_end, next_token, tokens_from, lemma_run_end_exact,
};
use crate::token::{bytes_of, IntBase, TokenKind};

verus! {

/// The letter after `0` that introduces a literal in `base`, for the bases
/// that have one.
pub open spec fn prefix_letter(base: IntBase) -> Option<u8> {
    match base {
        IntBase::Hexadecimal => Some(0x78u8),
        IntBase::Octadecimal => Some(0x6fu8),
        IntBase::Binary => Some(0x62u8),
        IntBase::Decimal => None,
    }
}

/// A scan from the end of the bytes yields nothing.
proof fn lemma_tokens_at_end(b: Seq<u8>)
    ensures
        tokens_from(b, b.len() as int) == Seq::<(TokenKind, int, int)>::empty(),
{
    assert(run_end(b, b.len() as int, CharClass::Space) == b.len());
    assert(next_token(b, b.len() as int) is None);
}

/// A text of decimal digits scans as exactly one decimal integer token,
/// whose text is the whole input.
pub proof fn lemma_scan_decimal_digits(input: &str)
    requires
        0 < bytes_of(input).len() <= usize::MAX,
        forall|i: int| 0 <= i < bytes_of(input).len() ==> is_ascii_digit(#[trigger] bytes_of(input)[i]),
    ensures
        tokens_of(input, 0).len() == 1,
        tokens_of(input, 0)[0].kind == TokenKind::Integer(IntBase::Decimal),
        tokens_of(input, 0)[0].span.text() == bytes_of(input),
{
    let b = bytes_of(input);
    let n = b.len() as int;
    assert(run_end(b, 0, CharClass::Space) == 0);
    lemma_run_end_exact(b, 0, n, CharClass::Digits(IntBase::Decimal));
    assert(next_token(b, 0) == Some((TokenKind::Integer(IntBase::Decimal), 0int, n)));
    lemma_tokens_at_end(b);
    assert(tokens_from(b, 0) =~= seq![(TokenKind::Integer(IntBase::Decimal), 0int, n)]);
    assert(tokens_of(input, 0)[0].span.text() =~= b);
}

/// `0x`, `0o` or `0b` followed by digits of that base (and `_`) scans as
/// exactly one integer token of that base, whose text is the whole input,
/// prefix included.
pub proof fn lemma_scan_prefixed_literal(input: &str, base: IntBase)
    requires
        prefix_letter(base) is Some,
        2 <= bytes_of(input).len() <= usize::MAX,
        bytes_of(input)[0] == 0x30,
        bytes_of(input)[1] == prefix_letter(base)->0,
        forall|i: int|
            2 <= i < bytes_of(input).len() ==> in_class(
                #[trigger] bytes_of(input)[i],
                CharClass::Digits(base),
            ),
    ensures
        tokens_of(input, 0).len() == 1,
        tokens_of(input, 0)[0].kind == TokenKind::Integer(base),
        tokens_of(input, 0)[0].span.text() == bytes_of(input),
{
    let b = bytes_of(input);
    let n = b.len() as int;
    assert(run_end(b, 0, CharClass::Space) == 0);
    lemma_run_end_exact(b, 2, n, CharClass::Digits(base));
    assert(next_token(b, 0) == Some((TokenKind::Integer(base), 0int, n)));
    lemma_tokens_at_end(b);
    assert(tokens_from(b, 0) =~= seq![(TokenKind::Integer(base), 0int, n)]);
    assert(tokens_of(input, 0)[0].span.text() =~= b);
}

/// Scanning depends on the text alone: two texts with the same characters
/// scan to tokens of the same kinds at the same offsets, and scanning one
/// buffer twice gives equal tokens. Each `Lexer::next` call hands out the
/// first of `tokens_of(input, pos)` and leaves the rest, so two fresh
/// scanners over one buffer hand out these same tokens, call by call.
pub proof fn lemma_scan_repeatable(a: &str, b: &str)
    requires
        a@ == b@,
    ensures
        tokens_of(a, 0).len() == tokens_of(b, 0).len(),
        forall|i: int|
            0 <= i < tokens_of(a, 0).len() ==> {
                &&& (#[trigger] tokens_of(a, 0)[i]).kind == tokens_of(b, 0)[i].kind
                &&& tokens_of(a, 0)[i].span.start == tokens_of(b, 0)[i].span.start
                &&& tokens_of(a, 0)[i].span.end == tokens_of(b, 0)[i].span.end
            },
        a == b ==> tokens_of(a, 0) == tokens_of(b, 0),
{
    assert(bytes_of(a) == bytes_of(b));
}

} // verus!
