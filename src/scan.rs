use vstd::prelude::*;
use crate::token::{IntBase, TokenKind};

verus! {

/// A set of bytes that the scanner consumes as a run.
#[derive(Clone, Copy, Debug, PartialEq, Eq)]
pub enum CharClass {
    /// ASCII whitespace: space, tab, line feed, form feed, carriage return.
    Space,
    /// What may follow the first letter of a name: ASCII letters, digits, `_`.
    Word,
    /// The digits of a base, and `_` as a separator.
    Digits(IntBase),
    /// The continuation bytes of a UTF-8 encoded character.
    Continuation,
}

pub open spec fn is_ascii_alpha(c: u8) -> bool {
    (0x41 <= c && c <= 0x5a) || (0x61 <= c && c <= 0x7a)
}

pub open spec fn is_ascii_digit(c: u8) -> bool {
    0x30 <= c && c <= 0x39
}

/// `c` is a digit of `base` (letters of either case for sixteen).
pub open spec fn is_digit_of(c: u8, base: IntBase) -> bool {
    match base {
        IntBase::Binary => 0x30 <= c && c <= 0x31,
        IntBase::Octadecimal => 0x30 <= c && c <= 0x37,
        IntBase::Decimal => is_ascii_digit(c),
        IntBase::Hexadecimal => is_ascii_digit(c) || (0x41 <= c && c <= 0x46) || (0x61 <= c
            && c <= 0x66),
    }
}

pub open spec fn in_class(c: u8, cls: CharClass) -> bool {
    match cls {
        CharClass::Space => c == 0x20 || c == 0x09 || c == 0x0a || c == 0x0c || c == 0x0d,
        CharClass::Word => is_ascii_alpha(c) || is_ascii_digit(c) || c == 0x5f,
        CharClass::Digits(base) => is_digit_of(c, base) || c == 0x5f,
        CharClass::Continuation => 0x80 <= c && c <= 0xbf,
    }
}

/// Whether `c` belongs to `cls`.
pub fn class_has(c: u8, cls: CharClass) -> (r: bool)
    ensures
        r == in_class(c, cls),
{
    match cls {
        CharClass::Space => c == 0x20 || c == 0x09 || c == 0x0a || c == 0x0c || c == 0x0d,
        CharClass::Word => (0x41 <= c && c <= 0x5a) || (0x61 <= c && c <= 0x7a) || (0x30 <= c
            && c <= 0x39) || c == 0x5f,
        CharClass::Digits(base) => {
            let digit = match base {
                IntBase::Binary => 0x30 <= c && c <= 0x31,
                IntBase::Octadecimal => 0x30 <= c && c <= 0x37,
                IntBase::Decimal => 0x30 <= c && c <= 0x39,
                IntBase::Hexadecimal => (0x30 <= c && c <= 0x39) || (0x41 <= c && c <= 0x46) || (
                0x61 <= c && c <= 0x66),
            };
            digit || c == 0x5f
        },
        CharClass::Continuation => 0x80 <= c && c <= 0xbf,
    }
}

/// The first offset at or after `p` whose byte is not in `cls` (or the end).
pub open spec fn run_end(b: Seq<u8>, p: int, cls: CharClass) -> int
    decreases b.len() - p,
{
    if 0 <= p < b.len() && in_class(b[p], cls) {
        run_end(b, p + 1, cls)
    } else {
        p
    }
}

pub proof fn lemma_run_end(b: Seq<u8>, p: int, cls: CharClass)
    requires
        0 <= p <= b.len(),
    ensures
        p <= run_end(b, p, cls) <= b.len(),
        forall|i: int| p <= i < run_end(b, p, cls) ==> in_class(#[trigger] b[i], cls),
        run_end(b, p, cls) < b.len() ==> !in_class(b[run_end(b, p, cls)], cls),
    decreases b.len() - p,
{
    if p < b.len() && in_class(b[p], cls) {
        lemma_run_end(b, p + 1, cls);
    }
}

/// Where the run of `cls` starting at `p` ends, for a run that fills
/// `[p, e)` and stops at `e`.
pub proof fn lemma_run_end_exact(b: Seq<u8>, p: int, e: int, cls: CharClass)
    requires
        0 <= p <= e <= b.len(),
        forall|i: int| p <= i < e ==> in_class(#[trigger] b[i], cls),
        e < b.len() ==> !in_class(b[e], cls),
    ensures
        run_end(b, p, cls) == e,
    decreases e - p,
{
    if p < e {
        lemma_run_end_exact(b, p + 1, e, cls);
    }
}

/// The byte at offset `i`, or zero past the end.
pub open spec fn byte_or_nul(b: Seq<u8>, i: int) -> u8 {
    if 0 <= i < b.len() {
        b[i]
    } else {
        0
    }
}

/// The token that a scan starting at offset `p` of `b` produces: its kind,
/// and the start and end of its text; `None` where only whitespace is left.
pub open spec fn next_token(b: Seq<u8>, p: int) -> Option<(TokenKind, int, int)> {
    let s = run_end(b, p, CharClass::Space);
    if s >= b.len() {
        None
    } else {
        let c = b[s];
        let n = byte_or_nul(b, s + 1);
        Some(
            if c == 0x3d && n == 0x3d {
                (TokenKind::EQ, s, s + 2)
            } else if c == 0x21 && n == 0x3d {
                (TokenKind::NE, s, s + 2)
            } else if c == 0x2b {
                (TokenKind::Plus, s, s + 1)
            } else if c == 0x2d {
                (TokenKind::Minus, s, s + 1)
            } else if c == 0x2a {
                (TokenKind::Star, s, s + 1)
            } else if c == 0x2f {
                (TokenKind::Slash, s, s + 1)
            } else if c == 0x3b {
                (TokenKind::Semicolon, s, s + 1)
            } else if is_ascii_alpha(c) {
                (TokenKind::Identifier, s, run_end(b, s, CharClass::Word))
            } else if c == 0x30 && n == 0x78 {
                (
                    TokenKind::Integer(IntBase::Hexadecimal),
                    s,
                    run_end(b, s + 2, CharClass::Digits(IntBase::Hexadecimal)),
                )
            } else if c == 0x30 && n == 0x6f {
                (
                    TokenKind::Integer(IntBase::Octadecimal),
                    s,
                    run_end(b, s + 2, CharClass::Digits(IntBase::Octadecimal)),
                )
            } else if c == 0x30 && n == 0x62 {
                (
                    TokenKind::Integer(IntBase::Binary),
                    s,
                    run_end(b, s + 2, CharClass::Digits(IntBase::Binary)),
                )
            } else if is_ascii_digit(c) {
                (
                    TokenKind::Integer(IntBase::Decimal),
                    s,
                    run_end(b, s, CharClass::Digits(IntBase::Decimal)),
                )
            } else {
                (TokenKind::Invalid, s, run_end(b, s + 1, CharClass::Continuation))
            },
        )
    }
}

pub proof fn lemma_next_token_bounds(b: Seq<u8>, p: int)
    requires
        0 <= p <= b.len(),
    ensures
        next_token(b, p) matches Some(t) ==> p <= t.1 < t.2 <= b.len(),
        next_token(b, p) is None ==> run_end(b, p, CharClass::Space) == b.len(),
{
    lemma_run_end(b, p, CharClass::Space);
    let s = run_end(b, p, CharClass::Space);
    if s < b.len() {
        lemma_run_end(b, s, CharClass::Word);
        lemma_run_end(b, s + 1, CharClass::Continuation);
        lemma_run_end(b, s, CharClass::Digits(IntBase::Decimal));
        if s + 2 <= b.len() {
            lemma_run_end(b, s + 2, CharClass::Digits(IntBase::Hexadecimal));
            lemma_run_end(b, s + 2, CharClass::Digits(IntBase::Octadecimal));
            lemma_run_end(b, s + 2, CharClass::Digits(IntBase::Binary));
        }
    }
}

/// Every token that a scan from offset `p` of `b` produces, in order.
pub open spec fn tokens_from(b: Seq<u8>, p: int) -> Seq<(TokenKind, int, int)>
    decreases b.len() - p,
{
    match next_token(b, p) {
        None => seq![],
        Some(t) => if p < t.2 <= b.len() {
            seq![t] + tokens_from(b, t.2)
        } else {
            seq![]
        },
    }
}

} // verus!
