use vstd::prelude::*;
use vstd::string::StringSliceAdditionalSpecFns;
use vstd::utf8::{
    valid_utf8, length_of_first_scalar, pop_first_scalar,
};
use crate::cursor::MorePeekableIter;
use crate::scan::{
    CharClass, class_has, in_class, run_end, next_token, tokens_from, lemma_run_end,
    lemma_next_token_bounds,
};
use crate::token::{bytes_of, on_boundary, Span, Token, TokenKind, IntBase};

verus! {

broadcast use vstd::utf8::group_utf8_lib;

/// In valid UTF-8, the offset after an ASCII byte lies between characters.
proof fn lemma_after_ascii(b: Seq<u8>, i: int)
    requires
        valid_utf8(b),
        0 <= i < b.len(),
        b[i] < 0x80,
    ensures
        on_boundary(b, i + 1),
    decreases b.len(),
{
    reveal_with_fuel(valid_utf8, 2);
    let l = length_of_first_scalar(b);
    let rest = pop_first_scalar(b);
    if i + 1 < b.len() {
        if i < l {
            assert(i == 0);
            assert(l == 1);
            assert(rest[0] == b[1]);
        } else {
            assert(rest[i - l] == b[i]);
            lemma_after_ascii(rest, i - l);
            assert(rest[i - l + 1] == b[i + 1]);
        }
    }
}

/// Where offset `i` holds an ASCII byte, the offset after it lies between
/// characters.
proof fn lemma_after_ascii_when(b: Seq<u8>, i: int)
    requires
        valid_utf8(b),
        0 <= i < b.len(),
    ensures
        b[i] < 0x80 ==> on_boundary(b, i + 1),
{
    if b[i] < 0x80 {
        lemma_after_ascii(b, i);
    }
}

/// A scanner that turns a text into tokens, one at a time.
pub struct Lexer<'a> {
    input: &'a str,
    chars: MorePeekableIter<(usize, u8)>,
}

impl<'a> Lexer<'a> {
    /// The text being scanned.
    pub closed spec fn input(&self) -> &'a str {
        self.input
    }

    /// The offset of the first byte not yet consumed.
    pub closed spec fn pos(&self) -> int {
        self.chars.index()
    }

    /// The cursor walks the bytes of the text, each beside its offset.
    closed spec fn inv(&self) -> bool {
        &&& self.chars.wf()
        &&& self.chars.source().len() == bytes_of(self.input).len()
        &&& 0 <= self.chars.index() <= self.chars.source().len()
        &&& bytes_of(self.input).len() <= usize::MAX
        &&& forall|i: int|
            0 <= i < self.chars.source().len() ==> #[trigger] self.chars.source()[i] == (
                i as usize,
                bytes_of(self.input)[i],
            )
    }

    /// The scanner stands between two characters of its text.
    pub closed spec fn wf(&self) -> bool {
        &&& self.inv()
        &&& on_boundary(bytes_of(self.input), self.pos())
    }

    /// A scanner at the start of `input`.
    pub fn new(input: &'a str) -> (r: Lexer<'a>)
        ensures
            r.wf(),
            r.input() == input,
            r.pos() == 0,
    {
        let bytes = input.as_bytes();
        let mut items: Vec<(usize, u8)> = Vec::new();
        let mut i: usize = 0;
        while i < bytes.len()
            invariant
                bytes@ == bytes_of(input),
                i <= bytes@.len(),
                items@.len() == i,
                forall|k: int| 0 <= k < i ==> #[trigger] items@[k] == (k as usize, bytes@[k]),
            decreases bytes@.len() - i,
        {
            items.push((i, bytes[i]));
            i = i + 1;
        }
        Lexer { input, chars: MorePeekableIter::new(items) }
    }

    fn peek_curr_offset(&self) -> (r: Option<usize>)
        requires
            self.inv(),
        ensures
            r == if self.pos() < bytes_of(self.input).len() {
                Some(self.pos() as usize)
            } else {
                None::<usize>
            },
    {
        match self.chars.peek_curr() {
            Some(item) => Some(item.0),
            None => None,
        }
    }

    fn peek_curr_char(&self) -> (r: Option<u8>)
        requires
            self.inv(),
        ensures
            r == if self.pos() < bytes_of(self.input).len() {
                Some(bytes_of(self.input)[self.pos()])
            } else {
                None::<u8>
            },
    {
        match self.chars.peek_curr() {
            Some(item) => Some(item.1),
            None => None,
        }
    }

    fn peek_next_char(&self) -> (r: Option<u8>)
        requires
            self.inv(),
        ensures
            r == if self.pos() + 1 < bytes_of(self.input).len() {
                Some(bytes_of(self.input)[self.pos() + 1])
            } else {
                None::<u8>
            },
    {
        match self.chars.peek_next() {
            Some(item) => Some(item.1),
            None => None,
        }
    }

    /// Consumes one byte, where one is left.
    fn advance(&mut self)
        requires
            old(self).inv(),
        ensures
            final(self).inv(),
            final(self).input == old(self).input,
            final(self).pos() == if old(self).pos() < bytes_of(old(self).input).len() {
                old(self).pos() + 1
            } else {
                old(self).pos()
            },
    {
        self.chars.next();
    }

    /// Whether the current byte belongs to `cls`.
    fn curr_in(&self, cls: CharClass) -> (r: bool)
        requires
            self.inv(),
        ensures
            r == (self.pos() < bytes_of(self.input).len() && in_class(
                bytes_of(self.input)[self.pos()],
                cls,
            )),
    {
        match self.peek_curr_char() {
            Some(c) => class_has(c, cls),
            None => false,
        }
    }

    /// Consumes bytes while they belong to `cls`.
    fn next_while(&mut self, cls: CharClass)
        requires
            old(self).inv(),
        ensures
            final(self).inv(),
            final(self).input == old(self).input,
            final(self).pos() == run_end(bytes_of(old(self).input), old(self).pos(), cls),
    {
        let ghost b = bytes_of(self.input);
        let ghost start = self.pos();
        while self.curr_in(cls)
            invariant
                self.inv(),
                self.input == old(self).input,
                b == bytes_of(self.input),
                0 <= self.pos() <= b.len(),
                run_end(b, self.pos(), cls) == run_end(b, start, cls),
            decreases b.len() - self.pos(),
        {
            self.advance();
        }
    }

    /// The offset of the current byte, or the length of the text at its end.
    fn curr_offset_or_end(&self) -> (r: usize)
        requires
            self.inv(),
            self.pos() <= bytes_of(self.input).len(),
        ensures
            r == self.pos(),
    {
        match self.peek_curr_offset() {
            Some(off) => off,
            None => self.input.len(),
        }
    }

    /// A token of one character: its first byte and any continuation
    /// bytes after it.
    fn trim_start_one(&mut self, kind: TokenKind) -> (r: Token<'a>)
        requires
            old(self).inv(),
            old(self).pos() < bytes_of(old(self).input).len(),
        ensures
            final(self).inv(),
            final(self).input == old(self).input,
            final(self).pos() == run_end(bytes_of(old(self).input), old(self).pos() + 1, CharClass::Continuation),
            r == token_at(old(self).input, (kind, old(self).pos(), final(self).pos())),
    {
        let start = self.curr_offset_or_end();
        self.advance();
        let ghost from = self.pos();
        self.next_while(CharClass::Continuation);
        proof { lemma_run_end(bytes_of(self.input), from, CharClass::Continuation); }
        let end = self.curr_offset_or_end();
        Token::new(kind, Span::new(self.input, start, end))
    }

    /// A token of two bytes.
    fn trim_start_two(&mut self, kind: TokenKind) -> (r: Token<'a>)
        requires
            old(self).inv(),
            old(self).pos() + 1 < bytes_of(old(self).input).len(),
        ensures
            final(self).inv(),
            final(self).input == old(self).input,
            final(self).pos() == old(self).pos() + 2,
            r == token_at(old(self).input, (kind, old(self).pos(), final(self).pos())),
    {
        let start = self.curr_offset_or_end();
        self.advance();
        self.advance();
        let end = self.curr_offset_or_end();
        Token::new(kind, Span::new(self.input, start, end))
    }

    /// A token made of the run of `cls` that starts at the current byte.
    fn trim_start_with(&mut self, kind: TokenKind, cls: CharClass) -> (r: Token<'a>)
        requires
            old(self).inv(),
            old(self).pos() < bytes_of(old(self).input).len(),
        ensures
            final(self).inv(),
            final(self).input == old(self).input,
            final(self).pos() == run_end(bytes_of(old(self).input), old(self).pos(), cls),
            r == token_at(old(self).input, (kind, old(self).pos(), final(self).pos())),
    {
        let start = self.curr_offset_or_end();
        self.next_while(cls);
        proof { lemma_run_end(bytes_of(self.input), start as int, cls); }
        let end = self.curr_offset_or_end();
        Token::new(kind, Span::new(self.input, start, end))
    }

    /// An integer literal in `base`, after a two-byte prefix where
    /// `has_prefix` holds.
    fn trim_integer(&mut self, base: IntBase, has_prefix: bool) -> (r: Token<'a>)
        requires
            old(self).inv(),
            old(self).pos() + (if has_prefix { 1int } else { 0 }) < bytes_of(old(self).input).len(),
        ensures
            final(self).inv(),
            final(self).input == old(self).input,
            final(self).pos() == run_end(
                bytes_of(old(self).input),
                old(self).pos() + if has_prefix { 2int } else { 0 },
                CharClass::Digits(base),
            ),
            r == token_at(old(self).input, (TokenKind::Integer(base), old(self).pos(), final(self).pos())),
    {
        let start = self.curr_offset_or_end();
        if has_prefix {
            self.advance();
            self.advance();
        }
        let ghost from = self.pos();
        self.next_while(CharClass::Digits(base));
        proof { lemma_run_end(bytes_of(self.input), from, CharClass::Digits(base)); }
        let end = self.curr_offset_or_end();
        Token::new(TokenKind::Integer(base), Span::new(self.input, start, end))
    }

}

impl<'a> Lexer<'a> {
    /// The next token, or `None` where only whitespace is left. Whitespace
    /// before the token is skipped; the token's text is exactly the bytes
    /// consumed for it.
    pub fn next(&mut self) -> (r: Option<Token<'a>>)
        requires
            old(self).wf(),
        ensures
            final(self).wf(),
            final(self).input() == old(self).input(),
            r == match next_token(bytes_of(old(self).input()), old(self).pos()) {
                None => None,
                Some(t) => Some(token_at(old(self).input(), t)),
            },
            final(self).pos() == match next_token(bytes_of(old(self).input()), old(self).pos()) {
                None => bytes_of(old(self).input()).len() as int,
                Some(t) => t.2,
            },
            r matches Some(t) ==> t.span.wf(),
            match r {
                None => tokens_of(old(self).input(), old(self).pos()).len() == 0,
                Some(t) => tokens_of(old(self).input(), old(self).pos()) == seq![t] + tokens_of(
                    old(self).input(),
                    final(self).pos(),
                ),
            },
    {
        let ghost b = bytes_of(self.input);
        let ghost p = self.pos();
        proof {
            lemma_next_token_bounds(b, p);
            lemma_run_end(b, p, CharClass::Space);
        }
        self.next_while(CharClass::Space);
        let ghost s = self.pos();
        proof {
            if s > p {
                lemma_after_ascii(b, s - 1);
            }
        }
        proof {
            if s >= b.len() {
                assert(tokens_from(b, p) =~= seq![]);
                assert(tokens_of(self.input, p) =~= seq![]);
            }
        }
        let curr = match self.peek_curr_char() {
            Some(c) => c,
            None => return None,
        };
        let next = match self.peek_next_char() {
            Some(c) => c,
            None => 0,
        };
        proof {
            lemma_run_end(b, s, CharClass::Word);
            lemma_run_end(b, s, CharClass::Digits(IntBase::Decimal));
            lemma_after_ascii_when(b, s);
            if s + 1 < b.len() {
                lemma_after_ascii_when(b, s + 1);
            }
        }
        let tok = if curr == 0x3d && next == 0x3d {
            // `==`
            self.trim_start_two(TokenKind::EQ)
        } else if curr == 0x21 && next == 0x3d {
            // `!=`
            self.trim_start_two(TokenKind::NE)
        } else if curr == 0x2b {
            // `+`
            self.trim_start_one(TokenKind::Plus)
        } else if curr == 0x2d {
            // `-`
            self.trim_start_one(TokenKind::Minus)
        } else if curr == 0x2a {
            // `*`
            self.trim_start_one(TokenKind::Star)
        } else if curr == 0x2f {
            // `/`
            self.trim_start_one(TokenKind::Slash)
        } else if curr == 0x3b {
            // `;`
            self.trim_start_one(TokenKind::Semicolon)
        } else if (0x41 <= curr && curr <= 0x5a) || (0x61 <= curr && curr <= 0x7a) {
            let t = self.trim_start_with(TokenKind::Identifier, CharClass::Word);
            proof { lemma_after_ascii_when(b, self.pos() - 1); }
            t
        } else if curr == 0x30 && (next == 0x78 || next == 0x6f || next == 0x62) {
            // `0x`, `0o`, `0b`
            let base = if next == 0x78 {
                IntBase::Hexadecimal
            } else if next == 0x6f {
                IntBase::Octadecimal
            } else {
                IntBase::Binary
            };
            proof { lemma_run_end(b, s + 2, CharClass::Digits(base)); }
            let t = self.trim_integer(base, true);
            proof { lemma_after_ascii_when(b, self.pos() - 1); }
            t
        } else if 0x30 <= curr && curr <= 0x39 {
            let t = self.trim_integer(IntBase::Decimal, false);
            proof { lemma_after_ascii_when(b, self.pos() - 1); }
            t
        } else {
            let t = self.trim_start_one(TokenKind::Invalid);
            proof {
                lemma_run_end(b, s + 1, CharClass::Continuation);
            }
            t
        };
        proof {
            let t = next_token(b, p)->0;
            assert(tokens_from(b, p) == seq![t] + tokens_from(b, t.2));
            assert(tokens_of(self.input, p) =~= seq![tok] + tokens_of(self.input, t.2));
        }
        Some(tok)
    }

    /// Every token left in the text, in order.
    pub fn tokenize(&mut self) -> (r: Vec<Token<'a>>)
        requires
            old(self).wf(),
        ensures
            final(self).wf(),
            final(self).input() == old(self).input(),
            r@ == tokens_of(old(self).input(), old(self).pos()),
            forall|i: int| 0 <= i < r@.len() ==> (#[trigger] r@[i]).span.wf(),
    {
        let ghost input = self.input;
        let ghost b = bytes_of(self.input);
        let ghost start = self.pos();
        let mut out: Vec<Token<'a>> = Vec::new();
        loop
            invariant
                self.wf(),
                self.input == input,
                b == bytes_of(input),
                out@ + tokens_of(input, self.pos()) == tokens_of(input, start),
                forall|i: int| 0 <= i < out@.len() ==> (#[trigger] out@[i]).span.wf(),
            ensures
                self.wf(),
                self.input == input,
                out@ == tokens_of(input, start),
                forall|i: int| 0 <= i < out@.len() ==> (#[trigger] out@[i]).span.wf(),
            decreases b.len() - self.pos(),
        {
            let ghost p = self.pos();
            proof { lemma_next_token_bounds(b, p); }
            match self.next() {
                None => {
                    assert(tokens_from(b, p) =~= seq![]);
                    assert(out@ =~= out@ + tokens_of(input, p));
                    assert(out@ =~= tokens_of(input, start));
                    break;
                },
                Some(tok) => {
                    let ghost t = next_token(b, p)->0;
                    assert(tokens_from(b, p) == seq![t] + tokens_from(b, t.2));
                    assert(tokens_of(input, p) =~= seq![tok] + tokens_of(input, t.2));
                    let ghost before = out@;
                    out.push(tok);
                    assert(out@ + tokens_of(input, self.pos()) =~= before + tokens_of(input, p));
                },
            }
        }
        out
    }
}

/// All tokens of `input`, in order.
pub fn scan(input: &str) -> (r: Vec<Token<'_>>)
    ensures
        r@ == tokens_of(input, 0),
        forall|i: int| 0 <= i < r@.len() ==> (#[trigger] r@[i]).span.wf(),
{
    let mut lexer = Lexer::new(input);
    lexer.tokenize()
}

/// The tokens that a scan of `input` from offset `p` produces.
pub open spec fn tokens_of<'b>(input: &'b str, p: int) -> Seq<Token<'b>> {
    tokens_from(bytes_of(input), p).map_values(|t: (TokenKind, int, int)| token_at(input, t))
}

/// The token of kind `t.0` whose text is `[t.1, t.2)` of `input`.
pub open spec fn token_at<'b>(input: &'b str, t: (TokenKind, int, int)) -> Token<'b> {
    Token { kind: t.0, span: Span { string: input, start: t.1 as usize, end: t.2 as usize } }
}

} // verus!
