use vstd::prelude::*;
use vstd::string::StringSliceAdditionalSpecFns;

verus! {

broadcast use vstd::utf8::group_utf8_lib;

/// The bytes of a text, as UTF-8.
pub open spec fn bytes_of(s: &str) -> Seq<u8> {
    s.spec_bytes()
}

/// A classified, positioned unit of the input.
#[derive(Clone, Copy, Debug, PartialEq, Eq, PartialOrd, Ord)]
pub struct Token<'a> {
    /// What kind of token this is.
    pub kind: TokenKind,
    /// Where in the input its text lies.
    pub span: Span<'a>,
}

impl<'a> Token<'a> {
    pub fn new(kind: TokenKind, span: Span<'a>) -> (r: Token<'a>)
        ensures
            r.kind == kind,
            r.span == span,
    {
        Token { kind, span }
    }
}

/// The kind of a token.
#[derive(Clone, Copy, Debug, PartialEq, Eq, Structural, PartialOrd, Ord, Hash)]
pub enum TokenKind {
    /// `+`
    Plus,
    /// `-`
    Minus,
    /// `*`
    Star,
    /// `/`
    Slash,
    /// `;`
    Semicolon,
    /// `==`
    EQ,
    /// `!=`
    NE,
    /// A name: a letter, then letters, digits and underscores.
    Identifier,
    /// An integer literal written in the given base.
    Integer(IntBase),
    /// A character that starts no token.
    Invalid,
}

/// The base an integer literal is written in.
#[derive(Clone, Copy, Debug, PartialEq, Eq, Structural, PartialOrd, Ord, Hash)]
pub enum IntBase {
    Binary,
    Octadecimal,
    Decimal,
    Hexadecimal,
}

impl IntBase {
    /// The radix as a number.
    pub open spec fn spec_radix(self) -> u32 {
        match self {
            IntBase::Binary => 2,
            IntBase::Octadecimal => 8,
            IntBase::Decimal => 10,
            IntBase::Hexadecimal => 16,
        }
    }

    /// The radix as a number: 2, 8, 10 or 16.
    #[verifier::when_used_as_spec(spec_radix)]
    pub fn radix(self) -> (r: u32)
        ensures
            r == self.spec_radix(),
    {
        match self {
            IntBase::Binary => 2,
            IntBase::Octadecimal => 8,
            IntBase::Decimal => 10,
            IntBase::Hexadecimal => 16,
        }
    }
}

impl From<IntBase> for u32 {
    /// The radix of the base.
    fn from(base: IntBase) -> (r: u32) {
        base.radix()
    }
}

impl vstd::std_specs::convert::FromSpecImpl<IntBase> for u32 {
    open spec fn obeys_from_spec() -> bool {
        true
    }

    open spec fn from_spec(base: IntBase) -> u32 {
        base.spec_radix()
    }
}

/// A view onto the byte range `[start, end)` of a text.
#[derive(Clone, Copy, Debug, PartialEq, Eq, PartialOrd, Ord)]
pub struct Span<'a> {
    /// The whole text the span points into.
    pub string: &'a str,
    /// First byte of the range.
    pub start: usize,
    /// One past the last byte of the range.
    pub end: usize,
}

/// A byte that begins a character in UTF-8 (any byte that is not a
/// continuation byte).
pub open spec fn starts_char(b: u8) -> bool {
    !(0x80 <= b && b <= 0xbf)
}

/// Offset `i` of `bytes` lies between two characters.
pub open spec fn on_boundary(bytes: Seq<u8>, i: int) -> bool {
    &&& 0 <= i <= bytes.len()
    &&& (i < bytes.len() ==> starts_char(bytes[i]))
}

impl<'a> Span<'a> {
    /// The range lies in the text, and both of its ends fall between
    /// characters.
    pub open spec fn wf(&self) -> bool {
        &&& self.start <= self.end
        &&& on_boundary(bytes_of(self.string), self.start as int)
        &&& on_boundary(bytes_of(self.string), self.end as int)
    }

    /// The bytes the span covers.
    pub open spec fn text(&self) -> Seq<u8> {
        bytes_of(self.string).subrange(self.start as int, self.end as int)
    }

    pub fn new(string: &'a str, start: usize, end: usize) -> (r: Span<'a>)
        ensures
            r.string == string,
            r.start == start,
            r.end == end,
    {
        Span { string, start, end }
    }

    /// The text the span covers.
    pub fn as_str(&self) -> (r: &'a str)
        requires
            self.wf(),
        ensures
            bytes_of(r) == self.text(),
    {
        let s = self.string;
        proof {
            vstd::utf8::is_char_boundary_start_end_of_seq(bytes_of(s));
            if self.end < bytes_of(s).len() {
                vstd::utf8::is_char_boundary_iff_not_is_continuation_byte(bytes_of(s), self.end as int);
            }
        }
        let (head, _) = s.split_at(self.end);
        proof {
            let hb = bytes_of(head);
            vstd::utf8::is_char_boundary_start_end_of_seq(hb);
            if self.start < self.end {
                assert(hb[self.start as int] == bytes_of(s)[self.start as int]);
                vstd::utf8::is_char_boundary_iff_not_is_continuation_byte(hb, self.start as int);
            }
        }
        let (_, mid) = head.split_at(self.start);
        proof {
            assert(bytes_of(mid) =~= self.text());
        }
        mid
    }
}

} // verus!
