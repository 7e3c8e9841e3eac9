use vstd::prelude::*;

verus! {

/// The operator part of a compound assignment or an arithmetic operator.
#[derive(Clone, Copy, PartialEq, Eq, Debug, Structural)]
pub enum AssignOp {
    Plus,
    Minus,
    Star,
    Slash,
    Percent,
    QuestQuest,
}

/// Every kind of token the lexer can produce.
#[derive(Clone, Copy, PartialEq, Eq, Debug, Structural)]
pub enum TokenKind {
    // Basic
    LeftParen, RightParen,
    LeftBracket, RightBracket,
    LeftBrace, RightBrace,
    Comma, Semicolon,
    Colon, ColonColon,

    // Operators
    Assign { extra_op: Option<AssignOp> },
    Op(AssignOp),

    // Logical
    EqualEqual,
    Exclamation, NotEqual,
    Less, LessEqual,
    Greater, GreaterEqual,

    // Advanced
    Pipe,
    MinusArrow, EqualArrow,
    Caret,
    Quest,
    Hashtag,
    Dot,
    DotDot, DotDotEqual,
    DotDotDot,
    Ampersand,
    EndOfFile,

    Identifier,
    NumInt,
    NumFloat,
    StringStart,
    StringFrag,
    StringEnd,
    Bool(bool),

    // Keywords
    And, Or,
    If, Else, Ensure,
    For, In, While, Loop,
    Break, Continue,
    Fn, Return,
    ImplSelf,
    Match, Is,
    Let, Const, Type,
    Mut, Ref, Own,
    Enum, Impl,
}

/// A location in the source code: the line it starts on, the byte offset and the length in bytes.
#[derive(Clone, Copy, Debug)]
pub struct Span {
    pub line: usize,
    pub byte_offset: usize,
    pub length: usize,
}

/// `a + b`, saturated at `usize::MAX`.
pub open spec fn sat_add(a: usize, b: usize) -> usize {
    if a + b > usize::MAX { usize::MAX } else { (a + b) as usize }
}

pub open spec fn min_usize(a: usize, b: usize) -> usize {
    if a <= b { a } else { b }
}

pub open spec fn max_usize(a: usize, b: usize) -> usize {
    if a >= b { a } else { b }
}

impl Span {
    /// Where the span ends (exclusive), saturated at `usize::MAX`.
    pub open spec fn end(self) -> usize {
        sat_add(self.byte_offset, self.length)
    }

    /// The smallest span that covers both spans, on the smaller of the two lines.
    pub open spec fn spec_merge(self, other: Span) -> Span {
        Span {
            line: min_usize(self.line, other.line),
            byte_offset: min_usize(self.byte_offset, other.byte_offset),
            length: (max_usize(self.end(), other.end()) - min_usize(self.byte_offset, other.byte_offset)) as usize,
        }
    }

    /// Merging spans doesn't depend on their order.
    pub proof fn law_merge_commutative(a: Span, b: Span)
        ensures
            a.spec_merge(b) == b.spec_merge(a),
    {
    }

    /// Merging three spans doesn't depend on which two are merged first.
    pub proof fn law_merge_associative(a: Span, b: Span, c: Span)
        ensures
            a.spec_merge(b).spec_merge(c) == a.spec_merge(b.spec_merge(c)),
    {
    }

    /// The merged span covers both spans.
    pub proof fn law_merge_covers(a: Span, b: Span)
        ensures
            a.spec_merge(b).byte_offset <= a.byte_offset,
            a.spec_merge(b).byte_offset <= b.byte_offset,
            a.spec_merge(b).end() >= a.end(),
            a.spec_merge(b).end() >= b.end(),
    {
    }

    /// A span merged with itself stays the same, where its end fits in a `usize`.
    pub proof fn law_merge_idempotent(a: Span)
        requires
            a.byte_offset + a.length <= usize::MAX,
        ensures
            a.spec_merge(a) == a,
    {
    }

    /// The smallest span that covers both spans, on the smaller of the two lines.
    pub fn merge(self, other: Self) -> (r: Self)
        ensures
            r == self.spec_merge(other),
    {
        let start_byte = if self.byte_offset <= other.byte_offset { self.byte_offset } else { other.byte_offset };
        let end_self = self.byte_offset.saturating_add(self.length);
        let end_other = other.byte_offset.saturating_add(other.length);
        let end_byte = if end_self >= end_other { end_self } else { end_other };
        Span {
            line: if self.line <= other.line { self.line } else { other.line },
            byte_offset: start_byte,
            length: end_byte - start_byte,
        }
    }

    /// A span of length 0 right after the end of this span.
    pub fn to_0_width_right(self) -> (r: Self)
        ensures
            r == (Span { line: self.line, byte_offset: self.end(), length: 0 }),
    {
        Span { line: self.line, byte_offset: self.byte_offset.saturating_add(self.length), length: 0 }
    }

    pub open spec fn spec_invalid() -> Span {
        Span { line: usize::MAX, byte_offset: usize::MAX, length: usize::MAX }
    }

    /// The span given to things that have no place in the source (the end of file, native values).
    pub fn invalid() -> (r: Self)
        ensures
            r == Self::spec_invalid(),
    {
        Span { line: usize::MAX, byte_offset: usize::MAX, length: usize::MAX }
    }
}

impl Default for Span {
    fn default() -> (r: Self)
        ensures
            r == (Span { line: 0, byte_offset: 0, length: 0 }),
    {
        Span { line: 0, byte_offset: 0, length: 0 }
    }
}

/// A token together with its place in the source.
#[derive(Clone, Copy, Debug)]
pub struct TokenSpan {
    pub token: TokenKind,
    pub span: Span,
}

impl TokenSpan {
    pub open spec fn spec_end_token() -> TokenSpan {
        TokenSpan { token: TokenKind::EndOfFile, span: Span::spec_invalid() }
    }

    /// The token that stands for everything past the last token.
    pub fn end_token() -> (r: TokenSpan)
        ensures
            r == Self::spec_end_token(),
    {
        TokenSpan { token: TokenKind::EndOfFile, span: Span::invalid() }
    }
}

} // verus!
