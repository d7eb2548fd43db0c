use vstd::prelude::*;

verus! {

/// A byte range `[start, start + len)` in the source text.
#[derive(Debug, Clone, Copy, PartialEq, Eq, Structural)]
pub struct Span {
    pub start: usize,
    pub len: usize,
}

impl Span {
    /// One past the last byte covered, as a mathematical integer.
    pub open spec fn spec_end(self) -> int {
        self.start + self.len
    }

    /// A span whose end fits in `usize`.
    pub open spec fn fits(self) -> bool {
        self.start + self.len <= usize::MAX
    }

    pub fn new(start: usize, len: usize) -> (r: Span)
        ensures
            r == (Span { start, len }),
    {
        Span { start, len }
    }

    pub fn end(self) -> (r: usize)
        requires
            self.fits(),
        ensures
            r == self.spec_end(),
    {
        self.start + self.len
    }

    /// The smallest span covering both `self` and `other`.
    pub open spec fn spec_join(self, other: Span) -> Span {
        let start = if self.start <= other.start { self.start } else { other.start };
        let end = if self.spec_end() >= other.spec_end() { self.spec_end() } else { other.spec_end() };
        Span { start, len: (end - start) as usize }
    }

    /// The end of the span, or `usize::MAX` when it would pass it.
    pub open spec fn sat_end(self) -> int {
        if self.fits() {
            self.spec_end()
        } else {
            usize::MAX as int
        }
    }

    /// The smallest span covering both, with ends capped at `usize::MAX`;
    /// the same as `spec_join` on spans that fit.
    pub open spec fn spec_cover(self, other: Span) -> Span {
        let start = if self.start <= other.start { self.start } else { other.start };
        let end = if self.sat_end() >= other.sat_end() { self.sat_end() } else { other.sat_end() };
        Span { start, len: (end - start) as usize }
    }

    /// `join` for any two spans: ends past `usize::MAX` are capped.
    pub fn cover(self, other: Span) -> (r: Span)
        ensures
            r == self.spec_cover(other),
            self.fits() && other.fits() ==> r == self.spec_join(other),
            r.fits(),
    {
        let start = if self.start <= other.start { self.start } else { other.start };
        let a = self.start.saturating_add(self.len);
        let b = other.start.saturating_add(other.len);
        let end = if a >= b { a } else { b };
        Span::new(start, end - start)
    }

    pub fn join(self, other: Span) -> (r: Span)
        requires
            self.fits(),
            other.fits(),
        ensures
            r == self.spec_join(other),
            r.fits(),
    {
        let start = if self.start <= other.start { self.start } else { other.start };
        let a = self.end();
        let b = other.end();
        let end = if a >= b { a } else { b };
        Span::new(start, end - start)
    }

    pub fn point(offset: usize) -> (r: Span)
        ensures
            r == (Span { start: offset, len: 0 }),
    {
        Span::new(offset, 0)
    }
}

impl Default for Span {
    fn default() -> (r: Span)
        ensures
            r == (Span { start: 0, len: 0 }),
    {
        Span { start: 0, len: 0 }
    }
}

/// The joined span starts at the earlier start, ends at the later end, and so
/// covers both of its operands.
pub proof fn law_join_covers(a: Span, b: Span)
    requires
        a.fits(),
        b.fits(),
    ensures
        a.spec_join(b).start <= a.start,
        a.spec_join(b).start <= b.start,
        a.spec_join(b).spec_end() >= a.spec_end(),
        a.spec_join(b).spec_end() >= b.spec_end(),
        a.spec_join(b).spec_end() == a.spec_end() || a.spec_join(b).spec_end() == b.spec_end(),
        a.spec_join(b).start == a.start || a.spec_join(b).start == b.start,
{
}

/// Joining is commutative, idempotent and associative.
pub proof fn law_join_algebra(a: Span, b: Span, c: Span)
    requires
        a.fits(),
        b.fits(),
        c.fits(),
    ensures
        a.spec_join(b) == b.spec_join(a),
        a.spec_join(a) == a,
        a.spec_join(b).spec_join(c) == a.spec_join(b.spec_join(c)),
{
}

/// A lexical token. `S` is the string payload: `String` at run time, the
/// character sequence `Seq<char>` in specifications. Float literals keep the
/// digits of their source text.
#[derive(Debug, Clone, PartialEq)]
pub enum TokenOf<S> {
    // Literals
    Int(i64),
    Float(S),
    Str(S),
    Bool(bool),
    Null,
    // Identifiers & Keywords
    Ident(S),
    Fn,
    Cls,
    Load,
    From,
    As,
    Export,
    Return,
    If,
    Elif,
    Else,
    For,
    While,
    In,
    Break,
    Continue,
    Spawn,
    Error,
    Step,
    // Operators
    Plus,
    Minus,
    Star,
    Slash,
    Percent,
    Assign,
    EqEq,
    BangEq,
    Lt,
    Gt,
    LtEq,
    GtEq,
    And,
    Or,
    Not,
    Arrow,
    Question,
    DotDot,
    Dot,
    Pipe,
    PlusEq,
    MinusEq,
    StarEq,
    SlashEq,
    // Structure
    Indent,
    Dedent,
    Newline,
    Colon,
    Comma,
    LParen,
    RParen,
    LBrace,
    RBrace,
    LBracket,
    RBracket,
    // Interp
    InterpStart,
    InterpEnd,
    Eof,
}

pub type Token = TokenOf<String>;

impl View for TokenOf<String> {
    type V = SpecToken;

    open spec fn view(&self) -> SpecToken {
        match self {
            TokenOf::Int(x) => TokenOf::Int(*x),
            TokenOf::Float(s) => TokenOf::Float(s@),
            TokenOf::Str(s) => TokenOf::Str(s@),
            TokenOf::Bool(x) => TokenOf::Bool(*x),
            TokenOf::Null => TokenOf::Null,
            TokenOf::Ident(s) => TokenOf::Ident(s@),
            TokenOf::Fn => TokenOf::Fn,
            TokenOf::Cls => TokenOf::Cls,
            TokenOf::Load => TokenOf::Load,
            TokenOf::From => TokenOf::From,
            TokenOf::As => TokenOf::As,
            TokenOf::Export => TokenOf::Export,
            TokenOf::Return => TokenOf::Return,
            TokenOf::If => TokenOf::If,
            TokenOf::Elif => TokenOf::Elif,
            TokenOf::Else => TokenOf::Else,
            TokenOf::For => TokenOf::For,
            TokenOf::While => TokenOf::While,
            TokenOf::In => TokenOf::In,
            TokenOf::Break => TokenOf::Break,
            TokenOf::Continue => TokenOf::Continue,
            TokenOf::Spawn => TokenOf::Spawn,
            TokenOf::Error => TokenOf::Error,
            TokenOf::Step => TokenOf::Step,
            TokenOf::Plus => TokenOf::Plus,
            TokenOf::Minus => TokenOf::Minus,
            TokenOf::Star => TokenOf::Star,
            TokenOf::Slash => TokenOf::Slash,
            TokenOf::Percent => TokenOf::Percent,
            TokenOf::Assign => TokenOf::Assign,
            TokenOf::EqEq => TokenOf::EqEq,
            TokenOf::BangEq => TokenOf::BangEq,
            TokenOf::Lt => TokenOf::Lt,
            TokenOf::Gt => TokenOf::Gt,
            TokenOf::LtEq => TokenOf::LtEq,
            TokenOf::GtEq => TokenOf::GtEq,
            TokenOf::And => TokenOf::And,
            TokenOf::Or => TokenOf::Or,
            TokenOf::Not => TokenOf::Not,
            TokenOf::Arrow => TokenOf::Arrow,
            TokenOf::Question => TokenOf::Question,
            TokenOf::DotDot => TokenOf::DotDot,
            TokenOf::Dot => TokenOf::Dot,
            TokenOf::Pipe => TokenOf::Pipe,
            TokenOf::PlusEq => TokenOf::PlusEq,
            TokenOf::MinusEq => TokenOf::MinusEq,
            TokenOf::StarEq => TokenOf::StarEq,
            TokenOf::SlashEq => TokenOf::SlashEq,
            TokenOf::Indent => TokenOf::Indent,
            TokenOf::Dedent => TokenOf::Dedent,
            TokenOf::Newline => TokenOf::Newline,
            TokenOf::Colon => TokenOf::Colon,
            TokenOf::Comma => TokenOf::Comma,
            TokenOf::LParen => TokenOf::LParen,
            TokenOf::RParen => TokenOf::RParen,
            TokenOf::LBrace => TokenOf::LBrace,
            TokenOf::RBrace => TokenOf::RBrace,
            TokenOf::LBracket => TokenOf::LBracket,
            TokenOf::RBracket => TokenOf::RBracket,
            TokenOf::InterpStart => TokenOf::InterpStart,
            TokenOf::InterpEnd => TokenOf::InterpEnd,
            TokenOf::Eof => TokenOf::Eof,
        }
    }
}

impl TokenOf<String> {
    pub fn is_eof(&self) -> (r: bool)
        ensures
            r == (self@ is Eof),
            r == (*self is Eof),
    {
        match self {
            TokenOf::Eof => true,
            _ => false,
        }
    }

    /// A copy of the token, equal to it in every field.
    pub fn dup(&self) -> (r: Token)
        ensures
            r == *self,
    {
        match self {
            TokenOf::Int(x) => TokenOf::Int(*x),
            TokenOf::Float(s) => TokenOf::Float(s.clone()),
            TokenOf::Str(s) => TokenOf::Str(s.clone()),
            TokenOf::Bool(x) => TokenOf::Bool(*x),
            TokenOf::Null => TokenOf::Null,
            TokenOf::Ident(s) => TokenOf::Ident(s.clone()),
            TokenOf::Fn => TokenOf::Fn,
            TokenOf::Cls => TokenOf::Cls,
            TokenOf::Load => TokenOf::Load,
            TokenOf::From => TokenOf::From,
            TokenOf::As => TokenOf::As,
            TokenOf::Export => TokenOf::Export,
            TokenOf::Return => TokenOf::Return,
            TokenOf::If => TokenOf::If,
            TokenOf::Elif => TokenOf::Elif,
            TokenOf::Else => TokenOf::Else,
            TokenOf::For => TokenOf::For,
            TokenOf::While => TokenOf::While,
            TokenOf::In => TokenOf::In,
            TokenOf::Break => TokenOf::Break,
            TokenOf::Continue => TokenOf::Continue,
            TokenOf::Spawn => TokenOf::Spawn,
            TokenOf::Error => TokenOf::Error,
            TokenOf::Step => TokenOf::Step,
            TokenOf::Plus => TokenOf::Plus,
            TokenOf::Minus => TokenOf::Minus,
            TokenOf::Star => TokenOf::Star,
            TokenOf::Slash => TokenOf::Slash,
            TokenOf::Percent => TokenOf::Percent,
            TokenOf::Assign => TokenOf::Assign,
            TokenOf::EqEq => TokenOf::EqEq,
            TokenOf::BangEq => TokenOf::BangEq,
            TokenOf::Lt => TokenOf::Lt,
            TokenOf::Gt => TokenOf::Gt,
            TokenOf::LtEq => TokenOf::LtEq,
            TokenOf::GtEq => TokenOf::GtEq,
            TokenOf::And => TokenOf::And,
            TokenOf::Or => TokenOf::Or,
            TokenOf::Not => TokenOf::Not,
            TokenOf::Arrow => TokenOf::Arrow,
            TokenOf::Question => TokenOf::Question,
            TokenOf::DotDot => TokenOf::DotDot,
            TokenOf::Dot => TokenOf::Dot,
            TokenOf::Pipe => TokenOf::Pipe,
            TokenOf::PlusEq => TokenOf::PlusEq,
            TokenOf::MinusEq => TokenOf::MinusEq,
            TokenOf::StarEq => TokenOf::StarEq,
            TokenOf::SlashEq => TokenOf::SlashEq,
            TokenOf::Indent => TokenOf::Indent,
            TokenOf::Dedent => TokenOf::Dedent,
            TokenOf::Newline => TokenOf::Newline,
            TokenOf::Colon => TokenOf::Colon,
            TokenOf::Comma => TokenOf::Comma,
            TokenOf::LParen => TokenOf::LParen,
            TokenOf::RParen => TokenOf::RParen,
            TokenOf::LBrace => TokenOf::LBrace,
            TokenOf::RBrace => TokenOf::RBrace,
            TokenOf::LBracket => TokenOf::LBracket,
            TokenOf::RBracket => TokenOf::RBracket,
            TokenOf::InterpStart => TokenOf::InterpStart,
            TokenOf::InterpEnd => TokenOf::InterpEnd,
            TokenOf::Eof => TokenOf::Eof,
        }
    }
}


pub type SpecToken = TokenOf<Seq<char>>;

} // verus!
