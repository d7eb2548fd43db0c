//! The meaning of lexing: a state machine over the characters of the source.
//! Offsets in spans are byte offsets into the UTF-8 encoding of the source.

use vstd::prelude::*;
use super::token::{Span, SpecToken, TokenOf};
use super::chars::{byte_len, byte_offset, digit_value, is_ascii_digit, spec_is_alphabetic, spec_is_alphanumeric, utf8_width};
use crate::error::{LexError, LexErrorKind};

verus! {

pub type TokSpan = (SpecToken, Span);

pub type LexOutcome = Result<TokSpan, LexError>;

/// The lexer between two tokens.
pub struct LexState {
    /// Index of the next character to read.
    pub pos: int,
    /// Columns of the open indentation levels, innermost last.
    pub indent_stack: Seq<usize>,
    /// Tokens already produced but not yet handed out.
    pub pending: Seq<TokSpan>,
    /// Whether the next read starts a line (indentation must be measured).
    pub at_line_start: bool,
    /// How many brackets are open; newlines inside brackets are skipped.
    pub paren_level: int,
}

pub open spec fn initial_state() -> LexState {
    LexState {
        pos: 0,
        indent_stack: seq![0usize],
        pending: seq![],
        at_line_start: true,
        paren_level: 0,
    }
}

pub open spec fn is_struct_tok(t: SpecToken) -> bool {
    t is Indent || t is Dedent
}

/// The invariant of every reachable state.
pub open spec fn state_wf(src: Seq<char>, st: LexState) -> bool {
    &&& src.len() <= usize::MAX / 4
    &&& 0 <= st.pos <= src.len()
    &&& 0 <= st.paren_level <= st.pos
    &&& st.indent_stack.len() >= 1
    &&& st.indent_stack[0] == 0
    &&& forall|i: int| 0 <= i < st.pending.len() ==> is_struct_tok(#[trigger] st.pending[i].0)
}

pub open spec fn peek_at(src: Seq<char>, pos: int) -> Option<char> {
    if 0 <= pos < src.len() {
        Some(src[pos])
    } else {
        None
    }
}

pub open spec fn is_blank(c: char) -> bool {
    c == ' ' || c == '\t' || c == '\r'
}

/// First position at or after `pos` that is not a blank (space, tab, carriage return).
pub open spec fn skip_blanks(src: Seq<char>, pos: int) -> int
    decreases src.len() - pos,
{
    if 0 <= pos < src.len() && is_blank(src[pos]) {
        skip_blanks(src, pos + 1)
    } else {
        pos
    }
}

/// First position at or after `pos` holding a newline (or the end).
pub open spec fn skip_comment(src: Seq<char>, pos: int) -> int
    decreases src.len() - pos,
{
    if 0 <= pos < src.len() && src[pos] != '\n' {
        skip_comment(src, pos + 1)
    } else {
        pos
    }
}

/// Reads the leading spaces (one column each) and tabs (four columns each) of a
/// line: the position after them and the column reached.
pub open spec fn scan_indent(src: Seq<char>, pos: int, col: int) -> (int, int)
    decreases src.len() - pos,
{
    if 0 <= pos < src.len() && src[pos] == ' ' {
        scan_indent(src, pos + 1, col + 1)
    } else if 0 <= pos < src.len() && src[pos] == '\t' {
        scan_indent(src, pos + 1, col + 4)
    } else {
        (pos, col)
    }
}

/// Closes every level deeper than `col`, queueing one `Dedent` for each.
pub open spec fn pop_dedents(stack: Seq<usize>, col: int, pending: Seq<TokSpan>, span: Span) -> (
    Seq<usize>,
    Seq<TokSpan>,
)
    decreases stack.len(),
{
    if stack.len() > 0 && col < stack.last() {
        pop_dedents(stack.drop_last(), col, pending.push((TokenOf::Dedent, span)), span)
    } else {
        (stack, pending)
    }
}

pub open spec fn top_or_zero(stack: Seq<usize>) -> usize {
    if stack.len() > 0 {
        stack.last()
    } else {
        0
    }
}

/// Measures the indentation of a new line and queues `Indent`/`Dedent` tokens.
pub open spec fn spec_handle_indentation(src: Seq<char>, st: LexState) -> (LexState, Result<(), LexError>) {
    let (p, col) = scan_indent(src, st.pos, 0);
    let st1 = LexState { pos: p, at_line_start: false, ..st };
    match peek_at(src, p) {
        None => (st1, Ok(())),
        Some(c) => if c == '\n' || c == '\r' || c == '#' {
            (st1, Ok(()))
        } else {
            let span = Span { start: byte_offset(src, p) as usize, len: utf8_width(c) as usize };
            let last = top_or_zero(st1.indent_stack);
            if col > last {
                (
                    LexState {
                        indent_stack: st1.indent_stack.push(col as usize),
                        pending: st1.pending.push((TokenOf::Indent, span)),
                        ..st1
                    },
                    Ok(()),
                )
            } else if col < last {
                let (stack2, pending2) = pop_dedents(st1.indent_stack, col, st1.pending, span);
                let st2 = LexState { indent_stack: stack2, pending: pending2, ..st1 };
                let expected = top_or_zero(stack2);
                if col != expected {
                    (
                        st2,
                        Err(
                            LexError::mk(
                                LexErrorKind::Indentation { expected, found: col as usize },
                                span,
                            ),
                        ),
                    )
                } else {
                    (st2, Ok(()))
                }
            } else {
                (st1, Ok(()))
            }
        },
    }
}

/// Reads a string literal whose opening quote has been read; `pos` is the next
/// character and `acc` what the literal holds so far (escapes decoded).
pub open spec fn spec_lex_string(src: Seq<char>, quote: char, start: usize, pos: int, acc: Seq<char>) -> (
    int,
    LexOutcome,
)
    decreases src.len() - pos,
{
    if pos < 0 || pos >= src.len() {
        (
            pos,
            Err(
                LexError::mk(
                    LexErrorKind::UnterminatedString,
                    Span { start, len: (byte_len(src) - start) as usize },
                ),
            ),
        )
    } else {
        let c = src[pos];
        if c == quote {
            (
                pos + 1,
                Ok(
                    (
                        TokenOf::Str(acc),
                        Span { start, len: (byte_offset(src, pos + 1) - start) as usize },
                    ),
                ),
            )
        } else if c == '\\' {
            if pos + 1 >= src.len() {
                let idx = byte_offset(src, pos);
                (
                    pos + 1,
                    Err(
                        LexError::mk(
                            LexErrorKind::UnterminatedStringEscape,
                            Span { start: idx as usize, len: (byte_len(src) - idx) as usize },
                        ),
                    ),
                )
            } else {
                spec_lex_string(src, quote, start, pos + 2, acc.push(unescape(src[pos + 1])))
            }
        } else {
            spec_lex_string(src, quote, start, pos + 1, acc.push(c))
        }
    }
}

/// The character an escape sequence `\e` stands for.
pub open spec fn unescape(e: char) -> char {
    if e == 'n' {
        '\n'
    } else if e == 'r' {
        '\r'
    } else if e == 't' {
        '\t'
    } else {
        e
    }
}

/// Reads the rest of a number literal: digits and at most one `.` that is not
/// the start of a `..`. Returns the position after it, its text and whether it
/// has a fractional point.
pub open spec fn scan_number(src: Seq<char>, pos: int, acc: Seq<char>, is_float: bool) -> (
    int,
    Seq<char>,
    bool,
)
    decreases src.len() - pos,
{
    if 0 <= pos < src.len() {
        let c = src[pos];
        if is_ascii_digit(c) {
            scan_number(src, pos + 1, acc.push(c), is_float)
        } else if c == '.' && !is_float {
            if peek_at(src, pos + 1) == Some('.') {
                (pos, acc, is_float)
            } else {
                scan_number(src, pos + 1, acc.push('.'), true)
            }
        } else {
            (pos, acc, is_float)
        }
    } else {
        (pos, acc, is_float)
    }
}

/// The value of a string of decimal digits.
pub open spec fn digits_value(s: Seq<char>) -> int
    decreases s.len(),
{
    if s.len() == 0 {
        0
    } else {
        digits_value(s.drop_last()) * 10 + digit_value(s.last())
    }
}

pub open spec fn is_ident_char(c: char) -> bool {
    spec_is_alphanumeric(c) || c == '_'
}

pub open spec fn scan_ident(src: Seq<char>, pos: int, acc: Seq<char>) -> (int, Seq<char>)
    decreases src.len() - pos,
{
    if 0 <= pos < src.len() && is_ident_char(src[pos]) {
        scan_ident(src, pos + 1, acc.push(src[pos]))
    } else {
        (pos, acc)
    }
}

/// The token a word stands for: a keyword, a literal word or an identifier.
pub open spec fn keyword(s: Seq<char>) -> SpecToken {
    if s == seq!['f', 'n'] {
        TokenOf::Fn
    } else if s == seq!['c', 'l', 's'] {
        TokenOf::Cls
    } else if s == seq!['l', 'o', 'a', 'd'] {
        TokenOf::Load
    } else if s == seq!['f', 'r', 'o', 'm'] {
        TokenOf::From
    } else if s == seq!['a', 's'] {
        TokenOf::As
    } else if s == seq!['e', 'x', 'p', 'o', 'r', 't'] {
        TokenOf::Export
    } else if s == seq!['r', 'e', 't', 'u', 'r', 'n'] {
        TokenOf::Return
    } else if s == seq!['i', 'f'] {
        TokenOf::If
    } else if s == seq!['e', 'l', 'i', 'f'] {
        TokenOf::Elif
    } else if s == seq!['e', 'l', 's', 'e'] {
        TokenOf::Else
    } else if s == seq!['f', 'o', 'r'] {
        TokenOf::For
    } else if s == seq!['w', 'h', 'i', 'l', 'e'] {
        TokenOf::While
    } else if s == seq!['i', 'n'] {
        TokenOf::In
    } else if s == seq!['b', 'r', 'e', 'a', 'k'] {
        TokenOf::Break
    } else if s == seq!['c', 'o', 'n', 't', 'i', 'n', 'u', 'e'] {
        TokenOf::Continue
    } else if s == seq!['s', 'p', 'a', 'w', 'n'] {
        TokenOf::Spawn
    } else if s == seq!['e', 'r', 'r', 'o', 'r'] {
        TokenOf::Error
    } else if s == seq!['s', 't', 'e', 'p'] {
        TokenOf::Step
    } else if s == seq!['t', 'r', 'u', 'e'] {
        TokenOf::Bool(true)
    } else if s == seq!['f', 'a', 'l', 's', 'e'] {
        TokenOf::Bool(false)
    } else if s == seq!['n', 'u', 'l', 'l'] {
        TokenOf::Null
    } else if s == seq!['a', 'n', 'd'] {
        TokenOf::And
    } else if s == seq!['o', 'r'] {
        TokenOf::Or
    } else if s == seq!['n', 'o', 't'] {
        TokenOf::Not
    } else {
        TokenOf::Ident(s)
    }
}

/// Tokens of one character that never combine with the next one.
pub open spec fn single_char_token(c: char) -> Option<SpecToken> {
    if c == ',' {
        Some(TokenOf::Comma)
    } else if c == ':' {
        Some(TokenOf::Colon)
    } else if c == '?' {
        Some(TokenOf::Question)
    } else if c == '|' {
        Some(TokenOf::Pipe)
    } else if c == '%' {
        Some(TokenOf::Percent)
    } else {
        None
    }
}

/// Operators `c` and `c=`: the token without and with a following `=`.
pub open spec fn eq_suffix_tokens(c: char) -> Option<(SpecToken, SpecToken)> {
    if c == '+' {
        Some((TokenOf::Plus, TokenOf::PlusEq))
    } else if c == '*' {
        Some((TokenOf::Star, TokenOf::StarEq))
    } else if c == '/' {
        Some((TokenOf::Slash, TokenOf::SlashEq))
    } else if c == '=' {
        Some((TokenOf::Assign, TokenOf::EqEq))
    } else if c == '<' {
        Some((TokenOf::Lt, TokenOf::LtEq))
    } else if c == '>' {
        Some((TokenOf::Gt, TokenOf::GtEq))
    } else {
        None
    }
}

pub open spec fn with_eq_token(c: char) -> SpecToken {
    let (_, t) = eq_suffix_tokens(c)->0;
    t
}

pub open spec fn without_eq_token(c: char) -> SpecToken {
    let (t, _) = eq_suffix_tokens(c)->0;
    t
}

pub open spec fn open_bracket_token(c: char) -> Option<SpecToken> {
    if c == '(' {
        Some(TokenOf::LParen)
    } else if c == '{' {
        Some(TokenOf::LBrace)
    } else if c == '[' {
        Some(TokenOf::LBracket)
    } else {
        None
    }
}

pub open spec fn close_bracket_token(c: char) -> Option<SpecToken> {
    if c == ')' {
        Some(TokenOf::RParen)
    } else if c == '}' {
        Some(TokenOf::RBrace)
    } else if c == ']' {
        Some(TokenOf::RBracket)
    } else {
        None
    }
}

/// One step of the main lexing loop: either a result, or a new state from
/// which lexing starts over (after a comment, or a newline inside brackets).
pub enum LexStep {
    Done(LexState, LexOutcome),
    Again(LexState),
}

pub open spec fn done_tok(st: LexState, pos: int, tok: SpecToken, span: Span) -> LexStep {
    LexStep::Done(LexState { pos, ..st }, Ok((tok, span)))
}

/// A number literal whose first digit `first` has been read; `q` is the next
/// position. Returns the position after the literal and its token.
pub open spec fn number_outcome(src: Seq<char>, first: char, start: usize, q: int) -> (int, LexOutcome) {
    let (p2, text, is_float) = scan_number(src, q, seq![first], false);
    let span = Span { start, len: (byte_offset(src, p2) - start) as usize };
    if is_float {
        (p2, Ok((TokenOf::Float(text), span)))
    } else if digits_value(text) <= i64::MAX {
        (p2, Ok((TokenOf::Int(digits_value(text) as i64), span)))
    } else {
        (p2, Err(LexError::mk(LexErrorKind::InvalidNumber, span)))
    }
}

pub open spec fn spec_lex_number(src: Seq<char>, st: LexState, first: char, start: usize, q: int) -> LexStep {
    let (p2, o) = number_outcome(src, first, start, q);
    LexStep::Done(LexState { pos: p2, ..st }, o)
}

/// Lexes after blanks, with no token pending and indentation handled.
pub open spec fn spec_lex_main(src: Seq<char>, st: LexState) -> LexStep {
    let p = skip_blanks(src, st.pos);
    if p >= src.len() {
        let off = byte_offset(src, p) as usize;
        let k = st.indent_stack.len();
        if k > 1 {
            LexStep::Done(
                LexState {
                    pos: p,
                    indent_stack: st.indent_stack.take(1),
                    pending: Seq::new(
                        (k - 2) as nat,
                        |i: int| (TokenOf::Dedent, Span { start: off, len: 0 }),
                    ),
                    ..st
                },
                Ok((TokenOf::Dedent, Span { start: off, len: 0 })),
            )
        } else {
            done_tok(st, p, TokenOf::Eof, Span { start: off, len: 0 })
        }
    } else {
        let c = src[p];
        let start = byte_offset(src, p) as usize;
        let q = p + 1;
        let one = Span { start, len: 1 };
        let two = Span { start, len: 2 };
        let next = peek_at(src, q);
        if c == '#' {
            LexStep::Again(LexState { pos: skip_comment(src, q), ..st })
        } else if c == '\n' {
            let st1 = LexState { pos: q, at_line_start: true, ..st };
            if st.paren_level == 0 {
                LexStep::Done(st1, Ok((TokenOf::Newline, one)))
            } else {
                LexStep::Again(st1)
            }
        } else if open_bracket_token(c) is Some {
            done_tok(
                LexState { paren_level: st.paren_level + 1, ..st },
                q,
                open_bracket_token(c)->0,
                one,
            )
        } else if close_bracket_token(c) is Some {
            done_tok(
                LexState {
                    paren_level: if st.paren_level > 0 {
                        st.paren_level - 1
                    } else {
                        0
                    },
                    ..st
                },
                q,
                close_bracket_token(c)->0,
                one,
            )
        } else if single_char_token(c) is Some {
            done_tok(st, q, single_char_token(c)->0, one)
        } else if c == '.' {
            if next == Some('.') {
                done_tok(st, q + 1, TokenOf::DotDot, two)
            } else {
                done_tok(st, q, TokenOf::Dot, one)
            }
        } else if c == '-' {
            if next == Some('=') {
                done_tok(st, q + 1, TokenOf::MinusEq, two)
            } else if next == Some('>') {
                done_tok(st, q + 1, TokenOf::Arrow, two)
            } else {
                done_tok(st, q, TokenOf::Minus, one)
            }
        } else if eq_suffix_tokens(c) is Some {
            if next == Some('=') {
                done_tok(st, q + 1, with_eq_token(c), two)
            } else {
                done_tok(st, q, without_eq_token(c), one)
            }
        } else if c == '!' {
            if next == Some('=') {
                done_tok(st, q + 1, TokenOf::BangEq, two)
            } else {
                LexStep::Done(
                    LexState { pos: q, ..st },
                    Err(LexError::mk(LexErrorKind::InvalidToken('!'), one)),
                )
            }
        } else if c == '"' || c == '\'' {
            let (p2, r) = spec_lex_string(src, c, start, q, seq![]);
            LexStep::Done(LexState { pos: p2, ..st }, r)
        } else if is_ascii_digit(c) {
            spec_lex_number(src, st, c, start, q)
        } else if spec_is_alphabetic(c) || c == '_' {
            let (p2, word) = scan_ident(src, q, seq![c]);
            done_tok(
                st,
                p2,
                keyword(word),
                Span { start, len: (byte_offset(src, p2) - start) as usize },
            )
        } else {
            LexStep::Done(
                LexState { pos: q, ..st },
                Err(
                    LexError::mk(
                        LexErrorKind::InvalidToken(c),
                        Span { start, len: utf8_width(c) as usize },
                    ),
                ),
            )
        }
    }
}

pub proof fn lemma_skip_bounds(src: Seq<char>, pos: int)
    requires
        0 <= pos <= src.len(),
    ensures
        pos <= skip_blanks(src, pos) <= src.len(),
        pos <= skip_comment(src, pos) <= src.len(),
    decreases src.len() - pos,
{
    if pos < src.len() {
        lemma_skip_bounds(src, pos + 1);
    }
}

pub proof fn lemma_scan_indent(src: Seq<char>, pos: int, col: int)
    requires
        0 <= pos <= src.len(),
        0 <= col,
    ensures
        pos <= scan_indent(src, pos, col).0 <= src.len(),
        col <= scan_indent(src, pos, col).1 <= col + 4 * (scan_indent(src, pos, col).0 - pos),
        scan_indent(src, pos, col).1 > col ==> scan_indent(src, pos, col).0 > pos,
    decreases src.len() - pos,
{
    if pos < src.len() && (src[pos] == ' ' || src[pos] == '\t') {
        if src[pos] == ' ' {
            lemma_scan_indent(src, pos + 1, col + 1);
        } else {
            lemma_scan_indent(src, pos + 1, col + 4);
        }
    }
}

pub proof fn lemma_lex_main_again(src: Seq<char>, st: LexState)
    requires
        state_wf(src, st),
    ensures
        spec_lex_main(src, st) matches LexStep::Again(s) ==> st.pos < s.pos <= src.len()
            && s.indent_stack == st.indent_stack && s.pending == st.pending,
{
    lemma_skip_bounds(src, st.pos);
    let p = skip_blanks(src, st.pos);
    if p < src.len() {
        lemma_skip_bounds(src, p + 1);
    }
}

pub proof fn lemma_handle_indentation_pos(src: Seq<char>, st: LexState)
    requires
        state_wf(src, st),
    ensures
        st.pos <= spec_handle_indentation(src, st).0.pos <= src.len(),
{
    lemma_scan_indent(src, st.pos, 0);
}

/// The next token, and the state after it.
pub open spec fn spec_next_token(src: Seq<char>, st: LexState) -> (LexState, LexOutcome)
    decreases src.len() - st.pos,
    when state_wf(src, st)
{
    if st.pending.len() > 0 {
        (LexState { pending: st.pending.drop_first(), ..st }, Ok(st.pending[0]))
    } else {
        let (st1, r) = if st.at_line_start {
            spec_handle_indentation(src, st)
        } else {
            (st, Ok(()))
        };
        match r {
            Err(e) => (st1, Err(e)),
            Ok(_) => if st1.pending.len() > 0 {
                (LexState { pending: st1.pending.drop_first(), ..st1 }, Ok(st1.pending[0]))
            } else {
                match spec_lex_main(src, st1) {
                    LexStep::Done(s, o) => (s, o),
                    LexStep::Again(s) => {
                        proof {
                            lemma_handle_indentation_pos(src, st);
                            lemma_handle_indentation_wf(src, st);
                            lemma_lex_main_again(src, st1);
                            lemma_lex_main_again_wf(src, st1);
                        }
                        spec_next_token(src, s)
                    },
                }
            },
        }
    }
}

pub proof fn lemma_pop_dedents(stack: Seq<usize>, col: int, pending: Seq<TokSpan>, span: Span)
    requires
        stack.len() >= 1,
        stack[0] == 0,
        col >= 0,
    ensures
        ({
            let (s2, p2) = pop_dedents(stack, col, pending, span);
            &&& s2.len() >= 1
            &&& s2[0] == 0
            &&& s2.len() <= stack.len()
            &&& s2 == stack.take(s2.len() as int)
            &&& p2.len() == pending.len() + (stack.len() - s2.len())
            &&& forall|i: int| 0 <= i < pending.len() ==> p2[i] == pending[i]
            &&& forall|i: int| pending.len() <= i < p2.len() ==> p2[i] == (TokenOf::<Seq<char>>::Dedent, span)
        }),
    decreases stack.len(),
{
    if stack.len() > 0 && col < stack.last() {
        if stack.len() == 1 {
            assert(stack.last() == 0);
        } else {
            lemma_pop_dedents(stack.drop_last(), col, pending.push((TokenOf::Dedent, span)), span);
            let (s2, p2) = pop_dedents(stack, col, pending, span);
            assert(s2 == stack.drop_last().take(s2.len() as int));
            assert(s2 =~= stack.take(s2.len() as int));
        }
    } else {
        assert(stack =~= stack.take(stack.len() as int));
    }
}

pub proof fn lemma_handle_indentation_wf(src: Seq<char>, st: LexState)
    requires
        state_wf(src, st),
    ensures
        state_wf(src, spec_handle_indentation(src, st).0),
{
    lemma_scan_indent(src, st.pos, 0);
    let (p, col) = scan_indent(src, st.pos, 0);
    let st1 = LexState { pos: p, at_line_start: false, ..st };
    if let Some(c) = peek_at(src, p) {
        if !(c == '\n' || c == '\r' || c == '#') {
            let span = Span { start: byte_offset(src, p) as usize, len: utf8_width(c) as usize };
            if col < top_or_zero(st1.indent_stack) {
                lemma_pop_dedents(st1.indent_stack, col, st1.pending, span);
            }
        }
    }
}

pub proof fn lemma_lex_main_again_wf(src: Seq<char>, st: LexState)
    requires
        state_wf(src, st),
    ensures
        spec_lex_main(src, st) matches LexStep::Again(s) ==> state_wf(src, s),
{
    lemma_skip_bounds(src, st.pos);
    let p = skip_blanks(src, st.pos);
    if p < src.len() {
        lemma_skip_bounds(src, p + 1);
    }
}

/// Escapes in string literals: after a backslash, `n`, `r` and `t` stand for
/// newline (U+000A), carriage return (U+000D) and tab (U+0009); any other
/// character (a quote, a backslash) stands for itself. The literal goes on
/// after the escape with that one character added.
pub proof fn law_string_escapes(src: Seq<char>, quote: char, start: usize, pos: int, acc: Seq<char>)
    requires
        0 <= pos,
        pos + 1 < src.len(),
        src[pos] == '\\',
        quote != '\\',
    ensures
        spec_lex_string(src, quote, start, pos, acc) == spec_lex_string(
            src,
            quote,
            start,
            pos + 2,
            acc.push(
                if src[pos + 1] == 'n' {
                    10u32 as char
                } else if src[pos + 1] == 'r' {
                    13u32 as char
                } else if src[pos + 1] == 't' {
                    9u32 as char
                } else {
                    src[pos + 1]
                },
            ),
        ),
{
    assert('\n' == 10u32 as char);
    assert('\r' == 13u32 as char);
    assert('\t' == 9u32 as char);
}

/// The token a finished step produced, with the position after it.
pub open spec fn lexed(step: LexStep) -> Option<(SpecToken, int)> {
    match step {
        LexStep::Done(s, Ok((t, _))) => Some((t, s.pos)),
        _ => None,
    }
}

/// Operator symbols: at a character that is not blank, `<`, `>`, `=`, `+`,
/// `*` and `/` followed by `=` make the two-character operator (`<=`, `>=`,
/// `==`, `+=`, `*=`, `/=`) and otherwise the one-character one; `-` makes
/// `-=`, `->` or `-`; `!=` is the inequality; `..` and `.`, `%`, `,` and `:`
/// are tokens of their own. The next token starts right after the symbol.
pub proof fn law_operator_tokens(src: Seq<char>, st: LexState)
    requires
        0 <= st.pos < src.len(),
        !is_blank(src[st.pos]),
    ensures
        ({
            let p = st.pos;
            let c = src[p];
            let eq = peek_at(src, p + 1) == Some('=');
            let r = lexed(spec_lex_main(src, st));
            &&& c == '<' ==> r == Some(if eq { (SpecToken::LtEq, p + 2) } else { (SpecToken::Lt, p + 1) })
            &&& c == '>' ==> r == Some(if eq { (SpecToken::GtEq, p + 2) } else { (SpecToken::Gt, p + 1) })
            &&& c == '=' ==> r == Some(if eq { (SpecToken::EqEq, p + 2) } else { (SpecToken::Assign, p + 1) })
            &&& c == '+' ==> r == Some(if eq { (SpecToken::PlusEq, p + 2) } else { (SpecToken::Plus, p + 1) })
            &&& c == '*' ==> r == Some(if eq { (SpecToken::StarEq, p + 2) } else { (SpecToken::Star, p + 1) })
            &&& c == '/' ==> r == Some(if eq { (SpecToken::SlashEq, p + 2) } else { (SpecToken::Slash, p + 1) })
            &&& c == '-' ==> r == Some(
                if eq {
                    (SpecToken::MinusEq, p + 2)
                } else if peek_at(src, p + 1) == Some('>') {
                    (SpecToken::Arrow, p + 2)
                } else {
                    (SpecToken::Minus, p + 1)
                },
            )
            &&& (c == '!' && eq) ==> r == Some((SpecToken::BangEq, p + 2))
            &&& c == '.' ==> r == Some(
                if peek_at(src, p + 1) == Some('.') {
                    (SpecToken::DotDot, p + 2)
                } else {
                    (SpecToken::Dot, p + 1)
                },
            )
            &&& c == '%' ==> r == Some((SpecToken::Percent, p + 1))
            &&& c == ',' ==> r == Some((SpecToken::Comma, p + 1))
            &&& c == ':' ==> r == Some((SpecToken::Colon, p + 1))
        }),
{
    assert(skip_blanks(src, st.pos) == st.pos);
}

/// The reserved words and the tokens they make; every other word is a name.
pub proof fn law_keywords(w: Seq<char>)
    ensures
        keyword(seq!['a', 'n', 'd']) == SpecToken::And,
        keyword(seq!['o', 'r']) == SpecToken::Or,
        keyword(seq!['n', 'o', 't']) == SpecToken::Not,
        keyword(seq!['t', 'r', 'u', 'e']) == SpecToken::Bool(true),
        keyword(seq!['f', 'a', 'l', 's', 'e']) == SpecToken::Bool(false),
        keyword(seq!['n', 'u', 'l', 'l']) == SpecToken::Null,
        keyword(seq!['i', 'f']) == SpecToken::If,
        keyword(seq!['e', 'l', 'i', 'f']) == SpecToken::Elif,
        keyword(seq!['e', 'l', 's', 'e']) == SpecToken::Else,
        keyword(seq!['w', 'h', 'i', 'l', 'e']) == SpecToken::While,
        keyword(seq!['f', 'o', 'r']) == SpecToken::For,
        keyword(seq!['i', 'n']) == SpecToken::In,
        keyword(seq!['r', 'e', 't', 'u', 'r', 'n']) == SpecToken::Return,
        keyword(seq!['b', 'r', 'e', 'a', 'k']) == SpecToken::Break,
        keyword(seq!['c', 'o', 'n', 't', 'i', 'n', 'u', 'e']) == SpecToken::Continue,
        keyword(seq!['f', 'n']) == SpecToken::Fn,
        !(keyword(w) is Ident) || keyword(w) == SpecToken::Ident(w),
{
}

} // verus!
