use vstd::prelude::*;
use super::token::{Span, SpecToken, Token, TokenOf};
use super::chars::{
    byte_len, byte_offset, char_is_alphabetic, char_is_alphanumeric, char_is_ascii_digit,
    char_width, digit_value, is_ascii_digit, lemma_byte_offset_bounds, lemma_byte_offset_mono,
    spec_is_alphabetic, str_chars, string_push, utf8_width,
};
use super::spec::{
    digits_value, initial_state, is_ident_char, is_struct_tok, keyword, pop_dedents, scan_ident,
    scan_indent, scan_number, skip_blanks, skip_comment, spec_handle_indentation, spec_lex_main,
    number_outcome, spec_lex_number, spec_lex_string, spec_next_token, state_wf, top_or_zero, unescape, LexOutcome, LexState,
    LexStep, TokSpan, lemma_handle_indentation_pos, lemma_handle_indentation_wf,
    lemma_lex_main_again, lemma_lex_main_again_wf, lemma_pop_dedents, lemma_scan_indent,
    lemma_skip_bounds,
};
use crate::error::{LexError, LexErrorKind};

verus! {

pub open spec fn view_tok_span(p: (Token, Span)) -> TokSpan {
    (p.0@, p.1)
}

pub open spec fn view_toks(s: Seq<(Token, Span)>) -> Seq<TokSpan> {
    s.map_values(|p: (Token, Span)| view_tok_span(p))
}

pub open spec fn view_outcome(r: Result<(Token, Span), LexError>) -> LexOutcome {
    match r {
        Ok(p) => Ok(view_tok_span(p)),
        Err(e) => Err(e),
    }
}

pub open spec fn view_tokens_result(r: Result<Vec<(Token, Span)>, LexError>) -> Result<
    Seq<TokSpan>,
    LexError,
> {
    match r {
        Ok(v) => Ok(view_toks(v@)),
        Err(e) => Err(e),
    }
}

/// Decrease measure of the token loop: input left, queued tokens, open levels.
pub open spec fn lex_measure(src: Seq<char>, st: LexState) -> int {
    2 * (src.len() - st.pos) + st.pending.len() + st.indent_stack.len()
}

/// All tokens from state `st` up to and including `Eof`, appended to `acc`;
/// or the first error.
pub open spec fn spec_tokenize_from(src: Seq<char>, st: LexState, acc: Seq<TokSpan>) -> (
    LexState,
    Result<Seq<TokSpan>, LexError>,
)
    decreases lex_measure(src, st),
    when state_wf(src, st)
{
    let (st1, r) = spec_next_token(src, st);
    match r {
        Err(e) => (st1, Err(e)),
        Ok(ts) => {
            if ts.0 is Eof {
                (st1, Ok(acc.push(ts)))
            } else {
                proof {
                    lemma_next_token_progress(src, st);
                }
                spec_tokenize_from(src, st1, acc.push(ts))
            }
        },
    }
}

/// The tokens of a whole source text, or the first lexical error.
pub open spec fn spec_tokenize(src: Seq<char>) -> Result<Seq<TokSpan>, LexError> {
    spec_tokenize_from(src, initial_state(), seq![]).1
}

pub proof fn lemma_lex_main_progress(src: Seq<char>, st: LexState)
    requires
        state_wf(src, st),
        st.pending.len() == 0,
    ensures
        spec_lex_main(src, st) matches LexStep::Done(s, o) ==> {
            &&& state_wf(src, s)
            &&& (o matches Ok(ts) && !(ts.0 is Eof) ==> lex_measure(src, s) < lex_measure(src, st))
        },
{
    lemma_skip_bounds(src, st.pos);
    let p = skip_blanks(src, st.pos);
    if p < src.len() {
        let c = src[p];
        let q = p + 1;
        if c == '"' || c == '\'' {
            lemma_lex_string_pos(src, c, byte_offset(src, p) as usize, q, seq![]);
        } else if is_ascii_digit(c) {
            lemma_scan_number_pos(src, q, seq![c], false);
        } else if spec_is_alphabetic(c) || c == '_' {
            lemma_scan_ident_pos(src, q, seq![c]);
        }
    } else {
        let k = st.indent_stack.len();
        if k > 1 {
            assert(st.indent_stack.take(1)[0] == 0);
        }
    }
}

pub proof fn lemma_lex_string_pos(src: Seq<char>, quote: char, start: usize, pos: int, acc: Seq<char>)
    requires
        0 <= pos <= src.len(),
    ensures
        pos <= spec_lex_string(src, quote, start, pos, acc).0 <= src.len(),
    decreases src.len() - pos,
{
    if pos < src.len() {
        let c = src[pos];
        if c != quote {
            if c == '\\' {
                if pos + 1 < src.len() {
                    lemma_lex_string_pos(src, quote, start, pos + 2, acc.push(unescape(src[pos + 1])));
                }
            } else {
                lemma_lex_string_pos(src, quote, start, pos + 1, acc.push(c));
            }
        }
    }
}

pub proof fn lemma_scan_number_pos(src: Seq<char>, pos: int, acc: Seq<char>, is_float: bool)
    requires
        0 <= pos <= src.len(),
    ensures
        pos <= scan_number(src, pos, acc, is_float).0 <= src.len(),
    decreases src.len() - pos,
{
    if pos < src.len() {
        let c = src[pos];
        if is_ascii_digit(c) {
            lemma_scan_number_pos(src, pos + 1, acc.push(c), is_float);
        } else if c == '.' && !is_float {
            if !(super::spec::peek_at(src, pos + 1) == Some('.')) {
                lemma_scan_number_pos(src, pos + 1, acc.push('.'), true);
            }
        }
    }
}

pub proof fn lemma_scan_ident_pos(src: Seq<char>, pos: int, acc: Seq<char>)
    requires
        0 <= pos <= src.len(),
    ensures
        pos <= scan_ident(src, pos, acc).0 <= src.len(),
    decreases src.len() - pos,
{
    if pos < src.len() && is_ident_char(src[pos]) {
        lemma_scan_ident_pos(src, pos + 1, acc.push(src[pos]));
    }
}

pub proof fn lemma_handle_indentation_measure(src: Seq<char>, st: LexState)
    requires
        state_wf(src, st),
        st.pending.len() == 0,
    ensures
        spec_handle_indentation(src, st).0.pending.len() > 0 ==> lex_measure(
            src,
            spec_handle_indentation(src, st).0,
        ) - 1 < lex_measure(src, st),
        spec_handle_indentation(src, st).0.pending.len() == 0 ==> spec_handle_indentation(
            src,
            st,
        ).0.indent_stack.len() == st.indent_stack.len(),
{
    lemma_scan_indent(src, st.pos, 0);
    let (p, col) = scan_indent(src, st.pos, 0);
    let st1 = LexState { pos: p, at_line_start: false, ..st };
    if let Some(c) = super::spec::peek_at(src, p) {
        if !(c == '\n' || c == '\r' || c == '#') {
            let span = Span { start: byte_offset(src, p) as usize, len: utf8_width(c) as usize };
            if col < top_or_zero(st1.indent_stack) {
                lemma_pop_dedents(st1.indent_stack, col, st1.pending, span);
            }
        }
    }
}

/// Each token other than `Eof` brings the lexer closer to the end.
pub proof fn lemma_next_token_progress(src: Seq<char>, st: LexState)
    requires
        state_wf(src, st),
    ensures
        state_wf(src, spec_next_token(src, st).0),
        spec_next_token(src, st).1 matches Ok(ts) && !(ts.0 is Eof) ==> lex_measure(
            src,
            spec_next_token(src, st).0,
        ) < lex_measure(src, st),
    decreases src.len() - st.pos,
{
    if st.pending.len() > 0 {
        let st2 = LexState { pending: st.pending.drop_first(), ..st };
        assert forall|i: int| 0 <= i < st2.pending.len() implies is_struct_tok(
            #[trigger] st2.pending[i].0,
        ) by {
            assert(st2.pending[i] == st.pending[i + 1]);
        }
    } else {
        let (st1, r) = if st.at_line_start {
            spec_handle_indentation(src, st)
        } else {
            (st, Ok(()))
        };
        if st.at_line_start {
            lemma_handle_indentation_measure(src, st);
            lemma_handle_indentation_wf(src, st);
            lemma_handle_indentation_pos(src, st);
            lemma_scan_indent(src, st.pos, 0);
        }
        if r is Ok {
            if st1.pending.len() > 0 {
                let st2 = LexState { pending: st1.pending.drop_first(), ..st1 };
                assert forall|i: int| 0 <= i < st2.pending.len() implies is_struct_tok(
                    #[trigger] st2.pending[i].0,
                ) by {
                    assert(st2.pending[i] == st1.pending[i + 1]);
                }
            } else {
                lemma_lex_main_progress(src, st1);
                lemma_lex_main_again(src, st1);
                lemma_lex_main_again_wf(src, st1);
                if let LexStep::Again(s) = spec_lex_main(src, st1) {
                    lemma_next_token_progress(src, s);
                }
            }
        }
    }
}

pub proof fn lemma_view_toks_push(v: Seq<(Token, Span)>, x: (Token, Span))
    ensures
        view_toks(v.push(x)) == view_toks(v).push(view_tok_span(x)),
{
    assert(view_toks(v.push(x)) =~= view_toks(v).push(view_tok_span(x)));
}

/// The characters of a source text with the byte offset of each.
pub struct SourceText {
    chars: Vec<char>,
    offsets: Vec<usize>,
}

impl View for SourceText {
    type V = Seq<char>;

    closed spec fn view(&self) -> Seq<char> {
        self.chars@
    }
}

impl SourceText {
    pub closed spec fn wf(&self) -> bool {
        &&& self.chars@.len() <= usize::MAX / 4
        &&& self.offsets@.len() == self.chars@.len() + 1
        &&& forall|i: int|
            0 <= i <= self.chars@.len() ==> #[trigger] self.offsets@[i] == byte_offset(
                self.chars@,
                i,
            )
    }

    pub fn from_str(source: &str) -> (r: SourceText)
        requires
            source@.len() <= usize::MAX / 4,
        ensures
            r.wf(),
            r@ == source@,
    {
        let chars = str_chars(source);
        let mut offsets: Vec<usize> = Vec::new();
        offsets.push(0);
        let mut i: usize = 0;
        let mut acc: usize = 0;
        while i < chars.len()
            invariant
                chars@ == source@,
                chars@.len() <= usize::MAX / 4,
                i <= chars@.len(),
                offsets@.len() == i + 1,
                acc == byte_offset(chars@, i as int),
                forall|j: int| 0 <= j <= i ==> #[trigger] offsets@[j] == byte_offset(chars@, j),
            decreases chars@.len() - i,
        {
            proof {
                lemma_byte_offset_bounds(chars@, i + 1);
            }
            acc = acc + char_width(chars[i]);
            offsets.push(acc);
            i = i + 1;
        }
        SourceText { chars, offsets }
    }

    fn len(&self) -> (r: usize)
        requires
            self.wf(),
        ensures
            r == self@.len(),
    {
        self.chars.len()
    }

    fn at(&self, i: usize) -> (r: char)
        requires
            self.wf(),
            i < self@.len(),
        ensures
            r == self@[i as int],
    {
        self.chars[i]
    }

    fn peek(&self, p: usize) -> (r: Option<char>)
        requires
            self.wf(),
        ensures
            r == super::spec::peek_at(self@, p as int),
    {
        if p < self.chars.len() {
            Some(self.chars[p])
        } else {
            None
        }
    }

    fn offset(&self, p: usize) -> (r: usize)
        requires
            self.wf(),
            p <= self@.len(),
        ensures
            r == byte_offset(self@, p as int),
    {
        self.offsets[p]
    }

    fn skip_blanks(&self, p: usize) -> (r: usize)
        requires
            self.wf(),
            p <= self@.len(),
        ensures
            r == skip_blanks(self@, p as int),
    {
        let mut i = p;
        while i < self.chars.len() && (self.chars[i] == ' ' || self.chars[i] == '\t'
            || self.chars[i] == '\r')
            invariant
                self.wf(),
                p <= i <= self@.len(),
                skip_blanks(self@, i as int) == skip_blanks(self@, p as int),
            decreases self@.len() - i,
        {
            i = i + 1;
        }
        i
    }

    fn skip_comment(&self, p: usize) -> (r: usize)
        requires
            self.wf(),
            p <= self@.len(),
        ensures
            r == skip_comment(self@, p as int),
    {
        let mut i = p;
        while i < self.chars.len() && self.chars[i] != '\n'
            invariant
                self.wf(),
                p <= i <= self@.len(),
                skip_comment(self@, i as int) == skip_comment(self@, p as int),
            decreases self@.len() - i,
        {
            i = i + 1;
        }
        i
    }

    fn scan_indent(&self, p: usize) -> (r: (usize, usize))
        requires
            self.wf(),
            p <= self@.len(),
        ensures
            (r.0 as int, r.1 as int) == scan_indent(self@, p as int, 0),
    {
        let mut i = p;
        let mut col: usize = 0;
        while i < self.chars.len() && (self.chars[i] == ' ' || self.chars[i] == '\t')
            invariant
                self.wf(),
                p <= i <= self@.len(),
                self@.len() <= usize::MAX / 4,
                col <= 4 * (i - p),
                scan_indent(self@, i as int, col as int) == scan_indent(self@, p as int, 0),
            decreases self@.len() - i,
        {
            if self.chars[i] == ' ' {
                col = col + 1;
            } else {
                col = col + 4;
            }
            i = i + 1;
        }
        (i, col)
    }

    fn lex_string(&self, quote: char, start: usize, p: usize) -> (r: (
        usize,
        Result<(Token, Span), LexError>,
    ))
        requires
            self.wf(),
            p <= self@.len(),
            start as int <= byte_offset(self@, p as int),
        ensures
            r.0 as int == spec_lex_string(self@, quote, start, p as int, seq![]).0,
            view_outcome(r.1) == spec_lex_string(self@, quote, start, p as int, seq![]).1,
    {
        let ghost src = self@;
        let mut s = String::new();
        let n = self.chars.len();
        let mut i = p;
        proof {
            lemma_byte_offset_bounds(src, n as int);
        }
        while i < n
            invariant
                self.wf(),
                src == self@,
                n == src.len(),
                p <= i <= n,
                start as int <= byte_offset(src, i as int),
                spec_lex_string(src, quote, start, i as int, s@) == spec_lex_string(
                    src,
                    quote,
                    start,
                    p as int,
                    seq![],
                ),
            decreases n - i,
        {
            let c = self.chars[i];
            proof {
                lemma_byte_offset_mono(src, i as int, i + 1);
                lemma_byte_offset_bounds(src, i + 1);
            }
            i = i + 1;
            if c == quote {
                let end = self.offsets[i];
                return (i, Ok((TokenOf::Str(s), Span::new(start, end - start))));
            }
            if c == '\\' {
                if i < n {
                    let e = self.chars[i];
                    proof {
                        lemma_byte_offset_mono(src, i as int, i + 1);
                    }
                    i = i + 1;
                    let d = if e == 'n' {
                        '\n'
                    } else if e == 'r' {
                        '\r'
                    } else if e == 't' {
                        '\t'
                    } else {
                        e
                    };
                    string_push(&mut s, d);
                } else {
                    let idx = self.offsets[i - 1];
                    proof {
                        lemma_byte_offset_mono(src, i - 1, n as int);
                    }
                    let total = self.offsets[n];
                    return (i, Err(LexError::unterminated_string_escape(Span::new(idx, total - idx))));
                }
            } else {
                string_push(&mut s, c);
            }
        }
        proof {
            lemma_byte_offset_mono(src, p as int, n as int);
        }
        let total = self.offsets[n];
        (i, Err(LexError::unterminated_string(Span::new(start, total - start))))
    }

    fn lex_number(&self, first: char, start: usize, p: usize) -> (r: (
        usize,
        Result<(Token, Span), LexError>,
    ))
        requires
            self.wf(),
            p <= self@.len(),
            is_ascii_digit(first),
            start as int <= byte_offset(self@, p as int),
        ensures
            (r.0 as int, view_outcome(r.1)) == number_outcome(self@, first, start, p as int),
    {
        let ghost src = self@;
        let n = self.chars.len();
        let mut text = String::new();
        string_push(&mut text, first);
        let mut is_float = false;
        let mut value: u64 = (first as u32 - '0' as u32) as u64;
        let mut overflow = false;
        let mut i = p;
        let mut stop = false;
        assert(digits_value(seq![first]) == digit_value(first)) by {
            let s1 = seq![first];
            assert(s1.len() == 1);
            assert(s1.last() == first);
            assert(s1.drop_last() =~= Seq::<char>::empty());
            assert(digits_value(s1.drop_last()) == 0);
        }
        assert(text@ =~= seq![first]);
        while !stop && i < n
            invariant
                self.wf(),
                src == self@,
                n == src.len(),
                p <= i <= n,
                scan_number(src, i as int, text@, is_float) == scan_number(
                    src,
                    p as int,
                    seq![first],
                    false,
                ),
                stop ==> scan_number(src, i as int, text@, is_float) == (i as int, text@, is_float),
                !is_float ==> (overflow <==> digits_value(text@) > i64::MAX),
                !is_float && !overflow ==> value == digits_value(text@),
            decreases n - i + (if stop { 0int } else { 1int }),
        {
            let c = self.chars[i];
            if char_is_ascii_digit(c) {
                let d = (c as u32 - '0' as u32) as u64;
                let ghost t0 = text@;
                string_push(&mut text, c);
                assert(text@.drop_last() == t0);
                if !overflow {
                    if value < 922337203685477580 || (value == 922337203685477580 && d <= 7) {
                        value = value * 10 + d;
                    } else {
                        overflow = true;
                    }
                }
                i = i + 1;
            } else if c == '.' && !is_float {
                if i + 1 < n && self.chars[i + 1] == '.' {
                    stop = true;
                } else {
                    is_float = true;
                    string_push(&mut text, c);
                    i = i + 1;
                }
            } else {
                stop = true;
            }
        }
        proof {
            lemma_byte_offset_mono(src, p as int, i as int);
            lemma_byte_offset_bounds(src, i as int);
        }
        assert(scan_number(src, i as int, text@, is_float) == (i as int, text@, is_float));
        let end = self.offsets[i];
        let span = Span::new(start, end - start);
        if is_float {
            (i, Ok((TokenOf::Float(text), span)))
        } else if !overflow {
            (i, Ok((TokenOf::Int(value as i64), span)))
        } else {
            (i, Err(LexError::invalid_number(span)))
        }
    }

    fn scan_ident(&self, first: char, p: usize) -> (r: (usize, Vec<char>))
        requires
            self.wf(),
            p <= self@.len(),
        ensures
            (r.0 as int, r.1@) == scan_ident(self@, p as int, seq![first]),
    {
        let n = self.chars.len();
        let mut word: Vec<char> = Vec::new();
        word.push(first);
        assert(word@ =~= seq![first]);
        let mut i = p;
        while i < n && (char_is_alphanumeric(self.chars[i]) || self.chars[i] == '_')
            invariant
                self.wf(),
                n == self@.len(),
                p <= i <= n,
                scan_ident(self@, i as int, word@) == scan_ident(self@, p as int, seq![first]),
            decreases n - i,
        {
            word.push(self.chars[i]);
            i = i + 1;
        }
        (i, word)
    }
}

/// Turns source text into tokens, tracking indentation.
pub struct Lexer {
    text: SourceText,
    pos: usize,
    indent_stack: Vec<usize>,
    pending_tokens: Vec<(Token, Span)>,
    at_line_start: bool,
    paren_level: usize,
}

impl Lexer {
    /// The characters being lexed.
    pub closed spec fn src(&self) -> Seq<char> {
        self.text@
    }

    /// Where the lexer stands.
    pub closed spec fn state(&self) -> LexState {
        LexState {
            pos: self.pos as int,
            indent_stack: self.indent_stack@,
            pending: view_toks(self.pending_tokens@),
            at_line_start: self.at_line_start,
            paren_level: self.paren_level as int,
        }
    }

    pub closed spec fn wf(&self) -> bool {
        &&& self.text.wf()
        &&& state_wf(self.text@, self.state())
    }

    pub fn new(source: &str) -> (r: Lexer)
        requires
            source@.len() <= usize::MAX / 4,
        ensures
            r.wf(),
            r.src() == source@,
            r.state() == initial_state(),
    {
        let text = SourceText::from_str(source);
        let mut stack: Vec<usize> = Vec::new();
        stack.push(0);
        let r = Lexer {
            text,
            pos: 0,
            indent_stack: stack,
            pending_tokens: Vec::new(),
            at_line_start: true,
            paren_level: 0,
        };
        assert(r.state().pending =~= Seq::<TokSpan>::empty());
        assert(r.state().indent_stack =~= seq![0usize]);
        r
    }

    fn pop_pending(&mut self) -> (r: (Token, Span))
        requires
            old(self).wf(),
            old(self).state().pending.len() > 0,
        ensures
            final(self).wf(),
            final(self).src() == old(self).src(),
            final(self).state() == (LexState {
                pending: old(self).state().pending.drop_first(),
                ..old(self).state()
            }),
            view_tok_span(r) == old(self).state().pending[0],
    {
        let ghost old_p = self.pending_tokens@;
        let r = self.pending_tokens.remove(0);
        assert(view_toks(self.pending_tokens@) =~= view_toks(old_p).drop_first());
        proof {
            let st = self.state();
            assert forall|i: int| 0 <= i < st.pending.len() implies is_struct_tok(
                #[trigger] st.pending[i].0,
            ) by {
                assert(st.pending[i] == view_toks(old_p)[i + 1]);
            }
        }
        r
    }

    fn handle_indentation(&mut self) -> (r: Result<(), LexError>)
        requires
            old(self).wf(),
        ensures
            final(self).wf(),
            final(self).src() == old(self).src(),
            (final(self).state(), r) == spec_handle_indentation(old(self).src(), old(self).state()),
    {
        let ghost src = self.src();
        let ghost st0 = self.state();
        proof {
            lemma_scan_indent(src, st0.pos, 0);
            lemma_handle_indentation_wf(src, st0);
        }
        let (p, col) = self.text.scan_indent(self.pos);
        self.pos = p;
        self.at_line_start = false;
        match self.text.peek(p) {
            None => Ok(()),
            Some(c) => {
                if c == '\n' || c == '\r' || c == '#' {
                    return Ok(());
                }
                proof {
                    lemma_byte_offset_bounds(src, p as int);
                }
                let span = Span::new(self.text.offset(p), char_width(c));
                let last = self.indent_stack[self.indent_stack.len() - 1];
                if col > last {
                    self.indent_stack.push(col);
                    let ghost old_p = self.pending_tokens@;
                    self.pending_tokens.push((TokenOf::Indent, span));
                    proof {
                        lemma_view_toks_push(old_p, (TokenOf::Indent, span));
                    }
                    Ok(())
                } else if col < last {
                    let ghost stack0 = self.indent_stack@;
                    let ghost pend0 = view_toks(self.pending_tokens@);
                    proof {
                        lemma_pop_dedents(stack0, col as int, pend0, span);
                    }
                    let mut stack: Vec<usize> = Vec::new();
                    let mut pend: Vec<(Token, Span)> = Vec::new();
                    core::mem::swap(&mut stack, &mut self.indent_stack);
                    core::mem::swap(&mut pend, &mut self.pending_tokens);
                    while col < stack[stack.len() - 1]
                        invariant
                            stack@.len() >= 1,
                            stack@[0] == 0,
                            pop_dedents(stack@, col as int, view_toks(pend@), span) == pop_dedents(
                                stack0,
                                col as int,
                                pend0,
                                span,
                            ),
                        decreases stack@.len(),
                    {
                        stack.pop();
                        let ghost old_p = pend@;
                        pend.push((TokenOf::Dedent, span));
                        proof {
                            lemma_view_toks_push(old_p, (TokenOf::Dedent, span));
                        }
                    }
                    self.indent_stack = stack;
                    self.pending_tokens = pend;
                    let expected = self.indent_stack[self.indent_stack.len() - 1];
                    if col != expected {
                        return Err(LexError::indentation(expected, col, span));
                    }
                    Ok(())
                } else {
                    Ok(())
                }
            },
        }
    }

    /// One step of lexing after blanks: `None` when lexing has to start over.
    fn lex_main(&mut self) -> (r: Option<Result<(Token, Span), LexError>>)
        requires
            old(self).wf(),
            old(self).state().pending.len() == 0,
        ensures
            final(self).wf(),
            final(self).src() == old(self).src(),
            match spec_lex_main(old(self).src(), old(self).state()) {
                LexStep::Done(s, o) => r matches Some(x) && final(self).state() == s
                    && view_outcome(x) == o,
                LexStep::Again(s) => r is None && final(self).state() == s,
            },
    {
        let ghost src = self.src();
        let ghost st0 = self.state();
        proof {
            lemma_skip_bounds(src, st0.pos);
            lemma_lex_main_again_wf(src, st0);
        }
        let n = self.text.len();
        let p = self.text.skip_blanks(self.pos);
        proof {
            lemma_byte_offset_bounds(src, p as int);
        }
        if p >= n {
            self.pos = p;
            let off = self.text.offset(p);
            let k = self.indent_stack.len();
            if k > 1 {
                self.indent_stack.truncate(1);
                let mut pend: Vec<(Token, Span)> = Vec::new();
                let mut i: usize = 0;
                while i < k - 2
                    invariant
                        i <= k - 2,
                        view_toks(pend@) =~= Seq::new(
                            i as nat,
                            |j: int| (TokenOf::<Seq<char>>::Dedent, Span { start: off, len: 0 }),
                        ),
                    decreases k - 2 - i,
                {
                    let ghost old_p = pend@;
                    pend.push((TokenOf::Dedent, Span::point(off)));
                    proof {
                        lemma_view_toks_push(old_p, (TokenOf::Dedent, Span { start: off, len: 0 }));
                    }
                    i = i + 1;
                }
                self.pending_tokens = pend;
                assert(self.indent_stack@ =~= st0.indent_stack.take(1));
                return Some(Ok((TokenOf::Dedent, Span::point(off))));
            }
            return Some(Ok((TokenOf::Eof, Span::point(off))));
        }
        let c = self.text.at(p);
        let start = self.text.offset(p);
        proof {
            lemma_byte_offset_mono(src, p as int, p + 1);
            lemma_byte_offset_bounds(src, p + 1);
        }
        let q = p + 1;
        self.pos = q;
        let one = Span::new(start, 1);
        let two = Span::new(start, 2);
        let next = self.text.peek(q);
        if c == '#' {
            proof {
                lemma_skip_bounds(src, q as int);
            }
            self.pos = self.text.skip_comment(q);
            return None;
        }
        if c == '\n' {
            self.at_line_start = true;
            if self.paren_level == 0 {
                return Some(Ok((TokenOf::Newline, one)));
            } else {
                return None;
            }
        }
        if c == '(' || c == '{' || c == '[' {
            self.paren_level = self.paren_level + 1;
            let t = if c == '(' {
                TokenOf::LParen
            } else if c == '{' {
                TokenOf::LBrace
            } else {
                TokenOf::LBracket
            };
            return Some(Ok((t, one)));
        }
        if c == ')' || c == '}' || c == ']' {
            if self.paren_level > 0 {
                self.paren_level = self.paren_level - 1;
            }
            let t = if c == ')' {
                TokenOf::RParen
            } else if c == '}' {
                TokenOf::RBrace
            } else {
                TokenOf::RBracket
            };
            return Some(Ok((t, one)));
        }
        if c == ',' {
            return Some(Ok((TokenOf::Comma, one)));
        }
        if c == ':' {
            return Some(Ok((TokenOf::Colon, one)));
        }
        if c == '?' {
            return Some(Ok((TokenOf::Question, one)));
        }
        if c == '|' {
            return Some(Ok((TokenOf::Pipe, one)));
        }
        if c == '%' {
            return Some(Ok((TokenOf::Percent, one)));
        }
        if c == '.' {
            if next == Some('.') {
                self.pos = q + 1;
                return Some(Ok((TokenOf::DotDot, two)));
            }
            return Some(Ok((TokenOf::Dot, one)));
        }
        if c == '-' {
            if next == Some('=') {
                self.pos = q + 1;
                return Some(Ok((TokenOf::MinusEq, two)));
            }
            if next == Some('>') {
                self.pos = q + 1;
                return Some(Ok((TokenOf::Arrow, two)));
            }
            return Some(Ok((TokenOf::Minus, one)));
        }
        if c == '+' || c == '*' || c == '/' || c == '=' || c == '<' || c == '>' {
            if next == Some('=') {
                self.pos = q + 1;
                let t = if c == '+' {
                    TokenOf::PlusEq
                } else if c == '*' {
                    TokenOf::StarEq
                } else if c == '/' {
                    TokenOf::SlashEq
                } else if c == '=' {
                    TokenOf::EqEq
                } else if c == '<' {
                    TokenOf::LtEq
                } else {
                    TokenOf::GtEq
                };
                return Some(Ok((t, two)));
            }
            let t = if c == '+' {
                TokenOf::Plus
            } else if c == '*' {
                TokenOf::Star
            } else if c == '/' {
                TokenOf::Slash
            } else if c == '=' {
                TokenOf::Assign
            } else if c == '<' {
                TokenOf::Lt
            } else {
                TokenOf::Gt
            };
            return Some(Ok((t, one)));
        }
        if c == '!' {
            if next == Some('=') {
                self.pos = q + 1;
                return Some(Ok((TokenOf::BangEq, two)));
            }
            return Some(Err(LexError::invalid_token('!', one)));
        }
        if c == '"' || c == '\'' {
            proof {
                lemma_lex_string_pos(src, c, start, q as int, seq![]);
            }
            let (p2, r) = self.text.lex_string(c, start, q);
            self.pos = p2;
            return Some(r);
        }
        if char_is_ascii_digit(c) {
            proof {
                lemma_scan_number_pos(src, q as int, seq![c], false);
            }
            let (p2, r) = self.text.lex_number(c, start, q);
            self.pos = p2;
            return Some(r);
        }
        if char_is_alphabetic(c) || c == '_' {
            let (p2, word) = self.text.scan_ident(c, q);
            proof {
                lemma_scan_ident_pos(src, q as int, seq![c]);
                lemma_byte_offset_mono(src, p as int, p2 as int);
                lemma_byte_offset_bounds(src, p2 as int);
            }
            self.pos = p2;
            let end = self.text.offset(p2);
            return Some(Ok((keyword_token(&word), Span::new(start, end - start))));
        }
        Some(Err(LexError::invalid_token(c, Span::new(start, char_width(c)))))
    }

    fn next_token(&mut self) -> (r: Result<(Token, Span), LexError>)
        requires
            old(self).wf(),
        ensures
            final(self).wf(),
            final(self).src() == old(self).src(),
            (final(self).state(), view_outcome(r)) == spec_next_token(
                old(self).src(),
                old(self).state(),
            ),
        decreases old(self).src().len() - old(self).state().pos,
    {
        let ghost src = self.src();
        let ghost st0 = self.state();
        if self.pending_tokens.len() > 0 {
            return Ok(self.pop_pending());
        }
        if self.at_line_start {
            match self.handle_indentation() {
                Err(e) => {
                    return Err(e);
                },
                Ok(()) => {},
            }
            if self.pending_tokens.len() > 0 {
                return Ok(self.pop_pending());
            }
        }
        proof {
            lemma_handle_indentation_pos(src, st0);
            lemma_lex_main_again(src, self.state());
        }
        match self.lex_main() {
            Some(r) => r,
            None => self.next_token(),
        }
    }

    /// Lexes the rest of the input: every token up to and including `Eof`, or
    /// the first lexical error.
    pub fn tokenize(&mut self) -> (r: Result<Vec<(Token, Span)>, LexError>)
        requires
            old(self).wf(),
        ensures
            final(self).wf(),
            final(self).src() == old(self).src(),
            (final(self).state(), view_tokens_result(r)) == spec_tokenize_from(
                old(self).src(),
                old(self).state(),
                seq![],
            ),
    {
        let mut tokens: Vec<(Token, Span)> = Vec::new();
        assert(view_toks(tokens@) =~= Seq::<TokSpan>::empty());
        loop
            invariant
                self.wf(),
                self.src() == old(self).src(),
                spec_tokenize_from(old(self).src(), self.state(), view_toks(tokens@))
                    == spec_tokenize_from(old(self).src(), old(self).state(), seq![]),
            decreases lex_measure(old(self).src(), self.state()),
        {
            let ghost before = self.state();
            proof {
                lemma_next_token_progress(old(self).src(), before);
            }
            match self.next_token() {
                Err(e) => {
                    return Err(e);
                },
                Ok(ts) => {
                    let is_eof = ts.0.is_eof();
                    let ghost t0 = tokens@;
                    tokens.push(ts);
                    proof {
                        lemma_view_toks_push(t0, ts);
                    }
                    if is_eof {
                        return Ok(tokens);
                    }
                },
            }
        }
    }
}

pub open spec fn spec_lex_number_result(
    src: Seq<char>,
    st: LexState,
    first: char,
    start: usize,
    st2: LexState,
    r: Result<(Token, Span), LexError>,
) -> bool {
    spec_lex_number(src, st, first, start, st.pos) == LexStep::Done(st2, view_outcome(r))
}

fn eq_word(w: &Vec<char>, lit: &[char]) -> (r: bool)
    ensures
        r == (w@ == lit@),
{
    if w.len() != lit.len() {
        return false;
    }
    let mut i: usize = 0;
    while i < w.len()
        invariant
            w@.len() == lit@.len(),
            i <= w@.len(),
            forall|j: int| 0 <= j < i ==> w@[j] == lit@[j],
        decreases w@.len() - i,
    {
        if w[i] != lit[i] {
            return false;
        }
        i = i + 1;
    }
    assert(w@ =~= lit@);
    true
}

fn chars_to_string(w: &Vec<char>) -> (r: String)
    ensures
        r@ == w@,
{
    let mut s = String::new();
    let mut i: usize = 0;
    while i < w.len()
        invariant
            i <= w@.len(),
            s@ == w@.take(i as int),
        decreases w@.len() - i,
    {
        string_push(&mut s, w[i]);
        i = i + 1;
        assert(s@ =~= w@.take(i as int));
    }
    assert(w@.take(w@.len() as int) =~= w@);
    s
}

fn keyword_token(w: &Vec<char>) -> (r: Token)
    ensures
        r@ == keyword(w@),
{
    if eq_word(w, &['f', 'n']) {
        TokenOf::Fn
    } else if eq_word(w, &['c', 'l', 's']) {
        TokenOf::Cls
    } else if eq_word(w, &['l', 'o', 'a', 'd']) {
        TokenOf::Load
    } else if eq_word(w, &['f', 'r', 'o', 'm']) {
        TokenOf::From
    } else if eq_word(w, &['a', 's']) {
        TokenOf::As
    } else if eq_word(w, &['e', 'x', 'p', 'o', 'r', 't']) {
        TokenOf::Export
    } else if eq_word(w, &['r', 'e', 't', 'u', 'r', 'n']) {
        TokenOf::Return
    } else if eq_word(w, &['i', 'f']) {
        TokenOf::If
    } else if eq_word(w, &['e', 'l', 'i', 'f']) {
        TokenOf::Elif
    } else if eq_word(w, &['e', 'l', 's', 'e']) {
        TokenOf::Else
    } else if eq_word(w, &['f', 'o', 'r']) {
        TokenOf::For
    } else if eq_word(w, &['w', 'h', 'i', 'l', 'e']) {
        TokenOf::While
    } else if eq_word(w, &['i', 'n']) {
        TokenOf::In
    } else if eq_word(w, &['b', 'r', 'e', 'a', 'k']) {
        TokenOf::Break
    } else if eq_word(w, &['c', 'o', 'n', 't', 'i', 'n', 'u', 'e']) {
        TokenOf::Continue
    } else if eq_word(w, &['s', 'p', 'a', 'w', 'n']) {
        TokenOf::Spawn
    } else if eq_word(w, &['e', 'r', 'r', 'o', 'r']) {
        TokenOf::Error
    } else if eq_word(w, &['s', 't', 'e', 'p']) {
        TokenOf::Step
    } else if eq_word(w, &['t', 'r', 'u', 'e']) {
        TokenOf::Bool(true)
    } else if eq_word(w, &['f', 'a', 'l', 's', 'e']) {
        TokenOf::Bool(false)
    } else if eq_word(w, &['n', 'u', 'l', 'l']) {
        TokenOf::Null
    } else if eq_word(w, &['a', 'n', 'd']) {
        TokenOf::And
    } else if eq_word(w, &['o', 'r']) {
        TokenOf::Or
    } else if eq_word(w, &['n', 'o', 't']) {
        TokenOf::Not
    } else {
        TokenOf::Ident(chars_to_string(w))
    }
}

} // verus!

verus! {

/// Whether `ts` ends with `Eof` and holds no other `Eof`.
pub open spec fn eof_only_at_end(ts: Seq<TokSpan>) -> bool {
    &&& ts.len() > 0
    &&& ts.last().0 is Eof
    &&& forall|i: int| 0 <= i < ts.len() - 1 ==> !(#[trigger] ts[i].0 is Eof)
}

proof fn lemma_tokenize_from_eof(src: Seq<char>, st: LexState, acc: Seq<TokSpan>)
    requires
        state_wf(src, st),
        forall|i: int| 0 <= i < acc.len() ==> !(#[trigger] acc[i].0 is Eof),
    ensures
        spec_tokenize_from(src, st, acc).1 matches Ok(ts) ==> eof_only_at_end(ts),
    decreases lex_measure(src, st),
{
    lemma_next_token_progress(src, st);
    let (st1, r) = spec_next_token(src, st);
    match r {
        Err(_) => {},
        Ok(t) => {
            let acc2 = acc.push(t);
            if !(t.0 is Eof) {
                assert forall|i: int| 0 <= i < acc2.len() implies !(#[trigger] acc2[i].0 is Eof) by {
                    if i < acc.len() {
                        assert(acc2[i] == acc[i]);
                    }
                }
                lemma_tokenize_from_eof(src, st1, acc2);
            }
        },
    }
}

/// Lexing a whole source (of a length the lexer accepts) succeeds with tokens that end with `Eof` and hold no
/// other `Eof`.
pub proof fn law_tokens_end_with_single_eof(src: Seq<char>)
    requires
        src.len() <= usize::MAX / 4,
    ensures
        spec_tokenize(src) matches Ok(ts) ==> eof_only_at_end(ts),
{
    lemma_tokenize_from_eof(src, initial_state(), seq![]);
}

} // verus!
