//! Indentation tokens come in pairs: every `Indent` the lexer hands out is
//! closed by a `Dedent`, at the latest at the end of the input.

use vstd::prelude::*;
use super::lexer::{lemma_next_token_progress, lex_measure, spec_tokenize, spec_tokenize_from};
use super::spec::{
    LexState, LexStep, TokSpan, initial_state, lemma_handle_indentation_pos, lemma_handle_indentation_wf,
    lemma_lex_main_again, lemma_lex_main_again_wf, lemma_pop_dedents, pop_dedents, spec_handle_indentation,
    spec_lex_main, spec_lex_string, spec_next_token, state_wf, scan_indent, peek_at, top_or_zero,
};
use super::token::{Span, SpecToken, TokenOf};

verus! {

/// `+1` for an `Indent`, `-1` for a `Dedent`, `0` for any other token.
pub open spec fn indent_weight(t: SpecToken) -> int {
    match t {
        TokenOf::Indent => 1,
        TokenOf::Dedent => -1,
        _ => 0,
    }
}

/// How many `Indent`s in `ts` are not yet closed by a later `Dedent`
/// (negative when there are more `Dedent`s).
pub open spec fn indent_balance(ts: Seq<TokSpan>) -> int
    decreases ts.len(),
{
    if ts.len() == 0 {
        0
    } else {
        indent_balance(ts.drop_last()) + indent_weight(ts.last().0)
    }
}

proof fn lemma_balance_push(ts: Seq<TokSpan>, t: TokSpan)
    ensures
        indent_balance(ts.push(t)) == indent_balance(ts) + indent_weight(t.0),
{
    assert(ts.push(t).drop_last() =~= ts);
}

proof fn lemma_balance_drop_first(ts: Seq<TokSpan>)
    requires
        ts.len() > 0,
    ensures
        indent_balance(ts) == indent_weight(ts[0].0) + indent_balance(ts.drop_first()),
    decreases ts.len(),
{
    if ts.len() > 1 {
        lemma_balance_drop_first(ts.drop_last());
        assert(ts.drop_last().drop_first() =~= ts.drop_first().drop_last());
    } else {
        assert(ts.drop_first() =~= Seq::<TokSpan>::empty());
        assert(ts.drop_last() =~= Seq::<TokSpan>::empty());
    }
}

proof fn lemma_balance_dedents(n: nat, span: Span)
    ensures
        indent_balance(Seq::new(n, |i: int| (TokenOf::<Seq<char>>::Dedent, span))) == -(n as int),
    decreases n,
{
    let s = Seq::new(n, |i: int| (TokenOf::<Seq<char>>::Dedent, span));
    if n > 0 {
        lemma_balance_dedents((n - 1) as nat, span);
        assert(s.drop_last() =~= Seq::new((n - 1) as nat, |i: int| (TokenOf::<Seq<char>>::Dedent, span)));
    }
}

proof fn lemma_pop_balance(stack: Seq<usize>, col: int, pending: Seq<TokSpan>, span: Span)
    ensures
        ({
            let (s2, p2) = pop_dedents(stack, col, pending, span);
            indent_balance(p2) - s2.len() == indent_balance(pending) - stack.len()
        }),
    decreases stack.len(),
{
    if stack.len() > 0 && col < stack.last() {
        let p1 = pending.push((TokenOf::Dedent, span));
        lemma_balance_push(pending, (TokenOf::Dedent, span));
        lemma_pop_balance(stack.drop_last(), col, p1, span);
    }
}

/// Open levels minus the balance of what is queued: handing out a token
/// changes it by the token's weight.
pub open spec fn level(st: LexState) -> int {
    st.indent_stack.len() - indent_balance(st.pending)
}

proof fn lemma_handle_indentation_level(src: Seq<char>, st: LexState)
    requires
        state_wf(src, st),
    ensures
        spec_handle_indentation(src, st).1 is Ok ==> level(spec_handle_indentation(src, st).0) == level(st),
{
    let (p, col) = scan_indent(src, st.pos, 0);
    let st1 = LexState { pos: p, at_line_start: false, ..st };
    if let Some(c) = peek_at(src, p) {
        if !(c == '\n' || c == '\r' || c == '#') {
            let span = Span { start: super::chars::byte_offset(src, p) as usize, len: super::chars::utf8_width(c) as usize };
            let last = top_or_zero(st1.indent_stack);
            if col > last {
                lemma_balance_push(st1.pending, (TokenOf::Indent, span));
            } else if col < last {
                lemma_pop_balance(st1.indent_stack, col, st1.pending, span);
            }
        }
    }
}

proof fn lemma_lex_string_token(src: Seq<char>, quote: char, start: usize, pos: int, acc: Seq<char>)
    ensures
        spec_lex_string(src, quote, start, pos, acc).1 matches Ok(t) ==> t.0 is Str,
    decreases src.len() - pos,
{
    if 0 <= pos < src.len() {
        let c = src[pos];
        if c != quote {
            if c == '\\' {
                if pos + 1 < src.len() {
                    lemma_lex_string_token(src, quote, start, pos + 2, acc.push(super::spec::unescape(src[pos + 1])));
                }
            } else {
                lemma_lex_string_token(src, quote, start, pos + 1, acc.push(c));
            }
        }
    }
}

proof fn lemma_lex_main_level(src: Seq<char>, st: LexState)
    requires
        state_wf(src, st),
        st.pending.len() == 0,
    ensures
        spec_lex_main(src, st) matches LexStep::Done(s, o) ==> (o matches Ok(t) ==> {
            &&& level(s) == level(st) + indent_weight(t.0)
            &&& (t.0 is Eof ==> s.pending.len() == 0 && s.indent_stack.len() == 1)
        }),
{
    let p = super::spec::skip_blanks(src, st.pos);
    let k = st.indent_stack.len();
    if p >= src.len() {
        if k > 1 {
            let off = super::chars::byte_offset(src, p) as usize;
            lemma_balance_dedents((k - 2) as nat, Span { start: off, len: 0 });
            assert(st.indent_stack.take(1).len() == 1);
        }
    } else {
        let c = src[p];
        if c == '"' || c == '\'' {
            lemma_lex_string_token(src, c, super::chars::byte_offset(src, p) as usize, p + 1, seq![]);
        }
    }
}

proof fn lemma_next_token_level(src: Seq<char>, st: LexState)
    requires
        state_wf(src, st),
    ensures
        spec_next_token(src, st).1 matches Ok(t) ==> {
            &&& level(spec_next_token(src, st).0) == level(st) + indent_weight(t.0)
            &&& (t.0 is Eof ==> spec_next_token(src, st).0.pending.len() == 0
                && spec_next_token(src, st).0.indent_stack.len() == 1)
        },
    decreases src.len() - st.pos,
{
    if st.pending.len() > 0 {
        lemma_balance_drop_first(st.pending);
    } else {
        let (st1, r) = if st.at_line_start {
            spec_handle_indentation(src, st)
        } else {
            (st, Ok(()))
        };
        if st.at_line_start {
            lemma_handle_indentation_level(src, st);
            lemma_handle_indentation_wf(src, st);
            lemma_handle_indentation_pos(src, st);
        }
        if r is Ok {
            if st1.pending.len() > 0 {
                lemma_balance_drop_first(st1.pending);
            } else {
                lemma_lex_main_level(src, st1);
                lemma_lex_main_again(src, st1);
                lemma_lex_main_again_wf(src, st1);
                if let LexStep::Again(s) = spec_lex_main(src, st1) {
                    lemma_next_token_level(src, s);
                }
            }
        }
    }
}

proof fn lemma_tokenize_from_balance(src: Seq<char>, st: LexState, acc: Seq<TokSpan>)
    requires
        state_wf(src, st),
    ensures
        spec_tokenize_from(src, st, acc).1 matches Ok(ts) ==> indent_balance(ts) - 1 == indent_balance(acc) - level(st),
    decreases lex_measure(src, st),
{
    lemma_next_token_progress(src, st);
    lemma_next_token_level(src, st);
    let (st1, r) = spec_next_token(src, st);
    if let Ok(t) = r {
        lemma_balance_push(acc, t);
        if !(t.0 is Eof) {
            lemma_tokenize_from_balance(src, st1, acc.push(t));
        } else {
            assert(indent_balance(st1.pending) == 0) by {
                assert(st1.pending =~= Seq::<TokSpan>::empty());
            }
        }
    }
}

/// Every `Indent` of a successful lexing is closed by a later `Dedent`: the
/// tokens hold as many of each.
pub proof fn law_indents_balanced(src: Seq<char>)
    requires
        src.len() <= usize::MAX / 4,
    ensures
        spec_tokenize(src) matches Ok(ts) ==> indent_balance(ts) == 0,
{
    assert(indent_balance(initial_state().pending) == 0) by {
        assert(initial_state().pending =~= Seq::<TokSpan>::empty());
    }
    lemma_tokenize_from_balance(src, initial_state(), seq![]);
}

} // verus!
