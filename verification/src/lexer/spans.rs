//! Where tokens lie: every span falls inside the source, spans start in
//! order, and the end of input is marked at the source's last byte.

use vstd::prelude::*;
use super::chars::{byte_len, byte_offset, lemma_byte_offset_bounds, lemma_byte_offset_mono, utf8_width};
use super::lexer::{lemma_lex_string_pos, lemma_next_token_progress, lemma_scan_ident_pos, lemma_scan_number_pos, lex_measure, spec_tokenize, spec_tokenize_from};
use super::spec::{
    LexState, LexStep, TokSpan, initial_state, lemma_handle_indentation_pos, lemma_handle_indentation_wf,
    lemma_lex_main_again, lemma_lex_main_again_wf, lemma_pop_dedents, lemma_scan_indent, lemma_skip_bounds,
    keyword, peek_at, pop_dedents, scan_indent, scan_ident, scan_number, skip_blanks, spec_handle_indentation, spec_lex_main,
    spec_lex_string, spec_next_token, state_wf, top_or_zero, unescape,
};
use super::token::{Span, TokenOf};

verus! {

/// The span lies inside the source's bytes.
pub open spec fn within(src: Seq<char>, s: Span) -> bool {
    s.start + s.len <= byte_len(src)
}

/// Every span lies inside the source, and the spans start in order.
pub open spec fn well_placed(src: Seq<char>, ts: Seq<TokSpan>) -> bool {
    &&& forall|i: int| 0 <= i < ts.len() ==> within(src, #[trigger] ts[i].1)
    &&& forall|i: int, j: int| 0 <= i < j < ts.len() ==> #[trigger] ts[i].1.start <= #[trigger] ts[j].1.start
}

/// What holds between tokens: the handed-out and the queued tokens are well
/// placed, each queued one starts no earlier than the handed-out ones and no
/// later than the read position.
pub open spec fn placed(src: Seq<char>, st: LexState, acc: Seq<TokSpan>) -> bool {
    &&& well_placed(src, acc + st.pending)
    &&& forall|i: int| 0 <= i < acc.len() + st.pending.len() ==> (#[trigger] (acc + st.pending)[i]).1.start <= byte_offset(src, st.pos)
}

proof fn lemma_width_pos(c: char)
    ensures
        1 <= utf8_width(c) <= 4,
{
}

/// What `lemma_lex_main_span` shows of one main step.
pub open spec fn main_post(src: Seq<char>, st: LexState) -> bool {
    spec_lex_main(src, st) matches LexStep::Done(s, o) ==> (o matches Ok(t) ==> {
        let p = skip_blanks(src, st.pos);
        &&& t.1.start == byte_offset(src, p)
        &&& within(src, t.1)
        &&& st.pos <= s.pos <= src.len()
        &&& byte_offset(src, p) <= byte_offset(src, s.pos)
        &&& (t.0 is Eof ==> t.1 == Span { start: byte_len(src) as usize, len: 0 } && s.pending.len() == 0)
        &&& forall|k: int| 0 <= k < s.pending.len() ==> #[trigger] s.pending[k].1 == t.1
    })
}

/// A token read by the main step starts where reading resumed, ends inside
/// the source, and leaves the position after it; a queued `Dedent` and the
/// `Eof` mark the end of the source.
proof fn lemma_lex_main_span(src: Seq<char>, st: LexState)
    requires
        state_wf(src, st),
        st.pending.len() == 0,
    ensures
        main_post(src, st),
{
    lemma_skip_bounds(src, st.pos);
    let p = skip_blanks(src, st.pos);
    lemma_byte_offset_bounds(src, p);
    lemma_byte_offset_bounds(src, src.len() as int);
    assert(byte_len(src) == byte_offset(src, src.len() as int));
    assert(4 * src.len() <= usize::MAX) by (nonlinear_arith)
        requires
            src.len() <= usize::MAX / 4,
    ;
    if p >= src.len() {
        assert(p == src.len());
        assert(byte_offset(src, p) == byte_len(src));
        let off = byte_offset(src, p) as usize;
        assert(off == byte_len(src) as usize);
        assert(off as int == byte_len(src));
        assert(main_post(src, st));
    } else {
        let c = src[p];
        lemma_width_pos(c);
        lemma_byte_offset_mono(src, p + 1, src.len() as int);
        lemma_byte_offset_mono(src, st.pos, p);
        assert(byte_offset(src, p + 1) == byte_offset(src, p) + utf8_width(c));
        if p + 1 < src.len() {
            lemma_width_pos(src[p + 1]);
            lemma_byte_offset_mono(src, p + 2, src.len() as int);
            assert(byte_offset(src, p + 2) == byte_offset(src, p + 1) + utf8_width(src[p + 1]));
        }
        lemma_byte_offset_mono(src, p, p + 1);
        if c == '"' || c == '\'' {
            lemma_lex_string_span(src, c, byte_offset(src, p) as usize, p + 1, seq![]);
            lemma_lex_string_pos(src, c, byte_offset(src, p) as usize, p + 1, seq![]);
            let p2 = spec_lex_string(src, c, byte_offset(src, p) as usize, p + 1, seq![]).0;
            lemma_byte_offset_mono(src, p, p2);
            lemma_byte_offset_mono(src, p2, src.len() as int);
            lemma_byte_offset_bounds(src, p2);
            let r = spec_lex_string(src, c, byte_offset(src, p) as usize, p + 1, seq![]);
            assert(p < p2);
            assert(byte_offset(src, p) < byte_offset(src, p2));
            assert(spec_lex_main(src, st) == LexStep::Done(LexState { pos: p2, ..st }, r.1));
            if let Ok(t) = r.1 {
                assert(t.1.start == byte_offset(src, p) as usize);
                assert(t.1.start + t.1.len == byte_offset(src, p2));
                assert(within(src, t.1));
                assert(main_post(src, st));
            } else {
                assert(main_post(src, st));
            }
        } else if super::chars::is_ascii_digit(c) {
            lemma_scan_number_pos(src, p + 1, seq![c], false);
            let p2 = scan_number(src, p + 1, seq![c], false).0;
            lemma_byte_offset_mono(src, p, p2);
            lemma_byte_offset_mono(src, p2, src.len() as int);
            lemma_byte_offset_bounds(src, p2);
        } else if super::chars::spec_is_alphabetic(c) || c == '_' {
            lemma_scan_ident_pos(src, p + 1, seq![c]);
            let p2 = scan_ident(src, p + 1, seq![c]).0;
            lemma_byte_offset_mono(src, p, p2);
            lemma_byte_offset_mono(src, p2, src.len() as int);
            lemma_byte_offset_bounds(src, p2);
        } else if c == '#' {
        }
        if c == '"' || c == '\'' {
        } else if super::chars::is_ascii_digit(c) {
            assert(main_post(src, st));
        } else if super::chars::spec_is_alphabetic(c) || c == '_' {
            assert(main_post(src, st));
        } else {
            assert(main_post(src, st));
        }
    }
}

/// A string literal read from `pos` keeps the given start and ends inside the source.
proof fn lemma_lex_string_span(src: Seq<char>, quote: char, start: usize, pos: int, acc: Seq<char>)
    requires
        0 <= pos <= src.len(),
        src.len() <= usize::MAX / 4,
    ensures
        spec_lex_string(src, quote, start, pos, acc).1 matches Ok(t) ==> t.0 is Str && t.1.start == start
            && start + t.1.len == byte_offset(src, spec_lex_string(src, quote, start, pos, acc).0)
            || start > byte_offset(src, spec_lex_string(src, quote, start, pos, acc).0),
    decreases src.len() - pos,
{
    if pos < src.len() {
        let c = src[pos];
        if c == quote {
            lemma_byte_offset_bounds(src, pos + 1);
        } else if c == '\\' {
            if pos + 1 < src.len() {
                lemma_lex_string_span(src, quote, start, pos + 2, acc.push(unescape(src[pos + 1])));
            }
        } else {
            lemma_lex_string_span(src, quote, start, pos + 1, acc.push(c));
        }
    }
}

/// Tokens that all share one span, lying in the source from `from` on, keep
/// the tokens before them well placed.
proof fn lemma_append_same(src: Seq<char>, acc: Seq<TokSpan>, more: Seq<TokSpan>, sp: Span, bound: int)
    requires
        well_placed(src, acc),
        forall|i: int| 0 <= i < acc.len() ==> (#[trigger] acc[i]).1.start <= sp.start,
        forall|k: int| 0 <= k < more.len() ==> (#[trigger] more[k]).1 == sp,
        within(src, sp),
        sp.start <= bound,
        forall|i: int| 0 <= i < acc.len() ==> (#[trigger] acc[i]).1.start <= bound,
    ensures
        well_placed(src, acc + more),
        forall|i: int| 0 <= i < (acc + more).len() ==> (#[trigger] (acc + more)[i]).1.start <= bound,
{
    let all = acc + more;
    assert forall|i: int| 0 <= i < all.len() implies within(src, #[trigger] all[i].1) by {
        if i < acc.len() {
            assert(all[i] == acc[i]);
        } else {
            assert(all[i] == more[i - acc.len()]);
        }
    }
    assert forall|i: int, j: int| 0 <= i < j < all.len() implies #[trigger] all[i].1.start <= #[trigger] all[j].1.start by {
        if j < acc.len() {
            assert(all[i] == acc[i] && all[j] == acc[j]);
        } else if i < acc.len() {
            assert(all[i] == acc[i] && all[j] == more[j - acc.len()]);
        } else {
            assert(all[i] == more[i - acc.len()] && all[j] == more[j - acc.len()]);
        }
    }
    assert forall|i: int| 0 <= i < all.len() implies (#[trigger] all[i]).1.start <= bound by {
        if i < acc.len() {
            assert(all[i] == acc[i]);
        } else {
            assert(all[i] == more[i - acc.len()]);
        }
    }
}

/// Measuring the indentation of a line keeps the tokens placed.
proof fn lemma_indent_placed(src: Seq<char>, st: LexState, acc: Seq<TokSpan>)
    requires
        state_wf(src, st),
        st.pending.len() == 0,
        placed(src, st, acc),
    ensures
        spec_handle_indentation(src, st).1 is Ok ==> placed(src, spec_handle_indentation(src, st).0, acc),
{
    assert(acc + st.pending =~= acc);
    lemma_scan_indent(src, st.pos, 0);
    let (p, col) = scan_indent(src, st.pos, 0);
    lemma_byte_offset_mono(src, st.pos, p);
    lemma_byte_offset_bounds(src, p);
    lemma_byte_offset_bounds(src, src.len() as int);
    assert(4 * src.len() <= usize::MAX) by (nonlinear_arith)
        requires
            src.len() <= usize::MAX / 4,
    ;
    let st1 = LexState { pos: p, at_line_start: false, ..st };
    assert(acc + st1.pending =~= acc);
    if let Some(c) = peek_at(src, p) {
        if !(c == '\n' || c == '\r' || c == '#') {
            let span = Span { start: byte_offset(src, p) as usize, len: utf8_width(c) as usize };
            lemma_width_pos(c);
            lemma_byte_offset_mono(src, p + 1, src.len() as int);
            assert(byte_offset(src, p + 1) == byte_offset(src, p) + utf8_width(c));
            assert(within(src, span));
            let last = top_or_zero(st1.indent_stack);
            let r = spec_handle_indentation(src, st);
            if col > last {
                let more = seq![(TokenOf::<Seq<char>>::Indent, span)];
                lemma_append_same(src, acc, more, span, byte_offset(src, p));
                assert(r.0.pending =~= more);
            } else if col < last {
                lemma_pop_dedents(st1.indent_stack, col, st1.pending, span);
                let (s2, p2) = pop_dedents(st1.indent_stack, col, st1.pending, span);
                assert forall|k: int| 0 <= k < p2.len() implies (#[trigger] p2[k]).1 == span by {}
                lemma_append_same(src, acc, p2, span, byte_offset(src, p));
            }
        }
    }
}

/// One token handed out keeps the tokens placed; `Eof` marks the end of the source.
proof fn lemma_next_placed(src: Seq<char>, st: LexState, acc: Seq<TokSpan>)
    requires
        state_wf(src, st),
        placed(src, st, acc),
    ensures
        spec_next_token(src, st).1 matches Ok(t) ==> {
            &&& placed(src, spec_next_token(src, st).0, acc.push(t))
            &&& (t.0 is Eof ==> t.1 == (Span { start: byte_len(src) as usize, len: 0 }))
        },
    decreases src.len() - st.pos,
{
    if st.pending.len() > 0 {
        let t = st.pending[0];
        assert(acc.push(t) + st.pending.drop_first() =~= acc + st.pending);
        assert(!(t.0 is Eof)) by {
            assert(super::spec::is_struct_tok(st.pending[0].0));
        }
    } else {
        let (st1, r) = if st.at_line_start {
            spec_handle_indentation(src, st)
        } else {
            (st, Ok(()))
        };
        if st.at_line_start {
            lemma_indent_placed(src, st, acc);
            lemma_handle_indentation_wf(src, st);
            lemma_handle_indentation_pos(src, st);
        }
        if r is Ok {
            if st1.pending.len() > 0 {
                let t = st1.pending[0];
                assert(acc.push(t) + st1.pending.drop_first() =~= acc + st1.pending);
                lemma_handle_indentation_wf(src, st);
                assert(!(t.0 is Eof)) by {
                    assert(super::spec::is_struct_tok(st1.pending[0].0));
                }
            } else {
                lemma_lex_main_span(src, st1);
                lemma_lex_main_again(src, st1);
                lemma_lex_main_again_wf(src, st1);
                lemma_skip_bounds(src, st1.pos);
                let p = skip_blanks(src, st1.pos);
                lemma_byte_offset_mono(src, st1.pos, p);
                assert(acc + st1.pending =~= acc);
                match spec_lex_main(src, st1) {
                    LexStep::Done(s, o) => {
                        if let Ok(t) = o {
                            lemma_append_same(src, acc, seq![t], t.1, byte_offset(src, s.pos));
                            assert(acc + seq![t] =~= acc.push(t));
                            assert(forall|k: int| 0 <= k < s.pending.len() ==> #[trigger] s.pending[k].1 == t.1);
                            lemma_append_same(src, acc.push(t), s.pending, t.1, byte_offset(src, s.pos));
                        }
                    },
                    LexStep::Again(s) => {
                        lemma_byte_offset_mono(src, st1.pos, s.pos);
                        assert(acc + s.pending =~= acc);
                        lemma_next_placed(src, s, acc);
                    },
                }
            }
        }
    }
}

proof fn lemma_tokenize_placed(src: Seq<char>, st: LexState, acc: Seq<TokSpan>)
    requires
        state_wf(src, st),
        placed(src, st, acc),
    ensures
        spec_tokenize_from(src, st, acc).1 matches Ok(ts) ==> well_placed(src, ts)
            && ts.last().1 == (Span { start: byte_len(src) as usize, len: 0 }),
    decreases lex_measure(src, st),
{
    lemma_next_token_progress(src, st);
    lemma_next_placed(src, st, acc);
    let (st1, r) = spec_next_token(src, st);
    if let Ok(t) = r {
        if t.0 is Eof {
            let all = acc.push(t) + st1.pending;
            assert forall|i: int| 0 <= i < acc.push(t).len() implies within(src, #[trigger] acc.push(t)[i].1) by {
                assert(all[i] == acc.push(t)[i]);
            }
            assert forall|i: int, j: int| 0 <= i < j < acc.push(t).len() implies #[trigger] acc.push(t)[i].1.start
                <= #[trigger] acc.push(t)[j].1.start by {
                assert(all[i] == acc.push(t)[i] && all[j] == acc.push(t)[j]);
            }
        } else {
            lemma_tokenize_placed(src, st1, acc.push(t));
        }
    }
}

/// The tokens of a whole source lie inside it and start in order, and the
/// closing `Eof` sits at the source's end, with an empty span.
pub proof fn law_token_spans(src: Seq<char>)
    requires
        src.len() <= usize::MAX / 4,
    ensures
        spec_tokenize(src) matches Ok(ts) ==> well_placed(src, ts)
            && ts.last().1 == (Span { start: byte_len(src) as usize, len: 0 }),
{
    let st = initial_state();
    assert(seq![] + st.pending =~= Seq::<TokSpan>::empty());
    assert(placed(src, st, seq![]));
    lemma_tokenize_placed(src, st, seq![]);
}

/// `text` is what the source holds between the bytes of span `s`.
pub open spec fn text_at(src: Seq<char>, s: Span, text: Seq<char>) -> bool {
    exists|p: int, q: int|
        0 <= p <= q <= src.len() && byte_offset(src, p) == s.start && byte_offset(src, q) == s.start + s.len
            && #[trigger] src.subrange(p, q) == text
}

/// Every identifier's name is the source text under its span.
pub open spec fn idents_match(src: Seq<char>, ts: Seq<TokSpan>) -> bool {
    forall|i: int| 0 <= i < ts.len() ==> ((#[trigger] ts[i]).0 matches TokenOf::Ident(n) ==> text_at(src, ts[i].1, n))
}

proof fn lemma_scan_ident_text(src: Seq<char>, p0: int, pos: int, acc: Seq<char>)
    requires
        0 <= p0 <= pos <= src.len(),
        acc == src.subrange(p0, pos),
    ensures
        scan_ident(src, pos, acc).1 == src.subrange(p0, scan_ident(src, pos, acc).0),
    decreases src.len() - pos,
{
    if pos < src.len() && super::spec::is_ident_char(src[pos]) {
        assert(acc.push(src[pos]) =~= src.subrange(p0, pos + 1));
        lemma_scan_ident_text(src, p0, pos + 1, acc.push(src[pos]));
    }
}

/// An identifier read by the main step is the source text under its span.
pub open spec fn ident_post(src: Seq<char>, st: LexState) -> bool {
    spec_lex_main(src, st) matches LexStep::Done(s, o) ==> (o matches Ok(t) ==> (t.0 matches TokenOf::Ident(n)
        ==> text_at(src, t.1, n)))
}

proof fn lemma_lex_main_ident(src: Seq<char>, st: LexState)
    requires
        state_wf(src, st),
        st.pending.len() == 0,
    ensures
        ident_post(src, st),
        spec_lex_main(src, st) matches LexStep::Done(s, o) ==> (forall|k: int|
            0 <= k < s.pending.len() ==> !(#[trigger] s.pending[k].0 is Ident)),
{
    lemma_skip_bounds(src, st.pos);
    let p = skip_blanks(src, st.pos);
    lemma_byte_offset_bounds(src, src.len() as int);
    assert(4 * src.len() <= usize::MAX) by (nonlinear_arith)
        requires
            src.len() <= usize::MAX / 4,
    ;
    if p < src.len() {
        let c = src[p];
        lemma_byte_offset_bounds(src, p);
        if c == '"' || c == '\'' {
            lemma_lex_string_span(src, c, byte_offset(src, p) as usize, p + 1, seq![]);
            lemma_lex_string_pos(src, c, byte_offset(src, p) as usize, p + 1, seq![]);
            let p2 = spec_lex_string(src, c, byte_offset(src, p) as usize, p + 1, seq![]).0;
            lemma_byte_offset_mono(src, p, p2);
            assert(ident_post(src, st));
        } else if super::chars::spec_is_alphabetic(c) || c == '_' {
            assert(seq![c] =~= src.subrange(p, p + 1));
            lemma_scan_ident_text(src, p, p + 1, seq![c]);
            lemma_scan_ident_pos(src, p + 1, seq![c]);
            let (p2, word) = scan_ident(src, p + 1, seq![c]);
            lemma_byte_offset_mono(src, p, p2);
            lemma_byte_offset_bounds(src, p2);
            assert(0 <= p <= p2 <= src.len() && src.subrange(p, p2) == word);
            let start = byte_offset(src, p) as usize;
            let span = Span { start, len: (byte_offset(src, p2) - start) as usize };
            assert(span.start + span.len == byte_offset(src, p2));
            assert(text_at(src, span, word));
            if let TokenOf::Ident(n) = keyword(word) {
                assert(n == word);
                assert(ident_post(src, st));
            } else {
                assert(ident_post(src, st));
            }
        } else {
            assert(ident_post(src, st));
        }
    } else {
        assert(ident_post(src, st));
    }
}

proof fn lemma_next_ident(src: Seq<char>, st: LexState)
    requires
        state_wf(src, st),
        forall|k: int| 0 <= k < st.pending.len() ==> !(#[trigger] st.pending[k].0 is Ident),
    ensures
        spec_next_token(src, st).1 matches Ok(t) ==> (t.0 matches TokenOf::Ident(n) ==> text_at(src, t.1, n)),
        forall|k: int| 0 <= k < spec_next_token(src, st).0.pending.len() ==> !(#[trigger] spec_next_token(src, st).0.pending[k].0 is Ident),
    decreases src.len() - st.pos,
{
    if st.pending.len() > 0 {
        assert(!(st.pending[0].0 is Ident));
        let rest = st.pending.drop_first();
        assert forall|k: int| 0 <= k < rest.len() implies !(#[trigger] rest[k].0 is Ident) by {
            assert(rest[k] == st.pending[k + 1]);
        }
    } else {
        let (st1, r) = if st.at_line_start {
            spec_handle_indentation(src, st)
        } else {
            (st, Ok(()))
        };
        if st.at_line_start {
            lemma_handle_indentation_wf(src, st);
            lemma_handle_indentation_pos(src, st);
        }
        if r is Ok {
            assert(forall|k: int| 0 <= k < st1.pending.len() ==> super::spec::is_struct_tok(#[trigger] st1.pending[k].0));
            if st1.pending.len() > 0 {
                let rest = st1.pending.drop_first();
                assert(super::spec::is_struct_tok(st1.pending[0].0));
                assert forall|k: int| 0 <= k < rest.len() implies !(#[trigger] rest[k].0 is Ident) by {
                    assert(rest[k] == st1.pending[k + 1]);
                    assert(super::spec::is_struct_tok(st1.pending[k + 1].0));
                }
            } else {
                lemma_lex_main_ident(src, st1);
                lemma_lex_main_again(src, st1);
                lemma_lex_main_again_wf(src, st1);
                if let LexStep::Again(s) = spec_lex_main(src, st1) {
                    lemma_next_ident(src, s);
                }
            }
        }
    }
}

proof fn lemma_tokenize_idents(src: Seq<char>, st: LexState, acc: Seq<TokSpan>)
    requires
        state_wf(src, st),
        idents_match(src, acc),
        forall|k: int| 0 <= k < st.pending.len() ==> !(#[trigger] st.pending[k].0 is Ident),
    ensures
        spec_tokenize_from(src, st, acc).1 matches Ok(ts) ==> idents_match(src, ts),
    decreases lex_measure(src, st),
{
    lemma_next_token_progress(src, st);
    lemma_next_ident(src, st);
    let (st1, r) = spec_next_token(src, st);
    if let Ok(t) = r {
        let acc2 = acc.push(t);
        assert forall|i: int| 0 <= i < acc2.len() implies ((#[trigger] acc2[i]).0 matches TokenOf::Ident(n) ==> text_at(src, acc2[i].1, n)) by {
            if i < acc.len() {
                assert(acc2[i] == acc[i]);
            }
        }
        if !(t.0 is Eof) {
            lemma_tokenize_idents(src, st1, acc2);
        }
    }
}

/// Every identifier that lexing hands out is named by the source text under its span.
pub proof fn law_identifiers_are_source_text(src: Seq<char>)
    requires
        src.len() <= usize::MAX / 4,
    ensures
        spec_tokenize(src) matches Ok(ts) ==> idents_match(src, ts),
{
    lemma_tokenize_idents(src, initial_state(), seq![]);
}

} // verus!
