//! Laws the library keeps, stated over the spec models and proved once and
//! for all: determinism of lexing and parsing, exclusivity of directives,
//! division-by-zero behaviour, and the facts that let the pipeline stages
//! compose.

use vstd::prelude::*;
use crate::data::Vector2;
use crate::exceptions::InterpreterExceptionBase;
use crate::interpreter::{default_idata_v, interp_from, interp_s, interp_step, IDataV};
use crate::lexer::{
    lemma_ident_end, lemma_num_end, lemma_str_scan_end, lex_from, str_scan, var_toks,
};
use crate::nodes::{div_zero_err, eval_s, NodeBaseV, NodeV};
use crate::parser::{sp_program, stream_wf};
use crate::renderer::idata_wf;
use crate::tokens::{TokenName, TokenV};

verus! {

proof fn lemma_stream_cons_wf(t: TokenV, ts: Seq<TokenV>)
    requires
        stream_wf(ts),
        t.name != TokenName::Eof,
    ensures
        stream_wf(seq![t] + ts),
{
    let s = seq![t] + ts;
    assert(s.len() == ts.len() + 1);
    assert(s[s.len() - 1] == ts[ts.len() - 1]);
    assert forall|i: int| 0 <= i < s.len() - 1 implies s[i].name != TokenName::Eof by {
        if i == 0 {
            assert(s[0] == t);
        } else {
            assert(s[i] == ts[i - 1]);
        }
    }
}

proof fn lemma_stream_prefix_wf(vs: Seq<TokenV>, ts: Seq<TokenV>)
    requires
        stream_wf(ts),
        forall|i: int| 0 <= i < vs.len() ==> vs[i].name != TokenName::Eof,
    ensures
        stream_wf(vs + ts),
    decreases vs.len(),
{
    if vs.len() == 0 {
        assert(vs + ts =~= ts);
    } else {
        lemma_stream_prefix_wf(vs.drop_first(), ts);
        lemma_stream_cons_wf(vs[0], vs.drop_first() + ts);
        assert(seq![vs[0]] + (vs.drop_first() + ts) =~= vs + ts);
    }
}

/// Every token stream the lexer accepts a script into is well formed: it
/// ends in exactly one end-of-file marker. This is what lets the parser's
/// contract take over directly from the lexer's.
pub proof fn lemma_lex_stream_wf(fname: Seq<char>, cs: Seq<char>, pos: int)
    requires
        0 <= pos <= cs.len(),
    ensures
        (lex_from(fname, cs, pos) matches Ok(ts) ==> stream_wf(ts)),
    decreases cs.len() - pos,
{
    if pos == cs.len() {
    } else {
        let c = cs[pos];
        if c == ' ' || c == '\t' {
            lemma_lex_stream_wf(fname, cs, pos + 1);
        } else if crate::lexer::is_alpha_c(c) {
            let e = crate::lexer::ident_end(cs, pos);
            assert(crate::lexer::is_ident_c(cs[pos]));
            assert(e == crate::lexer::ident_end(cs, pos + 1));
            lemma_ident_end(cs, pos + 1);
            lemma_lex_stream_wf(fname, cs, e);
            if let Ok(ts) = lex_from(fname, cs, e) {
                let idt = cs.subrange(pos, e);
                if crate::lexer::is_headfunc_name(idt) || crate::lexer::is_function_name(idt) {
                    assert(lex_from(fname, cs, pos) matches Ok(full) ==> stream_wf(full)) by {
                        if crate::lexer::is_headfunc_name(idt) {
                            lemma_stream_cons_wf(
                                crate::lexer::tok_v(
                                    TokenName::HeadFunc,
                                    idt,
                                    crate::lexer::at_v(fname, pos, e),
                                ),
                                ts,
                            );
                        } else {
                            lemma_stream_cons_wf(
                                crate::lexer::tok_v(
                                    TokenName::Function,
                                    idt,
                                    crate::lexer::at_v(fname, pos, e),
                                ),
                                ts,
                            );
                        }
                    }
                } else {
                    lemma_stream_prefix_wf(var_toks(fname, cs, pos, e), ts);
                }
            }
        } else if crate::lexer::is_digit_c(c) {
            let e = crate::lexer::num_end(cs, pos, false);
            assert(crate::lexer::is_num_c(cs[pos], false));
            assert(e == crate::lexer::num_end(cs, pos + 1, cs[pos] == '.'));
            lemma_num_end(cs, pos + 1, cs[pos] == '.');
            lemma_lex_stream_wf(fname, cs, e);
            if let Ok(ts) = lex_from(fname, cs, e) {
                lemma_stream_cons_wf(
                    crate::lexer::tok_v(
                        TokenName::Number,
                        crate::lexer::num_text(cs, pos, false),
                        crate::lexer::at_v(fname, pos, e),
                    ),
                    ts,
                );
            }
        } else if c == '"' {
            lemma_str_scan_end(fname, cs, pos + 1, Seq::empty());
            if let Ok((v, e)) = str_scan(fname, cs, pos + 1, Seq::empty()) {
                lemma_lex_stream_wf(fname, cs, e);
                if let Ok(ts) = lex_from(fname, cs, e) {
                    lemma_stream_cons_wf(
                        crate::lexer::tok_v(TokenName::Text, v, crate::lexer::at_v(fname, pos, e)),
                        ts,
                    );
                }
            }
        } else if c == '\n' || c == '=' || c == '+' || c == '-' || c == '*' || c == '/' || c == '('
            || c == ')' || c == '#' || c == ',' {
            lemma_lex_stream_wf(fname, cs, pos + 1);
            if let Ok(ts) = lex_from(fname, cs, pos + 1) {
                let nm = if c == '\n' {
                    TokenName::Eol
                } else if c == '=' {
                    TokenName::Equals
                } else if c == '+' {
                    TokenName::Add
                } else if c == '-' {
                    TokenName::Subtract
                } else if c == '*' {
                    TokenName::Multiply
                } else if c == '/' {
                    TokenName::Divide
                } else if c == '(' {
                    TokenName::LParen
                } else if c == ')' {
                    TokenName::RParen
                } else if c == '#' {
                    TokenName::Header
                } else {
                    TokenName::Comma
                };
                lemma_stream_cons_wf(
                    crate::lexer::tok_v(nm, Seq::empty(), crate::lexer::at_v(fname, pos, pos)),
                    ts,
                );
            }
        }
    }
}

/// The configurations the interpreter's fold can reach are exactly the ones
/// the renderer accepts: the frame stays at least one unit a side and the
/// resolution never goes negative.
pub proof fn lemma_interp_wf(d: IDataV, ns: Seq<NodeV>, i: int)
    requires
        idata_wf(d),
        0 <= i <= ns.len(),
    ensures
        idata_wf(interp_from(d, ns, i).data),
    decreases ns.len() - i,
{
    if i < ns.len() {
        match interp_step(d, ns[i]) {
            Ok(d2) => {
                lemma_interp_wf(d2, ns, i + 1);
            },
            Err(_) => {
                lemma_interp_wf(d, ns, i + 1);
            },
        }
    }
}

/// The whole interpretation of any node list yields a renderable
/// configuration.
pub proof fn lemma_interp_s_wf(ns: Seq<NodeV>)
    ensures
        idata_wf(interp_s(ns).data),
{
    lemma_interp_wf(default_idata_v(), ns, 0);
}

/// Lexing and parsing are deterministic: the same script text always yields
/// structurally identical token and node sequences, because both stages are
/// proved equal to pure functions of the text alone.
pub proof fn law_relex_reparse_identical(
    f1: Seq<char>,
    t1: Seq<char>,
    f2: Seq<char>,
    t2: Seq<char>,
)
    requires
        f1 == f2,
        t1 == t2,
    ensures
        lex_from(f1, t1, 0) == lex_from(f2, t2, 0),
        (lex_from(f1, t1, 0) matches Ok(ts) ==> sp_program(ts, 0) == sp_program(
            lex_from(f2, t2, 0)->Ok_0,
            0,
        )),
{
}

/// Each directive may be set at most once: interpreting two frame
/// directives, both with workable sizes, collects exactly one
/// already-accessed diagnostic, and the layout keeps the first directive's
/// position and size.
pub proof fn law_directive_exclusive(f1: NodeV, f2: NodeV)
    requires
        f1.base matches NodeBaseV::HeaderFuncFrame { w, h, .. } && w >= 1 && h >= 1,
        f2.base matches NodeBaseV::HeaderFuncFrame { w, h, .. } && w >= 1 && h >= 1,
    ensures
        interp_s(seq![f1, f2]).errs.len() == 1,
        interp_s(seq![f1, f2]).errs[0].base
            == InterpreterExceptionBase::HeaderAlreadyAccessedException,
        (f1.base matches NodeBaseV::HeaderFuncFrame { x, y, w, h } ==> interp_s(
            seq![f1, f2],
        ).data.position == Vector2 { x, y } && interp_s(seq![f1, f2]).data.size == Vector2 {
            x: w,
            y: h,
        }),
{
    let ns = seq![f1, f2];
    assert(ns[0] == f1);
    assert(ns[1] == f2);
    let d0 = default_idata_v();
    assert(!d0.set_frame);
    let d1 = interp_step(d0, f1)->Ok_0;
    assert(interp_step(d0, f1) is Ok);
    assert(d1.set_frame);
    assert(interp_step(d1, f2) matches Err(e) && e.base
        == InterpreterExceptionBase::HeaderAlreadyAccessedException);
    assert(interp_from(d1, ns, 2).errs =~= Seq::<crate::exceptions::InterpreterExceptionV>::empty());
    assert(interp_from(d1, ns, 1).errs.len() == 1);
}

/// A division whose right side carries any zero branch fails with the
/// division-by-zero diagnostic at the division node's own range, whenever
/// both sides themselves evaluate and the left side has at least one
/// branch.
pub proof fn law_division_by_zero(l: NodeV, r: NodeV, range: crate::data::RangeV, x: i64)
    requires
        eval_s(l, x) matches Ok(lv) && lv.len() > 0,
        eval_s(r, x) matches Ok(rv) && rv.contains(0i64),
    ensures
        eval_s(
            NodeV {
                base: NodeBaseV::DivisionOperation { left: Box::new(l), right: Box::new(r) },
                range,
            },
            x,
        ) == Err::<Seq<i64>, crate::exceptions::RendererExceptionV>(div_zero_err(range)),
{
}

} // verus!
