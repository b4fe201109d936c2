//! The parser: recursive descent with one token of lookahead over the
//! lexer's stream, producing directive and equation nodes. The grammar walk
//! is modelled by the `sp_*` spec functions, and the executable parser is
//! proved to return exactly what the model says.

use vstd::prelude::*;
use vstd::string::StringExecFns;
use crate::data::{chars_eq_str, clone_chars, Range, RangeV};
use crate::exceptions::{ParserException, ParserExceptionBase, ParserExceptionV};
use crate::nodes::{node_view, nodes_v, Node, NodeBase, NodeBaseV, NodeV};
use crate::tokens::{toks_v, Token, TokenName, TokenV};

verus! {

/// The token kind at a position, `Null` past the end.
pub open spec fn name_at(t: Seq<TokenV>, p: int) -> TokenName {
    if 0 <= p < t.len() {
        t[p].name
    } else {
        TokenName::Null
    }
}

/// The source range at a position, empty past the end.
pub open spec fn rng_at(t: Seq<TokenV>, p: int) -> RangeV {
    if 0 <= p < t.len() {
        t[p].range
    } else {
        RangeV { filename: Seq::empty(), start: 0, end: 0 }
    }
}

/// A parser diagnostic view.
pub open spec fn perr_v(base: ParserExceptionBase, message: Seq<char>, range: RangeV) -> ParserExceptionV {
    ParserExceptionV { base, message, range }
}

/// The empty diagnostic a successful outcome carries.
pub open spec fn no_parser_err_v() -> ParserExceptionV {
    perr_v(
        ParserExceptionBase::NoException,
        Seq::empty(),
        RangeV { filename: Seq::empty(), start: 0, end: 0 },
    )
}

/// Keeps a continuation position strictly past `p` and within the stream;
/// the executable parser always lands in that range, so this is the
/// identity wherever it is reached.
pub open spec fn clampg(q: int, p: int, len: int) -> int {
    if q <= p {
        p + 1
    } else if q > len {
        len
    } else {
        q
    }
}

/// One production's outcome: a node or a diagnostic, and the position the
/// scan stopped at.
pub struct SpRes {
    pub out: Result<NodeV, ParserExceptionV>,
    pub pos: int,
}

/// The whole program's outcome: the node list or the first diagnostic.
pub struct SpResN {
    pub out: Result<Seq<NodeV>, ParserExceptionV>,
    pub pos: int,
}

/// A directive argument list's outcome.
pub struct SpArgs {
    pub out: Result<Seq<i32>, ParserExceptionV>,
    pub pos: int,
}

/// A well-formed token stream: one end-of-file marker, at the end. The
/// lexer produces only such streams.
pub open spec fn stream_wf(t: Seq<TokenV>) -> bool {
    &&& t.len() >= 1
    &&& t[t.len() - 1].name == TokenName::Eof
    &&& forall|i: int| 0 <= i < t.len() - 1 ==> t[i].name != TokenName::Eof
}

/// The value of one digit.
pub open spec fn digit_val(c: char) -> int {
    c as int - '0' as int
}

/// Decimal digits.
pub open spec fn is_digit_tok_c(c: char) -> bool {
    '0' <= c && c <= '9'
}

/// Where the integer part of a numeral ends.
pub open spec fn ipart_end(s: Seq<char>, i: int) -> int
    decreases s.len() - i,
        when 0 <= i <= s.len()
{
    if i == s.len() || !is_digit_tok_c(s[i]) {
        i
    } else {
        ipart_end(s, i + 1)
    }
}

/// The integer part of a numeral, read left to right and capped so that the
/// scaled value stays in fixed-point range.
pub open spec fn int_acc(s: Seq<char>, i: int, acc: int) -> int
    decreases s.len() - i,
        when 0 <= i <= s.len()
{
    if i == s.len() || !is_digit_tok_c(s[i]) {
        acc
    } else {
        let a2 = acc * 10 + digit_val(s[i]);
        int_acc(s, i + 1, if a2 > 4_611_686_018_427 {
            4_611_686_018_427
        } else {
            a2
        })
    }
}

/// The fraction part of a numeral: up to six digits, weighted.
pub open spec fn frac_acc(s: Seq<char>, i: int, w: int, acc: int) -> int
    decreases s.len() - i,
        when 0 <= i <= s.len()
{
    if i == s.len() || !is_digit_tok_c(s[i]) || w == 0 {
        acc
    } else {
        frac_acc(s, i + 1, w / 10, acc + digit_val(s[i]) * w)
    }
}

/// The fixed-point value of a numeral token's text, saturating at the
/// largest fixed-point value.
pub open spec fn numeral_fx_s(s: Seq<char>) -> i64 {
    let e = ipart_end(s, 0);
    let ip = int_acc(s, 0, 0);
    let fr = if e < s.len() && s[e] == '.' {
        frac_acc(s, e + 1, 100_000, 0)
    } else {
        0
    };
    let v = ip * 1_000_000 + fr;
    if v > crate::data::FX_MAX as int {
        crate::data::FX_MAX
    } else {
        v as i64
    }
}

/// Whether a token's text is all digits: the only numeral shape a directive
/// argument accepts.
pub open spec fn all_digits(s: Seq<char>) -> bool {
    forall|i: int| 0 <= i < s.len() ==> is_digit_tok_c(s[i])
}

/// The signed saturating 32-bit value of a directive argument.
pub open spec fn int_arg_s(s: Seq<char>, neg: bool) -> i32 {
    let m = int_acc32(s, 0, 0);
    if neg {
        (-m) as i32
    } else {
        m as i32
    }
}

/// Digits read left to right, saturating at the largest 32-bit value.
pub open spec fn int_acc32(s: Seq<char>, i: int, acc: int) -> int
    decreases s.len() - i,
        when 0 <= i <= s.len()
{
    if i == s.len() || !is_digit_tok_c(s[i]) {
        acc
    } else {
        let a2 = acc * 10 + digit_val(s[i]);
        int_acc32(s, i + 1, if a2 > 2_147_483_647 {
            2_147_483_647
        } else {
            a2
        })
    }
}

/// A variable node's character: the first of the token's text.
pub open spec fn var_char(s: Seq<char>) -> char {
    if s.len() >= 1 {
        s[0]
    } else {
        ' '
    }
}

/// The model of `Parser::literal`: a parenthesized term, a number, a
/// variable, or a function call.
pub open spec fn sp_literal(t: Seq<TokenV>, p: int) -> SpRes
    decreases t.len() - p, 2int,
        when 0 <= p <= t.len()
{
    if p == t.len() {
        SpRes {
            out: Err(perr_v(
                ParserExceptionBase::IllegalTokenException,
                "Expected (Literal, Variable, LeftParen) not found."@,
                rng_at(t, p),
            )),
            pos: p,
        }
    } else if t[p].name == TokenName::LParen {
        let r1 = sp_term(t, p + 1);
        match r1.out {
            Ok(nv) => {
                let q = clampg(r1.pos, p, t.len() as int);
                if name_at(t, q) == TokenName::RParen {
                    SpRes { out: Ok(nv), pos: q + 1 }
                } else {
                    SpRes {
                        out: Err(perr_v(
                            ParserExceptionBase::MissingTokenException,
                            "Expected (RightParen) not found."@,
                            t[p].range,
                        )),
                        pos: q,
                    }
                }
            },
            Err(e) => SpRes { out: Err(e), pos: r1.pos },
        }
    } else if t[p].name == TokenName::Number {
        SpRes {
            out: Ok(NodeV {
                base: NodeBaseV::Number { value: numeral_fx_s(t[p].value) },
                range: t[p].range,
            }),
            pos: p + 1,
        }
    } else if t[p].name == TokenName::Variable {
        SpRes {
            out: Ok(NodeV {
                base: NodeBaseV::Variable { name: var_char(t[p].value) },
                range: t[p].range,
            }),
            pos: p + 1,
        }
    } else if t[p].name == TokenName::Function {
        sp_function(t, p)
    } else {
        SpRes {
            out: Err(perr_v(
                ParserExceptionBase::IllegalTokenException,
                "Expected (Literal, Variable, LeftParen) not found."@,
                t[p].range,
            )),
            pos: p,
        }
    }
}

/// The model of the single-argument function bodies: `sin`, `cos`, `tan`.
/// `kind` tells which one. The node spans from the first argument token to
/// the token the argument scan stopped at.
pub open spec fn sp_func_one(t: Seq<TokenV>, p: int, kind: int) -> SpRes
    decreases t.len() - p, 7int,
        when 0 <= p <= t.len()
{
    let r = sp_term(t, p);
    match r.out {
        Ok(a) => SpRes {
            out: Ok(NodeV {
                base: if kind == 0 {
                    NodeBaseV::FunctionSin { a: Box::new(a) }
                } else if kind == 1 {
                    NodeBaseV::FunctionCos { a: Box::new(a) }
                } else {
                    NodeBaseV::FunctionTan { a: Box::new(a) }
                },
                range: RangeV {
                    filename: rng_at(t, p).filename,
                    start: rng_at(t, p).start,
                    end: rng_at(t, r.pos).end,
                },
            }),
            pos: r.pos,
        },
        Err(e) => SpRes { out: Err(e), pos: r.pos },
    }
}

/// The model of the two-argument function bodies: `pow(base, exp)` and
/// `root(exp, base)` (`is_pow` tells which). A root written by the user
/// carries the `user_typed` mark.
pub open spec fn sp_func_two(t: Seq<TokenV>, p: int, is_pow: bool) -> SpRes
    decreases t.len() - p, 7int,
        when 0 <= p <= t.len()
{
    let r1 = sp_term(t, p);
    match r1.out {
        Ok(first) => {
            let q = clampg(r1.pos, p, t.len() as int);
            if name_at(t, q) != TokenName::Comma {
                SpRes {
                    out: Err(perr_v(
                        ParserExceptionBase::MissingTokenException,
                        "Expected (Comma) not found."@,
                        rng_at(t, q),
                    )),
                    pos: q,
                }
            } else {
                let r2 = sp_term(t, q + 1);
                match r2.out {
                    Ok(second) => SpRes {
                        out: Ok(NodeV {
                            base: if is_pow {
                                NodeBaseV::FunctionPow {
                                    base: Box::new(first),
                                    exp: Box::new(second),
                                }
                            } else {
                                NodeBaseV::FunctionRoot {
                                    exp: Box::new(first),
                                    base: Box::new(second),
                                    user_typed: true,
                                }
                            },
                            range: RangeV {
                                filename: rng_at(t, p).filename,
                                start: rng_at(t, p).start,
                                end: rng_at(t, r2.pos).end,
                            },
                        }),
                        pos: r2.pos,
                    },
                    Err(e) => SpRes { out: Err(e), pos: r2.pos },
                }
            }
        },
        Err(e) => SpRes { out: Err(e), pos: r1.pos },
    }
}

/// The model of `Parser::function`: a function name, parentheses, and the
/// function's arguments.
pub open spec fn sp_function(t: Seq<TokenV>, p: int) -> SpRes
    decreases t.len() - p, 1int,
        when 0 <= p <= t.len()
{
    if name_at(t, p) != TokenName::Function {
        SpRes {
            out: Err(perr_v(
                ParserExceptionBase::MissingTokenException,
                "Expected (Function) not found."@,
                rng_at(t, p),
            )),
            pos: p,
        }
    } else if name_at(t, p + 1) != TokenName::LParen {
        SpRes {
            out: Err(perr_v(
                ParserExceptionBase::MissingTokenException,
                "Expected (LeftParen) not found."@,
                rng_at(t, p + 1),
            )),
            pos: p + 1,
        }
    } else {
        let func = t[p].value;
        let p2 = p + 2;
        let r = if func == "sin"@ {
            sp_func_one(t, p2, 0)
        } else if func == "cos"@ {
            sp_func_one(t, p2, 1)
        } else if func == "tan"@ {
            sp_func_one(t, p2, 2)
        } else if func == "pow"@ {
            sp_func_two(t, p2, true)
        } else if func == "root"@ {
            sp_func_two(t, p2, false)
        } else {
            SpRes {
                out: Err(perr_v(
                    ParserExceptionBase::InternalException,
                    "Invalid function found: `"@ + func + "`"@,
                    rng_at(t, p2),
                )),
                pos: p2,
            }
        };
        match r.out {
            Ok(nv) => {
                let q = clampg(r.pos, p + 1, t.len() as int);
                if name_at(t, q) == TokenName::RParen {
                    SpRes { out: Ok(nv), pos: q + 1 }
                } else {
                    SpRes {
                        out: Err(perr_v(
                            ParserExceptionBase::MissingTokenException,
                            "Expected (RightParen) not found."@,
                            rng_at(t, q),
                        )),
                        pos: q,
                    }
                }
            },
            Err(e) => SpRes { out: Err(e), pos: r.pos },
        }
    }
}

/// A multiplication node spanning both operands.
pub open spec fn mul_node_v(a: NodeV, b: NodeV) -> NodeV {
    NodeV {
        base: NodeBaseV::MultiplicationOperation { left: Box::new(a), right: Box::new(b) },
        range: crate::data::combine_range_v(a.range, b.range),
    }
}

/// The model of `Parser::literal_multiplication`: a literal, then, if
/// another literal follows directly, an implicit multiplication of the two.
/// A failed continuation is discarded, but the positions it consumed stay
/// consumed.
pub open spec fn sp_litmult(t: Seq<TokenV>, p: int) -> SpRes
    decreases t.len() - p, 3int,
        when 0 <= p <= t.len()
{
    if p == t.len() {
        sp_literal(t, p)
    } else {
        let r1 = sp_literal(t, p);
        match r1.out {
            Ok(n1) => {
                let q = clampg(r1.pos, p, t.len() as int);
                let r2 = sp_litmult(t, q);
                match r2.out {
                    Ok(n2) => SpRes { out: Ok(mul_node_v(n1, n2)), pos: r2.pos },
                    Err(_) => SpRes { out: Ok(n1), pos: r2.pos },
                }
            },
            Err(e) => SpRes { out: Err(e), pos: r1.pos },
        }
    }
}

/// The node one `*` or `/` step builds.
pub open spec fn mul_div_node_v(is_mul: bool, a: NodeV, b: NodeV) -> NodeV {
    NodeV {
        base: if is_mul {
            NodeBaseV::MultiplicationOperation { left: Box::new(a), right: Box::new(b) }
        } else {
            NodeBaseV::DivisionOperation { left: Box::new(a), right: Box::new(b) }
        },
        range: crate::data::combine_range_v(a.range, b.range),
    }
}

/// The model of the `*` / `/` continuation loop.
pub open spec fn sp_mult_rest(t: Seq<TokenV>, p: int, left: NodeV) -> SpRes
    decreases t.len() - p, 0int,
        when 0 <= p <= t.len()
{
    if name_at(t, p) == TokenName::Multiply || name_at(t, p) == TokenName::Divide {
        let is_mul = name_at(t, p) == TokenName::Multiply;
        let r = sp_litmult(t, p + 1);
        match r.out {
            Ok(v) => sp_mult_rest(t, clampg(r.pos, p, t.len() as int), mul_div_node_v(is_mul, left, v)),
            Err(e) => SpRes { out: Err(e), pos: r.pos },
        }
    } else {
        SpRes { out: Ok(left), pos: p }
    }
}

/// The model of `Parser::multiplication_term`.
pub open spec fn sp_mult(t: Seq<TokenV>, p: int) -> SpRes
    decreases t.len() - p, 4int,
        when 0 <= p <= t.len()
{
    if p == t.len() {
        sp_litmult(t, p)
    } else {
        let r1 = sp_litmult(t, p);
        match r1.out {
            Ok(n1) => sp_mult_rest(t, clampg(r1.pos, p, t.len() as int), n1),
            Err(e) => SpRes { out: Err(e), pos: r1.pos },
        }
    }
}

/// The node one `+` or `-` step builds.
pub open spec fn add_sub_node_v(is_add: bool, a: NodeV, b: NodeV) -> NodeV {
    NodeV {
        base: if is_add {
            NodeBaseV::AdditionOperation { left: Box::new(a), right: Box::new(b) }
        } else {
            NodeBaseV::SubtractionOperation { left: Box::new(a), right: Box::new(b) }
        },
        range: crate::data::combine_range_v(a.range, b.range),
    }
}

/// The model of the `+` / `-` continuation loop.
pub open spec fn sp_add_rest(t: Seq<TokenV>, p: int, left: NodeV) -> SpRes
    decreases t.len() - p, 0int,
        when 0 <= p <= t.len()
{
    if name_at(t, p) == TokenName::Add || name_at(t, p) == TokenName::Subtract {
        let is_add = name_at(t, p) == TokenName::Add;
        let r = sp_mult(t, p + 1);
        match r.out {
            Ok(v) => sp_add_rest(t, clampg(r.pos, p, t.len() as int), add_sub_node_v(is_add, left, v)),
            Err(e) => SpRes { out: Err(e), pos: r.pos },
        }
    } else {
        SpRes { out: Ok(left), pos: p }
    }
}

/// The model of `Parser::addition_term`.
pub open spec fn sp_add(t: Seq<TokenV>, p: int) -> SpRes
    decreases t.len() - p, 5int,
        when 0 <= p <= t.len()
{
    if p == t.len() {
        sp_mult(t, p)
    } else {
        let r1 = sp_mult(t, p);
        match r1.out {
            Ok(n1) => sp_add_rest(t, clampg(r1.pos, p, t.len() as int), n1),
            Err(e) => SpRes { out: Err(e), pos: r1.pos },
        }
    }
}

/// The model of `Parser::term`.
pub open spec fn sp_term(t: Seq<TokenV>, p: int) -> SpRes
    decreases t.len() - p, 6int,
        when 0 <= p <= t.len()
{
    sp_add(t, p)
}

/// The model of `Parser::expression`: a term, optionally `= term`. A bare
/// term is normalized to the equation `y = term`.
pub open spec fn sp_expression(t: Seq<TokenV>, p: int) -> SpRes
    recommends
        0 <= p <= t.len(),
{
    let r1 = sp_term(t, p);
    match r1.out {
        Ok(lhs) => {
            let q = clampg(r1.pos, p, t.len() as int);
            if name_at(t, q) == TokenName::Equals {
                let r2 = sp_term(t, q + 1);
                match r2.out {
                    Ok(rhs) => SpRes {
                        out: Ok(NodeV {
                            base: NodeBaseV::EqualsExpression {
                                left: Box::new(lhs),
                                right: Box::new(rhs),
                            },
                            range: crate::data::combine_range_v(lhs.range, rhs.range),
                        }),
                        pos: r2.pos,
                    },
                    Err(e) => SpRes { out: Err(e), pos: r2.pos },
                }
            } else {
                let yvar = NodeV { base: NodeBaseV::Variable { name: 'y' }, range: lhs.range };
                SpRes {
                    out: Ok(NodeV {
                        base: NodeBaseV::EqualsExpression {
                            left: Box::new(yvar),
                            right: Box::new(lhs),
                        },
                        range: crate::data::combine_range_v(lhs.range, lhs.range),
                    }),
                    pos: q,
                }
            }
        },
        Err(e) => SpRes { out: Err(e), pos: r1.pos },
    }
}

/// The model of `Parser::header_get_args`: `count` signed integers
/// separated by commas.
pub open spec fn sp_get_args(t: Seq<TokenV>, p: int, count: nat) -> SpArgs
    decreases count,
{
    if count == 0 {
        SpArgs { out: Ok(Seq::empty()), pos: p }
    } else {
        let neg = name_at(t, p) == TokenName::Subtract;
        let p1 = if neg {
            p + 1
        } else {
            p
        };
        if name_at(t, p1) != TokenName::Number || !all_digits(t[p1].value) {
            SpArgs {
                out: Err(perr_v(
                    ParserExceptionBase::MissingTokenException,
                    "Expected (Integer, Minus) not found."@,
                    rng_at(t, p1),
                )),
                pos: p1,
            }
        } else {
            let val = int_arg_s(t[p1].value, neg);
            let q = p1 + 1;
            if count > 1 {
                if name_at(t, q) != TokenName::Comma {
                    SpArgs {
                        out: Err(perr_v(
                            ParserExceptionBase::MissingTokenException,
                            "Expected (Comma) not found."@,
                            rng_at(t, q),
                        )),
                        pos: q,
                    }
                } else {
                    let rest = sp_get_args(t, q + 1, (count - 1) as nat);
                    match rest.out {
                        Ok(vals) => SpArgs { out: Ok(seq![val] + vals), pos: rest.pos },
                        Err(e) => SpArgs { out: Err(e), pos: rest.pos },
                    }
                }
            } else {
                SpArgs { out: Ok(seq![val]), pos: q }
            }
        }
    }
}

/// The model of `Parser::header`: `#`, a directive name, and its
/// parenthesized arguments.
pub open spec fn sp_header(t: Seq<TokenV>, p: int) -> SpRes
    recommends
        0 <= p <= t.len(),
{
    let p1 = p + 1;
    if name_at(t, p1) != TokenName::HeadFunc {
        SpRes {
            out: Err(perr_v(
                ParserExceptionBase::MissingTokenException,
                "Expected (HeadFunc) not found."@,
                rng_at(t, p1),
            )),
            pos: p1,
        }
    } else if name_at(t, p1 + 1) != TokenName::LParen {
        SpRes {
            out: Err(perr_v(
                ParserExceptionBase::MissingTokenException,
                "Expected (LeftParen) not found."@,
                rng_at(t, p1 + 1),
            )),
            pos: p1 + 1,
        }
    } else {
        let func = t[p1].value;
        let p3 = p1 + 2;
        let r: SpRes = if func == "frame"@ {
            let args = sp_get_args(t, p3, 4);
            match args.out {
                Ok(vals) => SpRes {
                    out: Ok(NodeV {
                        base: NodeBaseV::HeaderFuncFrame {
                            x: vals[0],
                            y: vals[1],
                            w: vals[2],
                            h: vals[3],
                        },
                        range: RangeV {
                            filename: rng_at(t, p3).filename,
                            start: rng_at(t, p3).start,
                            end: rng_at(t, args.pos).end,
                        },
                    }),
                    pos: args.pos,
                },
                Err(e) => SpRes { out: Err(e), pos: args.pos },
            }
        } else if func == "resolution"@ {
            let args = sp_get_args(t, p3, 2);
            match args.out {
                Ok(vals) => SpRes {
                    out: Ok(NodeV {
                        base: NodeBaseV::HeaderFuncResolution { w: vals[0], h: vals[1] },
                        range: RangeV {
                            filename: rng_at(t, p3).filename,
                            start: rng_at(t, p3).start,
                            end: rng_at(t, args.pos).end,
                        },
                    }),
                    pos: args.pos,
                },
                Err(e) => SpRes { out: Err(e), pos: args.pos },
            }
        } else if func == "export"@ {
            if name_at(t, p3) != TokenName::Text {
                SpRes {
                    out: Err(perr_v(
                        ParserExceptionBase::MissingTokenException,
                        "Expected (String) not found."@,
                        rng_at(t, p3),
                    )),
                    pos: p3,
                }
            } else {
                SpRes {
                    out: Ok(NodeV {
                        base: NodeBaseV::HeaderFuncExport { filename: t[p3].value },
                        range: RangeV {
                            filename: rng_at(t, p3).filename,
                            start: rng_at(t, p3).start,
                            end: rng_at(t, p3 + 1).end,
                        },
                    }),
                    pos: p3 + 1,
                }
            }
        } else if func == "print_now"@ {
            SpRes {
                out: Ok(NodeV {
                    base: NodeBaseV::HeaderFuncPrintNow,
                    range: RangeV {
                        filename: rng_at(t, p3).filename,
                        start: rng_at(t, p3).start,
                        end: rng_at(t, p3).end,
                    },
                }),
                pos: p3,
            }
        } else {
            SpRes {
                out: Err(perr_v(
                    ParserExceptionBase::InternalException,
                    "Invalid header function found: `"@ + func + "`"@,
                    rng_at(t, p3),
                )),
                pos: p3,
            }
        };
        match r.out {
            Ok(nv) => {
                let q = clampg(r.pos, p1 + 1, t.len() as int);
                if name_at(t, q) == TokenName::RParen {
                    SpRes { out: Ok(nv), pos: q + 1 }
                } else {
                    SpRes {
                        out: Err(perr_v(
                            ParserExceptionBase::MissingTokenException,
                            "Expected (RightParen) not found."@,
                            rng_at(t, q),
                        )),
                        pos: q,
                    }
                }
            },
            Err(e) => SpRes { out: Err(e), pos: r.pos },
        }
    }
}

/// The model of `Parser::parse`: statements separated by end-of-line
/// markers, until the end-of-file marker.
pub open spec fn sp_program(t: Seq<TokenV>, p: int) -> SpResN
    decreases t.len() - p,
        when 0 <= p <= t.len()
{
    if p == t.len() {
        SpResN { out: Ok(Seq::empty()), pos: p }
    } else if t[p].name == TokenName::Eol {
        sp_program(t, p + 1)
    } else if t[p].name == TokenName::Eof {
        SpResN { out: Ok(Seq::empty()), pos: p }
    } else {
        let r = if t[p].name == TokenName::Header {
            sp_header(t, p)
        } else {
            sp_expression(t, p)
        };
        match r.out {
            Ok(node) => {
                let q = clampg(r.pos, p, t.len() as int);
                if name_at(t, q) != TokenName::Eol {
                    SpResN {
                        out: Err(perr_v(
                            ParserExceptionBase::MissingTokenException,
                            "Expected (EOL) not found."@,
                            rng_at(t, q),
                        )),
                        pos: q,
                    }
                } else {
                    let rest = sp_program(t, q + 1);
                    match rest.out {
                        Ok(ns) => SpResN { out: Ok(seq![node] + ns), pos: rest.pos },
                        Err(e) => SpResN { out: Err(e), pos: rest.pos },
                    }
                }
            },
            Err(e) => SpResN { out: Err(e), pos: r.pos },
        }
    }
}

/// The parser's outcome: the parsed nodes on success, the first diagnostic
/// otherwise.
#[derive(Debug)]
pub struct ParserResult {
    pub success: bool,
    pub nodes: Vec<Node>,
    pub exception: ParserException,
}

/// A directive argument list's outcome.
#[derive(Debug)]
pub struct HeaderArgsResult {
    pub success: bool,
    pub args: Vec<i32>,
    pub exception: ParserException,
}

/// The recursive-descent parser: the token stream, the scan position, and
/// the one token of lookahead.
#[derive(Debug)]
pub struct Parser {
    tokens: Vec<Token>,
    pos: usize,
    token: Token,
}

/// How one production's executable outcome relates to the model's: same
/// stop position, and the same node or the same diagnostic.
spec fn steps_to(o: Parser, n: Parser, sp: SpRes, r: ParserResult) -> bool {
    &&& n.tokens == o.tokens
    &&& n.pos as int == sp.pos
    &&& match sp.out {
        Ok(nv) => r.success && r.nodes@.len() == 1 && node_view(r.nodes@[0]) == nv
            && r.exception@ == no_parser_err_v(),
        Err(e) => !r.success && r.nodes@.len() == 0 && r.exception@ == e,
    }
}

impl Parser {
    /// The token stream's views.
    spec fn tv(&self) -> Seq<TokenV> {
        toks_v(self.tokens@)
    }

    /// The parser's invariant: a well-formed stream, the position inside
    /// it, and the lookahead token equal to the one at the position.
    spec fn wf(&self) -> bool {
        &&& stream_wf(self.tv())
        &&& (self.pos as int) < self.tv().len()
        &&& self.token@ == self.tv()[self.pos as int]
    }

    /// Points the parser at the first token.
    fn init(&mut self)
        requires
            old(self).tokens@.len() >= 1,
        ensures
            final(self).tokens == old(self).tokens,
            final(self).pos == 0,
            final(self).token@ == final(self).tv()[0],
    {
        self.pos = 0;
        self.token = self.tokens[0].duplicate();
    }

    /// Moves to the next token; never called at the end-of-file marker.
    fn advance(&mut self)
        requires
            old(self).wf(),
            old(self).token@.name != TokenName::Eof,
        ensures
            final(self).wf(),
            final(self).tokens == old(self).tokens,
            final(self).pos == old(self).pos + 1,
    {
        proof {
            let t = self.tv();
            assert(t.len() == self.tokens@.len());
            assert(t[self.pos as int].name != TokenName::Eof);
            assert(t[t.len() - 1].name == TokenName::Eof);
            assert(self.pos as int != t.len() - 1);
            assert(self.pos + 1 < self.tokens@.len());
        }
        let n = self.tokens.len();
        self.pos = self.pos + 1;
        if self.pos < n {
            self.token = self.tokens[self.pos].duplicate();
        }
    }

    /// A successful outcome carrying the given nodes.
    fn success(&self, nodes: Vec<Node>) -> (r: ParserResult)
        ensures
            r.success,
            r.nodes == nodes,
            r.exception@ == no_parser_err_v(),
    {
        ParserResult {
            success: true,
            nodes,
            exception: ParserException {
                base: ParserExceptionBase::NoException,
                message: String::new(),
                range: Range { filename: String::new(), start: 0, end: 0 },
            },
        }
    }

    /// A successful outcome carrying exactly one node.
    fn success1(&self, node: Node) -> (r: ParserResult)
        ensures
            r.success,
            r.nodes@.len() == 1,
            node_view(r.nodes@[0]) == node_view(node),
            r.exception@ == no_parser_err_v(),
    {
        let mut nodes: Vec<Node> = Vec::new();
        nodes.push(node);
        self.success(nodes)
    }

    /// A failed outcome carrying the given diagnostic.
    fn failure(&self, exception: ParserException) -> (r: ParserResult)
        ensures
            !r.success,
            r.nodes@.len() == 0,
            r.exception == exception,
    {
        ParserResult { success: false, nodes: Vec::new(), exception }
    }

    /// A failed outcome with a literal message at the given range.
    fn fail_at(&self, base: ParserExceptionBase, msg: &str, at: &Range) -> (r: ParserResult)
        ensures
            !r.success,
            r.nodes@.len() == 0,
            r.exception@ == perr_v(base, msg@, at@),
    {
        self.failure(
            ParserException { base, message: String::from_str(msg), range: at.duplicate() },
        )
    }

    /// The model of `literal`, run by the machine.
    fn literal(&mut self) -> (r: ParserResult)
        requires
            old(self).wf(),
        ensures
            final(self).wf(),
            steps_to(*old(self), *final(self), sp_literal(old(self).tv(), old(self).pos as int), r),
            r.success ==> old(self).pos < final(self).pos,
            old(self).pos <= final(self).pos,
        decreases self.tokens@.len() - self.pos, 2int,
    {
        let token = self.token.duplicate();
        if token.name == TokenName::LParen {
            self.advance();
            let res = self.term();
            if !res.success {
                return res;
            }
            if !(self.token.name == TokenName::RParen) {
                return self.fail_at(
                    ParserExceptionBase::MissingTokenException,
                    "Expected (RightParen) not found.",
                    &token.range,
                );
            }
            self.advance();
            let mut res = res;
            let node = res.nodes.pop().unwrap();
            self.success1(node)
        } else if token.name == TokenName::Number {
            self.advance();
            let value = numeral_fx(&token.value);
            self.success1(Node { base: NodeBase::Number { value }, range: token.range })
        } else if token.name == TokenName::Variable {
            self.advance();
            let name: char = if token.value.len() >= 1 {
                token.value[0]
            } else {
                ' '
            };
            self.success1(Node { base: NodeBase::Variable { name }, range: token.range })
        } else if token.name == TokenName::Function {
            self.function()
        } else {
            self.fail_at(
                ParserExceptionBase::IllegalTokenException,
                "Expected (Literal, Variable, LeftParen) not found.",
                &token.range,
            )
        }
    }

    /// The model of `function`, run by the machine.
    fn function(&mut self) -> (r: ParserResult)
        requires
            old(self).wf(),
        ensures
            final(self).wf(),
            steps_to(*old(self), *final(self), sp_function(old(self).tv(), old(self).pos as int), r),
            r.success ==> old(self).pos < final(self).pos,
            old(self).pos <= final(self).pos,
        decreases self.tokens@.len() - self.pos, 1int,
    {
        if !(self.token.name == TokenName::Function) {
            return self.fail_at(
                ParserExceptionBase::MissingTokenException,
                "Expected (Function) not found.",
                &self.token.range,
            );
        }
        let func = clone_chars(&self.token.value);
        self.advance();
        if !(self.token.name == TokenName::LParen) {
            return self.fail_at(
                ParserExceptionBase::MissingTokenException,
                "Expected (LeftParen) not found.",
                &self.token.range,
            );
        }
        self.advance();
        let res = if chars_eq_str(&func, "sin") {
            self.function_sin()
        } else if chars_eq_str(&func, "cos") {
            self.function_cos()
        } else if chars_eq_str(&func, "tan") {
            self.function_tan()
        } else if chars_eq_str(&func, "pow") {
            self.function_pow()
        } else if chars_eq_str(&func, "root") {
            self.function_root()
        } else {
            let mut msg = String::from_str("Invalid function found: `");
            let fs = crate::data::chars_to_string(&func);
            msg.append(fs.as_str());
            msg.append("`");
            proof {
                assert(msg@ =~= "Invalid function found: `"@ + func@ + "`"@);
            }
            return self.failure(
                ParserException {
                    base: ParserExceptionBase::InternalException,
                    message: msg,
                    range: self.token.range.duplicate(),
                },
            );
        };
        if !res.success {
            return res;
        }
        if !(self.token.name == TokenName::RParen) {
            return self.fail_at(
                ParserExceptionBase::MissingTokenException,
                "Expected (RightParen) not found.",
                &self.token.range,
            );
        }
        self.advance();
        res
    }

    /// The model of the `sin` body, run by the machine.
    fn function_sin(&mut self) -> (r: ParserResult)
        requires
            old(self).wf(),
        ensures
            final(self).wf(),
            steps_to(*old(self), *final(self), sp_func_one(old(self).tv(), old(self).pos as int, 0), r),
            r.success ==> old(self).pos < final(self).pos,
            old(self).pos <= final(self).pos,
        decreases self.tokens@.len() - self.pos, 7int,
    {
        let range = self.token.range.duplicate();
        let res = self.term();
        if !res.success {
            return res;
        }
        let mut res = res;
        let term = res.nodes.pop().unwrap();
        let range2 = Range {
            filename: range.filename,
            start: range.start,
            end: self.token.range.end,
        };
        self.success1(Node { base: NodeBase::FunctionSin { a: Box::new(term) }, range: range2 })
    }

    /// The model of the `cos` body, run by the machine.
    fn function_cos(&mut self) -> (r: ParserResult)
        requires
            old(self).wf(),
        ensures
            final(self).wf(),
            steps_to(*old(self), *final(self), sp_func_one(old(self).tv(), old(self).pos as int, 1), r),
            r.success ==> old(self).pos < final(self).pos,
            old(self).pos <= final(self).pos,
        decreases self.tokens@.len() - self.pos, 7int,
    {
        let range = self.token.range.duplicate();
        let res = self.term();
        if !res.success {
            return res;
        }
        let mut res = res;
        let term = res.nodes.pop().unwrap();
        let range2 = Range {
            filename: range.filename,
            start: range.start,
            end: self.token.range.end,
        };
        self.success1(Node { base: NodeBase::FunctionCos { a: Box::new(term) }, range: range2 })
    }

    /// The model of the `tan` body, run by the machine.
    fn function_tan(&mut self) -> (r: ParserResult)
        requires
            old(self).wf(),
        ensures
            final(self).wf(),
            steps_to(*old(self), *final(self), sp_func_one(old(self).tv(), old(self).pos as int, 2), r),
            r.success ==> old(self).pos < final(self).pos,
            old(self).pos <= final(self).pos,
        decreases self.tokens@.len() - self.pos, 7int,
    {
        let range = self.token.range.duplicate();
        let res = self.term();
        if !res.success {
            return res;
        }
        let mut res = res;
        let term = res.nodes.pop().unwrap();
        let range2 = Range {
            filename: range.filename,
            start: range.start,
            end: self.token.range.end,
        };
        self.success1(Node { base: NodeBase::FunctionTan { a: Box::new(term) }, range: range2 })
    }

    /// The model of the `pow` body, run by the machine.
    fn function_pow(&mut self) -> (r: ParserResult)
        requires
            old(self).wf(),
        ensures
            final(self).wf(),
            steps_to(*old(self), *final(self), sp_func_two(old(self).tv(), old(self).pos as int, true), r),
            r.success ==> old(self).pos < final(self).pos,
            old(self).pos <= final(self).pos,
        decreases self.tokens@.len() - self.pos, 7int,
    {
        let range = self.token.range.duplicate();
        let res = self.term();
        if !res.success {
            return res;
        }
        let mut res = res;
        let base = res.nodes.pop().unwrap();
        if !(self.token.name == TokenName::Comma) {
            return self.fail_at(
                ParserExceptionBase::MissingTokenException,
                "Expected (Comma) not found.",
                &self.token.range,
            );
        }
        self.advance();
        let res2 = self.term();
        if !res2.success {
            return res2;
        }
        let mut res2 = res2;
        let exp = res2.nodes.pop().unwrap();
        let range2 = Range {
            filename: range.filename,
            start: range.start,
            end: self.token.range.end,
        };
        self.success1(
            Node {
                base: NodeBase::FunctionPow { base: Box::new(base), exp: Box::new(exp) },
                range: range2,
            },
        )
    }

    /// The model of the `root` body, run by the machine. A root the user
    /// wrote carries the mark that keeps only the principal branch.
    fn function_root(&mut self) -> (r: ParserResult)
        requires
            old(self).wf(),
        ensures
            final(self).wf(),
            steps_to(
                *old(self),
                *final(self),
                sp_func_two(old(self).tv(), old(self).pos as int, false),
                r,
            ),
            r.success ==> old(self).pos < final(self).pos,
            old(self).pos <= final(self).pos,
        decreases self.tokens@.len() - self.pos, 7int,
    {
        let range = self.token.range.duplicate();
        let res = self.term();
        if !res.success {
            return res;
        }
        let mut res = res;
        let exp = res.nodes.pop().unwrap();
        if !(self.token.name == TokenName::Comma) {
            return self.fail_at(
                ParserExceptionBase::MissingTokenException,
                "Expected (Comma) not found.",
                &self.token.range,
            );
        }
        self.advance();
        let res2 = self.term();
        if !res2.success {
            return res2;
        }
        let mut res2 = res2;
        let base = res2.nodes.pop().unwrap();
        let range2 = Range {
            filename: range.filename,
            start: range.start,
            end: self.token.range.end,
        };
        self.success1(
            Node {
                base: NodeBase::FunctionRoot {
                    exp: Box::new(exp),
                    base: Box::new(base),
                    user_typed: true,
                },
                range: range2,
            },
        )
    }

    /// The model of `literal_multiplication`, run by the machine: a failed
    /// continuation is discarded, but its consumed tokens stay consumed.
    fn literal_multiplication(&mut self) -> (r: ParserResult)
        requires
            old(self).wf(),
        ensures
            final(self).wf(),
            steps_to(*old(self), *final(self), sp_litmult(old(self).tv(), old(self).pos as int), r),
            r.success ==> old(self).pos < final(self).pos,
            old(self).pos <= final(self).pos,
        decreases self.tokens@.len() - self.pos, 3int,
    {
        let res = self.literal();
        if !res.success {
            return res;
        }
        let mut res = res;
        let node = res.nodes.pop().unwrap();
        let res2 = self.literal_multiplication();
        if res2.success {
            let mut res2 = res2;
            let n2 = res2.nodes.pop().unwrap();
            self.success1(node.mul(n2))
        } else {
            self.success1(node)
        }
    }

    /// The model of `multiplication_term`, run by the machine.
    fn multiplication_term(&mut self) -> (r: ParserResult)
        requires
            old(self).wf(),
        ensures
            final(self).wf(),
            steps_to(*old(self), *final(self), sp_mult(old(self).tv(), old(self).pos as int), r),
            r.success ==> old(self).pos < final(self).pos,
            old(self).pos <= final(self).pos,
        decreases self.tokens@.len() - self.pos, 4int,
    {
        let res = self.literal_multiplication();
        if !res.success {
            return res;
        }
        let mut res = res;
        let mut term = res.nodes.pop().unwrap();
        while self.token.name == TokenName::Multiply || self.token.name == TokenName::Divide
            invariant
                self.wf(),
                self.tokens == old(self).tokens,
                old(self).pos < self.pos,
                sp_mult(old(self).tv(), old(self).pos as int) == sp_mult_rest(
                    self.tv(),
                    self.pos as int,
                    node_view(term),
                ),
            decreases self.tokens@.len() - self.pos,
        {
            let is_mul = self.token.name == TokenName::Multiply;
            self.advance();
            let res2 = self.literal_multiplication();
            if !res2.success {
                return self.failure(res2.exception);
            }
            let mut res2 = res2;
            let value = res2.nodes.pop().unwrap();
            term = if is_mul {
                term.mul(value)
            } else {
                term.div(value)
            };
        }
        self.success1(term)
    }

    /// The model of `addition_term`, run by the machine.
    fn addition_term(&mut self) -> (r: ParserResult)
        requires
            old(self).wf(),
        ensures
            final(self).wf(),
            steps_to(*old(self), *final(self), sp_add(old(self).tv(), old(self).pos as int), r),
            r.success ==> old(self).pos < final(self).pos,
            old(self).pos <= final(self).pos,
        decreases self.tokens@.len() - self.pos, 5int,
    {
        let res = self.multiplication_term();
        if !res.success {
            return res;
        }
        let mut res = res;
        let mut term = res.nodes.pop().unwrap();
        while self.token.name == TokenName::Add || self.token.name == TokenName::Subtract
            invariant
                self.wf(),
                self.tokens == old(self).tokens,
                old(self).pos < self.pos,
                sp_add(old(self).tv(), old(self).pos as int) == sp_add_rest(
                    self.tv(),
                    self.pos as int,
                    node_view(term),
                ),
            decreases self.tokens@.len() - self.pos,
        {
            let is_add = self.token.name == TokenName::Add;
            self.advance();
            let res2 = self.multiplication_term();
            if !res2.success {
                return self.failure(res2.exception);
            }
            let mut res2 = res2;
            let value = res2.nodes.pop().unwrap();
            term = if is_add {
                term.add(value)
            } else {
                term.sub(value)
            };
        }
        self.success1(term)
    }

    /// The model of `term`, run by the machine.
    fn term(&mut self) -> (r: ParserResult)
        requires
            old(self).wf(),
        ensures
            final(self).wf(),
            steps_to(*old(self), *final(self), sp_term(old(self).tv(), old(self).pos as int), r),
            r.success ==> old(self).pos < final(self).pos,
            old(self).pos <= final(self).pos,
        decreases self.tokens@.len() - self.pos, 6int,
    {
        self.addition_term()
    }

    /// The model of `expression`, run by the machine: a bare term is
    /// normalized to the equation `y = term`.
    fn expression(&mut self) -> (r: ParserResult)
        requires
            old(self).wf(),
        ensures
            final(self).wf(),
            steps_to(*old(self), *final(self), sp_expression(old(self).tv(), old(self).pos as int), r),
            r.success ==> old(self).pos < final(self).pos,
            old(self).pos <= final(self).pos,
    {
        let res = self.term();
        if !res.success {
            return res;
        }
        let mut res = res;
        let lhs = res.nodes.pop().unwrap();
        if self.token.name == TokenName::Equals {
            self.advance();
            let res2 = self.term();
            if !res2.success {
                return res2;
            }
            let mut res2 = res2;
            let rhs = res2.nodes.pop().unwrap();
            let range = lhs.range.combined(&rhs.range);
            self.success1(
                Node {
                    base: NodeBase::EqualsExpression {
                        left: Box::new(lhs),
                        right: Box::new(rhs),
                    },
                    range,
                },
            )
        } else {
            let range = lhs.range.combined(&lhs.range);
            let yvar = Node { base: NodeBase::Variable { name: 'y' }, range: lhs.range.duplicate() };
            proof {
                assert(node_view(yvar).base == (NodeBaseV::Variable { name: 'y' }));
                assert(node_view(yvar).range == lhs.range@);
            }
            self.success1(
                Node {
                    base: NodeBase::EqualsExpression {
                        left: Box::new(yvar),
                        right: Box::new(lhs),
                    },
                    range,
                },
            )
        }
    }

    /// A failed argument-list outcome with a literal message.
    fn fail_args(&self, msg: &str, at: &Range) -> (r: HeaderArgsResult)
        ensures
            !r.success,
            r.args@.len() == 0,
            r.exception@ == perr_v(ParserExceptionBase::MissingTokenException, msg@, at@),
    {
        HeaderArgsResult {
            success: false,
            args: Vec::new(),
            exception: ParserException {
                base: ParserExceptionBase::MissingTokenException,
                message: String::from_str(msg),
                range: at.duplicate(),
            },
        }
    }

    /// The model of `header_get_args`, run by the machine: `arg_count`
    /// signed integers separated by commas.
    fn header_get_args(&mut self, arg_count: usize) -> (r: HeaderArgsResult)
        requires
            old(self).wf(),
        ensures
            final(self).wf(),
            final(self).tokens == old(self).tokens,
            old(self).pos <= final(self).pos,
            final(self).pos as int == sp_get_args(
                old(self).tv(),
                old(self).pos as int,
                arg_count as nat,
            ).pos,
            (match sp_get_args(old(self).tv(), old(self).pos as int, arg_count as nat).out {
                Ok(vals) => r.success && r.args@ == vals && r.exception@ == no_parser_err_v(),
                Err(e) => !r.success && r.args@.len() == 0 && r.exception@ == e,
            }),
        decreases arg_count,
    {
        if arg_count == 0 {
            return HeaderArgsResult {
                success: true,
                args: Vec::new(),
                exception: ParserException {
                    base: ParserExceptionBase::NoException,
                    message: String::new(),
                    range: Range { filename: String::new(), start: 0, end: 0 },
                },
            };
        }
        let mut neg = false;
        if self.token.name == TokenName::Subtract {
            neg = true;
            self.advance();
        }
        if !(self.token.name == TokenName::Number) || !all_digits_vec(&self.token.value) {
            return self.fail_args("Expected (Integer, Minus) not found.", &self.token.range);
        }
        let val = int_arg(&self.token.value, neg);
        self.advance();
        if arg_count > 1 {
            if !(self.token.name == TokenName::Comma) {
                return self.fail_args("Expected (Comma) not found.", &self.token.range);
            }
            self.advance();
            let rest = self.header_get_args(arg_count - 1);
            if !rest.success {
                return rest;
            }
            let mut args: Vec<i32> = Vec::new();
            args.push(val);
            let mut rest = rest;
            args.append(&mut rest.args);
            proof {
                if let Ok(vals) = sp_get_args(
                    old(self).tv(),
                    old(self).pos as int,
                    arg_count as nat,
                ).out {
                    assert(args@ =~= vals);
                }
            }
            HeaderArgsResult {
                success: true,
                args,
                exception: ParserException {
                    base: ParserExceptionBase::NoException,
                    message: String::new(),
                    range: Range { filename: String::new(), start: 0, end: 0 },
                },
            }
        } else {
            let mut args: Vec<i32> = Vec::new();
            args.push(val);
            proof {
                if let Ok(vals) = sp_get_args(
                    old(self).tv(),
                    old(self).pos as int,
                    arg_count as nat,
                ).out {
                    assert(args@ =~= vals);
                }
            }
            HeaderArgsResult {
                success: true,
                args,
                exception: ParserException {
                    base: ParserExceptionBase::NoException,
                    message: String::new(),
                    range: Range { filename: String::new(), start: 0, end: 0 },
                },
            }
        }
    }
}

proof fn lemma_sp_get_args_len(t: Seq<TokenV>, p: int, count: nat)
    ensures
        (sp_get_args(t, p, count).out matches Ok(vals) ==> vals.len() == count),
    decreases count,
{
    if count > 0 {
        let neg = name_at(t, p) == TokenName::Subtract;
        let p1 = if neg {
            p + 1
        } else {
            p
        };
        if name_at(t, p1) == TokenName::Number && all_digits(t[p1].value) && count > 1 {
            lemma_sp_get_args_len(t, p1 + 1 + 1, (count - 1) as nat);
        }
    }
}

impl Parser {
    /// The model of `header_frame`, run by the machine: four signed integer
    /// arguments become a frame directive node.
    fn header_frame(&mut self) -> (r: ParserResult)
        requires
            old(self).wf(),
        ensures
            final(self).wf(),
            final(self).tokens == old(self).tokens,
            final(self).pos as int == sp_get_args(old(self).tv(), old(self).pos as int, 4).pos,
            old(self).pos <= final(self).pos,
            (match sp_get_args(old(self).tv(), old(self).pos as int, 4).out {
                Ok(vals) => r.success && r.nodes@.len() == 1 && node_view(r.nodes@[0]) == (NodeV {
                    base: NodeBaseV::HeaderFuncFrame {
                        x: vals[0],
                        y: vals[1],
                        w: vals[2],
                        h: vals[3],
                    },
                    range: RangeV {
                        filename: rng_at(old(self).tv(), old(self).pos as int).filename,
                        start: rng_at(old(self).tv(), old(self).pos as int).start,
                        end: rng_at(final(self).tv(), final(self).pos as int).end,
                    },
                }) && r.exception@ == no_parser_err_v(),
                Err(e) => !r.success && r.nodes@.len() == 0 && r.exception@ == e,
            }),
    {
        proof {
            lemma_sp_get_args_len(self.tv(), self.pos as int, 4);
        }
        let range = self.token.range.duplicate();
        let res = self.header_get_args(4);
        if !res.success {
            return self.failure(res.exception);
        }
        let node = Node {
            base: NodeBase::HeaderFuncFrame {
                x: res.args[0],
                y: res.args[1],
                w: res.args[2],
                h: res.args[3],
            },
            range: Range {
                filename: range.filename,
                start: range.start,
                end: self.token.range.end,
            },
        };
        self.success1(node)
    }

    /// The model of `header_resolution`, run by the machine: two signed
    /// integer arguments become a resolution directive node.
    fn header_resolution(&mut self) -> (r: ParserResult)
        requires
            old(self).wf(),
        ensures
            final(self).wf(),
            final(self).tokens == old(self).tokens,
            final(self).pos as int == sp_get_args(old(self).tv(), old(self).pos as int, 2).pos,
            old(self).pos <= final(self).pos,
            (match sp_get_args(old(self).tv(), old(self).pos as int, 2).out {
                Ok(vals) => r.success && r.nodes@.len() == 1 && node_view(r.nodes@[0]) == (NodeV {
                    base: NodeBaseV::HeaderFuncResolution { w: vals[0], h: vals[1] },
                    range: RangeV {
                        filename: rng_at(old(self).tv(), old(self).pos as int).filename,
                        start: rng_at(old(self).tv(), old(self).pos as int).start,
                        end: rng_at(final(self).tv(), final(self).pos as int).end,
                    },
                }) && r.exception@ == no_parser_err_v(),
                Err(e) => !r.success && r.nodes@.len() == 0 && r.exception@ == e,
            }),
    {
        proof {
            lemma_sp_get_args_len(self.tv(), self.pos as int, 2);
        }
        let range = self.token.range.duplicate();
        let res = self.header_get_args(2);
        if !res.success {
            return self.failure(res.exception);
        }
        let node = Node {
            base: NodeBase::HeaderFuncResolution { w: res.args[0], h: res.args[1] },
            range: Range {
                filename: range.filename,
                start: range.start,
                end: self.token.range.end,
            },
        };
        self.success1(node)
    }

    /// The model of `header_export`, run by the machine: one quoted string
    /// argument becomes an export directive node.
    fn header_export(&mut self) -> (r: ParserResult)
        requires
            old(self).wf(),
        ensures
            final(self).wf(),
            final(self).tokens == old(self).tokens,
            old(self).pos <= final(self).pos,
            (if name_at(old(self).tv(), old(self).pos as int) == TokenName::Text {
                &&& final(self).pos == old(self).pos + 1
                &&& r.success
                &&& r.nodes@.len() == 1
                &&& node_view(r.nodes@[0]) == (NodeV {
                    base: NodeBaseV::HeaderFuncExport {
                        filename: old(self).tv()[old(self).pos as int].value,
                    },
                    range: RangeV {
                        filename: rng_at(old(self).tv(), old(self).pos as int).filename,
                        start: rng_at(old(self).tv(), old(self).pos as int).start,
                        end: rng_at(old(self).tv(), old(self).pos as int + 1).end,
                    },
                })
                &&& r.exception@ == no_parser_err_v()
            } else {
                &&& final(self).pos == old(self).pos
                &&& !r.success
                &&& r.nodes@.len() == 0
                &&& r.exception@ == perr_v(
                    ParserExceptionBase::MissingTokenException,
                    "Expected (String) not found."@,
                    rng_at(old(self).tv(), old(self).pos as int),
                )
            }),
    {
        if !(self.token.name == TokenName::Text) {
            return self.fail_at(
                ParserExceptionBase::MissingTokenException,
                "Expected (String) not found.",
                &self.token.range,
            );
        }
        let range = self.token.range.duplicate();
        let filename = clone_chars(&self.token.value);
        self.advance();
        let node = Node {
            base: NodeBase::HeaderFuncExport { filename },
            range: Range {
                filename: range.filename,
                start: range.start,
                end: self.token.range.end,
            },
        };
        self.success1(node)
    }

    /// The model of `header_print_now`, run by the machine: no arguments.
    fn header_print_now(&mut self) -> (r: ParserResult)
        requires
            old(self).wf(),
        ensures
            final(self).wf(),
            final(self).tokens == old(self).tokens,
            final(self).pos == old(self).pos,
            r.success,
            r.nodes@.len() == 1,
            node_view(r.nodes@[0]) == (NodeV {
                base: NodeBaseV::HeaderFuncPrintNow,
                range: RangeV {
                    filename: rng_at(old(self).tv(), old(self).pos as int).filename,
                    start: rng_at(old(self).tv(), old(self).pos as int).start,
                    end: rng_at(old(self).tv(), old(self).pos as int).end,
                },
            }),
            r.exception@ == no_parser_err_v(),
    {
        let range = self.token.range.duplicate();
        let node = Node {
            base: NodeBase::HeaderFuncPrintNow,
            range: Range {
                filename: range.filename,
                start: range.start,
                end: self.token.range.end,
            },
        };
        self.success1(node)
    }

    /// The model of `header`, run by the machine: `#`, a directive name,
    /// and its parenthesized arguments.
    fn header(&mut self) -> (r: ParserResult)
        requires
            old(self).wf(),
            old(self).token@.name == TokenName::Header,
        ensures
            final(self).wf(),
            steps_to(*old(self), *final(self), sp_header(old(self).tv(), old(self).pos as int), r),
            r.success ==> old(self).pos < final(self).pos,
            old(self).pos <= final(self).pos,
    {
        self.advance();
        if !(self.token.name == TokenName::HeadFunc) {
            return self.fail_at(
                ParserExceptionBase::MissingTokenException,
                "Expected (HeadFunc) not found.",
                &self.token.range,
            );
        }
        let func = clone_chars(&self.token.value);
        self.advance();
        if !(self.token.name == TokenName::LParen) {
            return self.fail_at(
                ParserExceptionBase::MissingTokenException,
                "Expected (LeftParen) not found.",
                &self.token.range,
            );
        }
        self.advance();
        let res = if chars_eq_str(&func, "frame") {
            self.header_frame()
        } else if chars_eq_str(&func, "resolution") {
            self.header_resolution()
        } else if chars_eq_str(&func, "export") {
            self.header_export()
        } else if chars_eq_str(&func, "print_now") {
            self.header_print_now()
        } else {
            let mut msg = String::from_str("Invalid header function found: `");
            let fs = crate::data::chars_to_string(&func);
            msg.append(fs.as_str());
            msg.append("`");
            proof {
                assert(msg@ =~= "Invalid header function found: `"@ + func@ + "`"@);
            }
            return self.failure(
                ParserException {
                    base: ParserExceptionBase::InternalException,
                    message: msg,
                    range: self.token.range.duplicate(),
                },
            );
        };
        if !res.success {
            return res;
        }
        if !(self.token.name == TokenName::RParen) {
            return self.fail_at(
                ParserExceptionBase::MissingTokenException,
                "Expected (RightParen) not found.",
                &self.token.range,
            );
        }
        self.advance();
        res
    }

    /// The model of `parse`, run by the machine: statements separated by
    /// end-of-line markers until the end-of-file marker.
    #[verifier::rlimit(100)]
    fn parse(&mut self) -> (r: ParserResult)
        requires
            old(self).wf(),
        ensures
            final(self).wf(),
            final(self).tokens == old(self).tokens,
            final(self).pos as int == sp_program(old(self).tv(), old(self).pos as int).pos,
            (match sp_program(old(self).tv(), old(self).pos as int).out {
                Ok(ns) => r.success && nodes_v(r.nodes@) == ns && r.exception@
                    == no_parser_err_v(),
                Err(e) => !r.success && r.nodes@.len() == 0 && r.exception@ == e,
            }),
    {
        let mut nodes: Vec<Node> = Vec::new();
        proof {
            assert(nodes_v(nodes@) =~= Seq::<NodeV>::empty());
        }
        while !(self.token.name == TokenName::Eof)
            invariant
                self.wf(),
                self.tokens == old(self).tokens,
                prepend_nodes(nodes_v(nodes@), sp_program(self.tv(), self.pos as int))
                    == sp_program(old(self).tv(), old(self).pos as int),
            decreases self.tokens@.len() - self.pos,
        {
            let ghost p_head = self.pos;
            while self.token.name == TokenName::Eol
                invariant
                    self.wf(),
                    self.tokens == old(self).tokens,
                    p_head <= self.pos,
                    prepend_nodes(nodes_v(nodes@), sp_program(self.tv(), self.pos as int))
                        == sp_program(old(self).tv(), old(self).pos as int),
                decreases self.tokens@.len() - self.pos,
            {
                self.advance();
            }
            if self.token.name == TokenName::Eof {
                proof {
                    assert(nodes_v(nodes@) + Seq::<NodeV>::empty() =~= nodes_v(nodes@));
                }
                return self.success(nodes);
            }
            let res = if self.token.name == TokenName::Header {
                self.header()
            } else {
                self.expression()
            };
            if !res.success {
                return res;
            }
            let mut res = res;
            let node = res.nodes.pop().unwrap();
            if !(self.token.name == TokenName::Eol) {
                return self.fail_at(
                    ParserExceptionBase::MissingTokenException,
                    "Expected (EOL) not found.",
                    &self.token.range,
                );
            }
            let ghost nodes0 = nodes@;
            nodes.push(node);
            proof {
                assert(nodes_v(nodes@) =~= nodes_v(nodes0).push(node_view(node)));
                let restv = sp_program(self.tv(), self.pos as int + 1);
                if let Ok(b) = restv.out {
                    assert(nodes_v(nodes0) + (seq![node_view(node)] + b) =~= nodes_v(
                        nodes0,
                    ).push(node_view(node)) + b);
                }
            }
            self.advance();
        }
        proof {
            assert(nodes_v(nodes@) + Seq::<NodeV>::empty() =~= nodes_v(nodes@));
        }
        self.success(nodes)
    }
}

/// Joins already-parsed nodes onto a remaining scan's outcome; a diagnostic
/// swallows them, as the parser's failure does.
pub open spec fn prepend_nodes(a: Seq<NodeV>, rest: SpResN) -> SpResN {
    match rest.out {
        Ok(b) => SpResN { out: Ok(a + b), pos: rest.pos },
        Err(_) => rest,
    }
}

/// Whether a token stream ends in exactly one end-of-file marker.
fn stream_wf_check(tokens: &Vec<Token>) -> (r: bool)
    ensures
        r == stream_wf(toks_v(tokens@)),
{
    let n = tokens.len();
    proof {
        assert(toks_v(tokens@).len() == tokens@.len());
    }
    if n < 1 {
        return false;
    }
    if !(tokens[n - 1].name == TokenName::Eof) {
        proof {
            assert(toks_v(tokens@)[n - 1 as int].name == tokens@[n - 1 as int]@.name);
        }
        return false;
    }
    proof {
        assert(toks_v(tokens@)[n - 1 as int].name == TokenName::Eof);
    }
    let mut i: usize = 0;
    while i < n - 1
        invariant
            n == tokens@.len(),
            n >= 1,
            i <= n - 1,
            toks_v(tokens@).len() == n,
            toks_v(tokens@)[n - 1 as int].name == TokenName::Eof,
            forall|k: int| 0 <= k < i ==> toks_v(tokens@)[k].name != TokenName::Eof,
        decreases n - i,
    {
        if tokens[i].name == TokenName::Eof {
            proof {
                assert(toks_v(tokens@)[i as int].name == TokenName::Eof);
            }
            return false;
        }
        proof {
            assert(toks_v(tokens@)[i as int].name == tokens@[i as int]@.name);
        }
        i = i + 1;
    }
    true
}

/// Parses a whole token stream, exactly as the model [`sp_program`] says
/// from position zero. A stream that does not end in one final end-of-file
/// marker is refused outright; the lexer never produces one.
pub fn parse(tokens: Vec<Token>) -> (r: ParserResult)
    ensures
        stream_wf(toks_v(tokens@)) ==> (match sp_program(toks_v(tokens@), 0).out {
            Ok(ns) => r.success && nodes_v(r.nodes@) == ns && r.exception@ == no_parser_err_v(),
            Err(e) => !r.success && r.nodes@.len() == 0 && r.exception@ == e,
        }),
        !stream_wf(toks_v(tokens@)) ==> !r.success && r.nodes@.len() == 0 && r.exception@
            == perr_v(
            ParserExceptionBase::InternalException,
            "Token stream is not terminated."@,
            RangeV { filename: Seq::empty(), start: 0, end: 0 },
        ),
{
    let ok = stream_wf_check(&tokens);
    if !ok {
        return ParserResult {
            success: false,
            nodes: Vec::new(),
            exception: ParserException {
                base: ParserExceptionBase::InternalException,
                message: String::from_str("Token stream is not terminated."),
                range: Range { filename: String::new(), start: 0, end: 0 },
            },
        };
    }
    let mut parser = Parser {
        tokens,
        pos: 0,
        token: Token {
            name: TokenName::Null,
            value: Vec::new(),
            range: Range { filename: String::new(), start: 0, end: 0 },
        },
    };
    parser.init();
    parser.parse()
}

/// Whether every character of a token's text is a digit.
fn all_digits_vec(s: &Vec<char>) -> (r: bool)
    ensures
        r == all_digits(s@),
{
    let n = s.len();
    let mut i: usize = 0;
    while i < n
        invariant
            i <= n,
            n == s@.len(),
            forall|k: int| 0 <= k < i ==> is_digit_tok_c(s@[k]),
        decreases n - i,
    {
        let c = s[i];
        if !('0' <= c && c <= '9') {
            proof {
                assert(!is_digit_tok_c(s@[i as int]));
            }
            return false;
        }
        i = i + 1;
    }
    true
}

/// Reads the integer part of a numeral, capped for fixed-point range.
fn ipart_scan(s: &Vec<char>, i: usize, acc: i64) -> (r: (usize, i64))
    requires
        i <= s@.len(),
        0 <= acc <= 4_611_686_018_427,
    ensures
        r.0 as int == ipart_end(s@, i as int),
        r.1 as int == int_acc(s@, i as int, acc as int),
        i <= r.0 <= s@.len(),
        0 <= r.1 <= 4_611_686_018_427,
    decreases s@.len() - i,
{
    if i == s.len() {
        (i, acc)
    } else {
        let c = s[i];
        if '0' <= c && c <= '9' {
            let d: i64 = (c as u32) as i64 - ('0' as u32) as i64;
            let a2 = acc * 10 + d;
            let a3 = if a2 > 4_611_686_018_427 {
                4_611_686_018_427
            } else {
                a2
            };
            ipart_scan(s, i + 1, a3)
        } else {
            (i, acc)
        }
    }
}

/// Reads the fraction part of a numeral: up to six weighted digits.
fn frac_scan(s: &Vec<char>, i: usize, w: i64, acc: i64) -> (r: i64)
    requires
        i <= s@.len(),
        0 <= w <= 100_000,
        0 <= acc,
        acc + 10 * w <= 2_000_000,
    ensures
        r as int == frac_acc(s@, i as int, w as int, acc as int),
        0 <= r <= 2_000_000,
    decreases s@.len() - i,
{
    if i == s.len() {
        acc
    } else {
        let c = s[i];
        if ('0' <= c && c <= '9') && w != 0 {
            let d: i64 = (c as u32) as i64 - ('0' as u32) as i64;
            proof {
                assert(0 <= d * w <= 9 * w) by (nonlinear_arith)
                    requires
                        0 <= d <= 9,
                        0 <= w,
                ;
                assert(10 * (w / 10) <= w) by (nonlinear_arith)
                    requires
                        w >= 1,
                ;
            }
            frac_scan(s, i + 1, w / 10, acc + d * w)
        } else {
            acc
        }
    }
}

/// The fixed-point value of a numeral token's text.
fn numeral_fx(s: &Vec<char>) -> (v: i64)
    ensures
        v == numeral_fx_s(s@),
{
    let (e, ip) = ipart_scan(s, 0, 0);
    let fr: i64 = if e < s.len() && s[e] == '.' {
        frac_scan(s, e + 1, 100_000, 0)
    } else {
        0
    };
    let v = ip * 1_000_000 + fr;
    if v > crate::data::FX_MAX {
        crate::data::FX_MAX
    } else {
        v
    }
}

/// Digits read left to right, saturating at the largest 32-bit value.
fn int32_scan(s: &Vec<char>, i: usize, acc: i64) -> (r: i64)
    requires
        i <= s@.len(),
        0 <= acc <= 2_147_483_647,
    ensures
        r as int == int_acc32(s@, i as int, acc as int),
        0 <= r <= 2_147_483_647,
    decreases s@.len() - i,
{
    if i == s.len() {
        acc
    } else {
        let c = s[i];
        if '0' <= c && c <= '9' {
            let d: i64 = (c as u32) as i64 - ('0' as u32) as i64;
            let a2 = acc * 10 + d;
            let a3 = if a2 > 2_147_483_647 {
                2_147_483_647
            } else {
                a2
            };
            int32_scan(s, i + 1, a3)
        } else {
            acc
        }
    }
}

/// The signed saturating 32-bit value of a directive argument.
fn int_arg(s: &Vec<char>, neg: bool) -> (v: i32)
    ensures
        v == int_arg_s(s@, neg),
{
    let m = int32_scan(s, 0, 0);
    if neg {
        -(m as i32)
    } else {
        m as i32
    }
}

} // verus!
