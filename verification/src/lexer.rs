//! The lexer: turns script text into a token stream. The whole scan is
//! modelled by the spec function [`lex_from`], and the executable lexer is
//! proved to return exactly what the model says.

use vstd::prelude::*;
use vstd::string::StringExecFns;
use crate::data::{escapify, escapify_char, escapify_seq, char_to_string, string_to_chars, chars_eq_str, Range, RangeV};
use crate::exceptions::{LexerException, LexerExceptionBase, LexerExceptionV};
use crate::tokens::{toks_v, Token, TokenName, TokenV};

verus! {

/// Lowercase letters, the only letters the language knows.
pub open spec fn is_alpha_c(c: char) -> bool {
    'a' <= c && c <= 'z'
}

/// Characters an identifier run may continue with.
pub open spec fn is_ident_c(c: char) -> bool {
    is_alpha_c(c) || c == '_'
}

/// Decimal digits.
pub open spec fn is_digit_c(c: char) -> bool {
    '0' <= c && c <= '9'
}

/// Characters a numeral run may continue with: digits, the non-semantic
/// `_` separator, and one `.`.
pub open spec fn is_num_c(c: char, seen_dot: bool) -> bool {
    is_digit_c(c) || c == '_' || (c == '.' && !seen_dot)
}

/// The directive names.
pub open spec fn is_headfunc_name(s: Seq<char>) -> bool {
    s == "frame"@ || s == "resolution"@ || s == "export"@ || s == "print_now"@
}

/// The expression function names.
pub open spec fn is_function_name(s: Seq<char>) -> bool {
    s == "sin"@ || s == "cos"@ || s == "tan"@ || s == "root"@ || s == "pow"@
}

/// A source range in the given file.
pub open spec fn at_v(fname: Seq<char>, start: int, end: int) -> RangeV {
    RangeV { filename: fname, start, end }
}

/// A token view.
pub open spec fn tok_v(name: TokenName, value: Seq<char>, range: RangeV) -> TokenV {
    TokenV { name, value, range }
}

/// A lexer diagnostic view.
pub open spec fn lex_err_v(
    base: LexerExceptionBase,
    message: Seq<char>,
    fname: Seq<char>,
    start: int,
    end: int,
) -> LexerExceptionV {
    LexerExceptionV { base, message, range: at_v(fname, start, end) }
}

/// The message an illegal character produces.
pub open spec fn illegal_char_msg(c: char) -> Seq<char> {
    "Illegal character `"@ + escapify_char(c) + "` was found."@
}

/// Where the identifier run starting at `pos` ends.
pub open spec fn ident_end(cs: Seq<char>, pos: int) -> int
    decreases cs.len() - pos,
        when 0 <= pos <= cs.len()
{
    if pos == cs.len() || !is_ident_c(cs[pos]) {
        pos
    } else {
        ident_end(cs, pos + 1)
    }
}

pub proof fn lemma_ident_end(cs: Seq<char>, pos: int)
    requires
        0 <= pos <= cs.len(),
    ensures
        pos <= ident_end(cs, pos) <= cs.len(),
    decreases cs.len() - pos,
{
    if !(pos == cs.len() || !is_ident_c(cs[pos])) {
        lemma_ident_end(cs, pos + 1);
    }
}

/// Where the numeral run starting at `pos` ends, given whether a `.` was
/// already consumed.
pub open spec fn num_end(cs: Seq<char>, pos: int, seen_dot: bool) -> int
    decreases cs.len() - pos,
        when 0 <= pos <= cs.len()
{
    if pos == cs.len() || !is_num_c(cs[pos], seen_dot) {
        pos
    } else {
        num_end(cs, pos + 1, seen_dot || cs[pos] == '.')
    }
}

pub proof fn lemma_num_end(cs: Seq<char>, pos: int, seen_dot: bool)
    requires
        0 <= pos <= cs.len(),
    ensures
        pos <= num_end(cs, pos, seen_dot) <= cs.len(),
    decreases cs.len() - pos,
{
    if !(pos == cs.len() || !is_num_c(cs[pos], seen_dot)) {
        lemma_num_end(cs, pos + 1, seen_dot || cs[pos] == '.');
    }
}

/// The cleaned text of the numeral run: its characters without the `_`
/// separators.
pub open spec fn num_text(cs: Seq<char>, pos: int, seen_dot: bool) -> Seq<char>
    decreases cs.len() - pos,
        when 0 <= pos <= cs.len()
{
    if pos == cs.len() || !is_num_c(cs[pos], seen_dot) {
        Seq::empty()
    } else if cs[pos] == '_' {
        num_text(cs, pos + 1, seen_dot)
    } else {
        seq![cs[pos]] + num_text(cs, pos + 1, seen_dot || cs[pos] == '.')
    }
}

/// Scan of a quoted string body from `pos`, with `acc` already read: ends
/// in the string's value and the position after the closing quote, or in a
/// diagnostic for a bad escape or an unterminated string.
pub open spec fn str_scan(
    fname: Seq<char>,
    cs: Seq<char>,
    pos: int,
    acc: Seq<char>,
) -> Result<(Seq<char>, int), LexerExceptionV>
    decreases cs.len() - pos,
        when 0 <= pos <= cs.len()
{
    if pos == cs.len() || cs[pos] == '\n' {
        Err(lex_err_v(
            LexerExceptionBase::EndException,
            "Unterminated string was found."@,
            fname,
            pos,
            pos,
        ))
    } else if cs[pos] == '\\' {
        if pos + 1 == cs.len() {
            Err(lex_err_v(
                LexerExceptionBase::EndException,
                "Unterminated string was found."@,
                fname,
                pos + 1,
                pos + 1,
            ))
        } else {
            let e = cs[pos + 1];
            if e == '\\' {
                str_scan(fname, cs, pos + 2, acc.push('\\'))
            } else if e == 'n' || e == '\n' {
                str_scan(fname, cs, pos + 2, acc.push('\n'))
            } else if e == 't' {
                str_scan(fname, cs, pos + 2, acc.push('\t'))
            } else if e == '\'' {
                str_scan(fname, cs, pos + 2, acc.push('\''))
            } else if e == '"' {
                str_scan(fname, cs, pos + 2, acc.push('"'))
            } else {
                Err(lex_err_v(
                    LexerExceptionBase::EscapeException,
                    "Invalid escape character was found."@,
                    fname,
                    pos,
                    pos + 1,
                ))
            }
        }
    } else if cs[pos] == '"' {
        Ok((acc, pos + 1))
    } else {
        str_scan(fname, cs, pos + 1, acc.push(cs[pos]))
    }
}

pub proof fn lemma_str_scan_end(fname: Seq<char>, cs: Seq<char>, pos: int, acc: Seq<char>)
    requires
        0 <= pos <= cs.len(),
    ensures
        str_scan(fname, cs, pos, acc) matches Ok((v, e)) ==> pos < e <= cs.len(),
    decreases cs.len() - pos,
{
    if pos == cs.len() || cs[pos] == '\n' {
    } else if cs[pos] == '\\' {
        if pos + 1 < cs.len() {
            let e = cs[pos + 1];
            if e == '\\' {
                lemma_str_scan_end(fname, cs, pos + 2, acc.push('\\'));
            } else if e == 'n' || e == '\n' {
                lemma_str_scan_end(fname, cs, pos + 2, acc.push('\n'));
            } else if e == 't' {
                lemma_str_scan_end(fname, cs, pos + 2, acc.push('\t'));
            } else if e == '\'' {
                lemma_str_scan_end(fname, cs, pos + 2, acc.push('\''));
            } else if e == '"' {
                lemma_str_scan_end(fname, cs, pos + 2, acc.push('"'));
            }
        }
    } else if cs[pos] == '"' {
    } else {
        lemma_str_scan_end(fname, cs, pos + 1, acc.push(cs[pos]));
    }
}

/// The run of single-character variable tokens an unknown identifier
/// splits into.
pub open spec fn var_toks(fname: Seq<char>, cs: Seq<char>, pos: int, end: int) -> Seq<TokenV> {
    Seq::new((end - pos) as nat, |i: int| tok_v(
        TokenName::Variable,
        seq![cs[pos + i]],
        at_v(fname, pos + i, pos + i),
    ))
}

/// Prepends one token to a scan outcome, keeping a diagnostic as it is.
pub open spec fn lex_cons(
    t: TokenV,
    rest: Result<Seq<TokenV>, LexerExceptionV>,
) -> Result<Seq<TokenV>, LexerExceptionV> {
    match rest {
        Ok(ts) => Ok(seq![t] + ts),
        Err(e) => Err(e),
    }
}

/// The whole scan from `pos`: the remaining tokens, closed by one
/// end-of-line and one end-of-file marker, or the first diagnostic.
pub open spec fn lex_from(fname: Seq<char>, cs: Seq<char>, pos: int) -> Result<
    Seq<TokenV>,
    LexerExceptionV,
>
    decreases cs.len() - pos,
        when 0 <= pos <= cs.len()
        via lex_from_decreases
{
    if pos == cs.len() {
        Ok(seq![
            tok_v(TokenName::Eol, Seq::empty(), at_v(fname, pos, pos)),
            tok_v(TokenName::Eof, Seq::empty(), at_v(fname, pos, pos)),
        ])
    } else {
        let c = cs[pos];
        if c == ' ' || c == '\t' {
            lex_from(fname, cs, pos + 1)
        } else if c == '\n' {
            lex_cons(
                tok_v(TokenName::Eol, Seq::empty(), at_v(fname, pos, pos)),
                lex_from(fname, cs, pos + 1),
            )
        } else if is_alpha_c(c) {
            let e = ident_end(cs, pos);
            let idt = cs.subrange(pos, e);
            if is_headfunc_name(idt) {
                lex_cons(tok_v(TokenName::HeadFunc, idt, at_v(fname, pos, e)), lex_from(fname, cs, e))
            } else if is_function_name(idt) {
                lex_cons(tok_v(TokenName::Function, idt, at_v(fname, pos, e)), lex_from(fname, cs, e))
            } else {
                match lex_from(fname, cs, e) {
                    Ok(ts) => Ok(var_toks(fname, cs, pos, e) + ts),
                    Err(er) => Err(er),
                }
            }
        } else if is_digit_c(c) {
            let e = num_end(cs, pos, false);
            lex_cons(
                tok_v(TokenName::Number, num_text(cs, pos, false), at_v(fname, pos, e)),
                lex_from(fname, cs, e),
            )
        } else if c == '"' {
            match str_scan(fname, cs, pos + 1, Seq::empty()) {
                Ok((v, e)) => lex_cons(
                    tok_v(TokenName::Text, v, at_v(fname, pos, e)),
                    lex_from(fname, cs, e),
                ),
                Err(er) => Err(er),
            }
        } else if c == '=' {
            lex_cons(
                tok_v(TokenName::Equals, Seq::empty(), at_v(fname, pos, pos)),
                lex_from(fname, cs, pos + 1),
            )
        } else if c == '+' {
            lex_cons(
                tok_v(TokenName::Add, Seq::empty(), at_v(fname, pos, pos)),
                lex_from(fname, cs, pos + 1),
            )
        } else if c == '-' {
            lex_cons(
                tok_v(TokenName::Subtract, Seq::empty(), at_v(fname, pos, pos)),
                lex_from(fname, cs, pos + 1),
            )
        } else if c == '*' {
            lex_cons(
                tok_v(TokenName::Multiply, Seq::empty(), at_v(fname, pos, pos)),
                lex_from(fname, cs, pos + 1),
            )
        } else if c == '/' {
            lex_cons(
                tok_v(TokenName::Divide, Seq::empty(), at_v(fname, pos, pos)),
                lex_from(fname, cs, pos + 1),
            )
        } else if c == '(' {
            lex_cons(
                tok_v(TokenName::LParen, Seq::empty(), at_v(fname, pos, pos)),
                lex_from(fname, cs, pos + 1),
            )
        } else if c == ')' {
            lex_cons(
                tok_v(TokenName::RParen, Seq::empty(), at_v(fname, pos, pos)),
                lex_from(fname, cs, pos + 1),
            )
        } else if c == '#' {
            lex_cons(
                tok_v(TokenName::Header, Seq::empty(), at_v(fname, pos, pos)),
                lex_from(fname, cs, pos + 1),
            )
        } else if c == ',' {
            lex_cons(
                tok_v(TokenName::Comma, Seq::empty(), at_v(fname, pos, pos)),
                lex_from(fname, cs, pos + 1),
            )
        } else {
            Err(lex_err_v(
                LexerExceptionBase::IllegalCharacterException,
                illegal_char_msg(c),
                fname,
                pos,
                pos,
            ))
        }
    }
}

proof fn lemma_push_concat<T>(a: Seq<T>, x: T, b: Seq<T>)
    ensures
        a.push(x) + b == a + (seq![x] + b),
{
    assert(a.push(x) + b =~= a + (seq![x] + b));
}

proof fn lemma_toks_v_push(s: Seq<Token>, t: Token)
    ensures
        toks_v(s.push(t)) == toks_v(s).push(t@),
{
    assert(toks_v(s.push(t)) =~= toks_v(s).push(t@));
}

/// A token with a freshly cloned filename in its range.
fn mk_token(name: TokenName, value: Vec<char>, filename: &String, start: usize, end: usize) -> (t:
    Token)
    ensures
        t@ == tok_v(name, value@, at_v(filename@, start as int, end as int)),
{
    Token { name, value, range: Range { filename: filename.clone(), start, end } }
}

/// A lexer diagnostic with the given literal message.
fn mk_lex_err(
    base: LexerExceptionBase,
    msg: &str,
    filename: &String,
    start: usize,
    end: usize,
) -> (x: LexerException)
    ensures
        x@ == lex_err_v(base, msg@, filename@, start as int, end as int),
{
    LexerException {
        base,
        message: String::from_str(msg),
        range: Range { filename: filename.clone(), start, end },
    }
}

/// The diagnostic message naming an illegal character.
fn illegal_msg_of(c: char) -> (m: String)
    ensures
        m@ == illegal_char_msg(c),
{
    let mut m = String::from_str("Illegal character `");
    let esc = escapify(char_to_string(c));
    m.append(esc.as_str());
    m.append("` was found.");
    proof {
        assert(seq![c].drop_first() =~= Seq::<char>::empty());
        assert(escapify_seq(seq![c]) == escapify_char(c) + escapify_seq(Seq::<char>::empty()));
        assert(m@ =~= illegal_char_msg(c));
    }
    m
}

/// Reads an identifier run, appending its characters to `id`.
fn scan_ident(cs: &Vec<char>, pos: usize, id: &mut Vec<char>) -> (e: usize)
    requires
        pos <= cs@.len(),
    ensures
        e as int == ident_end(cs@, pos as int),
        pos <= e <= cs@.len(),
        final(id)@ == old(id)@ + cs@.subrange(pos as int, e as int),
    decreases cs@.len() - pos,
{
    if pos == cs.len() {
        proof {
            assert(cs@.subrange(pos as int, pos as int) =~= Seq::<char>::empty());
            assert(id@ + Seq::<char>::empty() =~= id@);
        }
        pos
    } else {
        let c = cs[pos];
        if ('a' <= c && c <= 'z') || c == '_' {
            id.push(c);
            let e = scan_ident(cs, pos + 1, id);
            proof {
                assert(ident_end(cs@, pos as int) == ident_end(cs@, pos + 1 as int));
                assert(old(id)@.push(c) + cs@.subrange(pos + 1 as int, e as int) =~= old(id)@
                    + cs@.subrange(pos as int, e as int));
            }
            e
        } else {
            proof {
                assert(cs@.subrange(pos as int, pos as int) =~= Seq::<char>::empty());
                assert(id@ + Seq::<char>::empty() =~= id@);
            }
            pos
        }
    }
}

/// Reads a numeral run, appending its cleaned text to `text`.
fn scan_num(cs: &Vec<char>, pos: usize, seen_dot: bool, text: &mut Vec<char>) -> (e: usize)
    requires
        pos <= cs@.len(),
    ensures
        e as int == num_end(cs@, pos as int, seen_dot),
        pos <= e <= cs@.len(),
        final(text)@ == old(text)@ + num_text(cs@, pos as int, seen_dot),
    decreases cs@.len() - pos,
{
    if pos == cs.len() {
        proof {
            assert(text@ + Seq::<char>::empty() =~= text@);
        }
        pos
    } else {
        let c = cs[pos];
        if ('0' <= c && c <= '9') || c == '_' || (c == '.' && !seen_dot) {
            if c == '_' {
                scan_num(cs, pos + 1, seen_dot, text)
            } else {
                text.push(c);
                let e = scan_num(cs, pos + 1, seen_dot || c == '.', text);
                proof {
                    assert(old(text)@.push(c) + num_text(
                        cs@,
                        pos + 1 as int,
                        seen_dot || c == '.',
                    ) =~= old(text)@ + (seq![c] + num_text(cs@, pos + 1 as int, seen_dot || c
                        == '.')));
                }
                e
            }
        } else {
            proof {
                assert(text@ + Seq::<char>::empty() =~= text@);
            }
            pos
        }
    }
}

/// Reads a quoted string body, appending its value to `acc`; returns the
/// position after the closing quote, or the diagnostic the model gives.
fn scan_text(filename: &String, cs: &Vec<char>, pos: usize, acc: &mut Vec<char>) -> (r: Result<
    usize,
    LexerException,
>)
    requires
        pos <= cs@.len(),
    ensures
        match str_scan(filename@, cs@, pos as int, old(acc)@) {
            Ok((v, e)) => r matches Ok(e2) && e2 as int == e && final(acc)@ == v && pos < e2
                <= cs@.len(),
            Err(er) => r matches Err(ex) && ex@ == er,
        },
    decreases cs@.len() - pos,
{
    proof {
        lemma_str_scan_end(filename@, cs@, pos as int, acc@);
    }
    if pos == cs.len() {
        Err(mk_lex_err(
            LexerExceptionBase::EndException,
            "Unterminated string was found.",
            filename,
            pos,
            pos,
        ))
    } else {
        let c = cs[pos];
        if c == '\n' {
            Err(mk_lex_err(
                LexerExceptionBase::EndException,
                "Unterminated string was found.",
                filename,
                pos,
                pos,
            ))
        } else if c == '\\' {
            if pos + 1 == cs.len() {
                Err(mk_lex_err(
                    LexerExceptionBase::EndException,
                    "Unterminated string was found.",
                    filename,
                    pos + 1,
                    pos + 1,
                ))
            } else {
                let e = cs[pos + 1];
                if e == '\\' {
                    acc.push('\\');
                    scan_text(filename, cs, pos + 2, acc)
                } else if e == 'n' || e == '\n' {
                    acc.push('\n');
                    scan_text(filename, cs, pos + 2, acc)
                } else if e == 't' {
                    acc.push('\t');
                    scan_text(filename, cs, pos + 2, acc)
                } else if e == '\'' {
                    acc.push('\'');
                    scan_text(filename, cs, pos + 2, acc)
                } else if e == '"' {
                    acc.push('"');
                    scan_text(filename, cs, pos + 2, acc)
                } else {
                    Err(mk_lex_err(
                        LexerExceptionBase::EscapeException,
                        "Invalid escape character was found.",
                        filename,
                        pos,
                        pos + 1,
                    ))
                }
            }
        } else if c == '"' {
            Ok(pos + 1)
        } else {
            acc.push(c);
            scan_text(filename, cs, pos + 1, acc)
        }
    }
}

/// Whether an identifier spells a directive name.
fn is_headfunc_vec(v: &Vec<char>) -> (r: bool)
    ensures
        r == is_headfunc_name(v@),
{
    chars_eq_str(v, "frame") || chars_eq_str(v, "resolution") || chars_eq_str(v, "export")
        || chars_eq_str(v, "print_now")
}

/// Whether an identifier spells an expression function name.
fn is_function_vec(v: &Vec<char>) -> (r: bool)
    ensures
        r == is_function_name(v@),
{
    chars_eq_str(v, "sin") || chars_eq_str(v, "cos") || chars_eq_str(v, "tan") || chars_eq_str(
        v,
        "root",
    ) || chars_eq_str(v, "pow")
}

/// A vector holding one character.
fn one_char_vec(c: char) -> (r: Vec<char>)
    ensures
        r@ == seq![c],
{
    let mut v: Vec<char> = Vec::new();
    v.push(c);
    proof {
        assert(v@ =~= seq![c]);
    }
    v
}

/// The scanner behind [`lex`]: appends the tokens from `pos` on to `out`,
/// exactly as [`lex_from`] describes, or returns the model's diagnostic.
fn lex_rec(filename: &String, cs: &Vec<char>, pos: usize, out: &mut Vec<Token>) -> (r: Option<
    LexerException,
>)
    requires
        pos <= cs@.len(),
    ensures
        match lex_from(filename@, cs@, pos as int) {
            Ok(ts) => r is None && toks_v(final(out)@) == toks_v(old(out)@) + ts,
            Err(er) => r matches Some(ex) && ex@ == er,
        },
    decreases cs@.len() - pos,
{
    if pos == cs.len() {
        let t1 = mk_token(TokenName::Eol, Vec::new(), filename, pos, pos);
        out.push(t1);
        let t2 = mk_token(TokenName::Eof, Vec::new(), filename, pos, pos);
        out.push(t2);
        proof {
            lemma_toks_v_push(old(out)@, t1);
            lemma_toks_v_push(old(out)@.push(t1), t2);
            assert(toks_v(old(out)@).push(t1@).push(t2@) =~= toks_v(old(out)@) + seq![t1@, t2@]);
        }
        None
    } else {
        let c = cs[pos];
        if c == ' ' || c == '\t' {
            lex_rec(filename, cs, pos + 1, out)
        } else if 'a' <= c && c <= 'z' {
            let mut id: Vec<char> = Vec::new();
            let e = scan_ident(cs, pos, &mut id);
            proof {
                assert(ident_end(cs@, pos as int) == ident_end(cs@, pos + 1 as int));
                lemma_ident_end(cs@, pos + 1 as int);
                assert(Seq::<char>::empty() + cs@.subrange(pos as int, e as int) =~= cs@.subrange(
                    pos as int,
                    e as int,
                ));
            }
            if is_headfunc_vec(&id) {
                let t = mk_token(TokenName::HeadFunc, id, filename, pos, e);
                out.push(t);
                proof {
                    lemma_toks_v_push(old(out)@, t);
                }
                let r = lex_rec(filename, cs, e, out);
                proof {
                    if let Ok(ts) = lex_from(filename@, cs@, e as int) {
                        lemma_push_concat(toks_v(old(out)@), t@, ts);
                    }
                }
                r
            } else if is_function_vec(&id) {
                let t = mk_token(TokenName::Function, id, filename, pos, e);
                out.push(t);
                proof {
                    lemma_toks_v_push(old(out)@, t);
                }
                let r = lex_rec(filename, cs, e, out);
                proof {
                    if let Ok(ts) = lex_from(filename@, cs@, e as int) {
                        lemma_push_concat(toks_v(old(out)@), t@, ts);
                    }
                }
                r
            } else {
                let ghost out0 = out@;
                let mut k = pos;
                while k < e
                    invariant
                        pos <= k <= e,
                        e <= cs@.len(),
                        toks_v(out@) == toks_v(out0) + var_toks(
                            filename@,
                            cs@,
                            pos as int,
                            k as int,
                        ),
                    decreases e - k,
                {
                    let t = mk_token(TokenName::Variable, one_char_vec(cs[k]), filename, k, k);
                    let ghost prev = out@;
                    out.push(t);
                    proof {
                        lemma_toks_v_push(prev, t);
                        assert((toks_v(out0) + var_toks(filename@, cs@, pos as int, k as int)).push(
                            t@,
                        ) =~= toks_v(out0) + var_toks(filename@, cs@, pos as int, k + 1 as int));
                    }
                    k = k + 1;
                }
                let r = lex_rec(filename, cs, e, out);
                proof {
                    if let Ok(ts) = lex_from(filename@, cs@, e as int) {
                        assert((toks_v(out0) + var_toks(filename@, cs@, pos as int, e as int)) + ts
                            =~= toks_v(out0) + (var_toks(filename@, cs@, pos as int, e as int)
                            + ts));
                    }
                }
                r
            }
        } else if '0' <= c && c <= '9' {
            let mut text: Vec<char> = Vec::new();
            let e = scan_num(cs, pos, false, &mut text);
            proof {
                assert(num_end(cs@, pos as int, false) == num_end(cs@, pos + 1 as int, c == '.'));
                lemma_num_end(cs@, pos + 1 as int, c == '.');
                assert(Seq::<char>::empty() + num_text(cs@, pos as int, false) =~= num_text(
                    cs@,
                    pos as int,
                    false,
                ));
            }
            let t = mk_token(TokenName::Number, text, filename, pos, e);
            out.push(t);
            proof {
                lemma_toks_v_push(old(out)@, t);
            }
            let r = lex_rec(filename, cs, e, out);
            proof {
                if let Ok(ts) = lex_from(filename@, cs@, e as int) {
                    lemma_push_concat(toks_v(old(out)@), t@, ts);
                }
            }
            r
        } else if c == '"' {
            let mut acc: Vec<char> = Vec::new();
            match scan_text(filename, cs, pos + 1, &mut acc) {
                Ok(e) => {
                    let t = mk_token(TokenName::Text, acc, filename, pos, e);
                    out.push(t);
                    proof {
                        lemma_toks_v_push(old(out)@, t);
                    }
                    let r = lex_rec(filename, cs, e, out);
                    proof {
                        if let Ok(ts) = lex_from(filename@, cs@, e as int) {
                            lemma_push_concat(toks_v(old(out)@), t@, ts);
                        }
                    }
                    r
                },
                Err(ex) => Some(ex),
            }
        } else {
            let simple: Option<TokenName> = if c == '\n' {
                Some(TokenName::Eol)
            } else if c == '=' {
                Some(TokenName::Equals)
            } else if c == '+' {
                Some(TokenName::Add)
            } else if c == '-' {
                Some(TokenName::Subtract)
            } else if c == '*' {
                Some(TokenName::Multiply)
            } else if c == '/' {
                Some(TokenName::Divide)
            } else if c == '(' {
                Some(TokenName::LParen)
            } else if c == ')' {
                Some(TokenName::RParen)
            } else if c == '#' {
                Some(TokenName::Header)
            } else if c == ',' {
                Some(TokenName::Comma)
            } else {
                None
            };
            match simple {
                Some(nm) => {
                    let t = mk_token(nm, Vec::new(), filename, pos, pos);
                    out.push(t);
                    proof {
                        lemma_toks_v_push(old(out)@, t);
                    }
                    let r = lex_rec(filename, cs, pos + 1, out);
                    proof {
                        if let Ok(ts) = lex_from(filename@, cs@, pos + 1 as int) {
                            lemma_push_concat(toks_v(old(out)@), t@, ts);
                        }
                    }
                    r
                },
                None => {
                    let msg = illegal_msg_of(c);
                    Some(
                        LexerException {
                            base: LexerExceptionBase::IllegalCharacterException,
                            message: msg,
                            range: Range { filename: filename.clone(), start: pos, end: pos },
                        },
                    )
                },
            }
        }
    }
}

/// The lexer's outcome: the token stream on success, the first diagnostic
/// otherwise.
#[derive(Debug)]
pub struct LexerResult {
    pub success: bool,
    pub tokens: Vec<Token>,
    pub exception: LexerException,
}

/// Lexes a whole script. The result is exactly what the model
/// [`lex_from`] gives from position zero: on success the token views equal
/// the model's tokens and the carried diagnostic is the empty one; on
/// failure the diagnostic is the model's.
pub fn lex(filename: String, script: String) -> (r: LexerResult)
    ensures
        match lex_from(filename@, script@, 0) {
            Ok(ts) => r.success && toks_v(r.tokens@) == ts && r.exception@ == lex_err_v(
                LexerExceptionBase::NoException,
                Seq::empty(),
                filename@,
                script@.len() as int,
                script@.len() as int,
            ),
            Err(e) => !r.success && r.exception@ == e,
        },
{
    let cs = string_to_chars(&script);
    let mut tokens: Vec<Token> = Vec::new();
    let res = lex_rec(&filename, &cs, 0, &mut tokens);
    proof {
        if let Ok(ts) = lex_from(filename@, script@, 0) {
            assert(toks_v(Seq::<Token>::empty()) + ts =~= ts);
        }
    }
    match res {
        None => {
            let n = cs.len();
            LexerResult {
                success: true,
                tokens,
                exception: LexerException {
                    base: LexerExceptionBase::NoException,
                    message: String::new(),
                    range: Range { filename, start: n, end: n },
                },
            }
        },
        Some(ex) => LexerResult { success: false, tokens, exception: ex },
    }
}

#[via_fn]
proof fn lex_from_decreases(fname: Seq<char>, cs: Seq<char>, pos: int) {
    if 0 <= pos < cs.len() {
        let c = cs[pos];
        if is_alpha_c(c) {
            assert(is_ident_c(cs[pos]));
            assert(ident_end(cs, pos) == ident_end(cs, pos + 1));
            lemma_ident_end(cs, pos + 1);
            assert(ident_end(cs, pos) > pos);
        } else if is_digit_c(c) {
            assert(is_num_c(cs[pos], false));
            assert(num_end(cs, pos, false) == num_end(cs, pos + 1, cs[pos] == '.'));
            lemma_num_end(cs, pos + 1, cs[pos] == '.');
            assert(num_end(cs, pos, false) > pos);
        } else if c == '"' {
            lemma_str_scan_end(fname, cs, pos + 1, Seq::empty());
        }
    }
}

} // verus!
