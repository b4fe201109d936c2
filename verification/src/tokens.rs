//! Tokens: the lexer's output. Every token carries its kind, its literal
//! text, and the source range it was read from.

use vstd::prelude::*;
use crate::data::{clone_chars, Range, RangeV};

verus! {

/// The kind of a token.
#[derive(Clone, Copy, Debug, PartialEq, Eq, Structural)]
pub enum TokenName {
    /// Placeholder before the parser reads its first token.
    Null,
    /// One single-character variable.
    Variable,
    /// A numeral.
    Number,
    /// The `+` operator.
    Add,
    /// The `-` operator.
    Subtract,
    /// The `*` operator.
    Multiply,
    /// The `/` operator.
    Divide,
    /// The `=` sign between the two sides of an equation.
    Equals,
    /// An opening parenthesis.
    LParen,
    /// A closing parenthesis.
    RParen,
    /// The `#` marker that opens a directive line.
    Header,
    /// The name of a directive, such as `frame`.
    HeadFunc,
    /// The name of an expression function, such as `sin`.
    Function,
    /// A quoted string literal.
    Text,
    /// The `,` between arguments.
    Comma,
    /// End of a line.
    Eol,
    /// End of the whole script.
    Eof,
}

/// Spec mirror of `Token`.
pub struct TokenV {
    pub name: TokenName,
    pub value: Seq<char>,
    pub range: RangeV,
}

/// One token: kind, literal text, and origin.
#[derive(Debug)]
pub struct Token {
    pub name: TokenName,
    pub value: Vec<char>,
    pub range: Range,
}

impl View for Token {
    type V = TokenV;

    open spec fn view(&self) -> TokenV {
        TokenV { name: self.name, value: self.value@, range: self.range@ }
    }
}

impl Token {
    /// An explicit copy; the view is preserved.
    pub fn duplicate(&self) -> (r: Token)
        ensures
            r@ == self@,
    {
        Token { name: self.name, value: clone_chars(&self.value), range: self.range.duplicate() }
    }
}

/// The views of a token sequence.
pub open spec fn toks_v(ts: Seq<Token>) -> Seq<TokenV> {
    ts.map_values(|t: Token| t@)
}

} // verus!
