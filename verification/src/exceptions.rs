//! Structured diagnostics for every pipeline stage: a kind, a message, and
//! the source range that produced it. Rendering a diagnostic reads
//! `Kind: message`; colouring and timestamps belong to the surrounding
//! program, not to these types.

use vstd::prelude::*;
use vstd::string::StringExecFns;
use crate::data::{Range, RangeV};

verus! {

/// Kinds of diagnostic raised by the lexer.
#[derive(Clone, Copy, Debug, PartialEq, Eq, Structural)]
pub enum LexerExceptionBase {
    NoException,
    IllegalCharacterException,
    EscapeException,
    EndException,
}

/// The printed name of each kind.
pub open spec fn lexer_base_name_s(b: LexerExceptionBase) -> Seq<char> {
    match b {
        LexerExceptionBase::NoException => "NoException"@,
        LexerExceptionBase::IllegalCharacterException => "IllegalCharacterException"@,
        LexerExceptionBase::EscapeException => "EscapeException"@,
        LexerExceptionBase::EndException => "EndException"@,
    }
}

/// Spec mirror of `LexerException`.
pub struct LexerExceptionV {
    pub base: LexerExceptionBase,
    pub message: Seq<char>,
    pub range: RangeV,
}

/// A diagnostic raised by the lexer.
#[derive(Debug)]
pub struct LexerException {
    pub base: LexerExceptionBase,
    pub message: String,
    pub range: Range,
}

impl View for LexerException {
    type V = LexerExceptionV;

    open spec fn view(&self) -> LexerExceptionV {
        LexerExceptionV {
            base: self.base,
            message: self.message@,
            range: self.range@,
        }
    }
}

impl LexerException {
    /// The user-facing `Kind: message` line.
    pub fn formatted(&self) -> (r: String)
        ensures
            r@ == lexer_base_name_s(self.base) + ": "@ + self.message@,
    {
        let mut s = String::new();
        match self.base {
            LexerExceptionBase::NoException => s.append("NoException"),
            LexerExceptionBase::IllegalCharacterException => s.append("IllegalCharacterException"),
            LexerExceptionBase::EscapeException => s.append("EscapeException"),
            LexerExceptionBase::EndException => s.append("EndException"),
        }
        s.append(": ");
        s.append(self.message.as_str());
        proof {
            reveal_strlit("NoException");
            reveal_strlit("IllegalCharacterException");
            reveal_strlit("EscapeException");
            reveal_strlit("EndException");
            reveal_strlit(": ");
            assert(s@ =~= lexer_base_name_s(self.base) + ": "@ + self.message@);
        }
        s
    }
}

/// Kinds of diagnostic raised by the parser.
#[derive(Clone, Copy, Debug, PartialEq, Eq, Structural)]
pub enum ParserExceptionBase {
    NoException,
    IllegalTokenException,
    MissingTokenException,
    InternalException,
}

/// The printed name of each kind.
pub open spec fn parser_base_name_s(b: ParserExceptionBase) -> Seq<char> {
    match b {
        ParserExceptionBase::NoException => "NoException"@,
        ParserExceptionBase::IllegalTokenException => "IllegalTokenException"@,
        ParserExceptionBase::MissingTokenException => "MissingTokenException"@,
        ParserExceptionBase::InternalException => "InternalException"@,
    }
}

/// Spec mirror of `ParserException`.
pub struct ParserExceptionV {
    pub base: ParserExceptionBase,
    pub message: Seq<char>,
    pub range: RangeV,
}

/// A diagnostic raised by the parser.
#[derive(Debug)]
pub struct ParserException {
    pub base: ParserExceptionBase,
    pub message: String,
    pub range: Range,
}

impl View for ParserException {
    type V = ParserExceptionV;

    open spec fn view(&self) -> ParserExceptionV {
        ParserExceptionV {
            base: self.base,
            message: self.message@,
            range: self.range@,
        }
    }
}

impl ParserException {
    /// The user-facing `Kind: message` line.
    pub fn formatted(&self) -> (r: String)
        ensures
            r@ == parser_base_name_s(self.base) + ": "@ + self.message@,
    {
        let mut s = String::new();
        match self.base {
            ParserExceptionBase::NoException => s.append("NoException"),
            ParserExceptionBase::IllegalTokenException => s.append("IllegalTokenException"),
            ParserExceptionBase::MissingTokenException => s.append("MissingTokenException"),
            ParserExceptionBase::InternalException => s.append("InternalException"),
        }
        s.append(": ");
        s.append(self.message.as_str());
        proof {
            reveal_strlit("NoException");
            reveal_strlit("IllegalTokenException");
            reveal_strlit("MissingTokenException");
            reveal_strlit("InternalException");
            reveal_strlit(": ");
            assert(s@ =~= parser_base_name_s(self.base) + ": "@ + self.message@);
        }
        s
    }
}

/// Kinds of diagnostic raised by the interpreter.
#[derive(Clone, Copy, Debug, PartialEq, Eq, Structural)]
pub enum InterpreterExceptionBase {
    InvalidValueException,
    HeaderAlreadyAccessedException,
}

/// The printed name of each kind.
pub open spec fn interpreter_base_name_s(b: InterpreterExceptionBase) -> Seq<char> {
    match b {
        InterpreterExceptionBase::InvalidValueException => "InvalidValueException"@,
        InterpreterExceptionBase::HeaderAlreadyAccessedException => "HeaderAlreadyAccessedException"@,
    }
}

/// Spec mirror of `InterpreterException`.
pub struct InterpreterExceptionV {
    pub base: InterpreterExceptionBase,
    pub message: Seq<char>,
    pub range: RangeV,
}

/// A diagnostic raised by the interpreter.
#[derive(Debug)]
pub struct InterpreterException {
    pub base: InterpreterExceptionBase,
    pub message: String,
    pub range: Range,
}

impl View for InterpreterException {
    type V = InterpreterExceptionV;

    open spec fn view(&self) -> InterpreterExceptionV {
        InterpreterExceptionV {
            base: self.base,
            message: self.message@,
            range: self.range@,
        }
    }
}

impl InterpreterException {
    /// The user-facing `Kind: message` line.
    pub fn formatted(&self) -> (r: String)
        ensures
            r@ == interpreter_base_name_s(self.base) + ": "@ + self.message@,
    {
        let mut s = String::new();
        match self.base {
            InterpreterExceptionBase::InvalidValueException => s.append("InvalidValueException"),
            InterpreterExceptionBase::HeaderAlreadyAccessedException => s.append("HeaderAlreadyAccessedException"),
        }
        s.append(": ");
        s.append(self.message.as_str());
        proof {
            reveal_strlit("InvalidValueException");
            reveal_strlit("HeaderAlreadyAccessedException");
            reveal_strlit(": ");
            assert(s@ =~= interpreter_base_name_s(self.base) + ": "@ + self.message@);
        }
        s
    }
}

/// Kinds of diagnostic raised by the renderer.
#[derive(Clone, Copy, Debug, PartialEq, Eq, Structural)]
pub enum RendererExceptionBase {
    NoException,
    DivisionByZeroException,
    InvalidVariableException,
    InternalException,
}

/// The printed name of each kind.
pub open spec fn renderer_base_name_s(b: RendererExceptionBase) -> Seq<char> {
    match b {
        RendererExceptionBase::NoException => "NoException"@,
        RendererExceptionBase::DivisionByZeroException => "DivisionByZeroException"@,
        RendererExceptionBase::InvalidVariableException => "InvalidVariableException"@,
        RendererExceptionBase::InternalException => "InternalException"@,
    }
}

/// Spec mirror of `RendererException`.
pub struct RendererExceptionV {
    pub base: RendererExceptionBase,
    pub message: Seq<char>,
    pub range: RangeV,
}

/// A diagnostic raised by the renderer.
#[derive(Debug)]
pub struct RendererException {
    pub base: RendererExceptionBase,
    pub message: String,
    pub range: Range,
}

impl View for RendererException {
    type V = RendererExceptionV;

    open spec fn view(&self) -> RendererExceptionV {
        RendererExceptionV {
            base: self.base,
            message: self.message@,
            range: self.range@,
        }
    }
}

impl RendererException {
    /// The user-facing `Kind: message` line.
    pub fn formatted(&self) -> (r: String)
        ensures
            r@ == renderer_base_name_s(self.base) + ": "@ + self.message@,
    {
        let mut s = String::new();
        match self.base {
            RendererExceptionBase::NoException => s.append("NoException"),
            RendererExceptionBase::DivisionByZeroException => s.append("DivisionByZeroException"),
            RendererExceptionBase::InvalidVariableException => s.append("InvalidVariableException"),
            RendererExceptionBase::InternalException => s.append("InternalException"),
        }
        s.append(": ");
        s.append(self.message.as_str());
        proof {
            reveal_strlit("NoException");
            reveal_strlit("DivisionByZeroException");
            reveal_strlit("InvalidVariableException");
            reveal_strlit("InternalException");
            reveal_strlit(": ");
            assert(s@ =~= renderer_base_name_s(self.base) + ": "@ + self.message@);
        }
        s
    }
}

/// Kinds of diagnostic raised by the printer.
#[derive(Clone, Copy, Debug, PartialEq, Eq, Structural)]
pub enum PrinterExceptionBase {
    NoException,
    UnsupportedOperatingSystemException,
}

/// The printed name of each kind.
pub open spec fn printer_base_name_s(b: PrinterExceptionBase) -> Seq<char> {
    match b {
        PrinterExceptionBase::NoException => "NoException"@,
        PrinterExceptionBase::UnsupportedOperatingSystemException => "UnsupportedOperatingSystemException"@,
    }
}

/// Spec mirror of `PrinterException`.
pub struct PrinterExceptionV {
    pub base: PrinterExceptionBase,
    pub message: Seq<char>,
}

/// A diagnostic raised by the printer.
#[derive(Debug)]
pub struct PrinterException {
    pub base: PrinterExceptionBase,
    pub message: String,
}

impl View for PrinterException {
    type V = PrinterExceptionV;

    open spec fn view(&self) -> PrinterExceptionV {
        PrinterExceptionV {
            base: self.base,
            message: self.message@,
        }
    }
}

impl PrinterException {
    /// The user-facing `Kind: message` line.
    pub fn formatted(&self) -> (r: String)
        ensures
            r@ == printer_base_name_s(self.base) + ": "@ + self.message@,
    {
        let mut s = String::new();
        match self.base {
            PrinterExceptionBase::NoException => s.append("NoException"),
            PrinterExceptionBase::UnsupportedOperatingSystemException => s.append("UnsupportedOperatingSystemException"),
        }
        s.append(": ");
        s.append(self.message.as_str());
        proof {
            reveal_strlit("NoException");
            reveal_strlit("UnsupportedOperatingSystemException");
            reveal_strlit(": ");
            assert(s@ =~= printer_base_name_s(self.base) + ": "@ + self.message@);
        }
        s
    }
}

} // verus!
