//! The whole pipeline on plain values: script text in, a rendered pixel
//! grid (with the layout that produced it) or the first diagnostic out.
//! Reading the script from disk, encoding the grid to an image file, and
//! spooling it to a printer belong to the surrounding program.

use vstd::prelude::*;
use vstd::string::StringExecFns;
use crate::data::{Range, RangeV};
use crate::exceptions::{
    InterpreterException, LexerException, ParserException, RendererException,
    RendererExceptionBase, RendererExceptionV,
};
use crate::interpreter::{ierrs_v, interp_s, interpret, InterpreterData};
use crate::laws::{lemma_interp_s_wf, lemma_lex_stream_wf};
use crate::lexer::{lex, lex_from};
use crate::parser::{parse, sp_program};
use crate::renderer::{eff_res, raster_matches, render, render_cols, Raster};

verus! {

/// What running a script ends in: the first diagnostic of the failing
/// stage, or the rendered grid together with the layout that produced it.
#[derive(Debug)]
pub enum RunOutcome {
    /// The lexer rejected the text.
    LexFailed(LexerException),
    /// The parser rejected the token stream.
    ParseFailed(ParserException),
    /// The interpreter collected diagnostics; all of them are carried.
    InterpretFailed(Vec<InterpreterException>),
    /// The renderer failed while evaluating an equation.
    RenderFailed(RendererException),
    /// The script rendered: the layout configuration and the pixel grid.
    Rendered(InterpreterData, Raster),
}

/// The diagnostic used when the effective resolution holds more pixels than
/// this machine can index.
pub open spec fn too_large_err_v() -> RendererExceptionV {
    RendererExceptionV {
        base: RendererExceptionBase::InternalException,
        message: "Render target is too large."@,
        range: RangeV { filename: Seq::empty(), start: 0, end: 0 },
    }
}

/// Runs a whole script: lex, parse, interpret, render, each stage exactly
/// as its model says, stopping at the first stage that fails.
pub fn run_script(filename: String, script: String) -> (r: RunOutcome)
    ensures
        (match lex_from(filename@, script@, 0) {
            Err(e) => r matches RunOutcome::LexFailed(x) && x@ == e,
            Ok(ts) => match sp_program(ts, 0).out {
                Err(e) => r matches RunOutcome::ParseFailed(x) && x@ == e,
                Ok(ns) => {
                    let io = interp_s(ns);
                    if io.errs.len() > 0 {
                        r matches RunOutcome::InterpretFailed(es) && ierrs_v(es@) == io.errs
                    } else if (eff_res(io.data).x as int) * (eff_res(io.data).y as int)
                        > usize::MAX as int {
                        r matches RunOutcome::RenderFailed(x) && x@ == too_large_err_v()
                    } else {
                        match render_cols(io.data) {
                            Err(e) => r matches RunOutcome::RenderFailed(x) && x@ == e,
                            Ok(cols) => r matches RunOutcome::Rendered(d, ras) && d@ == io.data
                                && raster_matches(ras, io.data, cols),
                        }
                    }
                },
            },
        }),
{
    proof {
        lemma_lex_stream_wf(filename@, script@, 0);
    }
    let lexed = lex(filename, script);
    if !lexed.success {
        return RunOutcome::LexFailed(lexed.exception);
    }
    let parsed = parse(lexed.tokens);
    if !parsed.success {
        return RunOutcome::ParseFailed(parsed.exception);
    }
    proof {
        lemma_interp_s_wf(crate::nodes::nodes_v(parsed.nodes@));
    }
    let interpreted = interpret(parsed.nodes);
    if !interpreted.success {
        proof {
            assert(ierrs_v(interpreted.exceptions@).len() == interpreted.exceptions@.len());
        }
        return RunOutcome::InterpretFailed(interpreted.exceptions);
    }
    proof {
        assert(ierrs_v(interpreted.exceptions@).len() == interpreted.exceptions@.len());
    }
    let rx: i32 = if interpreted.data.resolution.x == 0 {
        interpreted.data.size.x
    } else {
        interpreted.data.resolution.x
    };
    let ry: i32 = if interpreted.data.resolution.y == 0 {
        interpreted.data.size.y
    } else {
        interpreted.data.resolution.y
    };
    proof {
        crate::fixed::lemma_mul_bound(rx as int, ry as int, 0x8000_0000, 0x8000_0000);
    }
    let area: u64 = (rx as u64) * (ry as u64);
    if area > usize::MAX as u64 {
        return RunOutcome::RenderFailed(
            RendererException {
                base: RendererExceptionBase::InternalException,
                message: String::from_str("Render target is too large."),
                range: Range { filename: String::new(), start: 0, end: 0 },
            },
        );
    }
    let kept = interpreted.data.duplicate();
    let rendered = render(interpreted.data);
    if !rendered.success {
        return RunOutcome::RenderFailed(rendered.exception);
    }
    RunOutcome::Rendered(kept, rendered.raster)
}

} // verus!
