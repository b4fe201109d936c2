//! Renderer and whole-pipeline behaviour: the bracket test on a concrete
//! frame, rendering failures, and idempotence of lexing and parsing.

use plotscript::exceptions::RendererExceptionBase;
use plotscript::lexer::lex;
use plotscript::parser::parse;
use plotscript::run::{run_script, RunOutcome};

#[test]
fn bracket_test_marks_the_diagonal() {
    // y = x over frame (0,0,2,2) at resolution 2x2: the cell with
    // x-interval [0,1] and y-interval [0,1] lies on the line, while the
    // cell above it, with y-interval [1,2], stays background.
    let out = run_script(
        "test".to_string(),
        "#frame(0,0,2,2)\n#resolution(2,2)\ny=x".to_string(),
    );
    match out {
        RunOutcome::Rendered(_, raster) => {
            assert_eq!(raster.width, 2);
            assert_eq!(raster.height, 2);
            // Row 1 is the bottom row: y-interval [0,1].
            assert!(raster.get(0, 1));
            // Row 0 is the top row: y-interval [1,2]; empty over column 0.
            assert!(!raster.get(0, 0));
            // The line leaves column 1 through the cell with y-interval [1,2].
            assert!(raster.get(1, 0));
            assert!(!raster.get(1, 1));
        }
        other => panic!("script did not render: {:?}", other),
    }
}

#[test]
fn division_by_zero_aborts_the_render() {
    let out = run_script("test".to_string(), "y=1/0".to_string());
    match out {
        RunOutcome::RenderFailed(e) => {
            assert!(matches!(e.base, RendererExceptionBase::DivisionByZeroException));
        }
        other => panic!("render did not fail: {:?}", other),
    }
}

#[test]
fn lexing_and_parsing_are_idempotent() {
    let text = "#frame(0,0,10,10)\ny=sin(x)+2x";
    let l1 = lex("test".to_string(), text.to_string());
    let l2 = lex("test".to_string(), text.to_string());
    assert!(l1.success && l2.success);
    assert_eq!(format!("{:?}", l1.tokens), format!("{:?}", l2.tokens));
    let p1 = parse(l1.tokens);
    let p2 = parse(l2.tokens);
    assert!(p1.success && p2.success);
    assert_eq!(format!("{:?}", p1.nodes), format!("{:?}", p2.nodes));
}

#[test]
fn lex_failure_surfaces_from_the_pipeline() {
    let out = run_script("test".to_string(), "y = $".to_string());
    assert!(matches!(out, RunOutcome::LexFailed(_)));
}

#[test]
fn parse_failure_surfaces_from_the_pipeline() {
    let out = run_script("test".to_string(), "y=(x".to_string());
    assert!(matches!(out, RunOutcome::ParseFailed(_)));
}

#[test]
fn interpret_failure_surfaces_from_the_pipeline() {
    let out = run_script(
        "test".to_string(),
        "#frame(0,0,5,5)\n#frame(0,0,5,5)".to_string(),
    );
    match out {
        RunOutcome::InterpretFailed(errs) => assert_eq!(errs.len(), 1),
        other => panic!("interpretation did not fail: {:?}", other),
    }
}

#[test]
fn default_frame_renders_one_hundred_square() {
    let out = run_script("test".to_string(), "y=x".to_string());
    match out {
        RunOutcome::Rendered(data, raster) => {
            assert_eq!(raster.width, 100);
            assert_eq!(raster.height, 100);
            let expect: Vec<char> = "export.png".chars().collect();
            assert_eq!(data.export, expect);
            // The diagonal crosses its own column cells.
            assert!(raster.get(0, 99));
            assert!(raster.get(99, 0));
            // The far corners stay background.
            assert!(!raster.get(0, 0));
            assert!(!raster.get(99, 99));
        }
        other => panic!("script did not render: {:?}", other),
    }
}

#[test]
fn escapify_rewrites_special_characters() {
    assert_eq!(
        plotscript::data::escapify("a\nb\\c\"d".to_string()),
        "a\\nb\\\\c\\\"d"
    );
    assert_eq!(plotscript::data::escapify("plain".to_string()), "plain");
}

#[test]
fn huge_numeral_saturates() {
    let lexed = lex("test".to_string(), "y=99999999999999999999999".to_string());
    assert!(lexed.success);
    let parsed = parse(lexed.tokens);
    assert!(parsed.success);
    match &parsed.nodes[0].base {
        plotscript::nodes::NodeBase::EqualsExpression { right, .. } => {
            match &right.base {
                plotscript::nodes::NodeBase::Number { value } => {
                    // The integer part caps so the scaled value stays in
                    // fixed-point range.
                    assert_eq!(*value, 4_611_686_018_427_000_000);
                }
                other => panic!("not a number: {:?}", other),
            }
        }
        other => panic!("not an equation: {:?}", other),
    }
}
