//! Interpreter behaviour: directive exclusivity, argument validation,
//! equation collection, and the defaults.

use plotscript::exceptions::InterpreterExceptionBase;
use plotscript::interpreter::interpret;
use plotscript::lexer::lex;
use plotscript::parser::parse;

fn interpret_text(text: &str) -> plotscript::interpreter::InterpreterResult {
    let lexed = lex("test".to_string(), text.to_string());
    assert!(lexed.success);
    let parsed = parse(lexed.tokens);
    assert!(parsed.success);
    interpret(parsed.nodes)
}

#[test]
fn directive_exclusivity_keeps_the_first_frame() {
    let res = interpret_text("#frame(0,0,10,10)\n#frame(1,1,5,5)");
    assert!(!res.success);
    assert_eq!(res.exceptions.len(), 1);
    assert!(matches!(
        res.exceptions[0].base,
        InterpreterExceptionBase::HeaderAlreadyAccessedException
    ));
    assert_eq!(res.data.position.x, 0);
    assert_eq!(res.data.position.y, 0);
    assert_eq!(res.data.size.x, 10);
    assert_eq!(res.data.size.y, 10);
}

#[test]
fn frame_must_be_at_least_one_unit() {
    let res = interpret_text("#frame(0,0,0,10)");
    assert!(!res.success);
    assert_eq!(res.exceptions.len(), 1);
    assert!(matches!(
        res.exceptions[0].base,
        InterpreterExceptionBase::InvalidValueException
    ));
    assert_eq!(
        res.exceptions[0].formatted(),
        "InvalidValueException: Frame width and height must be at least 1."
    );
}

#[test]
fn resolution_must_not_be_negative() {
    let res = interpret_text("#resolution(-1,5)");
    assert!(!res.success);
    assert!(matches!(
        res.exceptions[0].base,
        InterpreterExceptionBase::InvalidValueException
    ));
}

#[test]
fn export_may_be_set_once() {
    let res = interpret_text("#export(\"a.png\")\n#export(\"b.png\")");
    assert!(!res.success);
    assert_eq!(res.exceptions.len(), 1);
    assert!(matches!(
        res.exceptions[0].base,
        InterpreterExceptionBase::HeaderAlreadyAccessedException
    ));
    let expect: Vec<char> = "a.png".chars().collect();
    assert_eq!(res.data.export, expect);
}

#[test]
fn print_now_sets_its_flag_once() {
    let res = interpret_text("#print_now()");
    assert!(res.success);
    assert!(res.data.set_print_now);
    let res2 = interpret_text("#print_now()\n#print_now()");
    assert!(!res2.success);
    assert_eq!(res2.exceptions.len(), 1);
}

#[test]
fn later_lines_are_interpreted_despite_earlier_errors() {
    let res = interpret_text("#frame(0,0,0,0)\n#resolution(3,4)");
    assert!(!res.success);
    assert_eq!(res.exceptions.len(), 1);
    assert_eq!(res.data.resolution.x, 3);
    assert_eq!(res.data.resolution.y, 4);
}

#[test]
fn equations_are_collected_in_order() {
    let res = interpret_text("y=x\ny=x+1");
    assert!(res.success);
    assert_eq!(res.data.equations.len(), 2);
}

#[test]
fn defaults_apply_without_directives() {
    let res = interpret(Vec::new());
    assert!(res.success);
    assert!(!res.data.set_frame);
    assert!(!res.data.set_resolution);
    assert!(!res.data.set_export);
    assert!(!res.data.set_print_now);
    assert_eq!(res.data.position.x, 0);
    assert_eq!(res.data.size.x, 100);
    assert_eq!(res.data.size.y, 100);
    assert_eq!(res.data.resolution.x, 0);
    let expect: Vec<char> = "export.png".chars().collect();
    assert_eq!(res.data.export, expect);
    assert!(res.data.equations.is_empty());
}
