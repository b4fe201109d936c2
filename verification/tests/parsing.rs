//! Parser behaviour: implicit multiplication, normalization of bare terms,
//! precedence, directives, and the syntactic diagnostics.

use plotscript::exceptions::ParserExceptionBase;
use plotscript::lexer::lex;
use plotscript::nodes::{Node, NodeBase};
use plotscript::parser::parse;

fn parse_text(text: &str) -> plotscript::parser::ParserResult {
    let lexed = lex("test".to_string(), text.to_string());
    assert!(lexed.success);
    parse(lexed.tokens)
}

fn equation_rhs(node: &Node) -> &Node {
    match &node.base {
        NodeBase::EqualsExpression { left, right } => {
            match &left.base {
                NodeBase::Variable { name } => assert_eq!(*name, 'y'),
                other => panic!("equation left side is not a variable: {:?}", other),
            }
            right
        }
        other => panic!("not an equation: {:?}", other),
    }
}

#[test]
fn implicit_multiplication_number_variable() {
    let res = parse_text("2x");
    assert!(res.success);
    assert_eq!(res.nodes.len(), 1);
    let rhs = equation_rhs(&res.nodes[0]);
    match &rhs.base {
        NodeBase::MultiplicationOperation { left, right } => {
            assert!(matches!(left.base, NodeBase::Number { value: 2_000_000 }));
            assert!(matches!(right.base, NodeBase::Variable { name: 'x' }));
        }
        other => panic!("not an implicit multiplication: {:?}", other),
    }
}

#[test]
fn implicit_multiplication_two_variables() {
    let res = parse_text("xy");
    assert!(res.success);
    let rhs = equation_rhs(&res.nodes[0]);
    match &rhs.base {
        NodeBase::MultiplicationOperation { left, right } => {
            assert!(matches!(left.base, NodeBase::Variable { name: 'x' }));
            assert!(matches!(right.base, NodeBase::Variable { name: 'y' }));
        }
        other => panic!("not an implicit multiplication: {:?}", other),
    }
}

#[test]
fn explicit_equation_keeps_both_sides() {
    let res = parse_text("y=x");
    assert!(res.success);
    match &res.nodes[0].base {
        NodeBase::EqualsExpression { left, right } => {
            assert!(matches!(left.base, NodeBase::Variable { name: 'y' }));
            assert!(matches!(right.base, NodeBase::Variable { name: 'x' }));
        }
        other => panic!("not an equation: {:?}", other),
    }
}

#[test]
fn multiplication_binds_tighter_than_addition() {
    let res = parse_text("1+2*3");
    assert!(res.success);
    let rhs = equation_rhs(&res.nodes[0]);
    match &rhs.base {
        NodeBase::AdditionOperation { left, right } => {
            assert!(matches!(left.base, NodeBase::Number { value: 1_000_000 }));
            match &right.base {
                NodeBase::MultiplicationOperation { left, right } => {
                    assert!(matches!(left.base, NodeBase::Number { value: 2_000_000 }));
                    assert!(matches!(right.base, NodeBase::Number { value: 3_000_000 }));
                }
                other => panic!("not a multiplication: {:?}", other),
            }
        }
        other => panic!("not an addition: {:?}", other),
    }
}

#[test]
fn fractional_numeral_scales_exactly() {
    let res = parse_text("1.5");
    assert!(res.success);
    let rhs = equation_rhs(&res.nodes[0]);
    assert!(matches!(rhs.base, NodeBase::Number { value: 1_500_000 }));
}

#[test]
fn frame_directive_with_negative_argument() {
    let res = parse_text("#frame(-1,2,10,20)");
    assert!(res.success);
    assert!(matches!(
        res.nodes[0].base,
        NodeBase::HeaderFuncFrame { x: -1, y: 2, w: 10, h: 20 }
    ));
}

#[test]
fn resolution_directive() {
    let res = parse_text("#resolution(640,480)");
    assert!(res.success);
    assert!(matches!(
        res.nodes[0].base,
        NodeBase::HeaderFuncResolution { w: 640, h: 480 }
    ));
}

#[test]
fn export_directive_takes_a_string() {
    let res = parse_text("#export(\"out.png\")");
    assert!(res.success);
    match &res.nodes[0].base {
        NodeBase::HeaderFuncExport { filename } => {
            let expect: Vec<char> = "out.png".chars().collect();
            assert_eq!(*filename, expect);
        }
        other => panic!("not an export directive: {:?}", other),
    }
}

#[test]
fn print_now_directive() {
    let res = parse_text("#print_now()");
    assert!(res.success);
    assert!(matches!(res.nodes[0].base, NodeBase::HeaderFuncPrintNow));
}

#[test]
fn user_root_is_marked_explicit() {
    let res = parse_text("root(2,4)");
    assert!(res.success);
    let rhs = equation_rhs(&res.nodes[0]);
    match &rhs.base {
        NodeBase::FunctionRoot { exp, base, user_typed } => {
            assert!(*user_typed);
            assert!(matches!(exp.base, NodeBase::Number { value: 2_000_000 }));
            assert!(matches!(base.base, NodeBase::Number { value: 4_000_000 }));
        }
        other => panic!("not a root call: {:?}", other),
    }
}

#[test]
fn missing_right_paren_is_reported() {
    let res = parse_text("#frame(0,0,10,10");
    assert!(!res.success);
    assert!(matches!(
        res.exception.base,
        ParserExceptionBase::MissingTokenException
    ));
    assert_eq!(
        res.exception.formatted(),
        "MissingTokenException: Expected (RightParen) not found."
    );
}

#[test]
fn missing_comma_in_pow_is_reported() {
    let res = parse_text("pow(2 3)");
    assert!(!res.success);
    assert!(matches!(
        res.exception.base,
        ParserExceptionBase::MissingTokenException
    ));
    assert_eq!(
        res.exception.formatted(),
        "MissingTokenException: Expected (Comma) not found."
    );
}

#[test]
fn operator_without_operand_is_an_illegal_token() {
    let res = parse_text("1+");
    assert!(!res.success);
    assert!(matches!(
        res.exception.base,
        ParserExceptionBase::IllegalTokenException
    ));
}

#[test]
fn missing_eol_between_statements_is_reported() {
    let res = parse_text("#print_now() y=x");
    assert!(!res.success);
    assert_eq!(
        res.exception.formatted(),
        "MissingTokenException: Expected (EOL) not found."
    );
}

#[test]
fn fractional_directive_argument_is_the_wrong_type() {
    let res = parse_text("#resolution(1.5,2)");
    assert!(!res.success);
    assert_eq!(
        res.exception.formatted(),
        "MissingTokenException: Expected (Integer, Minus) not found."
    );
}
