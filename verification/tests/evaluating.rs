//! Evaluator behaviour: fixed-point arithmetic, the multi-valued cross
//! products, the root branch rule, and the evaluation diagnostics.

use plotscript::data::Range;
use plotscript::exceptions::RendererExceptionBase;
use plotscript::fixed::{fx_add, fx_cos, fx_div, fx_mul, fx_pow, fx_sin, fx_sub, fx_tan};
use plotscript::nodes::{Node, NodeBase};
use plotscript::values::MultipleValues;

fn range() -> Range {
    Range { filename: "test".to_string(), start: 0, end: 0 }
}

fn number(v: i64) -> Node {
    Node { base: NodeBase::Number { value: v }, range: range() }
}

fn mv(vals: Vec<i64>) -> MultipleValues {
    MultipleValues { values: vals }
}

#[test]
fn scalar_arithmetic_is_exact() {
    assert_eq!(fx_add(1_500_000, 2_500_000), 4_000_000);
    assert_eq!(fx_sub(1_000_000, 3_000_000), -2_000_000);
    assert_eq!(fx_mul(2_000_000, 3_500_000), 7_000_000);
    assert_eq!(fx_div(7_000_000, 2_000_000), 3_500_000);
    assert_eq!(fx_div(1_000_000, 0), plotscript::data::FX_MAX);
    assert_eq!(fx_pow(2_000_000, 3_000_000), 8_000_000);
    assert_eq!(fx_sin(0), 0);
    assert_eq!(fx_cos(0), 1_000_000);
    assert_eq!(fx_tan(0), 0);
}

#[test]
fn trig_and_power_sample_values() {
    // A quarter turn: the series lands one unit above one.
    assert_eq!(fx_sin(1_570_796), 1_000_001);
    // A negative exponent inverts the power exactly.
    assert_eq!(fx_pow(2_000_000, -1_000_000), 500_000);
    // Fractional exponents go through the square-root chain: the half
    // power of four is exactly two, with or without an integer part, and
    // inverted for a negative exponent.
    assert_eq!(fx_pow(4_000_000, 500_000), 2_000_000);
    assert_eq!(fx_pow(4_000_000, 1_500_000), 8_000_000);
    assert_eq!(fx_pow(4_000_000, -500_000), 500_000);
    assert_eq!(fx_pow(2_000_000, 500_000), 1_414_213);
    // Newton's method lands exactly on the cube root of twenty-seven
    // and on the fixed-point square root of two.
    let m = MultipleValues::new_single(27_000_000);
    let e = MultipleValues::new_single(3_000_000);
    assert_eq!(m.root(e, true).values, vec![3_000_000]);
    let m2 = MultipleValues::new_single(2_000_000);
    let e2 = MultipleValues::new_single(2_000_000);
    assert_eq!(m2.root(e2, true).values, vec![1_414_213]);
}

#[test]
fn abs_and_neg_map_each_branch() {
    let a = mv(vec![-3_000_000, 2_000_000]);
    assert_eq!(a.abs().values, vec![3_000_000, 2_000_000]);
    let b = mv(vec![-3_000_000, 2_000_000]);
    assert_eq!(b.neg().values, vec![3_000_000, -2_000_000]);
}

#[test]
fn cross_product_order_is_left_outermost() {
    let a = mv(vec![1_000_000, 2_000_000]);
    let b = mv(vec![10_000_000, 20_000_000]);
    let sum = a.add(b);
    assert_eq!(
        sum.values,
        vec![11_000_000, 21_000_000, 12_000_000, 22_000_000]
    );
}

#[test]
fn multi_valued_root_keeps_both_branches_when_implicit() {
    let base = MultipleValues::new_single(4_000_000);
    let exp = MultipleValues::new_single(2_000_000);
    let r = base.root(exp, false);
    assert_eq!(r.values, vec![2_000_000, -2_000_000]);
}

#[test]
fn user_typed_root_keeps_only_the_principal_branch() {
    let base = MultipleValues::new_single(4_000_000);
    let exp = MultipleValues::new_single(2_000_000);
    let r = base.root(exp, true);
    assert_eq!(r.values, vec![2_000_000]);
}

#[test]
fn even_root_of_negative_radicand_contributes_nothing() {
    let base = MultipleValues::new_single(-4_000_000);
    let exp = MultipleValues::new_single(2_000_000);
    let r = base.root(exp, false);
    assert_eq!(r.values, Vec::<i64>::new());
}

#[test]
fn division_by_zero_fails_at_any_x() {
    let node = Node {
        base: NodeBase::DivisionOperation {
            left: Box::new(number(1_000_000)),
            right: Box::new(number(0)),
        },
        range: range(),
    };
    for x in [-5_000_000i64, 0, 3_000_000] {
        let res = node.simplify(x);
        assert!(!res.success);
        assert!(matches!(
            res.exception.base,
            RendererExceptionBase::DivisionByZeroException
        ));
    }
}

#[test]
fn division_by_a_collection_holding_zero_fails() {
    // root(2, 4) kept implicit yields {2, -2}; adding 2 gives {4, 0},
    // and the zero branch poisons the division.
    let implicit_root = Node {
        base: NodeBase::FunctionRoot {
            exp: Box::new(number(2_000_000)),
            base: Box::new(number(4_000_000)),
            user_typed: false,
        },
        range: range(),
    };
    let divisor = Node {
        base: NodeBase::AdditionOperation {
            left: Box::new(implicit_root),
            right: Box::new(number(2_000_000)),
        },
        range: range(),
    };
    let node = Node {
        base: NodeBase::DivisionOperation {
            left: Box::new(number(1_000_000)),
            right: Box::new(divisor),
        },
        range: range(),
    };
    let res = node.simplify(0);
    assert!(!res.success);
    assert!(matches!(
        res.exception.base,
        RendererExceptionBase::DivisionByZeroException
    ));
}

#[test]
fn free_variable_takes_its_value() {
    let node = Node { base: NodeBase::Variable { name: 'x' }, range: range() };
    let res = node.simplify(5_000_000);
    assert!(res.success);
    assert_eq!(res.value.values, vec![5_000_000]);
}

#[test]
fn unknown_variable_is_invalid() {
    let node = Node { base: NodeBase::Variable { name: 'z' }, range: range() };
    let res = node.simplify(0);
    assert!(!res.success);
    assert!(matches!(
        res.exception.base,
        RendererExceptionBase::InvalidVariableException
    ));
    assert_eq!(
        res.exception.formatted(),
        "InvalidVariableException: Invalid variable `z` was found."
    );
}

#[test]
fn directive_node_cannot_be_evaluated() {
    let node = Node { base: NodeBase::HeaderFuncPrintNow, range: range() };
    let res = node.simplify(0);
    assert!(!res.success);
    assert!(matches!(
        res.exception.base,
        RendererExceptionBase::InternalException
    ));
    assert_eq!(
        res.exception.formatted(),
        "InternalException: Unknown node `#print_now()` found."
    );
}

#[test]
fn equation_nodes_evaluate_both_sides() {
    let variable = |name: char| Node { base: NodeBase::Variable { name }, range: range() };
    let equals = |l: Node, r: Node| Node {
        base: NodeBase::EqualsExpression { left: Box::new(l), right: Box::new(r) },
        range: range(),
    };
    // The binding marker is not evaluated; the value is the other side's.
    let res = equals(variable('y'), variable('x')).simplify(5_000_000);
    assert!(res.success);
    assert_eq!(res.value.values, vec![5_000_000]);
    let res = equals(number(7_000_000), variable('y')).simplify(0);
    assert!(res.success);
    assert_eq!(res.value.values, vec![7_000_000]);
    // Both sides markers: nothing to evaluate, no branches.
    let res = equals(variable('y'), variable('y')).simplify(0);
    assert!(res.success);
    assert_eq!(res.value.values, Vec::<i64>::new());
    // First failure wins, left before right.
    let res = equals(variable('z'), variable('x')).simplify(0);
    assert!(!res.success);
    assert!(matches!(
        res.exception.base,
        RendererExceptionBase::InvalidVariableException
    ));
    assert_eq!(
        res.exception.formatted(),
        "InvalidVariableException: Invalid variable `z` was found."
    );
    let div_by_zero = Node {
        base: NodeBase::DivisionOperation {
            left: Box::new(number(1_000_000)),
            right: Box::new(number(0)),
        },
        range: range(),
    };
    let res = equals(variable('x'), div_by_zero).simplify(0);
    assert!(!res.success);
    assert!(matches!(
        res.exception.base,
        RendererExceptionBase::DivisionByZeroException
    ));
}

#[test]
fn rendered_shows_the_node_text() {
    assert_eq!(number(2_000_000).rendered(), "2");
    assert_eq!(number(1_500_000).rendered(), "1.5");
    assert_eq!(number(-2_500_000).rendered(), "-2.5");
    let implicit_root = Node {
        base: NodeBase::FunctionRoot {
            exp: Box::new(number(2_000_000)),
            base: Box::new(number(4_000_000)),
            user_typed: false,
        },
        range: range(),
    };
    assert_eq!(implicit_root.rendered(), "+-root(2, 4)");
    let frame = Node {
        base: NodeBase::HeaderFuncFrame { x: 0, y: -1, w: 10, h: 10 },
        range: range(),
    };
    assert_eq!(frame.rendered(), "#frame(0, -1, 10, 10)");
}

#[test]
fn has_zero_finds_a_zero_branch() {
    assert!(mv(vec![2_000_000, 0]).has_zero());
    assert!(!mv(vec![2_000_000, 1]).has_zero());
    assert!(!mv(vec![]).has_zero());
}
