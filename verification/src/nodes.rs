//! The syntax tree and the multi-valued evaluator. Evaluation of a node at
//! one value of the free variable `x` is modelled by the spec function
//! [`eval_s`]; the executable evaluator is proved to match it exactly.

use vstd::prelude::*;
use vstd::string::StringExecFns;
use crate::data::{chars_to_string, char_to_string, clone_chars, escapify, escapify_seq, fx_text, fx_text_s, int32_text, int_text_s, Range, RangeV};
use crate::exceptions::{RendererException, RendererExceptionBase, RendererExceptionV};
use crate::fixed::{fx_cos_s, fx_sin_s, fx_tan_s};
use crate::values::{mv_add_s, mv_div_s, mv_mul_s, mv_pow_s, mv_root_s, mv_sub_s, MultipleValues};

verus! {

/// Spec mirror of `NodeBase`.
pub enum NodeBaseV {
    EqualsExpression { left: Box<NodeV>, right: Box<NodeV> },
    Number { value: i64 },
    Variable { name: char },
    AdditionOperation { left: Box<NodeV>, right: Box<NodeV> },
    SubtractionOperation { left: Box<NodeV>, right: Box<NodeV> },
    MultiplicationOperation { left: Box<NodeV>, right: Box<NodeV> },
    DivisionOperation { left: Box<NodeV>, right: Box<NodeV> },
    HeaderFuncFrame { x: i32, y: i32, w: i32, h: i32 },
    HeaderFuncResolution { w: i32, h: i32 },
    HeaderFuncExport { filename: Seq<char> },
    HeaderFuncPrintNow,
    FunctionSin { a: Box<NodeV> },
    FunctionCos { a: Box<NodeV> },
    FunctionTan { a: Box<NodeV> },
    FunctionRoot { exp: Box<NodeV>, base: Box<NodeV>, user_typed: bool },
    FunctionPow { base: Box<NodeV>, exp: Box<NodeV> },
}

/// Spec mirror of `Node`.
pub struct NodeV {
    pub base: NodeBaseV,
    pub range: RangeV,
}

/// The shape of one syntax-tree node. Numbers hold fixed-point values;
/// variables hold their single character.
#[derive(Debug)]
pub enum NodeBase {
    /// `left = right`, the top shape of every equation line.
    EqualsExpression { left: Box<Node>, right: Box<Node> },
    /// A numeral.
    Number { value: i64 },
    /// A single-character variable.
    Variable { name: char },
    /// `left + right`.
    AdditionOperation { left: Box<Node>, right: Box<Node> },
    /// `left - right`.
    SubtractionOperation { left: Box<Node>, right: Box<Node> },
    /// `left * right`.
    MultiplicationOperation { left: Box<Node>, right: Box<Node> },
    /// `left / right`.
    DivisionOperation { left: Box<Node>, right: Box<Node> },
    /// `#frame(x, y, w, h)`.
    HeaderFuncFrame { x: i32, y: i32, w: i32, h: i32 },
    /// `#resolution(w, h)`.
    HeaderFuncResolution { w: i32, h: i32 },
    /// `#export("filename")`.
    HeaderFuncExport { filename: Vec<char> },
    /// `#print_now()`.
    HeaderFuncPrintNow,
    /// `sin(a)`.
    FunctionSin { a: Box<Node> },
    /// `cos(a)`.
    FunctionCos { a: Box<Node> },
    /// `tan(a)`.
    FunctionTan { a: Box<Node> },
    /// `root(exp, base)`; `user_typed` records whether the user wrote the
    /// call, which suppresses the negated branch.
    FunctionRoot { exp: Box<Node>, base: Box<Node>, user_typed: bool },
    /// `pow(base, exp)`.
    FunctionPow { base: Box<Node>, exp: Box<Node> },
}

/// One syntax-tree node with its source range.
#[derive(Debug)]
pub struct Node {
    pub base: NodeBase,
    pub range: Range,
}

/// The spec value of a node.
pub open spec fn node_view(n: Node) -> NodeV
    decreases n,
{
    NodeV {
        base: match n.base {
            NodeBase::EqualsExpression { left, right } => NodeBaseV::EqualsExpression {
                left: Box::new(node_view(*left)),
                right: Box::new(node_view(*right)),
            },
            NodeBase::Number { value } => NodeBaseV::Number { value },
            NodeBase::Variable { name } => NodeBaseV::Variable { name },
            NodeBase::AdditionOperation { left, right } => NodeBaseV::AdditionOperation {
                left: Box::new(node_view(*left)),
                right: Box::new(node_view(*right)),
            },
            NodeBase::SubtractionOperation { left, right } => NodeBaseV::SubtractionOperation {
                left: Box::new(node_view(*left)),
                right: Box::new(node_view(*right)),
            },
            NodeBase::MultiplicationOperation { left, right } => NodeBaseV::MultiplicationOperation {
                left: Box::new(node_view(*left)),
                right: Box::new(node_view(*right)),
            },
            NodeBase::DivisionOperation { left, right } => NodeBaseV::DivisionOperation {
                left: Box::new(node_view(*left)),
                right: Box::new(node_view(*right)),
            },
            NodeBase::HeaderFuncFrame { x, y, w, h } => NodeBaseV::HeaderFuncFrame { x, y, w, h },
            NodeBase::HeaderFuncResolution { w, h } => NodeBaseV::HeaderFuncResolution { w, h },
            NodeBase::HeaderFuncExport { filename } => NodeBaseV::HeaderFuncExport {
                filename: filename@,
            },
            NodeBase::HeaderFuncPrintNow => NodeBaseV::HeaderFuncPrintNow,
            NodeBase::FunctionSin { a } => NodeBaseV::FunctionSin { a: Box::new(node_view(*a)) },
            NodeBase::FunctionCos { a } => NodeBaseV::FunctionCos { a: Box::new(node_view(*a)) },
            NodeBase::FunctionTan { a } => NodeBaseV::FunctionTan { a: Box::new(node_view(*a)) },
            NodeBase::FunctionRoot { exp, base, user_typed } => NodeBaseV::FunctionRoot {
                exp: Box::new(node_view(*exp)),
                base: Box::new(node_view(*base)),
                user_typed,
            },
            NodeBase::FunctionPow { base, exp } => NodeBaseV::FunctionPow {
                base: Box::new(node_view(*base)),
                exp: Box::new(node_view(*exp)),
            },
        },
        range: n.range@,
    }
}

/// The views of a node sequence.
pub open spec fn nodes_v(ns: Seq<Node>) -> Seq<NodeV> {
    ns.map_values(|n: Node| node_view(n))
}

/// The diagnostic an unknown variable produces.
pub open spec fn invalid_var_err(range: RangeV, name: char) -> RendererExceptionV {
    RendererExceptionV {
        base: RendererExceptionBase::InvalidVariableException,
        message: "Invalid variable `"@ + seq![name] + "` was found."@,
        range,
    }
}

/// The diagnostic a zero divisor produces.
pub open spec fn div_zero_err(range: RangeV) -> RendererExceptionV {
    RendererExceptionV {
        base: RendererExceptionBase::DivisionByZeroException,
        message: "Division by zero was attempted."@,
        range,
    }
}

/// Whether a node is the bare equation-binding marker `y`.
pub open spec fn is_y_marker_v(n: NodeV) -> bool {
    n.base matches NodeBaseV::Variable { name: 'y' }
}

/// The textual form of a node, as diagnostics print it.
pub open spec fn node_text_s(n: NodeV) -> Seq<char>
    decreases n,
{
    match n.base {
        NodeBaseV::EqualsExpression { left, right } => "("@ + node_text_s(*left) + " = "@
            + node_text_s(*right) + ")"@,
        NodeBaseV::Number { value } => fx_text_s(value),
        NodeBaseV::Variable { name } => seq![name],
        NodeBaseV::AdditionOperation { left, right } => "("@ + node_text_s(*left) + " + "@
            + node_text_s(*right) + ")"@,
        NodeBaseV::SubtractionOperation { left, right } => "("@ + node_text_s(*left) + " - "@
            + node_text_s(*right) + ")"@,
        NodeBaseV::MultiplicationOperation { left, right } => "("@ + node_text_s(*left) + " * "@
            + node_text_s(*right) + ")"@,
        NodeBaseV::DivisionOperation { left, right } => "("@ + node_text_s(*left) + " / "@
            + node_text_s(*right) + ")"@,
        NodeBaseV::HeaderFuncFrame { x, y, w, h } => "#frame("@ + int_text_s(x as int) + ", "@
            + int_text_s(y as int) + ", "@ + int_text_s(w as int) + ", "@ + int_text_s(h as int)
            + ")"@,
        NodeBaseV::HeaderFuncResolution { w, h } => "#resolution("@ + int_text_s(w as int) + ", "@
            + int_text_s(h as int) + ")"@,
        NodeBaseV::HeaderFuncExport { filename } => "#export(`"@ + escapify_seq(filename) + "`)"@,
        NodeBaseV::HeaderFuncPrintNow => "#print_now()"@,
        NodeBaseV::FunctionSin { a } => "sin("@ + node_text_s(*a) + ")"@,
        NodeBaseV::FunctionCos { a } => "cos("@ + node_text_s(*a) + ")"@,
        NodeBaseV::FunctionTan { a } => "tan("@ + node_text_s(*a) + ")"@,
        NodeBaseV::FunctionRoot { exp, base, user_typed } => if user_typed {
            "root("@ + node_text_s(*exp) + ", "@ + node_text_s(*base) + ")"@
        } else {
            "+-root("@ + node_text_s(*exp) + ", "@ + node_text_s(*base) + ")"@
        },
        NodeBaseV::FunctionPow { base, exp } => "pow("@ + node_text_s(*base) + ", "@
            + node_text_s(*exp) + ")"@,
    }
}

/// The diagnostic a node the evaluator cannot reduce produces: it carries
/// the node's textual form.
pub open spec fn internal_eval_err(n: NodeV) -> RendererExceptionV {
    RendererExceptionV {
        base: RendererExceptionBase::InternalException,
        message: "Unknown node `"@ + node_text_s(n) + "` found."@,
        range: n.range,
    }
}

/// Evaluation of a node at one value of the free variable: the collection
/// of every branch, or the first diagnostic. Operands evaluate left before
/// right (for `root`, degree before radicand); a division whose right side
/// holds a zero branch fails. An equation evaluates both sides, first
/// failure first, except that the bare binding marker `y` is not evaluated;
/// the equation's value is the other side's branches (empty when both sides
/// are the marker). Directive nodes cannot be reduced.
pub open spec fn eval_s(n: NodeV, x: i64) -> Result<Seq<i64>, RendererExceptionV>
    decreases n,
{
    match n.base {
        NodeBaseV::EqualsExpression { left, right } => {
            let lmark = is_y_marker_v(*left);
            let rmark = is_y_marker_v(*right);
            if lmark && rmark {
                Ok(Seq::empty())
            } else if lmark {
                match eval_s(*right, x) {
                    Ok(rv) => Ok(rv),
                    Err(e) => Err(e),
                }
            } else if rmark {
                match eval_s(*left, x) {
                    Ok(lv) => Ok(lv),
                    Err(e) => Err(e),
                }
            } else {
                match eval_s(*left, x) {
                    Ok(_) => match eval_s(*right, x) {
                        Ok(rv) => Ok(rv),
                        Err(e) => Err(e),
                    },
                    Err(e) => Err(e),
                }
            }
        },
        NodeBaseV::Number { value } => Ok(seq![value]),
        NodeBaseV::Variable { name } => if name == 'x' {
            Ok(seq![x])
        } else {
            Err(invalid_var_err(n.range, name))
        },
        NodeBaseV::AdditionOperation { left, right } => match eval_s(*left, x) {
            Ok(a) => match eval_s(*right, x) {
                Ok(b) => Ok(mv_add_s(a, b)),
                Err(e) => Err(e),
            },
            Err(e) => Err(e),
        },
        NodeBaseV::SubtractionOperation { left, right } => match eval_s(*left, x) {
            Ok(a) => match eval_s(*right, x) {
                Ok(b) => Ok(mv_sub_s(a, b)),
                Err(e) => Err(e),
            },
            Err(e) => Err(e),
        },
        NodeBaseV::MultiplicationOperation { left, right } => match eval_s(*left, x) {
            Ok(a) => match eval_s(*right, x) {
                Ok(b) => Ok(mv_mul_s(a, b)),
                Err(e) => Err(e),
            },
            Err(e) => Err(e),
        },
        NodeBaseV::DivisionOperation { left, right } => match eval_s(*left, x) {
            Ok(a) => match eval_s(*right, x) {
                Ok(b) => if a.len() > 0 && b.contains(0i64) {
                    Err(div_zero_err(n.range))
                } else {
                    Ok(mv_div_s(a, b))
                },
                Err(e) => Err(e),
            },
            Err(e) => Err(e),
        },
        NodeBaseV::FunctionSin { a } => match eval_s(*a, x) {
            Ok(v) => Ok(v.map_values(|t: i64| fx_sin_s(t))),
            Err(e) => Err(e),
        },
        NodeBaseV::FunctionCos { a } => match eval_s(*a, x) {
            Ok(v) => Ok(v.map_values(|t: i64| fx_cos_s(t))),
            Err(e) => Err(e),
        },
        NodeBaseV::FunctionTan { a } => match eval_s(*a, x) {
            Ok(v) => Ok(v.map_values(|t: i64| fx_tan_s(t))),
            Err(e) => Err(e),
        },
        NodeBaseV::FunctionRoot { exp, base, user_typed } => match eval_s(*exp, x) {
            Ok(d) => match eval_s(*base, x) {
                Ok(m) => Ok(mv_root_s(m, d, user_typed)),
                Err(e) => Err(e),
            },
            Err(e) => Err(e),
        },
        NodeBaseV::FunctionPow { base, exp } => match eval_s(*base, x) {
            Ok(b) => match eval_s(*exp, x) {
                Ok(e2) => Ok(mv_pow_s(b, e2)),
                Err(e) => Err(e),
            },
            Err(e) => Err(e),
        },
        _ => Err(internal_eval_err(n)),
    }
}

/// The evaluator's outcome: every branch of the value on success, the first
/// diagnostic otherwise.
#[derive(Debug)]
pub struct EvaluationResult {
    pub success: bool,
    pub value: MultipleValues,
    pub exception: RendererException,
}

/// Whether a node is the bare equation-binding marker `y`, run by the
/// machine.
fn is_y_marker(n: &Node) -> (r: bool)
    ensures
        r == is_y_marker_v(node_view(*n)),
{
    match &n.base {
        NodeBase::Variable { name } => *name == 'y',
        _ => false,
    }
}

impl Node {
    /// An explicit deep copy; the view is preserved.
    pub fn duplicate(&self) -> (r: Node)
        ensures
            node_view(r) == node_view(*self),
        decreases *self,
    {
        let base = match &self.base {
            NodeBase::EqualsExpression { left, right } => NodeBase::EqualsExpression {
                left: Box::new(left.duplicate()),
                right: Box::new(right.duplicate()),
            },
            NodeBase::Number { value } => NodeBase::Number { value: *value },
            NodeBase::Variable { name } => NodeBase::Variable { name: *name },
            NodeBase::AdditionOperation { left, right } => NodeBase::AdditionOperation {
                left: Box::new(left.duplicate()),
                right: Box::new(right.duplicate()),
            },
            NodeBase::SubtractionOperation { left, right } => NodeBase::SubtractionOperation {
                left: Box::new(left.duplicate()),
                right: Box::new(right.duplicate()),
            },
            NodeBase::MultiplicationOperation { left, right } => NodeBase::MultiplicationOperation {
                left: Box::new(left.duplicate()),
                right: Box::new(right.duplicate()),
            },
            NodeBase::DivisionOperation { left, right } => NodeBase::DivisionOperation {
                left: Box::new(left.duplicate()),
                right: Box::new(right.duplicate()),
            },
            NodeBase::HeaderFuncFrame { x, y, w, h } => NodeBase::HeaderFuncFrame {
                x: *x,
                y: *y,
                w: *w,
                h: *h,
            },
            NodeBase::HeaderFuncResolution { w, h } => NodeBase::HeaderFuncResolution {
                w: *w,
                h: *h,
            },
            NodeBase::HeaderFuncExport { filename } => NodeBase::HeaderFuncExport {
                filename: clone_chars(filename),
            },
            NodeBase::HeaderFuncPrintNow => NodeBase::HeaderFuncPrintNow,
            NodeBase::FunctionSin { a } => NodeBase::FunctionSin { a: Box::new(a.duplicate()) },
            NodeBase::FunctionCos { a } => NodeBase::FunctionCos { a: Box::new(a.duplicate()) },
            NodeBase::FunctionTan { a } => NodeBase::FunctionTan { a: Box::new(a.duplicate()) },
            NodeBase::FunctionRoot { exp, base, user_typed } => NodeBase::FunctionRoot {
                exp: Box::new(exp.duplicate()),
                base: Box::new(base.duplicate()),
                user_typed: *user_typed,
            },
            NodeBase::FunctionPow { base, exp } => NodeBase::FunctionPow {
                base: Box::new(base.duplicate()),
                exp: Box::new(exp.duplicate()),
            },
        };
        Node { base, range: self.range.duplicate() }
    }

    /// The node's textual form, as diagnostics print it.
    pub fn rendered(&self) -> (r: String)
        ensures
            r@ == node_text_s(node_view(*self)),
        decreases *self,
    {
        match &self.base {
            NodeBase::EqualsExpression { left, right } => {
                let mut out = String::from_str("(");
                let lt = left.rendered();
                out.append(lt.as_str());
                out.append(" = ");
                let rt = right.rendered();
                out.append(rt.as_str());
                out.append(")");
                proof {
                    assert(out@ =~= node_text_s(node_view(*self)));
                }
                out
            },
            NodeBase::Number { value } => {
                let out = chars_to_string(&fx_text(*value));
                proof {
                    assert(out@ =~= node_text_s(node_view(*self)));
                }
                out
            },
            NodeBase::Variable { name } => {
                let out = char_to_string(*name);
                proof {
                    assert(out@ =~= node_text_s(node_view(*self)));
                }
                out
            },
            NodeBase::AdditionOperation { left, right } => {
                let mut out = String::from_str("(");
                let lt = left.rendered();
                out.append(lt.as_str());
                out.append(" + ");
                let rt = right.rendered();
                out.append(rt.as_str());
                out.append(")");
                proof {
                    assert(out@ =~= node_text_s(node_view(*self)));
                }
                out
            },
            NodeBase::SubtractionOperation { left, right } => {
                let mut out = String::from_str("(");
                let lt = left.rendered();
                out.append(lt.as_str());
                out.append(" - ");
                let rt = right.rendered();
                out.append(rt.as_str());
                out.append(")");
                proof {
                    assert(out@ =~= node_text_s(node_view(*self)));
                }
                out
            },
            NodeBase::MultiplicationOperation { left, right } => {
                let mut out = String::from_str("(");
                let lt = left.rendered();
                out.append(lt.as_str());
                out.append(" * ");
                let rt = right.rendered();
                out.append(rt.as_str());
                out.append(")");
                proof {
                    assert(out@ =~= node_text_s(node_view(*self)));
                }
                out
            },
            NodeBase::DivisionOperation { left, right } => {
                let mut out = String::from_str("(");
                let lt = left.rendered();
                out.append(lt.as_str());
                out.append(" / ");
                let rt = right.rendered();
                out.append(rt.as_str());
                out.append(")");
                proof {
                    assert(out@ =~= node_text_s(node_view(*self)));
                }
                out
            },
            NodeBase::HeaderFuncFrame { x, y, w, h } => {
                let mut out = String::from_str("#frame(");
                let xt = chars_to_string(&int32_text(*x));
                out.append(xt.as_str());
                out.append(", ");
                let yt = chars_to_string(&int32_text(*y));
                out.append(yt.as_str());
                out.append(", ");
                let wt = chars_to_string(&int32_text(*w));
                out.append(wt.as_str());
                out.append(", ");
                let ht = chars_to_string(&int32_text(*h));
                out.append(ht.as_str());
                out.append(")");
                proof {
                    assert(out@ =~= node_text_s(node_view(*self)));
                }
                out
            },
            NodeBase::HeaderFuncResolution { w, h } => {
                let mut out = String::from_str("#resolution(");
                let wt = chars_to_string(&int32_text(*w));
                out.append(wt.as_str());
                out.append(", ");
                let ht = chars_to_string(&int32_text(*h));
                out.append(ht.as_str());
                out.append(")");
                proof {
                    assert(out@ =~= node_text_s(node_view(*self)));
                }
                out
            },
            NodeBase::HeaderFuncExport { filename } => {
                let mut out = String::from_str("#export(`");
                let ft = escapify(chars_to_string(filename));
                out.append(ft.as_str());
                out.append("`)");
                proof {
                    assert(out@ =~= node_text_s(node_view(*self)));
                }
                out
            },
            NodeBase::HeaderFuncPrintNow => {
                let out = String::from_str("#print_now()");
                proof {
                    assert(out@ =~= node_text_s(node_view(*self)));
                }
                out
            },
            NodeBase::FunctionSin { a } => {
                let mut out = String::from_str("sin(");
                let at = a.rendered();
                out.append(at.as_str());
                out.append(")");
                proof {
                    assert(out@ =~= node_text_s(node_view(*self)));
                }
                out
            },
            NodeBase::FunctionCos { a } => {
                let mut out = String::from_str("cos(");
                let at = a.rendered();
                out.append(at.as_str());
                out.append(")");
                proof {
                    assert(out@ =~= node_text_s(node_view(*self)));
                }
                out
            },
            NodeBase::FunctionTan { a } => {
                let mut out = String::from_str("tan(");
                let at = a.rendered();
                out.append(at.as_str());
                out.append(")");
                proof {
                    assert(out@ =~= node_text_s(node_view(*self)));
                }
                out
            },
            NodeBase::FunctionRoot { exp, base, user_typed } => {
                let mut out = if *user_typed {
                    String::from_str("root(")
                } else {
                    String::from_str("+-root(")
                };
                let et = exp.rendered();
                out.append(et.as_str());
                out.append(", ");
                let bt = base.rendered();
                out.append(bt.as_str());
                out.append(")");
                proof {
                    assert(out@ =~= node_text_s(node_view(*self)));
                }
                out
            },
            NodeBase::FunctionPow { base, exp } => {
                let mut out = String::from_str("pow(");
                let bt = base.rendered();
                out.append(bt.as_str());
                out.append(", ");
                let et = exp.rendered();
                out.append(et.as_str());
                out.append(")");
                proof {
                    assert(out@ =~= node_text_s(node_view(*self)));
                }
                out
            },
        }
    }

    /// The sum node `self + other`, spanning both operands.
    pub fn add(self, other: Node) -> (r: Node)
        ensures
            node_view(r) == (NodeV {
                base: NodeBaseV::AdditionOperation {
                    left: Box::new(node_view(self)),
                    right: Box::new(node_view(other)),
                },
                range: crate::data::combine_range_v(self.range@, other.range@),
            }),
    {
        let range = self.range.combined(&other.range);
        Node {
            base: NodeBase::AdditionOperation { left: Box::new(self), right: Box::new(other) },
            range,
        }
    }

    /// The difference node `self - other`, spanning both operands.
    pub fn sub(self, other: Node) -> (r: Node)
        ensures
            node_view(r) == (NodeV {
                base: NodeBaseV::SubtractionOperation {
                    left: Box::new(node_view(self)),
                    right: Box::new(node_view(other)),
                },
                range: crate::data::combine_range_v(self.range@, other.range@),
            }),
    {
        let range = self.range.combined(&other.range);
        Node {
            base: NodeBase::SubtractionOperation { left: Box::new(self), right: Box::new(other) },
            range,
        }
    }

    /// The product node `self * other`, spanning both operands.
    pub fn mul(self, other: Node) -> (r: Node)
        ensures
            node_view(r) == (NodeV {
                base: NodeBaseV::MultiplicationOperation {
                    left: Box::new(node_view(self)),
                    right: Box::new(node_view(other)),
                },
                range: crate::data::combine_range_v(self.range@, other.range@),
            }),
    {
        let range = self.range.combined(&other.range);
        Node {
            base: NodeBase::MultiplicationOperation {
                left: Box::new(self),
                right: Box::new(other),
            },
            range,
        }
    }

    /// The quotient node `self / other`, spanning both operands.
    pub fn div(self, other: Node) -> (r: Node)
        ensures
            node_view(r) == (NodeV {
                base: NodeBaseV::DivisionOperation {
                    left: Box::new(node_view(self)),
                    right: Box::new(node_view(other)),
                },
                range: crate::data::combine_range_v(self.range@, other.range@),
            }),
    {
        let range = self.range.combined(&other.range);
        Node {
            base: NodeBase::DivisionOperation { left: Box::new(self), right: Box::new(other) },
            range,
        }
    }

    /// Evaluates the node at one value of the free variable, exactly as the
    /// model [`eval_s`] describes. On success the carried diagnostic is the
    /// empty one at the node's own range; on failure the value is empty.
    pub fn simplify(&self, x: i64) -> (r: EvaluationResult)
        ensures
            match eval_s(node_view(*self), x) {
                Ok(vs) => r.success && r.value@ == vs && r.exception@ == (RendererExceptionV {
                    base: RendererExceptionBase::NoException,
                    message: Seq::empty(),
                    range: self.range@,
                }),
                Err(e) => !r.success && r.value@ == Seq::<i64>::empty() && r.exception@ == e,
            },
        decreases *self,
    {
        match &self.base {
            NodeBase::EqualsExpression { left, right } => {
                let lmark = is_y_marker(left);
                let rmark = is_y_marker(right);
                if lmark && rmark {
                    self.ok_result(MultipleValues { values: Vec::new() })
                } else if lmark {
                    let rr = right.simplify(x);
                    if !rr.success {
                        return rr;
                    }
                    self.ok_result(rr.value)
                } else if rmark {
                    let lr = left.simplify(x);
                    if !lr.success {
                        return lr;
                    }
                    self.ok_result(lr.value)
                } else {
                    let lr = left.simplify(x);
                    if !lr.success {
                        return lr;
                    }
                    let rr = right.simplify(x);
                    if !rr.success {
                        return rr;
                    }
                    self.ok_result(rr.value)
                }
            },
            NodeBase::Number { value } => self.ok_result(MultipleValues::new_single(*value)),
            NodeBase::Variable { name } => {
                if *name == 'x' {
                    self.ok_result(MultipleValues::new_single(x))
                } else {
                    let mut msg = String::from_str("Invalid variable `");
                    let one = crate::data::char_to_string(*name);
                    msg.append(one.as_str());
                    msg.append("` was found.");
                    proof {
                        assert(msg@ =~= "Invalid variable `"@ + seq![*name] + "` was found."@);
                    }
                    self.err_result(RendererExceptionBase::InvalidVariableException, msg)
                }
            },
            NodeBase::AdditionOperation { left, right } => {
                let lr = left.simplify(x);
                if !lr.success {
                    return lr;
                }
                let rr = right.simplify(x);
                if !rr.success {
                    return rr;
                }
                self.ok_result(lr.value.add(rr.value))
            },
            NodeBase::SubtractionOperation { left, right } => {
                let lr = left.simplify(x);
                if !lr.success {
                    return lr;
                }
                let rr = right.simplify(x);
                if !rr.success {
                    return rr;
                }
                self.ok_result(lr.value.sub(rr.value))
            },
            NodeBase::MultiplicationOperation { left, right } => {
                let lr = left.simplify(x);
                if !lr.success {
                    return lr;
                }
                let rr = right.simplify(x);
                if !rr.success {
                    return rr;
                }
                self.ok_result(lr.value.mul(rr.value))
            },
            NodeBase::DivisionOperation { left, right } => {
                let lr = left.simplify(x);
                if !lr.success {
                    return lr;
                }
                let rr = right.simplify(x);
                if !rr.success {
                    return rr;
                }
                if lr.value.values.len() > 0 && rr.value.has_zero() {
                    self.err_result(
                        RendererExceptionBase::DivisionByZeroException,
                        String::from_str("Division by zero was attempted."),
                    )
                } else {
                    self.ok_result(lr.value.div(rr.value))
                }
            },
            NodeBase::FunctionSin { a } => {
                let ar = a.simplify(x);
                if !ar.success {
                    return ar;
                }
                self.ok_result(ar.value.sin())
            },
            NodeBase::FunctionCos { a } => {
                let ar = a.simplify(x);
                if !ar.success {
                    return ar;
                }
                self.ok_result(ar.value.cos())
            },
            NodeBase::FunctionTan { a } => {
                let ar = a.simplify(x);
                if !ar.success {
                    return ar;
                }
                self.ok_result(ar.value.tan())
            },
            NodeBase::FunctionRoot { exp, base, user_typed } => {
                let er = exp.simplify(x);
                if !er.success {
                    return er;
                }
                let br = base.simplify(x);
                if !br.success {
                    return br;
                }
                self.ok_result(br.value.root(er.value, *user_typed))
            },
            NodeBase::FunctionPow { base, exp } => {
                let br = base.simplify(x);
                if !br.success {
                    return br;
                }
                let er = exp.simplify(x);
                if !er.success {
                    return er;
                }
                self.ok_result(br.value.pow(er.value))
            },
            _ => {
                let mut msg = String::from_str("Unknown node `");
                let text = self.rendered();
                msg.append(text.as_str());
                msg.append("` found.");
                proof {
                    assert(msg@ =~= "Unknown node `"@ + node_text_s(node_view(*self))
                        + "` found."@);
                }
                self.err_result(RendererExceptionBase::InternalException, msg)
            },
        }
    }

    /// A successful evaluation outcome at this node's range.
    fn ok_result(&self, value: MultipleValues) -> (r: EvaluationResult)
        ensures
            r.success,
            r.value@ == value@,
            r.exception@ == (RendererExceptionV {
                base: RendererExceptionBase::NoException,
                message: Seq::empty(),
                range: self.range@,
            }),
    {
        EvaluationResult {
            success: true,
            value,
            exception: RendererException {
                base: RendererExceptionBase::NoException,
                message: String::new(),
                range: self.range.duplicate(),
            },
        }
    }

    /// A failed evaluation outcome at this node's range.
    fn err_result(&self, base: RendererExceptionBase, message: String) -> (r: EvaluationResult)
        ensures
            !r.success,
            r.value@ == Seq::<i64>::empty(),
            r.exception@ == (RendererExceptionV { base, message: message@, range: self.range@ }),
    {
        EvaluationResult {
            success: false,
            value: MultipleValues { values: Vec::new() },
            exception: RendererException { base, message, range: self.range.duplicate() },
        }
    }
}

} // verus!
