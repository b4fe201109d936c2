//! The interpreter: folds the parsed nodes, in order, into a layout
//! configuration and an equation list. Each directive may be set at most
//! once; a second attempt is an error. Errors do not stop the fold: every
//! diagnostic is collected, and the whole run fails only if any arose.

use vstd::prelude::*;
use vstd::string::StringExecFns;
use crate::data::{str_to_chars, Range, RangeV, Vector2};
use crate::exceptions::{InterpreterException, InterpreterExceptionBase, InterpreterExceptionV};
use crate::nodes::{node_view, nodes_v, Node, NodeBase, NodeBaseV, NodeV};

verus! {

/// Spec mirror of `InterpreterData`.
pub struct IDataV {
    pub set_frame: bool,
    pub set_resolution: bool,
    pub set_export: bool,
    pub set_print_now: bool,
    pub position: Vector2,
    pub size: Vector2,
    pub resolution: Vector2,
    pub export: Seq<char>,
    pub equations: Seq<NodeV>,
}

/// The layout configuration the interpreter builds: which directives were
/// set, the frame position and size, the sample resolution, the export
/// path, and the equations' right-hand sides.
#[derive(Debug)]
pub struct InterpreterData {
    pub set_frame: bool,
    pub set_resolution: bool,
    pub set_export: bool,
    pub set_print_now: bool,
    pub position: Vector2,
    pub size: Vector2,
    pub resolution: Vector2,
    pub export: Vec<char>,
    pub equations: Vec<Node>,
}

impl View for InterpreterData {
    type V = IDataV;

    open spec fn view(&self) -> IDataV {
        IDataV {
            set_frame: self.set_frame,
            set_resolution: self.set_resolution,
            set_export: self.set_export,
            set_print_now: self.set_print_now,
            position: self.position,
            size: self.size,
            resolution: self.resolution,
            export: self.export@,
            equations: nodes_v(self.equations@),
        }
    }
}

/// The configuration before any directive: frame at the origin, a hundred
/// units a side, resolution zero (meaning: use the frame size), and a
/// default export name.
pub open spec fn default_idata_v() -> IDataV {
    IDataV {
        set_frame: false,
        set_resolution: false,
        set_export: false,
        set_print_now: false,
        position: Vector2 { x: 0, y: 0 },
        size: Vector2 { x: 100, y: 100 },
        resolution: Vector2 { x: 0, y: 0 },
        export: "export.png"@,
        equations: Seq::empty(),
    }
}

/// An interpreter diagnostic view.
pub open spec fn ierr_v(
    base: InterpreterExceptionBase,
    message: Seq<char>,
    range: RangeV,
) -> InterpreterExceptionV {
    InterpreterExceptionV { base, message, range }
}

/// What one node does to the configuration: an update, or a diagnostic
/// leaving it unchanged.
pub open spec fn interp_step(d: IDataV, n: NodeV) -> Result<IDataV, InterpreterExceptionV> {
    match n.base {
        NodeBaseV::HeaderFuncFrame { x, y, w, h } => if w <= 0 || h <= 0 {
            Err(ierr_v(
                InterpreterExceptionBase::InvalidValueException,
                "Frame width and height must be at least 1."@,
                n.range,
            ))
        } else if d.set_frame {
            Err(ierr_v(
                InterpreterExceptionBase::HeaderAlreadyAccessedException,
                "Header `frame` has already been accessed."@,
                n.range,
            ))
        } else {
            Ok(IDataV {
                set_frame: true,
                position: Vector2 { x, y },
                size: Vector2 { x: w, y: h },
                ..d
            })
        },
        NodeBaseV::HeaderFuncResolution { w, h } => if w < 0 || h < 0 {
            Err(ierr_v(
                InterpreterExceptionBase::InvalidValueException,
                "Resolution width and height must be at least 0."@,
                n.range,
            ))
        } else if d.set_resolution {
            Err(ierr_v(
                InterpreterExceptionBase::HeaderAlreadyAccessedException,
                "Header `resolution` has already been accessed."@,
                n.range,
            ))
        } else {
            Ok(IDataV { set_resolution: true, resolution: Vector2 { x: w, y: h }, ..d })
        },
        NodeBaseV::HeaderFuncExport { filename } => if d.set_export {
            Err(ierr_v(
                InterpreterExceptionBase::HeaderAlreadyAccessedException,
                "Header `export` has already been accessed."@,
                n.range,
            ))
        } else {
            Ok(IDataV { set_export: true, export: filename, ..d })
        },
        NodeBaseV::HeaderFuncPrintNow => if d.set_print_now {
            Err(ierr_v(
                InterpreterExceptionBase::HeaderAlreadyAccessedException,
                "Header `print_now` has already been accessed."@,
                n.range,
            ))
        } else {
            Ok(IDataV { set_print_now: true, ..d })
        },
        NodeBaseV::EqualsExpression { left, right } => if crate::nodes::is_y_marker_v(*left) {
            Ok(IDataV { equations: d.equations.push(*right), ..d })
        } else {
            Ok(d)
        },
        _ => Ok(d),
    }
}

/// The fold's outcome: the configuration and every diagnostic, in order.
pub struct IOut {
    pub data: IDataV,
    pub errs: Seq<InterpreterExceptionV>,
}

/// The fold from node `i` on: a failing node leaves the configuration as it
/// was and its diagnostic joins the list.
pub open spec fn interp_from(d: IDataV, ns: Seq<NodeV>, i: int) -> IOut
    decreases ns.len() - i,
        when 0 <= i <= ns.len()
{
    if i == ns.len() {
        IOut { data: d, errs: Seq::empty() }
    } else {
        match interp_step(d, ns[i]) {
            Ok(d2) => interp_from(d2, ns, i + 1),
            Err(e) => {
                let rest = interp_from(d, ns, i + 1);
                IOut { data: rest.data, errs: seq![e] + rest.errs }
            },
        }
    }
}

/// The whole interpretation of a node list, from the default configuration.
pub open spec fn interp_s(ns: Seq<NodeV>) -> IOut {
    interp_from(default_idata_v(), ns, 0)
}

/// The views of a diagnostic list.
pub open spec fn ierrs_v(es: Seq<InterpreterException>) -> Seq<InterpreterExceptionV> {
    es.map_values(|e: InterpreterException| e@)
}

/// The interpreter's outcome: the configuration, and every diagnostic the
/// fold collected; it succeeded only if none arose.
#[derive(Debug)]
pub struct InterpreterResult {
    pub success: bool,
    pub data: InterpreterData,
    pub exceptions: Vec<InterpreterException>,
}

/// The default configuration as a value.
pub fn init() -> (d: InterpreterData)
    ensures
        d@ == default_idata_v(),
{
    let d = InterpreterData {
        set_frame: false,
        set_resolution: false,
        set_export: false,
        set_print_now: false,
        position: Vector2 { x: 0, y: 0 },
        size: Vector2 { x: 100, y: 100 },
        resolution: Vector2 { x: 0, y: 0 },
        export: str_to_chars("export.png"),
        equations: Vec::new(),
    };
    proof {
        assert(nodes_v(Seq::<Node>::empty()) =~= Seq::<NodeV>::empty());
    }
    d
}

/// Applies a frame directive: the frame must be at least one unit a side,
/// and must not have been set before.
pub fn interpret_headerfunc_frame(
    data: InterpreterData,
    range: Range,
    x: i32,
    y: i32,
    w: i32,
    h: i32,
) -> (r: InterpreterResult)
    ensures
        (match interp_step(
            data@,
            NodeV { base: NodeBaseV::HeaderFuncFrame { x, y, w, h }, range: range@ },
        ) {
            Ok(d2) => r.success && r.data@ == d2 && r.exceptions@.len() == 0,
            Err(e) => !r.success && r.data@ == data@ && r.exceptions@.len() == 1
                && r.exceptions@[0]@ == e,
        }),
{
    if w <= 0 || h <= 0 {
        return fail_one(
            data,
            InterpreterExceptionBase::InvalidValueException,
            "Frame width and height must be at least 1.",
            range,
        );
    }
    if data.set_frame {
        return fail_one(
            data,
            InterpreterExceptionBase::HeaderAlreadyAccessedException,
            "Header `frame` has already been accessed.",
            range,
        );
    }
    let mut data = data;
    data.set_frame = true;
    data.position = Vector2 { x, y };
    data.size = Vector2 { x: w, y: h };
    InterpreterResult { success: true, data, exceptions: Vec::new() }
}

/// Applies a resolution directive: both components must be at least zero,
/// and the resolution must not have been set before.
pub fn interpret_headerfunc_resolution(
    data: InterpreterData,
    range: Range,
    w: i32,
    h: i32,
) -> (r: InterpreterResult)
    ensures
        (match interp_step(
            data@,
            NodeV { base: NodeBaseV::HeaderFuncResolution { w, h }, range: range@ },
        ) {
            Ok(d2) => r.success && r.data@ == d2 && r.exceptions@.len() == 0,
            Err(e) => !r.success && r.data@ == data@ && r.exceptions@.len() == 1
                && r.exceptions@[0]@ == e,
        }),
{
    if w < 0 || h < 0 {
        return fail_one(
            data,
            InterpreterExceptionBase::InvalidValueException,
            "Resolution width and height must be at least 0.",
            range,
        );
    }
    if data.set_resolution {
        return fail_one(
            data,
            InterpreterExceptionBase::HeaderAlreadyAccessedException,
            "Header `resolution` has already been accessed.",
            range,
        );
    }
    let mut data = data;
    data.set_resolution = true;
    data.resolution = Vector2 { x: w, y: h };
    InterpreterResult { success: true, data, exceptions: Vec::new() }
}

/// Applies an export directive: the path may be set at most once.
pub fn interpret_headerfunc_export(
    data: InterpreterData,
    range: Range,
    filename: Vec<char>,
) -> (r: InterpreterResult)
    ensures
        (match interp_step(
            data@,
            NodeV { base: NodeBaseV::HeaderFuncExport { filename: filename@ }, range: range@ },
        ) {
            Ok(d2) => r.success && r.data@ == d2 && r.exceptions@.len() == 0,
            Err(e) => !r.success && r.data@ == data@ && r.exceptions@.len() == 1
                && r.exceptions@[0]@ == e,
        }),
{
    if data.set_export {
        return fail_one(
            data,
            InterpreterExceptionBase::HeaderAlreadyAccessedException,
            "Header `export` has already been accessed.",
            range,
        );
    }
    let mut data = data;
    data.set_export = true;
    data.export = filename;
    InterpreterResult { success: true, data, exceptions: Vec::new() }
}

/// Applies a print directive: it may be given at most once.
pub fn interpret_headerfunc_print_now(data: InterpreterData, range: Range) -> (r:
    InterpreterResult)
    ensures
        (match interp_step(data@, NodeV { base: NodeBaseV::HeaderFuncPrintNow, range: range@ }) {
            Ok(d2) => r.success && r.data@ == d2 && r.exceptions@.len() == 0,
            Err(e) => !r.success && r.data@ == data@ && r.exceptions@.len() == 1
                && r.exceptions@[0]@ == e,
        }),
{
    if data.set_print_now {
        return fail_one(
            data,
            InterpreterExceptionBase::HeaderAlreadyAccessedException,
            "Header `print_now` has already been accessed.",
            range,
        );
    }
    let mut data = data;
    data.set_print_now = true;
    InterpreterResult { success: true, data, exceptions: Vec::new() }
}

/// Appends an equation's right-hand side; the left side must be the bare
/// binding variable `y`, which is all the parser produces for equations.
pub fn interpret_equation_equals(
    data: InterpreterData,
    _range: Range,
    left: Node,
    right: Node,
) -> (r: InterpreterResult)
    requires
        crate::nodes::is_y_marker_v(node_view(left)),
    ensures
        r.success,
        r.data@ == (IDataV { equations: data@.equations.push(node_view(right)), ..data@ }),
        r.exceptions@.len() == 0,
{
    let mut data = data;
    let ghost eqs0 = data.equations@;
    data.equations.push(right);
    proof {
        assert(nodes_v(data.equations@) =~= nodes_v(eqs0).push(
            node_view(data.equations@[eqs0.len() as int]),
        ));
    }
    InterpreterResult { success: true, data, exceptions: Vec::new() }
}

/// Passes a node the interpreter does not know through unchanged; such
/// nodes are deliberately ignored rather than rejected.
pub fn interpret_unknown(data: InterpreterData) -> (r: InterpreterResult)
    ensures
        r.success,
        r.data@ == data@,
        r.exceptions@.len() == 0,
{
    InterpreterResult { success: true, data, exceptions: Vec::new() }
}

impl InterpreterData {
    /// An explicit deep copy; the view is preserved.
    pub fn duplicate(&self) -> (d: InterpreterData)
        ensures
            d@ == self@,
    {
        let mut equations: Vec<Node> = Vec::new();
        let n = self.equations.len();
        let mut i: usize = 0;
        proof {
            assert(nodes_v(equations@) =~= nodes_v(self.equations@).take(0));
        }
        while i < n
            invariant
                i <= n,
                n == self.equations@.len(),
                nodes_v(equations@) == nodes_v(self.equations@).take(i as int),
            decreases n - i,
        {
            let ghost eqs0 = equations@;
            equations.push(self.equations[i].duplicate());
            proof {
                assert(nodes_v(equations@) =~= nodes_v(eqs0).push(
                    node_view(equations@[eqs0.len() as int]),
                ));
                assert(nodes_v(self.equations@).take(i as int).push(
                    nodes_v(self.equations@)[i as int],
                ) =~= nodes_v(self.equations@).take(i + 1 as int));
            }
            i = i + 1;
        }
        proof {
            assert(nodes_v(self.equations@).take(n as int) =~= nodes_v(self.equations@));
        }
        InterpreterData {
            set_frame: self.set_frame,
            set_resolution: self.set_resolution,
            set_export: self.set_export,
            set_print_now: self.set_print_now,
            position: self.position,
            size: self.size,
            resolution: self.resolution,
            export: crate::data::clone_chars(&self.export),
            equations,
        }
    }
}

/// A failing outcome carrying one diagnostic and the unchanged data.
fn fail_one(
    data: InterpreterData,
    base: InterpreterExceptionBase,
    msg: &str,
    range: Range,
) -> (r: InterpreterResult)
    ensures
        !r.success,
        r.data@ == data@,
        r.exceptions@.len() == 1,
        r.exceptions@[0]@ == ierr_v(base, msg@, range@),
{
    let mut exceptions: Vec<InterpreterException> = Vec::new();
    exceptions.push(
        InterpreterException { base, message: String::from_str(msg), range },
    );
    InterpreterResult { success: false, data, exceptions }
}

/// Interprets a node list, exactly as the model [`interp_s`] says: the
/// folded configuration, and every diagnostic in source order; success
/// means no diagnostic arose.
pub fn interpret(nodes: Vec<Node>) -> (r: InterpreterResult)
    ensures
        r.success == (interp_s(nodes_v(nodes@)).errs.len() == 0),
        r.data@ == interp_s(nodes_v(nodes@)).data,
        ierrs_v(r.exceptions@) == interp_s(nodes_v(nodes@)).errs,
{
    let ghost nsv = nodes_v(nodes@);
    let mut data = init();
    let mut exceptions: Vec<InterpreterException> = Vec::new();
    let n = nodes.len();
    let mut i: usize = 0;
    proof {
        assert(nsv.len() == nodes@.len());
        assert(ierrs_v(exceptions@) =~= Seq::<InterpreterExceptionV>::empty());
    }
    while i < n
        invariant
            i <= n,
            n == nodes@.len(),
            nsv == nodes_v(nodes@),
            nsv.len() == n,
            interp_join(ierrs_v(exceptions@), interp_from(data@, nsv, i as int)) == interp_s(nsv),
        decreases n - i,
    {
        proof {
            assert(nsv[i as int] == node_view(nodes@[i as int]));
        }
        let node = &nodes[i];
        let result = match &node.base {
            NodeBase::HeaderFuncFrame { x, y, w, h } => interpret_headerfunc_frame(
                data,
                node.range.duplicate(),
                *x,
                *y,
                *w,
                *h,
            ),
            NodeBase::HeaderFuncResolution { w, h } => interpret_headerfunc_resolution(
                data,
                node.range.duplicate(),
                *w,
                *h,
            ),
            NodeBase::HeaderFuncExport { filename } => interpret_headerfunc_export(
                data,
                node.range.duplicate(),
                crate::data::clone_chars(filename),
            ),
            NodeBase::HeaderFuncPrintNow => interpret_headerfunc_print_now(
                data,
                node.range.duplicate(),
            ),
            NodeBase::EqualsExpression { left, right } => {
                let is_y = match &left.base {
                    NodeBase::Variable { name } => *name == 'y',
                    _ => false,
                };
                if is_y {
                    interpret_equation_equals(
                        data,
                        node.range.duplicate(),
                        left.duplicate(),
                        right.duplicate(),
                    )
                } else {
                    interpret_unknown(data)
                }
            },
            _ => interpret_unknown(data),
        };
        let mut result = result;
        if result.success {
            data = result.data;
        } else {
            data = result.data;
            let ghost errs0 = exceptions@;
            let exc = result.exceptions.pop().unwrap();
            let ghost ev = exc@;
            exceptions.push(exc);
            proof {
                assert(ierrs_v(exceptions@) =~= ierrs_v(errs0).push(ev));
                let rest = interp_from(data@, nsv, i + 1 as int);
                assert(ierrs_v(errs0) + (seq![ev] + rest.errs) =~= ierrs_v(errs0).push(ev)
                    + rest.errs);
            }
        }
        i = i + 1;
    }
    proof {
        assert(ierrs_v(exceptions@) + Seq::<InterpreterExceptionV>::empty() =~= ierrs_v(
            exceptions@,
        ));
    }
    let success = exceptions.len() == 0;
    proof {
        assert(ierrs_v(exceptions@).len() == exceptions@.len());
    }
    InterpreterResult { success, data, exceptions }
}

/// Joins already-collected diagnostics onto the rest of a fold's outcome.
pub open spec fn interp_join(errs: Seq<InterpreterExceptionV>, rest: IOut) -> IOut {
    IOut { data: rest.data, errs: errs + rest.errs }
}

} // verus!
