use vstd::prelude::*;

use crate::context::{spec_ctx_combine, Context, CtxV};
use crate::errors::{spec_err, ErrV, Error, ErrorKind};
use crate::ident::Ident;
use crate::nodes::{
    view_cases, view_node, BinaryOperationNode, BinaryOperationNodeV, ForNode, IfNode, Node,
    NodeType, NodeTypeV, NodeV, OperationType, UnaryOperation, UnaryOperationNode,
    UnaryOperationNodeV, WhileNode,
};
use crate::position::{Position, PosV};
use crate::stack::{spec_lookup, spec_set};
use crate::token::{spec_token_display, Token, TokenV};
use crate::types::{
    spec_add, spec_and, spec_bool_of, spec_cmp, spec_div, spec_eq_op, spec_gt_op, spec_gte_op,
    spec_lt_op, spec_lte_op, spec_mul, spec_neg, spec_neq_op, spec_not, spec_or, spec_sub,
    CmpResult, Integer, NoneType, Type,
};
use vstd::string::StringExecFns;

verus! {

/// The none value, as evaluation produces it.
pub open spec fn spec_none() -> Type {
    Type::NoneType(NoneType {  })
}

/// The integer one, the fixed step of a for loop.
pub open spec fn spec_one() -> Type {
    Type::Integer(Integer { value: 1 })
}

/// A context with its environment replaced.
pub open spec fn spec_ctx_with_stack(c: CtxV, stack: crate::stack::StackV) -> CtxV {
    CtxV { pos: c.pos, stack, parent: c.parent }
}

/// The name error an unbound variable raises, attributed to the context's
/// position.
pub open spec fn spec_name_err(name: Seq<char>, c: CtxV) -> ErrV {
    ErrV {
        kind: ErrorKind::NameError,
        message: name + " is not defined"@,
        position: Some(c.pos),
        context: None,
    }
}

/// The error raised when a loop exhausts its iteration budget.
pub open spec fn spec_budget_err(c: CtxV) -> ErrV {
    ErrV {
        kind: ErrorKind::Undefined,
        message: "loop iteration limit exceeded"@,
        position: Some(c.pos),
        context: None,
    }
}

/// An error re-attributed to an evaluation context, as `Error::with_context`
/// does it: the position is dropped and the context chain attached.
pub open spec fn spec_with_ctx(e: ErrV, c: CtxV) -> ErrV {
    ErrV { kind: e.kind, message: e.message, position: None, context: Some(c) }
}

/// The value-level dispatch of a binary operator token.
pub open spec fn spec_binop(t: TokenV, a: Type, b: Type) -> Result<Type, ErrV> {
    match t {
        TokenV::Plus => spec_add(a, b),
        TokenV::Minus => spec_sub(a, b),
        TokenV::Star => spec_mul(a, b),
        TokenV::Slash => spec_div(a, b),
        TokenV::DoubleEqual => spec_eq_op(a, b),
        TokenV::NonEqual => spec_neq_op(a, b),
        TokenV::LessThan => spec_lt_op(a, b),
        TokenV::GreaterThan => spec_gt_op(a, b),
        TokenV::LessThanEq => spec_lte_op(a, b),
        TokenV::GreaterThanEq => spec_gte_op(a, b),
        TokenV::DoubleAnd => spec_and(a, b),
        TokenV::DoubleOr => spec_or(a, b),
        _ => Err(
            spec_err(ErrorKind::Undefined, "can't operate on token "@ + spec_token_display(t)),
        ),
    }
}

/// One step of evaluation, indexed by a fuel bound on the recursion depth:
/// `None` means the fuel ran out before the evaluation finished, and
/// `Some(z)` that it finished with outcome `z` — the value and the resulting
/// context, or the first error together with the context as it stood going
/// into the failing step. Evaluation is deterministic, so for every node and
/// context the outcomes at all sufficient fuels agree.
pub open spec fn spec_eval(n: NodeV, ctx: CtxV, fuel: nat) -> Option<
    Result<(Type, CtxV), (ErrV, CtxV)>,
>
    decreases fuel, 1int,
{
    if fuel == 0 {
        None
    } else {
        let f = (fuel - 1) as nat;
        match n.ty {
            NodeTypeV::Node(t) => Some(Ok((t, ctx))),
            NodeTypeV::Var(name) => Some(spec_eval_var(name, ctx)),
            NodeTypeV::Assign(a) => match spec_eval(*a.expr, ctx, f) {
                None => None,
                Some(Ok((v, c2))) => Some(
                    Ok((v, spec_ctx_with_stack(c2, spec_set(c2.stack, a.name, v)))),
                ),
                Some(Err(ec)) => Some(Err(ec)),
            },
            NodeTypeV::Operation(op) => match op {
                crate::nodes::OperationTypeV::BinaryOperationNode(b) => spec_eval_binary(
                    *b,
                    ctx,
                    f,
                ),
                crate::nodes::OperationTypeV::UnaryOperationNode(u) => spec_eval_unary(
                    *u,
                    ctx,
                    f,
                ),
            },
            NodeTypeV::IfNode(i) => spec_eval_if(i.cases, i.else_case, ctx, f),
            NodeTypeV::WhileNode(w) => spec_eval_while(
                *w.condition,
                *w.body,
                spec_none(),
                ctx,
                u64::MAX as int,
                f,
            ),
            NodeTypeV::ForNode(fr) => spec_eval_for_entry(
                fr.var_name,
                *fr.start,
                *fr.end,
                *fr.body,
                ctx,
                f,
            ),
        }
    }
}

/// Variable reference: lookup through the environment chain; a miss is a
/// name error naming the variable, with the context unchanged either way.
pub open spec fn spec_eval_var(name: Seq<char>, ctx: CtxV) -> Result<
    (Type, CtxV),
    (ErrV, CtxV),
> {
    match spec_lookup(ctx.stack, name) {
        Some(v) => Ok((v, ctx)),
        None => Err((spec_name_err(name, ctx), ctx)),
    }
}

/// Binary operation: both operands are evaluated against the same incoming
/// context, the resulting contexts merged, the operator dispatched on the
/// values, and a value-level error re-attributed to the merged context.
pub open spec fn spec_eval_binary(b: BinaryOperationNodeV, ctx: CtxV, fuel: nat) -> Option<
    Result<(Type, CtxV), (ErrV, CtxV)>,
>
    decreases fuel, 0int,
{
    if fuel == 0 {
        None
    } else {
        let f = (fuel - 1) as nat;
        match spec_eval(b.left, ctx, f) {
            None => None,
            Some(Err(ec)) => Some(Err(ec)),
            Some(Ok((lv, lc))) => match spec_eval(b.right, ctx, f) {
                None => None,
                Some(Err(ec)) => Some(Err(ec)),
                Some(Ok((rv, rc))) => {
                    let mc = spec_ctx_combine(lc, rc);
                    match spec_binop(b.operation, lv, rv) {
                        Ok(v) => Some(Ok((v, mc))),
                        Err(e0) => Some(Err((spec_with_ctx(e0, mc), mc))),
                    }
                },
            },
        }
    }
}

/// Unary operation: the operand is evaluated, the prefix operator applied,
/// and the result carried in a context whose span is widened one character
/// to the left, with the incoming context chained as the parent and its
/// environment restored.
pub open spec fn spec_eval_unary(u: UnaryOperationNodeV, ctx: CtxV, fuel: nat) -> Option<
    Result<(Type, CtxV), (ErrV, CtxV)>,
>
    decreases fuel, 0int,
{
    if fuel == 0 {
        None
    } else {
        let f = (fuel - 1) as nat;
        match spec_eval(u.node, ctx, f) {
            None => None,
            Some(Err(ec)) => Some(Err(ec)),
            Some(Ok((tv, c2))) => {
                let nc = CtxV {
                    pos: PosV {
                        index: i64::wrapping_sub(c2.pos.index, 1),
                        filename: c2.pos.filename,
                        line: c2.pos.line,
                        column: c2.pos.column,
                        len: u64::wrapping_add(c2.pos.len, 1),
                    },
                    stack: ctx.stack,
                    parent: Some(Box::new(ctx)),
                };
                match u.operation {
                    UnaryOperation::Plus => Some(Ok((tv, nc))),
                    UnaryOperation::Minus => match spec_neg(tv) {
                        Ok(v) => Some(Ok((v, nc))),
                        Err(e) => Some(Err((e, nc))),
                    },
                    UnaryOperation::Not => match spec_not(tv) {
                        Ok(v) => Some(Ok((v, nc))),
                        Err(e) => Some(Err((e, nc))),
                    },
                }
            },
        }
    }
}

/// If: the cases are tried in order; each condition is evaluated against a
/// fork of the incoming context whose result context is discarded; the
/// first condition that converts to true selects its body, evaluated
/// against the original context; with no match the else body decides, or
/// the none value is returned with the context unchanged.
pub open spec fn spec_eval_if(
    cases: Seq<(NodeV, NodeV)>,
    else_case: Option<Box<NodeV>>,
    ctx: CtxV,
    fuel: nat,
) -> Option<Result<(Type, CtxV), (ErrV, CtxV)>>
    decreases fuel, 0int,
{
    if fuel == 0 {
        None
    } else {
        let f = (fuel - 1) as nat;
        if cases.len() == 0 {
            match else_case {
                Some(e) => spec_eval(*e, ctx, f),
                None => Some(Ok((spec_none(), ctx))),
            }
        } else {
            match spec_eval(cases[0].0, ctx, f) {
                None => None,
                Some(Err(ec)) => Some(Err(ec)),
                Some(Ok((cv, _))) => match spec_bool_of(cv) {
                    Err(e) => Some(Err((e, ctx))),
                    Ok(true) => spec_eval(cases[0].1, ctx, f),
                    Ok(false) => spec_eval_if(cases.drop_first(), else_case, ctx, f),
                },
            }
        }
    }
}

/// While: the condition is evaluated against the running context; while it
/// converts to true the body runs and threads the context on; the last body
/// value (the none value if the body never ran) comes back with the final
/// context. The budget counts the iterations still allowed; exhausting it
/// is the loop-limit error.
pub open spec fn spec_eval_while(
    cond: NodeV,
    body: NodeV,
    last: Type,
    ctx: CtxV,
    budget: int,
    fuel: nat,
) -> Option<Result<(Type, CtxV), (ErrV, CtxV)>>
    decreases fuel, 0int,
{
    if fuel == 0 {
        None
    } else if budget <= 0 {
        Some(Err((spec_budget_err(ctx), ctx)))
    } else {
        let f = (fuel - 1) as nat;
        match spec_eval(cond, ctx, f) {
            None => None,
            Some(Err(ec)) => Some(Err(ec)),
            Some(Ok((cv, c2))) => match spec_bool_of(cv) {
                Err(e) => Some(Err((e, c2))),
                Ok(false) => Some(Ok((last, c2))),
                Ok(true) => match spec_eval(body, c2, f) {
                    None => None,
                    Some(Err(ec)) => Some(Err(ec)),
                    Some(Ok((bv, c3))) => spec_eval_while(cond, body, bv, c3, budget - 1, f),
                },
            },
        }
    }
}

/// For, after the loop variable is seeded: the variable is read back,
/// incremented by one, and the loop continues while the end bound compares
/// strictly greater than the incremented value — the end bound is
/// exclusive. Each continuing step commits the increment and runs the body.
pub open spec fn spec_eval_for(
    var_name: Seq<char>,
    end: Type,
    body: NodeV,
    last: Type,
    ctx: CtxV,
    budget: int,
    fuel: nat,
) -> Option<Result<(Type, CtxV), (ErrV, CtxV)>>
    decreases fuel, 0int,
{
    if fuel == 0 {
        None
    } else if budget <= 0 {
        Some(Err((spec_budget_err(ctx), ctx)))
    } else {
        let f = (fuel - 1) as nat;
        match spec_lookup(ctx.stack, var_name) {
            None => Some(Err((spec_name_err_loopvar(ctx), ctx))),
            Some(cur) => match spec_add(cur, spec_one()) {
                Err(e) => Some(Err((e, ctx))),
                Ok(next) => match spec_cmp(end, next) {
                    Err(e) => Some(Err((e, ctx))),
                    Ok(c) => if c != CmpResult::Greater {
                        Some(Ok((last, ctx)))
                    } else {
                        let ctx2 = spec_ctx_with_stack(
                            ctx,
                            spec_set(ctx.stack, var_name, next),
                        );
                        match spec_eval(body, ctx2, f) {
                            None => None,
                            Some(Err(ec)) => Some(Err(ec)),
                            Some(Ok((bv, c3))) => spec_eval_for(
                                var_name,
                                end,
                                body,
                                bv,
                                c3,
                                budget - 1,
                                f,
                            ),
                        }
                    },
                },
            },
        }
    }
}

/// The defensive error for a loop variable that vanished from the
/// environment mid-loop.
pub open spec fn spec_name_err_loopvar(c: CtxV) -> ErrV {
    ErrV {
        kind: ErrorKind::NameError,
        message: "loop variable is not defined"@,
        position: Some(c.pos),
        context: None,
    }
}

/// For, from the top: start and end are evaluated once, threading the
/// context; the loop variable is seeded to start minus one; then the loop
/// runs with a fixed step of one.
pub open spec fn spec_eval_for_entry(
    var_name: Seq<char>,
    start: NodeV,
    end: NodeV,
    body: NodeV,
    ctx: CtxV,
    fuel: nat,
) -> Option<Result<(Type, CtxV), (ErrV, CtxV)>>
    decreases fuel, 0int,
{
    if fuel == 0 {
        None
    } else {
        let f = (fuel - 1) as nat;
        match spec_eval(start, ctx, f) {
            None => None,
            Some(Err(ec)) => Some(Err(ec)),
            Some(Ok((sv, c1))) => match spec_eval(end, c1, f) {
                None => None,
                Some(Err(ec)) => Some(Err(ec)),
                Some(Ok((ev, c2))) => match spec_sub(sv, spec_one()) {
                    Err(e) => Some(Err((e, c2))),
                    Ok(seed) => spec_eval_for(
                        var_name,
                        ev,
                        body,
                        spec_none(),
                        spec_ctx_with_stack(c2, spec_set(c2.stack, var_name, seed)),
                        u64::MAX as int,
                        f,
                    ),
                },
            },
        }
    }
}

/// Evaluation of `n` in `ctx` finishes with outcome `z` at every fuel of at
/// least `f`.
pub open spec fn eval_from(
    n: NodeV,
    ctx: CtxV,
    z: Result<(Type, CtxV), (ErrV, CtxV)>,
    f: nat,
) -> bool {
    forall|g: nat| g >= f ==> spec_eval(n, ctx, g) == Some(z)
}

/// Evaluation of `n` in `ctx` converges to the outcome `z`: some fuel
/// suffices, and from there on the outcome never changes.
pub open spec fn evals_to(n: NodeV, ctx: CtxV, z: Result<(Type, CtxV), (ErrV, CtxV)>) -> bool {
    exists|f: nat| eval_from(n, ctx, z, f)
}

/// Evaluation is deterministic: a node in a context converges to at most
/// one outcome.
pub proof fn lemma_evals_to_unique(
    n: NodeV,
    ctx: CtxV,
    z1: Result<(Type, CtxV), (ErrV, CtxV)>,
    z2: Result<(Type, CtxV), (ErrV, CtxV)>,
)
    requires
        evals_to(n, ctx, z1),
        evals_to(n, ctx, z2),
    ensures
        z1 == z2,
{
    let f1 = choose|f: nat| eval_from(n, ctx, z1, f);
    let f2 = choose|f: nat| eval_from(n, ctx, z2, f);
    assert(spec_eval(n, ctx, f1 + f2) == Some(z1));
    assert(spec_eval(n, ctx, f1 + f2) == Some(z2));
}

/// The recursive tree walk: dispatches on the node kind and produces the
/// value together with the updated context, or the first error together
/// with the context as it stood going into the failing step, exactly as
/// `spec_eval` describes for some sufficient fuel.
pub fn visit_ctx(node: Node, context: Context) -> (r: Result<(Type, Context), (Error, Context)>)
    ensures
        match r {
            Ok(p) => evals_to(node@, context@, Ok((p.0, p.1@))),
            Err(p) => evals_to(node@, context@, Err((p.0@, p.1@))),
        },
{
    visit_ref(&node, context)
}

/// The tree walk behind the original entry point: the error side carries
/// only the error, the environment at the failure point being dropped.
pub fn visit(node: Node, context: Context) -> (r: Result<(Type, Context), Error>)
    ensures
        match r {
            Ok(p) => evals_to(node@, context@, Ok((p.0, p.1@))),
            Err(e) => exists|c: CtxV| evals_to(node@, context@, Err((e@, c))),
        },
        (node@.ty is Node) ==> (match r {
            Ok(p) => p.0 == node@.ty->Node_0 && p.1@ == context@,
            Err(_) => false,
        }),
        (node@.ty is Var) ==> (match r {
            Ok(p) => spec_lookup(context@.stack, node@.ty->Var_0) == Some(p.0) && p.1@
                == context@,
            Err(e) => spec_lookup(context@.stack, node@.ty->Var_0) is None && e@.kind
                == ErrorKind::NameError && e@.message == node@.ty->Var_0 + " is not defined"@
                && e@.position == Some(context@.pos),
        }),
{
    match visit_ref(&node, context) {
        Ok(p) => Ok(p),
        Err((e, c)) => {
            proof {
                assert(evals_to(node@, context@, Err((e@, c@))));
            }
            Err(e)
        },
    }
}

fn visit_ref(node: &Node, context: Context) -> (r: Result<(Type, Context), (Error, Context)>)
    ensures
        match r {
            Ok(p) => evals_to(node@, context@, Ok((p.0, p.1@))),
            Err(p) => evals_to(node@, context@, Err((p.0@, p.1@))),
        },
        (node@.ty is Node) ==> (match r {
            Ok(p) => p.0 == node@.ty->Node_0 && p.1@ == context@,
            Err(_) => false,
        }),
        (node@.ty is Var) ==> (match r {
            Ok(p) => spec_lookup(context@.stack, node@.ty->Var_0) == Some(p.0) && p.1@
                == context@,
            Err(p) => spec_lookup(context@.stack, node@.ty->Var_0) is None && p.0@.kind
                == ErrorKind::NameError && p.0@.message == node@.ty->Var_0 + " is not defined"@
                && p.0@.position == Some(context@.pos),
        }),
    decreases *node,
{
    let ghost nv = node@;
    let ghost cv0 = context@;
    match &node.ty {
        NodeType::Node(ty) => {
            proof {
                assert forall|g: nat| g >= 1 implies spec_eval(nv, cv0, g) == Some(
                    Ok::<(Type, CtxV), (ErrV, CtxV)>((*ty, cv0)),
                ) by {}
                assert(eval_from(nv, cv0, Ok((*ty, cv0)), 1));
            }
            Ok((*ty, context))
        },
        NodeType::Operation(op) => match op {
            OperationType::BinaryOperationNode(b) => {
                let r = visit_binary_operation(&**b, context);
                proof {
                    reveal_with_fuel(crate::nodes::view_node, 3);
                    assert(nv.ty == NodeTypeV::Operation(
                        crate::nodes::OperationTypeV::BinaryOperationNode(
                            Box::new(view_binary(**b)),
                        ),
                    ));
                    lift_binary(nv, view_binary(**b), cv0, r_view(&r));
                }
                r
            },
            OperationType::UnaryOperationNode(u) => {
                let r = visit_unary_operation(&**u, context);
                proof {
                    reveal_with_fuel(crate::nodes::view_node, 3);
                    assert(nv.ty == NodeTypeV::Operation(
                        crate::nodes::OperationTypeV::UnaryOperationNode(
                            Box::new(view_unary(**u)),
                        ),
                    ));
                    lift_unary(nv, view_unary(**u), cv0, r_view(&r));
                }
                r
            },
        },
        NodeType::Var(id) => {
            let r = visit_var(id, context);
            proof {
                let z = r_view(&r);
                assert forall|g: nat| g >= 1 implies spec_eval(nv, cv0, g) == Some(z) by {}
                assert(eval_from(nv, cv0, z, 1));
            }
            r
        },
        NodeType::Assign(a) => {
            let ghost en = view_node(*a.expr);
            let value = visit_ref(&*a.expr, context);
            match value {
                Ok((v, mut context)) => {
                    let ghost c2 = context@;
                    context.stack.set(a.name.clone(), v);
                    proof {
                        assert(context@ == spec_ctx_with_stack(
                            c2,
                            spec_set(c2.stack, a.name@, v),
                        ));
                        let z = Ok::<(Type, CtxV), (ErrV, CtxV)>((v, context@));
                        let f1 = choose|f: nat| eval_from(en, cv0, Ok((v, c2)), f);
                        assert forall|g: nat| g >= f1 + 1 implies spec_eval(nv, cv0, g)
                            == Some(z) by {
                            assert(spec_eval(en, cv0, (g - 1) as nat) == Some(
                                Ok::<(Type, CtxV), (ErrV, CtxV)>((v, c2)),
                            ));
                        }
                        assert(eval_from(nv, cv0, z, (f1 + 1) as nat));
                    }
                    Ok((v, context))
                },
                Err(ep) => {
                    proof {
                        let z = Err::<(Type, CtxV), (ErrV, CtxV)>((ep.0@, ep.1@));
                        let f1 = choose|f: nat| eval_from(en, cv0, z, f);
                        assert forall|g: nat| g >= f1 + 1 implies spec_eval(nv, cv0, g)
                            == Some(z) by {
                            assert(spec_eval(en, cv0, (g - 1) as nat) == Some(z));
                        }
                        assert(eval_from(nv, cv0, z, (f1 + 1) as nat));
                    }
                    Err(ep)
                },
            }
        },
        NodeType::IfNode(f) => {
            let r = visit_if_node(f, context);
            proof {
                lift_if(nv, view_cases(f.cases@), view_else(f), cv0, r_view(&r));
            }
            r
        },
        NodeType::ForNode(f) => {
            let r = visit_for_node(f, context);
            proof {
                lift_for(
                    nv,
                    f.var_name@,
                    view_node(*f.start),
                    view_node(*f.end),
                    view_node(*f.body),
                    cv0,
                    r_view(&r),
                );
            }
            r
        },
        NodeType::WhileNode(w) => {
            let r = visit_while_node(w, context);
            proof {
                lift_while(nv, view_node(*w.condition), view_node(*w.body), cv0, r_view(&r));
            }
            r
        },
    }
}

/// The outcome an executable result stands for.
pub open spec fn r_view(r: &Result<(Type, Context), (Error, Context)>) -> Result<
    (Type, CtxV),
    (ErrV, CtxV),
> {
    match r {
        Ok(p) => Ok((p.0, p.1@)),
        Err(p) => Err((p.0@, p.1@)),
    }
}

/// The model of a binary-operation node.
pub open spec fn view_binary(b: BinaryOperationNode) -> BinaryOperationNodeV {
    BinaryOperationNodeV {
        left: view_node(b.left),
        operation: b.operation@,
        right: view_node(b.right),
    }
}

/// The model of a unary-operation node.
pub open spec fn view_unary(u: UnaryOperationNode) -> UnaryOperationNodeV {
    UnaryOperationNodeV { operation: u.operation, node: view_node(u.node) }
}

/// The model of an if node's optional else body.
pub open spec fn view_else(f: &IfNode) -> Option<Box<NodeV>> {
    match *f.else_case {
        Some(e) => Some(Box::new(view_node(e))),
        None => None,
    }
}

/// A converged binary-operation outcome lifts to the node that holds it.
proof fn lift_binary(
    nv: NodeV,
    b: BinaryOperationNodeV,
    ctx: CtxV,
    z: Result<(Type, CtxV), (ErrV, CtxV)>,
)
    requires
        nv.ty == NodeTypeV::Operation(
            crate::nodes::OperationTypeV::BinaryOperationNode(Box::new(b)),
        ),
        exists|f: nat| bin_from(b, ctx, z, f),
    ensures
        evals_to(nv, ctx, z),
{
    let f1 = choose|f: nat| bin_from(b, ctx, z, f);
    assert forall|g: nat| g >= f1 + 1 implies spec_eval(nv, ctx, g) == Some(z) by {
        assert(spec_eval_binary(b, ctx, (g - 1) as nat) == Some(z));
    }
    assert(eval_from(nv, ctx, z, (f1 + 1) as nat));
}

/// A converged unary-operation outcome lifts to the node that holds it.
proof fn lift_unary(
    nv: NodeV,
    u: UnaryOperationNodeV,
    ctx: CtxV,
    z: Result<(Type, CtxV), (ErrV, CtxV)>,
)
    requires
        nv.ty == NodeTypeV::Operation(
            crate::nodes::OperationTypeV::UnaryOperationNode(Box::new(u)),
        ),
        exists|f: nat| un_from(u, ctx, z, f),
    ensures
        evals_to(nv, ctx, z),
{
    let f1 = choose|f: nat| un_from(u, ctx, z, f);
    assert forall|g: nat| g >= f1 + 1 implies spec_eval(nv, ctx, g) == Some(z) by {
        assert(spec_eval_unary(u, ctx, (g - 1) as nat) == Some(z));
    }
    assert(eval_from(nv, ctx, z, (f1 + 1) as nat));
}

/// A converged if outcome lifts to the node that holds it.
proof fn lift_if(
    nv: NodeV,
    cases: Seq<(NodeV, NodeV)>,
    else_case: Option<Box<NodeV>>,
    ctx: CtxV,
    z: Result<(Type, CtxV), (ErrV, CtxV)>,
)
    requires
        nv.ty == NodeTypeV::IfNode(crate::nodes::IfNodeV { cases, else_case }),
        exists|f: nat| if_from(cases, else_case, ctx, z, f),
    ensures
        evals_to(nv, ctx, z),
{
    let f1 = choose|f: nat| if_from(cases, else_case, ctx, z, f);
    assert forall|g: nat| g >= f1 + 1 implies spec_eval(nv, ctx, g) == Some(z) by {
        assert(spec_eval_if(cases, else_case, ctx, (g - 1) as nat) == Some(z));
    }
    assert(eval_from(nv, ctx, z, (f1 + 1) as nat));
}

/// A converged while outcome lifts to the node that holds it.
proof fn lift_while(
    nv: NodeV,
    cond: NodeV,
    body: NodeV,
    ctx: CtxV,
    z: Result<(Type, CtxV), (ErrV, CtxV)>,
)
    requires
        nv.ty == NodeTypeV::WhileNode(
            crate::nodes::WhileNodeV { condition: Box::new(cond), body: Box::new(body) },
        ),
        exists|f: nat|
            while_from(cond, body, spec_none(), ctx, u64::MAX as int, z, f),
    ensures
        evals_to(nv, ctx, z),
{
    let f1 = choose|f: nat| while_from(cond, body, spec_none(), ctx, u64::MAX as int, z, f);
    assert forall|g: nat| g >= f1 + 1 implies spec_eval(nv, ctx, g) == Some(z) by {
        assert(spec_eval_while(cond, body, spec_none(), ctx, u64::MAX as int, (g - 1) as nat)
            == Some(z));
    }
    assert(eval_from(nv, ctx, z, (f1 + 1) as nat));
}

/// A converged for outcome lifts to the node that holds it.
proof fn lift_for(
    nv: NodeV,
    var_name: Seq<char>,
    start: NodeV,
    end: NodeV,
    body: NodeV,
    ctx: CtxV,
    z: Result<(Type, CtxV), (ErrV, CtxV)>,
)
    requires
        nv.ty == NodeTypeV::ForNode(
            crate::nodes::ForNodeV {
                var_name,
                start: Box::new(start),
                end: Box::new(end),
                body: Box::new(body),
            },
        ),
        exists|f: nat| forentry_from(var_name, start, end, body, ctx, z, f),
    ensures
        evals_to(nv, ctx, z),
{
    let f1 = choose|f: nat| forentry_from(var_name, start, end, body, ctx, z, f);
    assert forall|g: nat| g >= f1 + 1 implies spec_eval(nv, ctx, g) == Some(z) by {
        assert(spec_eval_for_entry(var_name, start, end, body, ctx, (g - 1) as nat) == Some(z));
    }
    assert(eval_from(nv, ctx, z, (f1 + 1) as nat));
}

/// The binary-operation evaluator finishes with outcome `z` at every fuel
/// of at least `f`.
pub open spec fn bin_from(
    b: BinaryOperationNodeV,
    ctx: CtxV,
    z: Result<(Type, CtxV), (ErrV, CtxV)>,
    f: nat,
) -> bool {
    forall|g: nat| g >= f ==> spec_eval_binary(b, ctx, g) == Some(z)
}

pub open spec fn un_from(
    u: UnaryOperationNodeV,
    ctx: CtxV,
    z: Result<(Type, CtxV), (ErrV, CtxV)>,
    f: nat,
) -> bool {
    forall|g: nat| g >= f ==> spec_eval_unary(u, ctx, g) == Some(z)
}

pub open spec fn if_from(
    cases: Seq<(NodeV, NodeV)>,
    else_case: Option<Box<NodeV>>,
    ctx: CtxV,
    z: Result<(Type, CtxV), (ErrV, CtxV)>,
    f: nat,
) -> bool {
    forall|g: nat| g >= f ==> spec_eval_if(cases, else_case, ctx, g) == Some(z)
}

pub open spec fn while_from(
    cond: NodeV,
    body: NodeV,
    last: Type,
    ctx: CtxV,
    budget: int,
    z: Result<(Type, CtxV), (ErrV, CtxV)>,
    f: nat,
) -> bool {
    forall|g: nat| g >= f ==> spec_eval_while(cond, body, last, ctx, budget, g) == Some(z)
}

pub open spec fn for_from(
    var_name: Seq<char>,
    end: Type,
    body: NodeV,
    last: Type,
    ctx: CtxV,
    budget: int,
    z: Result<(Type, CtxV), (ErrV, CtxV)>,
    f: nat,
) -> bool {
    forall|g: nat| g >= f ==> spec_eval_for(var_name, end, body, last, ctx, budget, g) == Some(
        z,
    )
}

pub open spec fn forentry_from(
    var_name: Seq<char>,
    start: NodeV,
    end: NodeV,
    body: NodeV,
    ctx: CtxV,
    z: Result<(Type, CtxV), (ErrV, CtxV)>,
    f: nat,
) -> bool {
    forall|g: nat| g >= f ==> spec_eval_for_entry(var_name, start, end, body, ctx, g) == Some(z)
}

/// Variable reference: lookup through the environment chain; a miss is a
/// name error naming the variable, attributed to the context's position.
fn visit_var(node: &Ident, context: Context) -> (r: Result<(Type, Context), (Error, Context)>)
    ensures
        match r {
            Ok(p) => spec_lookup(context@.stack, node@) == Some(p.0) && p.1@ == context@,
            Err(p) => spec_lookup(context@.stack, node@) is None && p.0@ == spec_name_err(
                node@,
                context@,
            ) && p.1@ == context@,
        },
{
    let value = context.stack.get(node);
    match value {
        Some(val) => Ok((val, context)),
        None => {
            let msg = node.get().concat(" is not defined");
            proof {
                assert(msg@ =~= node@ + " is not defined"@);
            }
            let e = Error::new(ErrorKind::NameError, msg.as_str(), Some(context.get_position()));
            Err((e, context))
        },
    }
}

/// If: each condition is evaluated in order against a fork of the incoming
/// context; the first one that converts to true selects its body, which is
/// evaluated against the original context; with no match the else body
/// decides, or the none value is returned unchanged.
#[verifier::loop_isolation(false)]
fn visit_if_node(node: &IfNode, context: Context) -> (r: Result<
    (Type, Context),
    (Error, Context),
>)
    ensures
        exists|f: nat| if_from(view_cases(node.cases@), view_else(node), context@, r_view(&r), f),
    decreases *node,
{
    let ghost csv = view_cases(node.cases@);
    let ghost elsv = view_else(node);
    let ghost cv0 = context@;
    proof {
        crate::nodes::lemma_view_cases_props(node.cases@);
        assert(csv.skip(0) =~= csv);
    }
    let n = node.cases.len();
    let mut i: usize = 0;
    while i < n
        invariant
            n == node.cases.len(),
            csv == view_cases(node.cases@),
            elsv == view_else(node),
            cv0 == context@,
            i <= n,
            csv.len() == n,
            forall|j: int| 0 <= j < n ==> #[trigger] csv[j] == (
                view_node(node.cases@[j].0),
                view_node(node.cases@[j].1),
            ),
            forall|z: Result<(Type, CtxV), (ErrV, CtxV)>, f: nat|
                #[trigger] if_from(csv.skip(i as int), elsv, cv0, z, f) ==> exists|g: nat|
                    if_from(csv, elsv, cv0, z, g),
        decreases n - i,
    {
        let ghost rest = csv.skip(i as int);
        let cond_pair = match visit_ref(&node.cases[i].0, context.clone()) {
            Ok(p) => p,
            Err(ep) => {
                proof {
                    let z = Err::<(Type, CtxV), (ErrV, CtxV)>((ep.0@, ep.1@));
                    let f1 = choose|f: nat| eval_from(csv[i as int].0, cv0, z, f);
                    assert forall|g: nat| g >= f1 + 1 implies spec_eval_if(rest, elsv, cv0, g)
                        == Some(z) by {
                        assert(rest[0] == csv[i as int]);
                        assert(spec_eval(csv[i as int].0, cv0, (g - 1) as nat) == Some(z));
                    }
                    assert(if_from(rest, elsv, cv0, z, (f1 + 1) as nat));
                }
                return Err(ep);
            },
        };
        let condition_value = cond_pair.0;
        let ghost condz = condition_value;
        let ghost cfork = cond_pair.1@;
        let ghost fcond = choose|f: nat| eval_from(csv[i as int].0, cv0, Ok((condz, cfork)), f);
        let truthy = match condition_value.to_bool() {
            Ok(b) => b,
            Err(e) => {
                let ep = (e, context);
                proof {
                    let z = Err::<(Type, CtxV), (ErrV, CtxV)>((ep.0@, ep.1@));
                    assert forall|g: nat| g >= fcond + 1 implies spec_eval_if(
                        rest,
                        elsv,
                        cv0,
                        g,
                    ) == Some(z) by {
                        assert(rest[0] == csv[i as int]);
                        assert(spec_eval(csv[i as int].0, cv0, (g - 1) as nat) == Some(
                            Ok::<(Type, CtxV), (ErrV, CtxV)>((condz, cfork)),
                        ));
                    }
                    assert(if_from(rest, elsv, cv0, z, (fcond + 1) as nat));
                }
                return Err(ep);
            },
        };
        if truthy {
            let r = visit_ref(&node.cases[i].1, context);
            proof {
                let z = r_view(&r);
                let f2 = choose|f: nat| eval_from(csv[i as int].1, cv0, z, f);
                assert forall|g: nat| g >= fcond + f2 + 1 implies spec_eval_if(
                    rest,
                    elsv,
                    cv0,
                    g,
                ) == Some(z) by {
                    assert(rest[0] == csv[i as int]);
                    assert(spec_eval(csv[i as int].0, cv0, (g - 1) as nat) == Some(
                        Ok::<(Type, CtxV), (ErrV, CtxV)>((condz, cfork)),
                    ));
                    assert(spec_eval(csv[i as int].1, cv0, (g - 1) as nat) == Some(z));
                }
                assert(if_from(rest, elsv, cv0, z, (fcond + f2 + 1) as nat));
            }
            return r;
        }
        proof {
            assert forall|z: Result<(Type, CtxV), (ErrV, CtxV)>, f: nat|
                #[trigger] if_from(csv.skip(i + 1), elsv, cv0, z, f) implies exists|g: nat|
                if_from(csv, elsv, cv0, z, g) by {
                assert forall|g: nat| g >= fcond + f + 1 implies spec_eval_if(
                    rest,
                    elsv,
                    cv0,
                    g,
                ) == Some(z) by {
                    assert(rest[0] == csv[i as int]);
                    assert(rest.drop_first() =~= csv.skip(i + 1));
                    assert(spec_eval(csv[i as int].0, cv0, (g - 1) as nat) == Some(
                        Ok::<(Type, CtxV), (ErrV, CtxV)>((condz, cfork)),
                    ));
                    assert(spec_eval_if(csv.skip(i + 1), elsv, cv0, (g - 1) as nat) == Some(z));
                }
                assert(if_from(rest, elsv, cv0, z, (fcond + f + 1) as nat));
            }
        }
        i = i + 1;
    }
    proof {
        assert(csv.skip(n as int) =~= Seq::<(NodeV, NodeV)>::empty());
    }
    match &*node.else_case {
        Some(else_case) => {
            let r = visit_ref(else_case, context);
            proof {
                let z = r_view(&r);
                let f1 = choose|f: nat| eval_from(view_node(*else_case), cv0, z, f);
                assert forall|g: nat| g >= f1 + 1 implies spec_eval_if(
                    csv.skip(n as int),
                    elsv,
                    cv0,
                    g,
                ) == Some(z) by {
                    assert(spec_eval(view_node(*else_case), cv0, (g - 1) as nat) == Some(z));
                }
                assert(if_from(csv.skip(n as int), elsv, cv0, z, (f1 + 1) as nat));
            }
            r
        },
        None => {
            proof {
                let z = Ok::<(Type, CtxV), (ErrV, CtxV)>((spec_none(), cv0));
                assert forall|g: nat| g >= 1 implies spec_eval_if(
                    csv.skip(n as int),
                    elsv,
                    cv0,
                    g,
                ) == Some(z) by {}
                assert(if_from(csv.skip(n as int), elsv, cv0, z, 1));
            }
            Ok((Type::none(), context))
        },
    }
}

/// For: start and end are evaluated once; the loop variable is seeded to
/// start minus one and incremented by a fixed step of one; the body runs
/// while the incremented value stays strictly below the end bound, which is
/// exclusive.
#[verifier::loop_isolation(false)]
fn visit_for_node(node: &ForNode, context: Context) -> (r: Result<
    (Type, Context),
    (Error, Context),
>)
    ensures
        exists|f: nat|
            forentry_from(
                node.var_name@,
                view_node(*node.start),
                view_node(*node.end),
                view_node(*node.body),
                context@,
                r_view(&r),
                f,
            ),
    decreases *node,
{
    let ghost vn = node.var_name@;
    let ghost sn = view_node(*node.start);
    let ghost en = view_node(*node.end);
    let ghost bn = view_node(*node.body);
    let ghost cv0 = context@;
    let step: i64 = 1;
    let (start, context) = match visit_ref(&*node.start, context) {
        Ok(p) => p,
        Err(ep) => {
            proof {
                forentry_err_start(vn, sn, en, bn, cv0, (ep.0@, ep.1@));
            }
            return Err(ep);
        },
    };
    let ghost c1 = context@;
    let (end, mut context) = match visit_ref(&*node.end, context) {
        Ok(p) => p,
        Err(ep) => {
            proof {
                let z = Err::<(Type, CtxV), (ErrV, CtxV)>((ep.0@, ep.1@));
                let f1 = choose|f: nat| eval_from(sn, cv0, Ok((start, c1)), f);
                let f2 = choose|f: nat| eval_from(en, c1, z, f);
                assert forall|g: nat| g >= f1 + f2 + 1 implies spec_eval_for_entry(
                    vn,
                    sn,
                    en,
                    bn,
                    cv0,
                    g,
                ) == Some(z) by {
                    assert(spec_eval(sn, cv0, (g - 1) as nat) == Some(
                        Ok::<(Type, CtxV), (ErrV, CtxV)>((start, c1)),
                    ));
                    assert(spec_eval(en, c1, (g - 1) as nat) == Some(z));
                }
                assert(forentry_from(vn, sn, en, bn, cv0, z, (f1 + f2 + 1) as nat));
            }
            return Err(ep);
        },
    };
    let ghost c2 = context@;
    let ghost fstart = choose|f: nat| eval_from(sn, cv0, Ok((start, c1)), f);
    let ghost fend = choose|f: nat| eval_from(en, c1, Ok((end, c2)), f);
    let seed = match start.sub(Type::Integer(Integer::new(1))) {
        Ok(v) => v,
        Err(e) => {
            let ep = (e, context);
            proof {
                let z = Err::<(Type, CtxV), (ErrV, CtxV)>((ep.0@, ep.1@));
                assert forall|g: nat| g >= fstart + fend + 1 implies spec_eval_for_entry(
                    vn,
                    sn,
                    en,
                    bn,
                    cv0,
                    g,
                ) == Some(z) by {
                    assert(spec_eval(sn, cv0, (g - 1) as nat) == Some(
                        Ok::<(Type, CtxV), (ErrV, CtxV)>((start, c1)),
                    ));
                    assert(spec_eval(en, c1, (g - 1) as nat) == Some(
                        Ok::<(Type, CtxV), (ErrV, CtxV)>((end, c2)),
                    ));
                }
                assert(forentry_from(vn, sn, en, bn, cv0, z, (fstart + fend + 1) as nat));
            }
            return Err(ep);
        },
    };
    context.stack.set(node.var_name.clone(), seed);
    let ghost cseed = context@;
    let mut ty = Type::none();
    let mut budget: u64 = u64::MAX;
    proof {
        assert(cseed == spec_ctx_with_stack(c2, spec_set(c2.stack, vn, seed)));
        assert(ty == spec_none());
        assert forall|z: Result<(Type, CtxV), (ErrV, CtxV)>, f: nat|
            #[trigger] for_from(vn, end, bn, ty, context@, budget as int, z, f) implies exists|g: nat|
            forentry_from(vn, sn, en, bn, cv0, z, g) by {
            assert forall|h: nat| h >= fstart + fend + f + 1 implies spec_eval_for_entry(
                vn,
                sn,
                en,
                bn,
                cv0,
                h,
            ) == Some(z) by {
                assert(spec_eval(sn, cv0, (h - 1) as nat) == Some(
                    Ok::<(Type, CtxV), (ErrV, CtxV)>((start, c1)),
                ));
                assert(spec_eval(en, c1, (h - 1) as nat) == Some(
                    Ok::<(Type, CtxV), (ErrV, CtxV)>((end, c2)),
                ));
                assert(spec_eval_for(vn, end, bn, ty, cseed, u64::MAX as int, (h - 1) as nat)
                    == Some(z));
            }
            assert(forentry_from(vn, sn, en, bn, cv0, z, (fstart + fend + f + 1) as nat));
        }
    }
    loop
        invariant
            node.var_name@ == vn,
            view_node(*node.body) == bn,
            forall|z: Result<(Type, CtxV), (ErrV, CtxV)>, f: nat|
                #[trigger] for_from(vn, end, bn, ty, context@, budget as int, z, f)
                    ==> exists|g: nat| forentry_from(vn, sn, en, bn, cv0, z, g),
        decreases budget,
    {
        let ghost ctxi = context@;
        let ghost bud0 = budget as int;
        if budget == 0 {
            let e = Error::new(
                ErrorKind::Undefined,
                "loop iteration limit exceeded",
                Some(context.get_position()),
            );
            let ep = (e, context);
            proof {
                let z = Err::<(Type, CtxV), (ErrV, CtxV)>((ep.0@, ep.1@));
                assert forall|g: nat| g >= 1 implies spec_eval_for(
                    vn,
                    end,
                    bn,
                    ty,
                    ctxi,
                    bud0,
                    g,
                ) == Some(z) by {}
                assert(for_from(vn, end, bn, ty, ctxi, bud0, z, 1));
            }
            return Err(ep);
        }
        budget = budget - 1;
        let current = match context.stack.get(&node.var_name) {
            Some(v) => v,
            None => {
                let e = Error::new(
                    ErrorKind::NameError,
                    "loop variable is not defined",
                    Some(context.get_position()),
                );
                let ep = (e, context);
                proof {
                    let z = Err::<(Type, CtxV), (ErrV, CtxV)>((ep.0@, ep.1@));
                    assert forall|g: nat| g >= 1 implies spec_eval_for(
                        vn,
                        end,
                        bn,
                        ty,
                        ctxi,
                        bud0,
                        g,
                    ) == Some(z) by {}
                    assert(for_from(vn, end, bn, ty, ctxi, bud0, z, 1));
                }
                return Err(ep);
            },
        };
        let next = match current.add(Type::Integer(Integer::new(step))) {
            Ok(v) => v,
            Err(e) => {
                let ep = (e, context);
                proof {
                    let z = Err::<(Type, CtxV), (ErrV, CtxV)>((ep.0@, ep.1@));
                    assert forall|g: nat| g >= 1 implies spec_eval_for(
                        vn,
                        end,
                        bn,
                        ty,
                        ctxi,
                        bud0,
                        g,
                    ) == Some(z) by {}
                    assert(for_from(vn, end, bn, ty, ctxi, bud0, z, 1));
                }
                return Err(ep);
            },
        };
        let keeps_going = match end.cmp(next) {
            Ok(c) => c == CmpResult::Greater,
            Err(e) => {
                let ep = (e, context);
                proof {
                    let z = Err::<(Type, CtxV), (ErrV, CtxV)>((ep.0@, ep.1@));
                    assert forall|g: nat| g >= 1 implies spec_eval_for(
                        vn,
                        end,
                        bn,
                        ty,
                        ctxi,
                        bud0,
                        g,
                    ) == Some(z) by {}
                    assert(for_from(vn, end, bn, ty, ctxi, bud0, z, 1));
                }
                return Err(ep);
            },
        };
        if !keeps_going {
            proof {
                let z = Ok::<(Type, CtxV), (ErrV, CtxV)>((ty, ctxi));
                assert forall|g: nat| g >= 1 implies spec_eval_for(
                    vn,
                    end,
                    bn,
                    ty,
                    ctxi,
                    bud0,
                    g,
                ) == Some(z) by {}
                assert(for_from(vn, end, bn, ty, ctxi, bud0, z, 1));
            }
            return Ok((ty, context));
        }
        context.stack.set(node.var_name.clone(), next);
        let ghost ctx2 = context@;
        let res = match visit_ref(&*node.body, context) {
            Ok(p) => p,
            Err(ep) => {
                proof {
                    let z = Err::<(Type, CtxV), (ErrV, CtxV)>((ep.0@, ep.1@));
                    let f1 = choose|f: nat| eval_from(bn, ctx2, z, f);
                    assert forall|g: nat| g >= f1 + 1 implies spec_eval_for(
                        vn,
                        end,
                        bn,
                        ty,
                        ctxi,
                        bud0,
                        g,
                    ) == Some(z) by {
                        assert(ctx2 == spec_ctx_with_stack(
                            ctxi,
                            spec_set(ctxi.stack, vn, next),
                        ));
                        assert(spec_eval(bn, ctx2, (g - 1) as nat) == Some(z));
                    }
                    assert(for_from(vn, end, bn, ty, ctxi, bud0, z, (f1 + 1) as nat));
                }
                return Err(ep);
            },
        };
        let ghost tyold = ty;
        ty = res.0;
        context = res.1;
        proof {
            let f1 = choose|f: nat| eval_from(bn, ctx2, Ok((ty, context@)), f);
            assert forall|z: Result<(Type, CtxV), (ErrV, CtxV)>, f: nat|
                #[trigger] for_from(vn, end, bn, ty, context@, budget as int, z, f) implies exists|g: nat|
                forentry_from(vn, sn, en, bn, cv0, z, g) by {
                assert forall|g: nat| g >= f1 + f + 1 implies spec_eval_for(
                    vn,
                    end,
                    bn,
                    tyold,
                    ctxi,
                    bud0,
                    g,
                ) == Some(z) by {
                    assert(ctx2 == spec_ctx_with_stack(ctxi, spec_set(ctxi.stack, vn, next)));
                    assert(spec_eval(bn, ctx2, (g - 1) as nat) == Some(
                        Ok::<(Type, CtxV), (ErrV, CtxV)>((ty, context@)),
                    ));
                    assert(spec_eval_for(vn, end, bn, ty, context@, bud0 - 1, (g - 1) as nat)
                        == Some(z));
                }
                assert(for_from(vn, end, bn, tyold, ctxi, bud0, z, (f1 + f + 1) as nat));
            }
        }
    }
}

/// The entry part of a for node propagates an error from its start bound.
proof fn forentry_err_start(
    vn: Seq<char>,
    sn: NodeV,
    en: NodeV,
    bn: NodeV,
    cv0: CtxV,
    ep: (ErrV, CtxV),
)
    requires
        evals_to(sn, cv0, Err(ep)),
    ensures
        exists|f: nat| forentry_from(vn, sn, en, bn, cv0, Err(ep), f),
{
    let z = Err::<(Type, CtxV), (ErrV, CtxV)>(ep);
    let f1 = choose|f: nat| eval_from(sn, cv0, z, f);
    assert forall|g: nat| g >= f1 + 1 implies spec_eval_for_entry(vn, sn, en, bn, cv0, g)
        == Some(z) by {
        assert(spec_eval(sn, cv0, (g - 1) as nat) == Some(z));
    }
    assert(forentry_from(vn, sn, en, bn, cv0, z, (f1 + 1) as nat));
}

/// While: the condition is evaluated against the running context; while it
/// converts to true the body runs and threads the context on; the last body
/// value (the none value if the body never ran) is returned.
#[verifier::loop_isolation(false)]
fn visit_while_node(node: &WhileNode, context: Context) -> (r: Result<
    (Type, Context),
    (Error, Context),
>)
    ensures
        exists|f: nat|
            while_from(
                view_node(*node.condition),
                view_node(*node.body),
                spec_none(),
                context@,
                u64::MAX as int,
                r_view(&r),
                f,
            ),
    decreases *node,
{
    let ghost cn = view_node(*node.condition);
    let ghost bn = view_node(*node.body);
    let ghost cv0 = context@;
    let mut context = context;
    let mut ty = Type::none();
    let mut budget: u64 = u64::MAX;
    proof {
        assert(ty == spec_none());
        assert(context@ == cv0);
    }
    loop
        invariant
            view_node(*node.condition) == cn,
            view_node(*node.body) == bn,
            forall|z: Result<(Type, CtxV), (ErrV, CtxV)>, f: nat|
                #[trigger] while_from(cn, bn, ty, context@, budget as int, z, f)
                    ==> exists|g: nat|
                    while_from(cn, bn, spec_none(), cv0, u64::MAX as int, z, g),
        decreases budget,
    {
        let ghost ctxi = context@;
        let ghost bud0 = budget as int;
        if budget == 0 {
            let e = Error::new(
                ErrorKind::Undefined,
                "loop iteration limit exceeded",
                Some(context.get_position()),
            );
            let ep = (e, context);
            proof {
                let z = Err::<(Type, CtxV), (ErrV, CtxV)>((ep.0@, ep.1@));
                assert forall|g: nat| g >= 1 implies spec_eval_while(cn, bn, ty, ctxi, bud0, g)
                    == Some(z) by {}
                assert(while_from(cn, bn, ty, ctxi, bud0, z, 1));
            }
            return Err(ep);
        }
        budget = budget - 1;
        let res = match visit_ref(&*node.condition, context) {
            Ok(p) => p,
            Err(ep) => {
                proof {
                    let z = Err::<(Type, CtxV), (ErrV, CtxV)>((ep.0@, ep.1@));
                    let f1 = choose|f: nat| eval_from(cn, ctxi, z, f);
                    assert forall|g: nat| g >= f1 + 1 implies spec_eval_while(
                        cn,
                        bn,
                        ty,
                        ctxi,
                        bud0,
                        g,
                    ) == Some(z) by {
                        assert(spec_eval(cn, ctxi, (g - 1) as nat) == Some(z));
                    }
                    assert(while_from(cn, bn, ty, ctxi, bud0, z, (f1 + 1) as nat));
                }
                return Err(ep);
            },
        };
        context = res.1;
        let ghost c2 = context@;
        let ghost condv = res.0;
        let ghost fcond = choose|f: nat| eval_from(cn, ctxi, Ok((condv, c2)), f);
        let truthy = match res.0.to_bool() {
            Ok(b) => b,
            Err(e) => {
                let ep = (e, context);
                proof {
                    let z = Err::<(Type, CtxV), (ErrV, CtxV)>((ep.0@, ep.1@));
                    assert forall|g: nat| g >= fcond + 1 implies spec_eval_while(
                        cn,
                        bn,
                        ty,
                        ctxi,
                        bud0,
                        g,
                    ) == Some(z) by {
                        assert(spec_eval(cn, ctxi, (g - 1) as nat) == Some(
                            Ok::<(Type, CtxV), (ErrV, CtxV)>((condv, c2)),
                        ));
                    }
                    assert(while_from(cn, bn, ty, ctxi, bud0, z, (fcond + 1) as nat));
                }
                return Err(ep);
            },
        };
        if !truthy {
            proof {
                let z = Ok::<(Type, CtxV), (ErrV, CtxV)>((ty, c2));
                assert forall|g: nat| g >= fcond + 1 implies spec_eval_while(
                    cn,
                    bn,
                    ty,
                    ctxi,
                    bud0,
                    g,
                ) == Some(z) by {
                    assert(spec_eval(cn, ctxi, (g - 1) as nat) == Some(
                        Ok::<(Type, CtxV), (ErrV, CtxV)>((condv, c2)),
                    ));
                }
                assert(while_from(cn, bn, ty, ctxi, bud0, z, (fcond + 1) as nat));
            }
            return Ok((ty, context));
        }
        let res = match visit_ref(&*node.body, context) {
            Ok(p) => p,
            Err(ep) => {
                proof {
                    let z = Err::<(Type, CtxV), (ErrV, CtxV)>((ep.0@, ep.1@));
                    let f2 = choose|f: nat| eval_from(bn, c2, z, f);
                    assert forall|g: nat| g >= fcond + f2 + 1 implies spec_eval_while(
                        cn,
                        bn,
                        ty,
                        ctxi,
                        bud0,
                        g,
                    ) == Some(z) by {
                        assert(spec_eval(cn, ctxi, (g - 1) as nat) == Some(
                            Ok::<(Type, CtxV), (ErrV, CtxV)>((condv, c2)),
                        ));
                        assert(spec_eval(bn, c2, (g - 1) as nat) == Some(z));
                    }
                    assert(while_from(cn, bn, ty, ctxi, bud0, z, (fcond + f2 + 1) as nat));
                }
                return Err(ep);
            },
        };
        let ghost tyold = ty;
        ty = res.0;
        context = res.1;
        proof {
            let f2 = choose|f: nat| eval_from(bn, c2, Ok((ty, context@)), f);
            assert forall|z: Result<(Type, CtxV), (ErrV, CtxV)>, f: nat|
                #[trigger] while_from(cn, bn, ty, context@, budget as int, z, f) implies exists|g: nat|
                while_from(cn, bn, spec_none(), cv0, u64::MAX as int, z, g) by {
                assert forall|g: nat| g >= fcond + f2 + f + 1 implies spec_eval_while(
                    cn,
                    bn,
                    tyold,
                    ctxi,
                    bud0,
                    g,
                ) == Some(z) by {
                    assert(spec_eval(cn, ctxi, (g - 1) as nat) == Some(
                        Ok::<(Type, CtxV), (ErrV, CtxV)>((condv, c2)),
                    ));
                    assert(spec_eval(bn, c2, (g - 1) as nat) == Some(
                        Ok::<(Type, CtxV), (ErrV, CtxV)>((ty, context@)),
                    ));
                    assert(spec_eval_while(cn, bn, ty, context@, bud0 - 1, (g - 1) as nat)
                        == Some(z));
                }
                assert(while_from(cn, bn, tyold, ctxi, bud0, z, (fcond + f2 + f + 1) as nat));
            }
        }
    }
}

/// Binary operation: both operands are evaluated against the same incoming
/// context, their resulting contexts merged, and the operator dispatched to
/// the value capability; a value-level error is annotated with the merged
/// context before it propagates.
fn visit_binary_operation(node: &BinaryOperationNode, context: Context) -> (r: Result<
    (Type, Context),
    (Error, Context),
>)
    ensures
        exists|f: nat| bin_from(view_binary(*node), context@, r_view(&r), f),
    decreases *node,
{
    let ghost bv = view_binary(*node);
    let ghost cv0 = context@;
    let (left_ty, left_ctx) = match visit_ref(&node.left, context.clone()) {
        Ok(p) => p,
        Err(ep) => {
            proof {
                let z = Err::<(Type, CtxV), (ErrV, CtxV)>((ep.0@, ep.1@));
                let f1 = choose|f: nat| eval_from(bv.left, cv0, z, f);
                assert forall|g: nat| g >= f1 + 1 implies spec_eval_binary(bv, cv0, g) == Some(
                    z,
                ) by {
                    assert(spec_eval(bv.left, cv0, (g - 1) as nat) == Some(z));
                }
                assert(bin_from(bv, cv0, z, (f1 + 1) as nat));
            }
            return Err(ep);
        },
    };
    let ghost lc = left_ctx@;
    let ghost f1 = choose|f: nat| eval_from(bv.left, cv0, Ok((left_ty, lc)), f);
    let (right_ty, right_ctx) = match visit_ref(&node.right, context) {
        Ok(p) => p,
        Err(ep) => {
            proof {
                let z = Err::<(Type, CtxV), (ErrV, CtxV)>((ep.0@, ep.1@));
                let f2 = choose|f: nat| eval_from(bv.right, cv0, z, f);
                assert forall|g: nat| g >= f1 + f2 + 1 implies spec_eval_binary(bv, cv0, g)
                    == Some(z) by {
                    assert(spec_eval(bv.left, cv0, (g - 1) as nat) == Some(
                        Ok::<(Type, CtxV), (ErrV, CtxV)>((left_ty, lc)),
                    ));
                    assert(spec_eval(bv.right, cv0, (g - 1) as nat) == Some(z));
                }
                assert(bin_from(bv, cv0, z, (f1 + f2 + 1) as nat));
            }
            return Err(ep);
        },
    };
    let ghost rc = right_ctx@;
    let ghost f2 = choose|f: nat| eval_from(bv.right, cv0, Ok((right_ty, rc)), f);
    let ctx = left_ctx.combine(right_ctx);
    let ghost mc = ctx@;
    let full = match &node.operation {
        Token::Plus => left_ty.add(right_ty),
        Token::Minus => left_ty.sub(right_ty),
        Token::Star => left_ty.mul(right_ty),
        Token::Slash => left_ty.div(right_ty),
        Token::DoubleEqual => left_ty.eq(right_ty),
        Token::NonEqual => left_ty.neq(right_ty),
        Token::LessThan => left_ty.lt(right_ty),
        Token::GreaterThan => left_ty.gt(right_ty),
        Token::LessThanEq => left_ty.lte(right_ty),
        Token::GreaterThanEq => left_ty.gte(right_ty),
        Token::DoubleAnd => left_ty.and(right_ty),
        Token::DoubleOr => left_ty.or(right_ty),
        t => {
            let msg = String::from_str("can't operate on token ").concat(
                crate::token::token_display_string(t).as_str(),
            );
            proof {
                assert(msg@ =~= "can't operate on token "@ + spec_token_display(t@));
            }
            Err(Error::new(ErrorKind::Undefined, msg.as_str(), Some(ctx.get_position())))
        },
    };
    proof {
        assert(match spec_binop(bv.operation, left_ty, right_ty) {
            Ok(v) => full matches Ok(fv) && fv == v,
            Err(e0) => full matches Err(fe) && fe@.kind == e0.kind && fe@.message == e0.message,
        });
    }
    match full {
        Ok(f) => {
            proof {
                let z = Ok::<(Type, CtxV), (ErrV, CtxV)>((f, mc));
                assert forall|g: nat| g >= f1 + f2 + 1 implies spec_eval_binary(bv, cv0, g)
                    == Some(z) by {
                    assert(spec_eval(bv.left, cv0, (g - 1) as nat) == Some(
                        Ok::<(Type, CtxV), (ErrV, CtxV)>((left_ty, lc)),
                    ));
                    assert(spec_eval(bv.right, cv0, (g - 1) as nat) == Some(
                        Ok::<(Type, CtxV), (ErrV, CtxV)>((right_ty, rc)),
                    ));
                }
                assert(bin_from(bv, cv0, z, (f1 + f2 + 1) as nat));
            }
            Ok((f, ctx))
        },
        Err(e) => {
            let e2 = e.with_context(ctx.clone());
            proof {
                let z = Err::<(Type, CtxV), (ErrV, CtxV)>((e2@, mc));
                assert forall|g: nat| g >= f1 + f2 + 1 implies spec_eval_binary(bv, cv0, g)
                    == Some(z) by {
                    assert(spec_eval(bv.left, cv0, (g - 1) as nat) == Some(
                        Ok::<(Type, CtxV), (ErrV, CtxV)>((left_ty, lc)),
                    ));
                    assert(spec_eval(bv.right, cv0, (g - 1) as nat) == Some(
                        Ok::<(Type, CtxV), (ErrV, CtxV)>((right_ty, rc)),
                    ));
                }
                assert(bin_from(bv, cv0, z, (f1 + f2 + 1) as nat));
            }
            Err((e2, ctx))
        },
    }
}

/// Unary operation: the operand is evaluated, the prefix operator applied,
/// and the resulting context's span widened one character to the left to
/// account for the consumed prefix token, with the original context chained
/// as the parent for traceback.
fn visit_unary_operation(node: &UnaryOperationNode, context: Context) -> (r: Result<
    (Type, Context),
    (Error, Context),
>)
    ensures
        exists|f: nat| un_from(view_unary(*node), context@, r_view(&r), f),
    decreases *node,
{
    let ghost uv = view_unary(*node);
    let ghost cv0 = context@;
    let (ty, ctx) = match visit_ref(&node.node, context.clone()) {
        Ok(p) => p,
        Err(ep) => {
            proof {
                let z = Err::<(Type, CtxV), (ErrV, CtxV)>((ep.0@, ep.1@));
                let f1 = choose|f: nat| eval_from(uv.node, cv0, z, f);
                assert forall|g: nat| g >= f1 + 1 implies spec_eval_unary(uv, cv0, g) == Some(
                    z,
                ) by {
                    assert(spec_eval(uv.node, cv0, (g - 1) as nat) == Some(z));
                }
                assert(un_from(uv, cv0, z, (f1 + 1) as nat));
            }
            return Err(ep);
        },
    };
    let ghost c2 = ctx@;
    let ghost f1 = choose|f: nat| eval_from(uv.node, cv0, Ok((ty, c2)), f);
    let pos = ctx.get_position();
    let new_pos = Position::new(
        pos.index.wrapping_sub(1),
        pos.filename,
        pos.line,
        pos.column,
        pos.len.wrapping_add(1),
    );
    let new_ctx = Context::new(new_pos, context.stack.clone(), Some(context));
    let ghost nc = new_ctx@;
    let value = match node.operation {
        UnaryOperation::Plus => ty,
        UnaryOperation::Minus => match ty.neg() {
            Ok(v) => v,
            Err(e) => {
                let ep = (e, new_ctx);
                proof {
                    unary_outcome(uv, cv0, ty, c2, nc, Err((ep.0@, ep.1@)), f1);
                }
                return Err(ep);
            },
        },
        UnaryOperation::Not => match ty.not() {
            Ok(v) => v,
            Err(e) => {
                let ep = (e, new_ctx);
                proof {
                    unary_outcome(uv, cv0, ty, c2, nc, Err((ep.0@, ep.1@)), f1);
                }
                return Err(ep);
            },
        },
    };
    proof {
        unary_outcome(uv, cv0, ty, c2, nc, Ok((value, nc)), f1);
    }
    Ok((value, new_ctx))
}

/// Once the operand of a unary operation has converged, the whole unary
/// operation converges to the outcome its operator dictates.
proof fn unary_outcome(
    uv: UnaryOperationNodeV,
    cv0: CtxV,
    ty: Type,
    c2: CtxV,
    nc: CtxV,
    z: Result<(Type, CtxV), (ErrV, CtxV)>,
    f1: nat,
)
    requires
        eval_from(uv.node, cv0, Ok((ty, c2)), f1),
        nc == (CtxV {
            pos: PosV {
                index: i64::wrapping_sub(c2.pos.index, 1),
                filename: c2.pos.filename,
                line: c2.pos.line,
                column: c2.pos.column,
                len: u64::wrapping_add(c2.pos.len, 1),
            },
            stack: cv0.stack,
            parent: Some(Box::new(cv0)),
        }),
        match uv.operation {
            UnaryOperation::Plus => z == Ok::<(Type, CtxV), (ErrV, CtxV)>((ty, nc)),
            UnaryOperation::Minus => match spec_neg(ty) {
                Ok(v) => z == Ok::<(Type, CtxV), (ErrV, CtxV)>((v, nc)),
                Err(e) => z == Err::<(Type, CtxV), (ErrV, CtxV)>((e, nc)),
            },
            UnaryOperation::Not => match spec_not(ty) {
                Ok(v) => z == Ok::<(Type, CtxV), (ErrV, CtxV)>((v, nc)),
                Err(e) => z == Err::<(Type, CtxV), (ErrV, CtxV)>((e, nc)),
            },
        },
    ensures
        exists|f: nat| un_from(uv, cv0, z, f),
{
    assert forall|g: nat| g >= f1 + 1 implies spec_eval_unary(uv, cv0, g) == Some(z) by {
        assert(spec_eval(uv.node, cv0, (g - 1) as nat) == Some(
            Ok::<(Type, CtxV), (ErrV, CtxV)>((ty, c2)),
        ));
    }
    assert(un_from(uv, cv0, z, (f1 + 1) as nat));
}

} // verus!
