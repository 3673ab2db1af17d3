//! What holds of code that assigns nothing: it leaves the frames around it
//! as they were, and what it binds is gone with the block that it was bound
//! in. Such code may call: a call runs its body in frames of its own. And of
//! expressions that, besides, never read what the register held when they
//! started: they can be evaluated again, with the same result.

use vstd::prelude::*;
use crate::compilation_unit::GlobalScope;
use crate::definitions::semantics::{
    EvalState, FrameModel, Outcome, entry_frame, eval_arguments, eval_assignment, eval_binary,
    eval_body, eval_call, eval_expression, eval_if, eval_let, eval_loop, eval_return,
    eval_statement, eval_statements, eval_unary, eval_while, went_on,
};
use crate::definitions::value::Value;
use crate::definitions::{Ast, CallExpr, ExprId, ExprKind, IfExpr, StmtId, StmtKind, WhileStmt};

verus! {

/// Whether an expression holds no assignment, as far as an evaluation with
/// budget `fuel` looks. It may hold blocks, conditionals and loops, and
/// these may declare variables; it may hold calls, whatever the functions
/// called do in their bodies.
pub open spec fn quiet_expression(ast: &Ast, id: ExprId, fuel: nat) -> bool
    decreases fuel, 0nat, 0nat,
{
    if fuel == 0 || id.index >= ast.expressions.len() {
        true
    } else {
        let less = (fuel - 1) as nat;
        match ast.expressions[id.index as int].kind {
            ExprKind::Number(_) => true,
            ExprKind::Boolean(_) => true,
            ExprKind::Variable(_) => true,
            ExprKind::Error(_) => true,
            ExprKind::Parenthesized(e) => quiet_expression(ast, e.inner, less),
            ExprKind::Unary(e) => quiet_expression(ast, e.operand, less),
            ExprKind::Binary(e) => quiet_expression(ast, e.left, less) && quiet_expression(
                ast,
                e.right,
                less,
            ),
            ExprKind::Block(e) => quiet_statements(ast, e.stmts@, 0, less),
            ExprKind::If(e) => {
                &&& quiet_expression(ast, e.condition, less)
                &&& quiet_statements(ast, e.then_branch@, 0, less)
                &&& e.else_branch matches Some(branch) ==> quiet_statements(
                    ast,
                    branch.body@,
                    0,
                    less,
                )
            },
            ExprKind::Call(e) => quiet_arguments(ast, e.arguments@, 0, less),
            ExprKind::Assignment(_) => false,
        }
    }
}

/// Whether none of the arguments from the one at `from` on holds an
/// assignment, as far as an evaluation with budget `fuel` looks.
pub open spec fn quiet_arguments(ast: &Ast, arguments: Seq<ExprId>, from: int, fuel: nat) -> bool
    decreases fuel, 1nat, arguments.len() - from,
{
    if from < 0 || from >= arguments.len() {
        true
    } else {
        quiet_expression(ast, arguments[from], fuel) && quiet_arguments(
            ast,
            arguments,
            from + 1,
            fuel,
        )
    }
}

/// Whether a statement holds no assignment, as far as an evaluation with
/// budget `fuel` looks.
pub open spec fn quiet_statement(ast: &Ast, id: StmtId, fuel: nat) -> bool
    decreases fuel, 0nat, 0nat,
{
    if fuel == 0 || id.index >= ast.statements.len() {
        true
    } else {
        let less = (fuel - 1) as nat;
        match ast.statements[id.index as int].kind {
            StmtKind::Expr(e) => quiet_expression(ast, e, less),
            StmtKind::Let(s) => quiet_expression(ast, s.initializer, less),
            StmtKind::While(s) => quiet_loop(ast, s.condition, s.body@, less),
            StmtKind::Return(s) => s.return_value matches Some(e) ==> quiet_expression(
                ast,
                e,
                less,
            ),
            StmtKind::Break(_) => true,
            StmtKind::Continue(_) => true,
        }
    }
}

/// Whether neither the condition nor the body of a loop holds an
/// assignment, in any of the rounds that an evaluation with budget `fuel`
/// runs.
pub open spec fn quiet_loop(ast: &Ast, condition: ExprId, body: Seq<StmtId>, fuel: nat) -> bool
    decreases fuel, 1nat, 0nat,
{
    if fuel == 0 {
        true
    } else {
        let less = (fuel - 1) as nat;
        &&& quiet_expression(ast, condition, less)
        &&& quiet_statements(ast, body, 0, less)
        &&& quiet_loop(ast, condition, body, less)
    }
}

/// Whether none of the statements from the one at `from` on holds an
/// assignment, as far as an evaluation with budget `fuel` looks.
pub open spec fn quiet_statements(ast: &Ast, statements: Seq<StmtId>, from: int, fuel: nat) -> bool
    decreases fuel, 1nat, statements.len() - from,
{
    if from < 0 || from >= statements.len() {
        true
    } else {
        quiet_statement(ast, statements[from], fuel) && quiet_statements(
            ast,
            statements,
            from + 1,
            fuel,
        )
    }
}

/// Whether all frames but the innermost are as they were, and the stack as
/// deep as it was.
pub open spec fn outer_frames_kept(before: Seq<FrameModel>, after: Seq<FrameModel>) -> bool {
    &&& before.len() == after.len()
    &&& forall|i: int| 0 <= i < before.len() - 1 ==> #[trigger] after[i] == before[i]
}

/// A frame pushed, then whatever keeps all frames but the innermost, then
/// a frame popped: the frames are as they were.
proof fn lemma_frames_restored(before: Seq<FrameModel>, frame: FrameModel, inner: Seq<FrameModel>)
    requires
        outer_frames_kept(before.push(frame), inner),
    ensures
        inner.drop_last() == before,
{
    let entered = before.push(frame);
    assert forall|i: int| 0 <= i < before.len() implies inner.drop_last()[i] == before[i] by {
        assert(inner[i] == entered[i]);
    }
    assert(inner.drop_last() =~= before);
}

/// An expression without an assignment leaves every frame as it was: what
/// it declares, it declares in frames of its own, and what it calls runs
/// in frames of its own.
pub proof fn lemma_quiet_expression_keeps_frames(
    ast: &Ast,
    scope: &GlobalScope,
    st: EvalState,
    id: ExprId,
    fuel: nat,
)
    requires
        quiet_expression(ast, id, fuel),
    ensures
        eval_expression(ast, scope, st, id, fuel).0.frames == st.frames,
    decreases fuel, 0nat, 0nat,
{
    if fuel == 0 || id.index >= ast.expressions.len() {
    } else {
        let less = (fuel - 1) as nat;
        match ast.expressions[id.index as int].kind {
            ExprKind::Parenthesized(e) => {
                lemma_quiet_expression_keeps_frames(ast, scope, st, e.inner, less);
            },
            ExprKind::Unary(e) => {
                lemma_quiet_expression_keeps_frames(ast, scope, st, e.operand, less);
                assert(eval_expression(ast, scope, st, id, fuel) == eval_unary(
                    ast,
                    scope,
                    st,
                    e,
                    less,
                ));
            },
            ExprKind::Binary(e) => {
                lemma_quiet_expression_keeps_frames(ast, scope, st, e.left, less);
                let (st1, r1) = eval_expression(ast, scope, st, e.left, less);
                lemma_quiet_expression_keeps_frames(ast, scope, st1, e.right, less);
                assert(eval_expression(ast, scope, st, id, fuel) == eval_binary(
                    ast,
                    scope,
                    st,
                    e,
                    less,
                ));
            },
            ExprKind::Block(e) => {
                lemma_quiet_body_keeps_frames(ast, scope, st, e.stmts@, less);
            },
            ExprKind::If(e) => {
                lemma_quiet_if_keeps_frames(ast, scope, st, e, less);
            },
            ExprKind::Call(e) => {
                lemma_quiet_call_keeps_frames(ast, scope, st, e, less);
            },
            _ => {},
        }
    }
}

proof fn lemma_quiet_call_keeps_frames(
    ast: &Ast,
    scope: &GlobalScope,
    st: EvalState,
    e: CallExpr,
    fuel: nat,
)
    requires
        quiet_arguments(ast, e.arguments@, 0, fuel),
    ensures
        eval_call(ast, scope, st, e, fuel).0.frames == st.frames,
    decreases fuel, 2nat, 0nat,
{
    lemma_quiet_arguments_keep_frames(ast, scope, st, e.arguments@, 0, Seq::empty(), fuel);
}

/// Arguments without an assignment leave every frame as it was.
pub proof fn lemma_quiet_arguments_keep_frames(
    ast: &Ast,
    scope: &GlobalScope,
    st: EvalState,
    arguments: Seq<ExprId>,
    from: int,
    values: Seq<Value>,
    fuel: nat,
)
    requires
        quiet_arguments(ast, arguments, from, fuel),
    ensures
        eval_arguments(ast, scope, st, arguments, from, values, fuel).0.frames == st.frames,
    decreases fuel, 1nat, arguments.len() - from,
{
    if from < 0 || from >= arguments.len() {
    } else {
        lemma_quiet_expression_keeps_frames(ast, scope, st, arguments[from], fuel);
        let (st1, r1) = eval_expression(ast, scope, st, arguments[from], fuel);
        if let Some(value) = st1.last_value {
            lemma_quiet_arguments_keep_frames(
                ast,
                scope,
                st1,
                arguments,
                from + 1,
                values.push(value),
                fuel,
            );
        }
    }
}

proof fn lemma_quiet_if_keeps_frames(
    ast: &Ast,
    scope: &GlobalScope,
    st: EvalState,
    e: IfExpr,
    fuel: nat,
)
    requires
        quiet_expression(ast, e.condition, fuel),
        quiet_statements(ast, e.then_branch@, 0, fuel),
        e.else_branch matches Some(branch) ==> quiet_statements(ast, branch.body@, 0, fuel),
    ensures
        eval_if(ast, scope, st, e, fuel).0.frames == st.frames,
    decreases fuel, 2nat, 0nat,
{
    let entered = st.push_frame(Map::empty());
    lemma_quiet_expression_keeps_frames(ast, scope, entered, e.condition, fuel);
    let (st1, r1) = eval_expression(ast, scope, entered, e.condition, fuel);
    lemma_quiet_body_keeps_frames(ast, scope, st1, e.then_branch@, fuel);
    if let Some(branch) = e.else_branch {
        lemma_quiet_body_keeps_frames(ast, scope, st1, branch.body@, fuel);
    }
    assert(entered.frames.drop_last() =~= st.frames);
}

/// A statement without an assignment leaves every frame but the innermost
/// as it was: a `let` binds in the innermost frame only.
pub proof fn lemma_quiet_statement_keeps_outer_frames(
    ast: &Ast,
    scope: &GlobalScope,
    st: EvalState,
    id: StmtId,
    fuel: nat,
)
    requires
        quiet_statement(ast, id, fuel),
    ensures
        outer_frames_kept(st.frames, eval_statement(ast, scope, st, id, fuel).0.frames),
    decreases fuel, 0nat, 0nat,
{
    if fuel == 0 || id.index >= ast.statements.len() {
    } else {
        let less = (fuel - 1) as nat;
        match ast.statements[id.index as int].kind {
            StmtKind::Expr(e) => {
                lemma_quiet_expression_keeps_frames(ast, scope, st, e, less);
            },
            StmtKind::Let(s) => {
                lemma_quiet_expression_keeps_frames(ast, scope, st, s.initializer, less);
                assert(eval_statement(ast, scope, st, id, fuel) == eval_let(
                    ast,
                    scope,
                    st,
                    s,
                    less,
                ));
            },
            StmtKind::While(s) => {
                lemma_quiet_while_keeps_frames(ast, scope, st, s, less);
            },
            StmtKind::Return(s) => {
                if let Some(e) = s.return_value {
                    lemma_quiet_expression_keeps_frames(ast, scope, st, e, less);
                }
                assert(eval_statement(ast, scope, st, id, fuel) == eval_return(
                    ast,
                    scope,
                    st,
                    s,
                    less,
                ));
            },
            StmtKind::Break(_) => {},
            StmtKind::Continue(_) => {},
        }
    }
}

proof fn lemma_quiet_while_keeps_frames(
    ast: &Ast,
    scope: &GlobalScope,
    st: EvalState,
    s: WhileStmt,
    fuel: nat,
)
    requires
        quiet_loop(ast, s.condition, s.body@, fuel),
    ensures
        eval_while(ast, scope, st, s, fuel).0.frames == st.frames,
    decreases fuel, 2nat, 0nat,
{
    let entered = st.push_frame(Map::empty());
    lemma_quiet_loop_keeps_frames(ast, scope, entered, s.condition, s.body@, fuel);
    assert(entered.frames.drop_last() =~= st.frames);
}

proof fn lemma_quiet_loop_keeps_frames(
    ast: &Ast,
    scope: &GlobalScope,
    st: EvalState,
    condition: ExprId,
    body: Seq<StmtId>,
    fuel: nat,
)
    requires
        quiet_loop(ast, condition, body, fuel),
    ensures
        eval_loop(ast, scope, st, condition, body, fuel).0.frames == st.frames,
    decreases fuel, 1nat, 0nat,
{
    if fuel > 0 {
        let less = (fuel - 1) as nat;
        lemma_quiet_expression_keeps_frames(ast, scope, st, condition, less);
        let (st1, r1) = eval_expression(ast, scope, st, condition, less);
        lemma_quiet_body_keeps_frames(ast, scope, st1, body, less);
        let (st2, r2) = eval_body(ast, scope, st1, body, less);
        lemma_quiet_loop_keeps_frames(ast, scope, st2, condition, body, less);
    }
}

/// Statements without an assignment leave every frame but the innermost
/// as it was.
pub proof fn lemma_quiet_statements_keep_outer_frames(
    ast: &Ast,
    scope: &GlobalScope,
    st: EvalState,
    statements: Seq<StmtId>,
    from: int,
    fuel: nat,
)
    requires
        quiet_statements(ast, statements, from, fuel),
    ensures
        outer_frames_kept(
            st.frames,
            eval_statements(ast, scope, st, statements, from, fuel).0.frames,
        ),
    decreases fuel, 1nat, statements.len() - from,
{
    if from < 0 || from >= statements.len() {
    } else {
        lemma_quiet_statement_keeps_outer_frames(ast, scope, st, statements[from], fuel);
        let (st1, r1) = eval_statement(ast, scope, st, statements[from], fuel);
        lemma_quiet_statements_keep_outer_frames(ast, scope, st1, statements, from + 1, fuel);
    }
}

/// A block without an assignment leaves the frames exactly as they were:
/// what a `let` inside it binds is invisible outside, and what was bound
/// outside has the value it had, also where the block binds the same
/// variable anew, and whatever the block calls.
pub proof fn lemma_quiet_body_keeps_frames(
    ast: &Ast,
    scope: &GlobalScope,
    st: EvalState,
    statements: Seq<StmtId>,
    fuel: nat,
)
    requires
        quiet_statements(ast, statements, 0, fuel),
    ensures
        eval_body(ast, scope, st, statements, fuel).0.frames == st.frames,
        forall|slot: usize|
            (#[trigger] eval_body(ast, scope, st, statements, fuel).0.lookup(slot)) == st.lookup(
                slot,
            ),
    decreases fuel, 1nat, statements.len() + 1,
{
    let entered = st.push_frame(Map::empty());
    lemma_quiet_statements_keep_outer_frames(ast, scope, entered, statements, 0, fuel);
    let (st1, r1) = eval_statements(ast, scope, entered, statements, 0, fuel);
    lemma_frames_restored(st.frames, Map::empty(), st1.frames);
}

/// Whether an expression computes a value before it looks at the register,
/// as far as an evaluation with budget `fuel` looks: it starts with a
/// literal or a variable, also where that stands inside operators, blocks,
/// a call or the condition of a conditional with two branches. An empty
/// block has nothing to start with. A conditional without a second branch
/// gives back what the register held before it, where its condition is
/// `false`. A call without arguments starts with the body of its callee.
pub open spec fn settled_expression(ast: &Ast, scope: &GlobalScope, id: ExprId, fuel: nat) -> bool
    decreases fuel, 0nat,
{
    if fuel == 0 || id.index >= ast.expressions.len() {
        true
    } else {
        let less = (fuel - 1) as nat;
        match ast.expressions[id.index as int].kind {
            ExprKind::Number(_) => true,
            ExprKind::Boolean(_) => true,
            ExprKind::Variable(_) => true,
            ExprKind::Error(_) => true,
            ExprKind::Parenthesized(e) => settled_expression(ast, scope, e.inner, less),
            ExprKind::Unary(e) => settled_expression(ast, scope, e.operand, less),
            ExprKind::Binary(e) => settled_expression(ast, scope, e.left, less),
            ExprKind::Assignment(e) => settled_expression(ast, scope, e.expression, less),
            ExprKind::Call(e) => settled_call(ast, scope, e, less),
            ExprKind::Block(e) => settled_statements(ast, scope, e.stmts@, less),
            ExprKind::If(e) => e.else_branch is Some && settled_expression(
                ast,
                scope,
                e.condition,
                less,
            ),
        }
    }
}

/// Whether a call computes a value before it looks at the register: its
/// first argument does, or, where it has none, the body of its callee.
pub open spec fn settled_call(ast: &Ast, scope: &GlobalScope, e: CallExpr, fuel: nat) -> bool
    decreases fuel, 2nat,
{
    match scope.lookup(e.callee.span.literal@) {
        None => true,
        Some(callee) => {
            let function = scope.functions[callee.index as int];
            if e.arguments.len() != function.parameters.len() {
                true
            } else if e.arguments.len() > 0 {
                settled_expression(ast, scope, e.arguments[0], fuel)
            } else {
                settled_statements(ast, scope, function.body@, fuel)
            }
        },
    }
}

/// Whether a list of statements computes a value before it looks at the
/// register: it has a first statement, and that does.
pub open spec fn settled_statements(
    ast: &Ast,
    scope: &GlobalScope,
    statements: Seq<StmtId>,
    fuel: nat,
) -> bool
    decreases fuel, 1nat,
{
    statements.len() > 0 && settled_statement(ast, scope, statements[0], fuel)
}

/// Whether a statement computes a value before it looks at the register:
/// its expression does, its initializer, the condition of its loop, or the
/// value that it returns. A `return` without a value, a `break` and a
/// `continue` compute nothing.
pub open spec fn settled_statement(ast: &Ast, scope: &GlobalScope, id: StmtId, fuel: nat) -> bool
    decreases fuel, 0nat,
{
    if fuel == 0 || id.index >= ast.statements.len() {
        true
    } else {
        let less = (fuel - 1) as nat;
        match ast.statements[id.index as int].kind {
            StmtKind::Expr(e) => settled_expression(ast, scope, e, less),
            StmtKind::Let(s) => settled_expression(ast, scope, s.initializer, less),
            StmtKind::While(s) => less == 0 || settled_expression(
                ast,
                scope,
                s.condition,
                (less - 1) as nat,
            ),
            StmtKind::Return(s) => s.return_value matches Some(e) && settled_expression(
                ast,
                scope,
                e,
                less,
            ),
            StmtKind::Break(_) => false,
            StmtKind::Continue(_) => false,
        }
    }
}

/// Whether two evaluations have ended in the same way, and, unless they
/// have failed, in the same state.
pub open spec fn same_end(first: Outcome, second: Outcome) -> bool {
    &&& first.1 == second.1
    &&& first.1 is Ok ==> first.0 == second.0
}

/// An expression that computes a value before it looks at the register
/// does not depend on the register: evaluated from two states that differ
/// in the register only, it ends in the same way and, unless it fails, in
/// the same state.
pub proof fn lemma_settled_expression_ignores_register(
    ast: &Ast,
    scope: &GlobalScope,
    st: EvalState,
    other: Option<Value>,
    id: ExprId,
    fuel: nat,
)
    requires
        settled_expression(ast, scope, id, fuel),
    ensures
        same_end(
            eval_expression(ast, scope, st, id, fuel),
            eval_expression(ast, scope, st.with_register(other), id, fuel),
        ),
    decreases fuel, 0nat,
{
    if fuel == 0 || id.index >= ast.expressions.len() {
    } else {
        let less = (fuel - 1) as nat;
        let alt = st.with_register(other);
        match ast.expressions[id.index as int].kind {
            ExprKind::Parenthesized(e) => {
                lemma_settled_expression_ignores_register(ast, scope, st, other, e.inner, less);
            },
            ExprKind::Unary(e) => {
                lemma_settled_expression_ignores_register(ast, scope, st, other, e.operand, less);
                assert(same_end(
                    eval_unary(ast, scope, st, e, less),
                    eval_unary(ast, scope, alt, e, less),
                ));
            },
            ExprKind::Binary(e) => {
                lemma_settled_expression_ignores_register(ast, scope, st, other, e.left, less);
                assert(same_end(
                    eval_binary(ast, scope, st, e, less),
                    eval_binary(ast, scope, alt, e, less),
                ));
            },
            ExprKind::Assignment(e) => {
                lemma_settled_expression_ignores_register(
                    ast,
                    scope,
                    st,
                    other,
                    e.expression,
                    less,
                );
                assert(same_end(
                    eval_assignment(ast, scope, st, e, less),
                    eval_assignment(ast, scope, alt, e, less),
                ));
            },
            ExprKind::Call(e) => {
                lemma_settled_call_ignores_register(ast, scope, st, other, e, less);
            },
            ExprKind::Block(e) => {
                lemma_settled_body_ignores_register(ast, scope, st, other, e.stmts@, less);
            },
            ExprKind::If(e) => {
                lemma_settled_if_ignores_register(ast, scope, st, other, e, less);
            },
            _ => {},
        }
    }
}

proof fn lemma_settled_call_ignores_register(
    ast: &Ast,
    scope: &GlobalScope,
    st: EvalState,
    other: Option<Value>,
    e: CallExpr,
    fuel: nat,
)
    requires
        settled_call(ast, scope, e, fuel),
    ensures
        same_end(
            eval_call(ast, scope, st, e, fuel),
            eval_call(ast, scope, st.with_register(other), e, fuel),
        ),
    decreases fuel, 2nat,
{
    let alt = st.with_register(other);
    match scope.lookup(e.callee.span.literal@) {
        None => {},
        Some(callee) => {
            let function = scope.functions[callee.index as int];
            if e.arguments.len() != function.parameters.len() {
            } else if e.arguments.len() > 0 {
                lemma_settled_expression_ignores_register(
                    ast,
                    scope,
                    st,
                    other,
                    e.arguments[0],
                    fuel,
                );
                let first = eval_arguments(ast, scope, st, e.arguments@, 0, Seq::empty(), fuel);
                let second = eval_arguments(ast, scope, alt, e.arguments@, 0, Seq::empty(), fuel);
                assert(first.1 == second.1);
                assert(!(first.1 is Failed) ==> first.0 == second.0);
            } else {
                let frames = seq![entry_frame(function.parameters@, Seq::<Value>::empty())];
                assert(alt.with_frames(frames) == st.with_frames(frames).with_register(other));
                lemma_settled_statements_ignore_register(
                    ast,
                    scope,
                    st.with_frames(frames),
                    other,
                    function.body@,
                    fuel,
                );
            }
        },
    }
}

/// Statements of which the first computes a value before it looks at the
/// register do not depend on the register.
pub proof fn lemma_settled_statements_ignore_register(
    ast: &Ast,
    scope: &GlobalScope,
    st: EvalState,
    other: Option<Value>,
    statements: Seq<StmtId>,
    fuel: nat,
)
    requires
        settled_statements(ast, scope, statements, fuel),
    ensures
        same_end(
            eval_statements(ast, scope, st, statements, 0, fuel),
            eval_statements(ast, scope, st.with_register(other), statements, 0, fuel),
        ),
    decreases fuel, 1nat,
{
    lemma_settled_statement_ignores_register(ast, scope, st, other, statements[0], fuel);
}

proof fn lemma_settled_body_ignores_register(
    ast: &Ast,
    scope: &GlobalScope,
    st: EvalState,
    other: Option<Value>,
    statements: Seq<StmtId>,
    fuel: nat,
)
    requires
        settled_statements(ast, scope, statements, fuel),
    ensures
        same_end(
            eval_body(ast, scope, st, statements, fuel),
            eval_body(ast, scope, st.with_register(other), statements, fuel),
        ),
    decreases fuel, 2nat,
{
    let entered = st.push_frame(Map::empty());
    assert(st.with_register(other).push_frame(Map::empty()) == entered.with_register(other));
    lemma_settled_statements_ignore_register(ast, scope, entered, other, statements, fuel);
}

proof fn lemma_settled_if_ignores_register(
    ast: &Ast,
    scope: &GlobalScope,
    st: EvalState,
    other: Option<Value>,
    e: IfExpr,
    fuel: nat,
)
    requires
        e.else_branch is Some,
        settled_expression(ast, scope, e.condition, fuel),
    ensures
        same_end(
            eval_if(ast, scope, st, e, fuel),
            eval_if(ast, scope, st.with_register(other), e, fuel),
        ),
    decreases fuel, 2nat,
{
    let entered = st.push_frame(Map::empty());
    assert(st.with_register(other).push_frame(Map::empty()) == entered.with_register(other));
    lemma_settled_expression_ignores_register(ast, scope, entered, other, e.condition, fuel);
}

/// A statement that computes a value before it looks at the register does
/// not depend on the register.
pub proof fn lemma_settled_statement_ignores_register(
    ast: &Ast,
    scope: &GlobalScope,
    st: EvalState,
    other: Option<Value>,
    id: StmtId,
    fuel: nat,
)
    requires
        settled_statement(ast, scope, id, fuel),
    ensures
        same_end(
            eval_statement(ast, scope, st, id, fuel),
            eval_statement(ast, scope, st.with_register(other), id, fuel),
        ),
    decreases fuel, 0nat,
{
    if fuel == 0 || id.index >= ast.statements.len() {
    } else {
        let less = (fuel - 1) as nat;
        let alt = st.with_register(other);
        match ast.statements[id.index as int].kind {
            StmtKind::Expr(e) => {
                lemma_settled_expression_ignores_register(ast, scope, st, other, e, less);
            },
            StmtKind::Let(s) => {
                lemma_settled_expression_ignores_register(
                    ast,
                    scope,
                    st,
                    other,
                    s.initializer,
                    less,
                );
                assert(same_end(
                    eval_let(ast, scope, st, s, less),
                    eval_let(ast, scope, alt, s, less),
                ));
            },
            StmtKind::While(s) => {
                lemma_settled_while_ignores_register(ast, scope, st, other, s, less);
            },
            StmtKind::Return(s) => {
                if let Some(e) = s.return_value {
                    lemma_settled_expression_ignores_register(ast, scope, st, other, e, less);
                }
                assert(same_end(
                    eval_return(ast, scope, st, s, less),
                    eval_return(ast, scope, alt, s, less),
                ));
            },
            StmtKind::Break(_) => {},
            StmtKind::Continue(_) => {},
        }
    }
}

proof fn lemma_settled_while_ignores_register(
    ast: &Ast,
    scope: &GlobalScope,
    st: EvalState,
    other: Option<Value>,
    s: WhileStmt,
    fuel: nat,
)
    requires
        fuel == 0 || settled_expression(ast, scope, s.condition, (fuel - 1) as nat),
    ensures
        same_end(
            eval_while(ast, scope, st, s, fuel),
            eval_while(ast, scope, st.with_register(other), s, fuel),
        ),
    decreases fuel, 2nat,
{
    let entered = st.push_frame(Map::empty());
    let alt = entered.with_register(other);
    assert(st.with_register(other).push_frame(Map::empty()) == alt);
    if fuel > 0 {
        lemma_settled_expression_ignores_register(
            ast,
            scope,
            entered,
            other,
            s.condition,
            (fuel - 1) as nat,
        );
        assert(same_end(
            eval_loop(ast, scope, entered, s.condition, s.body@, fuel),
            eval_loop(ast, scope, alt, s.condition, s.body@, fuel),
        ));
    }
}

/// Whether an expression never reads what the register held when it
/// started, as far as an evaluation with budget `fuel` looks: where it needs
/// a value, for an operator, a condition, an argument or a binding, it has
/// computed one. It may hand the register on untouched, as an empty block
/// does, and a conditional without a second branch whose condition is
/// `false`.
pub open spec fn blind_expression(ast: &Ast, scope: &GlobalScope, id: ExprId, fuel: nat) -> bool
    decreases fuel, 0nat, 0nat,
{
    if fuel == 0 || id.index >= ast.expressions.len() {
        true
    } else {
        let less = (fuel - 1) as nat;
        match ast.expressions[id.index as int].kind {
            ExprKind::Number(_) => true,
            ExprKind::Boolean(_) => true,
            ExprKind::Variable(_) => true,
            ExprKind::Error(_) => true,
            ExprKind::Parenthesized(e) => blind_expression(ast, scope, e.inner, less),
            ExprKind::Unary(e) => settled_expression(ast, scope, e.operand, less),
            ExprKind::Binary(e) => settled_expression(ast, scope, e.left, less),
            ExprKind::Assignment(e) => settled_expression(ast, scope, e.expression, less),
            ExprKind::Call(e) => blind_call(ast, scope, e, less),
            ExprKind::Block(e) => blind_statements(ast, scope, e.stmts@, 0, less),
            ExprKind::If(e) => settled_expression(ast, scope, e.condition, less),
        }
    }
}

/// Whether a call never reads what the register held when it started: its
/// first argument computes a value, or, where it has none, the body of its
/// callee never reads what the register held.
pub open spec fn blind_call(ast: &Ast, scope: &GlobalScope, e: CallExpr, fuel: nat) -> bool
    decreases fuel, 2nat, 0nat,
{
    match scope.lookup(e.callee.span.literal@) {
        None => true,
        Some(callee) => {
            let function = scope.functions[callee.index as int];
            if e.arguments.len() != function.parameters.len() {
                true
            } else if e.arguments.len() > 0 {
                settled_expression(ast, scope, e.arguments[0], fuel)
            } else {
                blind_statements(ast, scope, function.body@, 0, fuel)
            }
        },
    }
}

/// Whether the statements from the one at `from` on never read what the
/// register held when they started: up to the first that computes a value,
/// none of them does.
pub open spec fn blind_statements(
    ast: &Ast,
    scope: &GlobalScope,
    statements: Seq<StmtId>,
    from: int,
    fuel: nat,
) -> bool
    decreases fuel, 1nat, statements.len() - from,
{
    if from < 0 || from >= statements.len() {
        true
    } else {
        ||| settled_statement(ast, scope, statements[from], fuel)
        ||| {
            &&& blind_statement(ast, scope, statements[from], fuel)
            &&& blind_statements(ast, scope, statements, from + 1, fuel)
        }
    }
}

/// Whether a statement never reads what the register held when it started.
/// A `return` without a value, a `break` and a `continue` hand the register
/// on untouched.
pub open spec fn blind_statement(ast: &Ast, scope: &GlobalScope, id: StmtId, fuel: nat) -> bool
    decreases fuel, 0nat, 0nat,
{
    if fuel == 0 || id.index >= ast.statements.len() {
        true
    } else {
        let less = (fuel - 1) as nat;
        match ast.statements[id.index as int].kind {
            StmtKind::Expr(e) => blind_expression(ast, scope, e, less),
            StmtKind::Let(s) => settled_expression(ast, scope, s.initializer, less),
            StmtKind::While(s) => less == 0 || settled_expression(
                ast,
                scope,
                s.condition,
                (less - 1) as nat,
            ),
            StmtKind::Return(s) => s.return_value matches Some(e) ==> settled_expression(
                ast,
                scope,
                e,
                less,
            ),
            StmtKind::Break(_) => true,
            StmtKind::Continue(_) => true,
        }
    }
}

/// Whether two evaluations, one from `st` and one from `st` with another
/// register, have ended alike: in the same way, and, unless they have
/// failed, with the same frames and with the same register, or each with
/// the register that it started with.
pub open spec fn alike(
    st: EvalState,
    other: Option<Value>,
    first: Outcome,
    second: Outcome,
) -> bool {
    &&& first.1 == second.1
    &&& first.1 is Ok ==> {
        &&& first.0.frames == second.0.frames
        &&& first.0.last_value == second.0.last_value || (first.0.last_value == st.last_value
            && second.0.last_value == other)
    }
}

/// An expression that never reads what the register held does not depend on
/// it: evaluated from two states that differ in the register only, it ends
/// in the same way, with the same frames, and with the same register unless
/// it has handed on what it found.
pub proof fn lemma_blind_expression_ignores_register(
    ast: &Ast,
    scope: &GlobalScope,
    st: EvalState,
    other: Option<Value>,
    id: ExprId,
    fuel: nat,
)
    requires
        blind_expression(ast, scope, id, fuel),
    ensures
        alike(
            st,
            other,
            eval_expression(ast, scope, st, id, fuel),
            eval_expression(ast, scope, st.with_register(other), id, fuel),
        ),
    decreases fuel, 0nat, 0nat,
{
    if fuel == 0 || id.index >= ast.expressions.len() {
    } else {
        let less = (fuel - 1) as nat;
        let alt = st.with_register(other);
        match ast.expressions[id.index as int].kind {
            ExprKind::Parenthesized(e) => {
                lemma_blind_expression_ignores_register(ast, scope, st, other, e.inner, less);
            },
            ExprKind::Unary(e) => {
                lemma_settled_expression_ignores_register(ast, scope, st, other, e.operand, less);
                assert(same_end(
                    eval_unary(ast, scope, st, e, less),
                    eval_unary(ast, scope, alt, e, less),
                ));
            },
            ExprKind::Binary(e) => {
                lemma_settled_expression_ignores_register(ast, scope, st, other, e.left, less);
                assert(same_end(
                    eval_binary(ast, scope, st, e, less),
                    eval_binary(ast, scope, alt, e, less),
                ));
            },
            ExprKind::Assignment(e) => {
                lemma_settled_expression_ignores_register(
                    ast,
                    scope,
                    st,
                    other,
                    e.expression,
                    less,
                );
                assert(same_end(
                    eval_assignment(ast, scope, st, e, less),
                    eval_assignment(ast, scope, alt, e, less),
                ));
            },
            ExprKind::Call(e) => {
                lemma_blind_call_ignores_register(ast, scope, st, other, e, less);
            },
            ExprKind::Block(e) => {
                let entered = st.push_frame(Map::empty());
                assert(alt.push_frame(Map::empty()) == entered.with_register(other));
                lemma_blind_statements_ignore_register(
                    ast,
                    scope,
                    entered,
                    other,
                    e.stmts@,
                    0,
                    less,
                );
                assert(alike(
                    st,
                    other,
                    eval_body(ast, scope, st, e.stmts@, less),
                    eval_body(ast, scope, alt, e.stmts@, less),
                ));
            },
            ExprKind::If(e) => {
                let entered = st.push_frame(Map::empty());
                assert(alt.push_frame(Map::empty()) == entered.with_register(other));
                lemma_settled_expression_ignores_register(
                    ast,
                    scope,
                    entered,
                    other,
                    e.condition,
                    less,
                );
                assert(alike(
                    st,
                    other,
                    eval_if(ast, scope, st, e, less),
                    eval_if(ast, scope, alt, e, less),
                ));
            },
            _ => {},
        }
    }
}

proof fn lemma_blind_call_ignores_register(
    ast: &Ast,
    scope: &GlobalScope,
    st: EvalState,
    other: Option<Value>,
    e: CallExpr,
    fuel: nat,
)
    requires
        blind_call(ast, scope, e, fuel),
    ensures
        alike(
            st,
            other,
            eval_call(ast, scope, st, e, fuel),
            eval_call(ast, scope, st.with_register(other), e, fuel),
        ),
    decreases fuel, 2nat, 0nat,
{
    let alt = st.with_register(other);
    match scope.lookup(e.callee.span.literal@) {
        None => {},
        Some(callee) => {
            let function = scope.functions[callee.index as int];
            if e.arguments.len() != function.parameters.len() {
            } else if e.arguments.len() > 0 {
                lemma_settled_call_ignores_register(ast, scope, st, other, e, fuel);
            } else {
                let frames = seq![entry_frame(function.parameters@, Seq::<Value>::empty())];
                assert(alt.with_frames(frames) == st.with_frames(frames).with_register(other));
                lemma_blind_statements_ignore_register(
                    ast,
                    scope,
                    st.with_frames(frames),
                    other,
                    function.body@,
                    0,
                    fuel,
                );
            }
        },
    }
}

/// Statements that never read what the register held do not depend on it.
pub proof fn lemma_blind_statements_ignore_register(
    ast: &Ast,
    scope: &GlobalScope,
    st: EvalState,
    other: Option<Value>,
    statements: Seq<StmtId>,
    from: int,
    fuel: nat,
)
    requires
        blind_statements(ast, scope, statements, from, fuel),
    ensures
        alike(
            st,
            other,
            eval_statements(ast, scope, st, statements, from, fuel),
            eval_statements(ast, scope, st.with_register(other), statements, from, fuel),
        ),
    decreases fuel, 1nat, statements.len() - from,
{
    if from < 0 || from >= statements.len() {
    } else {
        let alt = st.with_register(other);
        let (st1, r1) = eval_statement(ast, scope, st, statements[from], fuel);
        let (st2, r2) = eval_statement(ast, scope, alt, statements[from], fuel);
        if settled_statement(ast, scope, statements[from], fuel) {
            lemma_settled_statement_ignores_register(
                ast,
                scope,
                st,
                other,
                statements[from],
                fuel,
            );
        } else {
            lemma_blind_statement_ignores_register(ast, scope, st, other, statements[from], fuel);
            if went_on(r1) && st1 != st2 {
                assert(st2 == st1.with_register(other));
                lemma_blind_statements_ignore_register(
                    ast,
                    scope,
                    st1,
                    other,
                    statements,
                    from + 1,
                    fuel,
                );
            }
        }
    }
}

/// A statement that never reads what the register held does not depend on
/// it.
pub proof fn lemma_blind_statement_ignores_register(
    ast: &Ast,
    scope: &GlobalScope,
    st: EvalState,
    other: Option<Value>,
    id: StmtId,
    fuel: nat,
)
    requires
        blind_statement(ast, scope, id, fuel),
    ensures
        alike(
            st,
            other,
            eval_statement(ast, scope, st, id, fuel),
            eval_statement(ast, scope, st.with_register(other), id, fuel),
        ),
    decreases fuel, 0nat, 0nat,
{
    if fuel == 0 || id.index >= ast.statements.len() {
    } else {
        let less = (fuel - 1) as nat;
        let alt = st.with_register(other);
        match ast.statements[id.index as int].kind {
            StmtKind::Expr(e) => {
                lemma_blind_expression_ignores_register(ast, scope, st, other, e, less);
            },
            StmtKind::Let(s) => {
                lemma_settled_expression_ignores_register(
                    ast,
                    scope,
                    st,
                    other,
                    s.initializer,
                    less,
                );
                assert(same_end(
                    eval_let(ast, scope, st, s, less),
                    eval_let(ast, scope, alt, s, less),
                ));
            },
            StmtKind::While(s) => {
                lemma_settled_while_ignores_register(ast, scope, st, other, s, less);
            },
            StmtKind::Return(s) => {
                if let Some(e) = s.return_value {
                    lemma_settled_expression_ignores_register(ast, scope, st, other, e, less);
                }
                assert(alike(
                    st,
                    other,
                    eval_return(ast, scope, st, s, less),
                    eval_return(ast, scope, alt, s, less),
                ));
            },
            StmtKind::Break(_) => {},
            StmtKind::Continue(_) => {},
        }
    }
}

/// Whether an expression is pure, as far as an evaluation with budget
/// `fuel` looks: it holds no assignment, and it never reads what the
/// register held when it started.
pub open spec fn pure_expression(ast: &Ast, scope: &GlobalScope, id: ExprId, fuel: nat) -> bool {
    quiet_expression(ast, id, fuel) && blind_expression(ast, scope, id, fuel)
}

/// Evaluating a pure expression a second time, in the state that the first
/// evaluation has left, ends as the first did and changes nothing: the
/// frames are as before the first evaluation, after the first and after
/// the second, and unless the expression fails, the register holds the
/// same value after both.
pub proof fn lemma_pure_expression_repeats(
    ast: &Ast,
    scope: &GlobalScope,
    st: EvalState,
    id: ExprId,
    fuel: nat,
)
    requires
        pure_expression(ast, scope, id, fuel),
    ensures
        ({
            let (st1, r1) = eval_expression(ast, scope, st, id, fuel);
            let (st2, r2) = eval_expression(ast, scope, st1, id, fuel);
            &&& st1.frames == st.frames
            &&& st2.frames == st.frames
            &&& r2 == r1
            &&& r1 is Ok ==> st2 == st1
        }),
{
    let (st1, r1) = eval_expression(ast, scope, st, id, fuel);
    lemma_quiet_expression_keeps_frames(ast, scope, st, id, fuel);
    lemma_quiet_expression_keeps_frames(ast, scope, st1, id, fuel);
    lemma_blind_expression_ignores_register(ast, scope, st, st1.last_value, id, fuel);
    assert(st.with_register(st1.last_value) == st1);
}

} // verus!
