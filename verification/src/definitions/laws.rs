//! What holds of every evaluation: the frame stack is left as deep as it was
//! found, and bindings made inside a construct do not outlive it.

use vstd::prelude::*;
use crate::compilation_unit::{GlobalScope, VariableIdx};
use crate::definitions::semantics::{
    Arguments, EvalState, FrameModel, assign_in, bound_parameters, entry_frame, eval_arguments,
    eval_assignment, eval_binary, eval_body, eval_call, eval_expression, eval_if, eval_let,
    eval_loop, eval_return, eval_statement, eval_statements, eval_unary, eval_while, lookup_in,
};
use crate::definitions::value::Value;
use crate::definitions::{
    AssignExpr, Ast, BinaryExpr, CallExpr, ExprId, ExprKind, IfExpr, LetStmt, ReturnStmt, StmtId,
    StmtKind, UnaryExpr, WhileStmt,
};

verus! {

/// Whether two frame stacks are equally deep and bind the same variables,
/// frame by frame. The values may differ.
pub open spec fn same_scopes(before: Seq<FrameModel>, after: Seq<FrameModel>) -> bool {
    &&& before.len() == after.len()
    &&& forall|i: int| 0 <= i < before.len() ==> (#[trigger] before[i]).dom() == after[i].dom()
}

/// Whether `after` is as deep as `before` and binds the same variables in
/// every frame but the innermost, which may have gained some.
pub open spec fn scopes_grown(before: Seq<FrameModel>, after: Seq<FrameModel>) -> bool {
    &&& before.len() == after.len()
    &&& forall|i: int|
        0 <= i < before.len() - 1 ==> (#[trigger] before[i]).dom() == after[i].dom()
    &&& before.len() > 0 ==> before.last().dom().subset_of(after.last().dom())
}

/// Assignment changes a value and nothing else: which variables each frame
/// binds stays as it was.
pub proof fn lemma_assign_keeps_scopes(frames: Seq<FrameModel>, slot: usize, value: Value)
    ensures
        assign_in(frames, slot, value) matches Some(after) ==> same_scopes(frames, after),
    decreases frames.len(),
{
    if frames.len() == 0 {
    } else if frames.last().contains_key(slot) {
        let after = frames.drop_last().push(frames.last().insert(slot, value));
        assert(frames.last().insert(slot, value).dom() =~= frames.last().dom());
        assert(same_scopes(frames, after));
    } else {
        lemma_assign_keeps_scopes(frames.drop_last(), slot, value);
        match assign_in(frames.drop_last(), slot, value) {
            Some(outer) => {
                let after = outer.push(frames.last());
                assert forall|i: int| 0 <= i < frames.len() implies (#[trigger] frames[i]).dom()
                    == after[i].dom() by {
                    if i < frames.len() - 1 {
                        assert(frames.drop_last()[i] == frames[i]);
                    }
                }
            },
            None => {},
        }
    }
}

/// A variable can be assigned to if and only if it can be read. Once
/// assigned to, it reads as the value assigned, and every other variable
/// reads as before.
pub proof fn lemma_lookup_after_assign(
    frames: Seq<FrameModel>,
    slot: usize,
    value: Value,
    other: usize,
)
    ensures
        assign_in(frames, slot, value) is Some <==> lookup_in(frames, slot) is Some,
        assign_in(frames, slot, value) matches Some(after) ==> {
            &&& lookup_in(after, slot) == Some(value)
            &&& other != slot ==> lookup_in(after, other) == lookup_in(frames, other)
        },
    decreases frames.len(),
{
    if frames.len() == 0 {
    } else if frames.last().contains_key(slot) {
        let after = frames.drop_last().push(frames.last().insert(slot, value));
        assert(after.drop_last() =~= frames.drop_last());
    } else {
        lemma_lookup_after_assign(frames.drop_last(), slot, value, other);
        match assign_in(frames.drop_last(), slot, value) {
            Some(outer) => {
                let after = outer.push(frames.last());
                assert(after.drop_last() =~= outer);
            },
            None => {},
        }
    }
}

/// A variable declared reads as the value it was declared with, whatever
/// the frames around bind it to, and every other variable reads as before.
pub proof fn lemma_lookup_after_declare(st: EvalState, slot: usize, value: Value, other: usize)
    requires
        st.frames.len() >= 1,
    ensures
        st.declare(slot, value).lookup(slot) == Some(value),
        other != slot ==> st.declare(slot, value).lookup(other) == st.lookup(other),
{
    let after = st.declare(slot, value).frames;
    assert(after.drop_last() =~= st.frames.drop_last());
}

/// A frame pushed, then whatever keeps or grows the scopes, then a frame
/// popped: the scopes are as they were.
proof fn lemma_scopes_restored(before: Seq<FrameModel>, frame: FrameModel, inner: Seq<FrameModel>)
    requires
        scopes_grown(before.push(frame), inner),
    ensures
        same_scopes(before, inner.drop_last()),
{
    let entered = before.push(frame);
    assert forall|i: int| 0 <= i < before.len() implies (#[trigger] before[i]).dom()
        == inner.drop_last()[i].dom() by {
        assert(entered[i] == before[i]);
    }
}

/// Evaluating an expression leaves the frame stack as deep as it was, and
/// every frame with the bindings it had: what an expression declares, it
/// declares in frames of its own, which are gone when it is done.
pub proof fn lemma_expression_keeps_scopes(
    ast: &Ast,
    scope: &GlobalScope,
    st: EvalState,
    id: ExprId,
    fuel: nat,
)
    ensures
        same_scopes(st.frames, eval_expression(ast, scope, st, id, fuel).0.frames),
    decreases fuel, 0nat, 0nat,
{
    if fuel == 0 || id.index >= ast.expressions.len() {
    } else {
        let less = (fuel - 1) as nat;
        match ast.expressions[id.index as int].kind {
            ExprKind::Number(_) => {},
            ExprKind::Boolean(_) => {},
            ExprKind::Parenthesized(e) => {
                lemma_expression_keeps_scopes(ast, scope, st, e.inner, less);
            },
            ExprKind::Unary(e) => {
                lemma_unary_keeps_scopes(ast, scope, st, e, less);
            },
            ExprKind::Binary(e) => {
                lemma_binary_keeps_scopes(ast, scope, st, e, less);
            },
            ExprKind::Variable(_) => {},
            ExprKind::Assignment(e) => {
                lemma_assignment_keeps_scopes(ast, scope, st, e, less);
            },
            ExprKind::Call(e) => {
                lemma_call_keeps_scopes(ast, scope, st, e, less);
            },
            ExprKind::Block(e) => {
                lemma_body_keeps_scopes(ast, scope, st, e.stmts@, less);
            },
            ExprKind::If(e) => {
                lemma_if_keeps_scopes(ast, scope, st, e, less);
            },
            ExprKind::Error(_) => {},
        }
    }
}

/// A unary expression keeps the scopes.
pub proof fn lemma_unary_keeps_scopes(
    ast: &Ast,
    scope: &GlobalScope,
    st: EvalState,
    e: UnaryExpr,
    fuel: nat,
)
    ensures
        same_scopes(st.frames, eval_unary(ast, scope, st, e, fuel).0.frames),
    decreases fuel, 2nat, 0nat,
{
    lemma_expression_keeps_scopes(ast, scope, st, e.operand, fuel);
}

/// A binary expression keeps the scopes.
pub proof fn lemma_binary_keeps_scopes(
    ast: &Ast,
    scope: &GlobalScope,
    st: EvalState,
    e: BinaryExpr,
    fuel: nat,
)
    ensures
        same_scopes(st.frames, eval_binary(ast, scope, st, e, fuel).0.frames),
    decreases fuel, 2nat, 0nat,
{
    lemma_expression_keeps_scopes(ast, scope, st, e.left, fuel);
    let (st1, r1) = eval_expression(ast, scope, st, e.left, fuel);
    lemma_expression_keeps_scopes(ast, scope, st1, e.right, fuel);
}

/// An assignment keeps the scopes: it changes what a variable is bound to,
/// never which variables are bound.
pub proof fn lemma_assignment_keeps_scopes(
    ast: &Ast,
    scope: &GlobalScope,
    st: EvalState,
    e: AssignExpr,
    fuel: nat,
)
    ensures
        same_scopes(st.frames, eval_assignment(ast, scope, st, e, fuel).0.frames),
    decreases fuel, 2nat, 0nat,
{
    lemma_expression_keeps_scopes(ast, scope, st, e.expression, fuel);
    let (st1, r1) = eval_expression(ast, scope, st, e.expression, fuel);
    if let Some(value) = st1.last_value {
        lemma_assign_keeps_scopes(st1.frames, e.variable_idx.index, value);
    }
}

/// A call keeps the scopes: its body has frames of its own, and the
/// caller's frames are as evaluating the arguments has left them.
pub proof fn lemma_call_keeps_scopes(
    ast: &Ast,
    scope: &GlobalScope,
    st: EvalState,
    e: CallExpr,
    fuel: nat,
)
    ensures
        same_scopes(st.frames, eval_call(ast, scope, st, e, fuel).0.frames),
    decreases fuel, 2nat, 0nat,
{
    lemma_arguments_keep_scopes(ast, scope, st, e.arguments@, 0, Seq::empty(), fuel);
}

/// Whether the call finds its callee, declared with as many parameters as
/// the call has arguments.
pub open spec fn call_fits(scope: &GlobalScope, e: CallExpr) -> bool {
    scope.lookup(e.callee.span.literal@) matches Some(callee) && e.arguments.len()
        == scope.functions[callee.index as int].parameters.len()
}

/// The body of a function cannot reach the frames of its caller. After a
/// call they are as evaluating the arguments has left them, whatever the
/// body assigns or declares; and two calls whose arguments have the same
/// values and leave the same register end in the same way and with the
/// same register, whatever the frames that they are made in.
pub proof fn lemma_call_is_apart(
    ast: &Ast,
    scope: &GlobalScope,
    st: EvalState,
    elsewhere: EvalState,
    e: CallExpr,
    fuel: nat,
)
    requires
        call_fits(scope, e),
    ensures
        ({
            let here = eval_arguments(ast, scope, st, e.arguments@, 0, Seq::empty(), fuel);
            let there = eval_arguments(ast, scope, elsewhere, e.arguments@, 0, Seq::empty(), fuel);
            let first = eval_call(ast, scope, st, e, fuel);
            let second = eval_call(ast, scope, elsewhere, e, fuel);
            &&& first.0.frames == here.0.frames
            &&& here.1 is Values && here.1 == there.1 && here.0.last_value == there.0.last_value
                ==> first.1 == second.1 && first.0.last_value == second.0.last_value
        }),
{
    let here = eval_arguments(ast, scope, st, e.arguments@, 0, Seq::empty(), fuel);
    let there = eval_arguments(ast, scope, elsewhere, e.arguments@, 0, Seq::empty(), fuel);
    if here.1 is Values && here.1 == there.1 && here.0.last_value == there.0.last_value {
        let function = scope.functions[scope.lookup(e.callee.span.literal@).unwrap().index as int];
        let frames = seq![entry_frame(function.parameters@, here.1->Values_0)];
        assert(here.0.with_frames(frames) == there.0.with_frames(frames));
    }
}

/// The frame that the body of a call starts with binds the parameters and
/// nothing else.
pub proof fn lemma_entry_frame_binds_parameters(
    parameters: Seq<VariableIdx>,
    values: Seq<Value>,
    slot: usize,
)
    ensures
        entry_frame(parameters, values).contains_key(slot) <==> exists|i: int|
            0 <= i < parameters.len() && (#[trigger] parameters[i]).index == slot,
{
    lemma_bound_parameters_bind(parameters, values, parameters.len(), slot);
}

proof fn lemma_bound_parameters_bind(
    parameters: Seq<VariableIdx>,
    values: Seq<Value>,
    count: nat,
    slot: usize,
)
    requires
        count <= parameters.len(),
    ensures
        bound_parameters(parameters, values, count).contains_key(slot) <==> exists|i: int|
            0 <= i < count && (#[trigger] parameters[i]).index == slot,
    decreases count,
{
    if count > 0 {
        lemma_bound_parameters_bind(parameters, values, (count - 1) as nat, slot);
        if parameters[count - 1].index == slot {
        } else if exists|i: int| 0 <= i < count && (#[trigger] parameters[i]).index == slot {
            let i = choose|i: int| 0 <= i < count && (#[trigger] parameters[i]).index == slot;
            assert(0 <= i < count - 1);
        }
    }
}

/// Evaluating the arguments of a call keeps the scopes, and gives one
/// value for each argument.
pub proof fn lemma_arguments_keep_scopes(
    ast: &Ast,
    scope: &GlobalScope,
    st: EvalState,
    arguments: Seq<ExprId>,
    from: int,
    values: Seq<Value>,
    fuel: nat,
)
    requires
        0 <= from <= arguments.len(),
    ensures
        same_scopes(
            st.frames,
            eval_arguments(ast, scope, st, arguments, from, values, fuel).0.frames,
        ),
        eval_arguments(ast, scope, st, arguments, from, values, fuel).1 matches Arguments::Values(
            all,
        ) ==> all.len() == values.len() + arguments.len() - from,
    decreases fuel, 1nat, arguments.len() - from,
{
    if from < arguments.len() {
        lemma_expression_keeps_scopes(ast, scope, st, arguments[from], fuel);
        let (st1, r1) = eval_expression(ast, scope, st, arguments[from], fuel);
        if let Some(value) = st1.last_value {
            lemma_arguments_keep_scopes(
                ast,
                scope,
                st1,
                arguments,
                from + 1,
                values.push(value),
                fuel,
            );
        }
    }
}

/// A conditional keeps the scopes: the frame of its condition and the
/// frame of its branch are gone when it is done.
pub proof fn lemma_if_keeps_scopes(
    ast: &Ast,
    scope: &GlobalScope,
    st: EvalState,
    e: IfExpr,
    fuel: nat,
)
    ensures
        same_scopes(st.frames, eval_if(ast, scope, st, e, fuel).0.frames),
    decreases fuel, 2nat, 0nat,
{
    let entered = st.push_frame(Map::empty());
    lemma_expression_keeps_scopes(ast, scope, entered, e.condition, fuel);
    let (st1, r1) = eval_expression(ast, scope, entered, e.condition, fuel);
    lemma_body_keeps_scopes(ast, scope, st1, e.then_branch@, fuel);
    if let Some(branch) = e.else_branch {
        lemma_body_keeps_scopes(ast, scope, st1, branch.body@, fuel);
    }
    let st2 = eval_if(ast, scope, st, e, fuel).0;
    assert forall|i: int| 0 <= i < st.frames.len() implies (#[trigger] st.frames[i]).dom()
        == st2.frames[i].dom() by {
        assert(entered.frames[i] == st.frames[i]);
    }
}

/// Evaluating a statement leaves the frame stack as deep as it was. Only a
/// `let` adds a binding, and only to the innermost frame.
pub proof fn lemma_statement_grows_scopes(
    ast: &Ast,
    scope: &GlobalScope,
    st: EvalState,
    id: StmtId,
    fuel: nat,
)
    ensures
        scopes_grown(st.frames, eval_statement(ast, scope, st, id, fuel).0.frames),
    decreases fuel, 0nat, 0nat,
{
    if fuel == 0 || id.index >= ast.statements.len() {
    } else {
        let less = (fuel - 1) as nat;
        match ast.statements[id.index as int].kind {
            StmtKind::Expr(e) => {
                lemma_expression_keeps_scopes(ast, scope, st, e, less);
            },
            StmtKind::Let(s) => {
                lemma_let_grows_scopes(ast, scope, st, s, less);
            },
            StmtKind::While(s) => {
                lemma_while_keeps_scopes(ast, scope, st, s, less);
            },
            StmtKind::Return(s) => {
                lemma_return_keeps_scopes(ast, scope, st, s, less);
            },
            StmtKind::Break(_) => {},
            StmtKind::Continue(_) => {},
        }
    }
}

/// A `let` binds in the innermost frame and nowhere else.
pub proof fn lemma_let_grows_scopes(
    ast: &Ast,
    scope: &GlobalScope,
    st: EvalState,
    s: LetStmt,
    fuel: nat,
)
    ensures
        scopes_grown(st.frames, eval_let(ast, scope, st, s, fuel).0.frames),
    decreases fuel, 2nat, 0nat,
{
    lemma_expression_keeps_scopes(ast, scope, st, s.initializer, fuel);
    let (st1, r1) = eval_expression(ast, scope, st, s.initializer, fuel);
    if let Some(value) = st1.last_value {
        let st2 = st1.declare(s.variable_idx.index, value);
        assert(scopes_grown(st1.frames, st2.frames));
    }
}

/// A `while` keeps the scopes: its frame is gone when it is done.
pub proof fn lemma_while_keeps_scopes(
    ast: &Ast,
    scope: &GlobalScope,
    st: EvalState,
    s: WhileStmt,
    fuel: nat,
)
    ensures
        same_scopes(st.frames, eval_while(ast, scope, st, s, fuel).0.frames),
    decreases fuel, 2nat, 0nat,
{
    let entered = st.push_frame(Map::empty());
    lemma_loop_keeps_scopes(ast, scope, entered, s.condition, s.body@, fuel);
    let (st1, r1) = eval_loop(ast, scope, entered, s.condition, s.body@, fuel);
    lemma_scopes_restored(st.frames, Map::empty(), st1.frames);
}

/// Running a loop keeps the scopes.
pub proof fn lemma_loop_keeps_scopes(
    ast: &Ast,
    scope: &GlobalScope,
    st: EvalState,
    condition: ExprId,
    body: Seq<StmtId>,
    fuel: nat,
)
    ensures
        same_scopes(st.frames, eval_loop(ast, scope, st, condition, body, fuel).0.frames),
    decreases fuel, 1nat, 0nat,
{
    if fuel > 0 {
        let less = (fuel - 1) as nat;
        lemma_expression_keeps_scopes(ast, scope, st, condition, less);
        let (st1, r1) = eval_expression(ast, scope, st, condition, less);
        lemma_body_keeps_scopes(ast, scope, st1, body, less);
        let (st2, r2) = eval_body(ast, scope, st1, body, less);
        lemma_loop_keeps_scopes(ast, scope, st2, condition, body, less);
    }
}

/// A `return` keeps the scopes.
pub proof fn lemma_return_keeps_scopes(
    ast: &Ast,
    scope: &GlobalScope,
    st: EvalState,
    s: ReturnStmt,
    fuel: nat,
)
    ensures
        same_scopes(st.frames, eval_return(ast, scope, st, s, fuel).0.frames),
    decreases fuel, 2nat, 0nat,
{
    if let Some(e) = s.return_value {
        lemma_expression_keeps_scopes(ast, scope, st, e, fuel);
    }
}

/// Evaluating a list of statements leaves the frame stack as deep as it
/// was; bindings are added to the innermost frame only.
pub proof fn lemma_statements_grow_scopes(
    ast: &Ast,
    scope: &GlobalScope,
    st: EvalState,
    statements: Seq<StmtId>,
    from: int,
    fuel: nat,
)
    ensures
        scopes_grown(
            st.frames,
            eval_statements(ast, scope, st, statements, from, fuel).0.frames,
        ),
    decreases fuel, 1nat, statements.len() - from,
{
    if from < 0 || from >= statements.len() {
    } else {
        lemma_statement_grows_scopes(ast, scope, st, statements[from], fuel);
        let (st1, r1) = eval_statement(ast, scope, st, statements[from], fuel);
        lemma_statements_grow_scopes(ast, scope, st1, statements, from + 1, fuel);
    }
}

/// A list of statements evaluated in a frame of its own keeps the scopes:
/// what it binds is invisible once it is done.
pub proof fn lemma_body_keeps_scopes(
    ast: &Ast,
    scope: &GlobalScope,
    st: EvalState,
    statements: Seq<StmtId>,
    fuel: nat,
)
    ensures
        same_scopes(st.frames, eval_body(ast, scope, st, statements, fuel).0.frames),
    decreases fuel, 1nat, statements.len() + 1,
{
    let entered = st.push_frame(Map::empty());
    lemma_statements_grow_scopes(ast, scope, entered, statements, 0, fuel);
    let (st1, r1) = eval_statements(ast, scope, entered, statements, 0, fuel);
    lemma_scopes_restored(st.frames, Map::empty(), st1.frames);
}

} // verus!
