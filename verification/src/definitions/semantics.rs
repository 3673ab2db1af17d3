//! What a program means: evaluation as a mathematical function from a state
//! to a state and an outcome.
//!
//! The state is a register, which holds the value computed last, and a stack
//! of frames, innermost last, each a map from variable slots to values.
//! Every function here takes a nesting budget. An expression or statement
//! hands its parts one less than it was given, and so does each round of a
//! loop to the next; one reached with none left fails with `DepthExceeded`.
//! So evaluation is total, also of programs that would run for ever.

use vstd::prelude::*;
use crate::compilation_unit::{GlobalScope, VariableIdx};
use crate::definitions::value::{EvalError, Value, binary_result, unary_result};
use crate::definitions::{
    AssignExpr, Ast, BinaryExpr, BoolExpr, CallExpr, ExprId, ExprKind, IfExpr, LetStmt, NumberExpr,
    ReturnStmt, StmtId, StmtKind, UnaryExpr, VarExpr, WhileStmt,
};

verus! {

/// How a construct was left.
#[derive(Debug, Clone, Copy, PartialEq, Eq, Structural)]
pub enum Flow {
    /// Evaluation goes on with what follows.
    Normal,
    /// A `return` is unwinding to the body of the function around it; the
    /// register holds what it returns.
    Return,
    /// A `break` is unwinding to the loop around it, which it ends.
    Break,
    /// A `continue` is unwinding to the loop around it, which goes on with
    /// its next round.
    Continue,
}

/// One scope's bindings, from variable slots to values.
pub type FrameModel = Map<usize, Value>;

/// The evaluator's state, as a mathematical value.
pub struct EvalState {
    /// The register: the value computed last, if any.
    pub last_value: Option<Value>,
    /// The frames, outermost first.
    pub frames: Seq<FrameModel>,
}

/// A state and how the construct that led to it was left.
pub type Outcome = (EvalState, Result<Flow, EvalError>);

/// The value that the innermost frame with a binding for `slot` gives it.
pub open spec fn lookup_in(frames: Seq<FrameModel>, slot: usize) -> Option<Value>
    decreases frames.len(),
{
    if frames.len() == 0 {
        None
    } else if frames.last().contains_key(slot) {
        Some(frames.last()[slot])
    } else {
        lookup_in(frames.drop_last(), slot)
    }
}

/// The frames with `value` in place of what the innermost frame with a
/// binding for `slot` gave it; `None` if no frame has one.
pub open spec fn assign_in(frames: Seq<FrameModel>, slot: usize, value: Value) -> Option<
    Seq<FrameModel>,
>
    decreases frames.len(),
{
    if frames.len() == 0 {
        None
    } else if frames.last().contains_key(slot) {
        Some(frames.drop_last().push(frames.last().insert(slot, value)))
    } else {
        match assign_in(frames.drop_last(), slot, value) {
            Some(outer) => Some(outer.push(frames.last())),
            None => None,
        }
    }
}

/// The frame of a call: the first `count` parameters bound to the first
/// `count` values, in order.
pub open spec fn bound_parameters(
    parameters: Seq<VariableIdx>,
    values: Seq<Value>,
    count: nat,
) -> FrameModel
    decreases count,
{
    if count == 0 {
        Map::empty()
    } else {
        bound_parameters(parameters, values, (count - 1) as nat).insert(
            parameters[count - 1].index,
            values[count - 1],
        )
    }
}

/// The frame that the body of a call starts with: each parameter bound to
/// the argument at its place.
pub open spec fn entry_frame(parameters: Seq<VariableIdx>, values: Seq<Value>) -> FrameModel {
    bound_parameters(parameters, values, parameters.len())
}

impl EvalState {
    /// This state with `value` in the register.
    pub open spec fn with_value(self, value: Value) -> EvalState {
        EvalState { last_value: Some(value), frames: self.frames }
    }

    /// This state with the register as given.
    pub open spec fn with_register(self, register: Option<Value>) -> EvalState {
        EvalState { last_value: register, frames: self.frames }
    }

    /// This state with the frames as given.
    pub open spec fn with_frames(self, frames: Seq<FrameModel>) -> EvalState {
        EvalState { last_value: self.last_value, frames }
    }

    /// This state with `frame` as a new innermost frame.
    pub open spec fn push_frame(self, frame: FrameModel) -> EvalState {
        self.with_frames(self.frames.push(frame))
    }

    /// This state without its innermost frame.
    pub open spec fn pop_frame(self) -> EvalState {
        self.with_frames(self.frames.drop_last())
    }

    /// This state with `slot` bound to `value` in the innermost frame.
    pub open spec fn declare(self, slot: usize, value: Value) -> EvalState {
        if self.frames.len() == 0 {
            self
        } else {
            self.with_frames(
                self.frames.drop_last().push(self.frames.last().insert(slot, value)),
            )
        }
    }

    /// What `slot` is bound to, seen from the innermost frame.
    pub open spec fn lookup(self, slot: usize) -> Option<Value> {
        lookup_in(self.frames, slot)
    }
}

/// What became of the arguments of a call.
pub enum Arguments {
    /// All were evaluated; here are their values, in order.
    Values(Seq<Value>),
    /// A `return`, `break` or `continue` inside one of them is unwinding.
    Unwinding(Flow),
    Failed(EvalError),
}

/// How a call ends whose body was left in the given way: a `return` ends
/// the call, not the caller; a `break` or `continue` that no loop of the
/// body has caught is an error.
pub open spec fn call_result(body: Result<Flow, EvalError>) -> Result<Flow, EvalError> {
    match body {
        Ok(Flow::Normal) => Ok(Flow::Normal),
        Ok(Flow::Return) => Ok(Flow::Normal),
        Ok(_) => Err(EvalError::OutsideLoop),
        Err(error) => Err(error),
    }
}

/// How a statement ends at the top of a program that was left in the given
/// way: there, no loop is left to catch a `break` or a `continue`.
pub open spec fn top_result(statement: Result<Flow, EvalError>) -> Result<Flow, EvalError> {
    match statement {
        Ok(Flow::Break) => Err(EvalError::OutsideLoop),
        Ok(Flow::Continue) => Err(EvalError::OutsideLoop),
        _ => statement,
    }
}

/// Whether a construct ended normally, so that evaluation goes on behind it.
pub open spec fn went_on(result: Result<Flow, EvalError>) -> bool {
    result == Ok::<Flow, EvalError>(Flow::Normal)
}

/// Evaluates an expression: fails where the budget is spent or the arena
/// has no such node, and else does what the node's kind asks for.
pub open spec fn eval_expression(
    ast: &Ast,
    scope: &GlobalScope,
    st: EvalState,
    id: ExprId,
    fuel: nat,
) -> Outcome
    decreases fuel, 0nat, 0nat,
{
    if fuel == 0 {
        (st, Err(EvalError::DepthExceeded))
    } else if id.index >= ast.expressions.len() {
        (st, Err(EvalError::InvalidIndex))
    } else {
        let less = (fuel - 1) as nat;
        match ast.expressions[id.index as int].kind {
            ExprKind::Number(e) => eval_number(st, e),
            ExprKind::Boolean(e) => eval_boolean(st, e),
            ExprKind::Parenthesized(e) => eval_expression(ast, scope, st, e.inner, less),
            ExprKind::Unary(e) => eval_unary(ast, scope, st, e, less),
            ExprKind::Binary(e) => eval_binary(ast, scope, st, e, less),
            ExprKind::Variable(e) => eval_variable(st, e),
            ExprKind::Assignment(e) => eval_assignment(ast, scope, st, e, less),
            ExprKind::Call(e) => eval_call(ast, scope, st, e, less),
            ExprKind::Block(e) => eval_body(ast, scope, st, e.stmts@, less),
            ExprKind::If(e) => eval_if(ast, scope, st, e, less),
            ExprKind::Error(_) => (st, Err(EvalError::ErrorNode)),
        }
    }
}

/// A number literal puts its number into the register.
pub open spec fn eval_number(st: EvalState, e: NumberExpr) -> Outcome {
    (st.with_value(Value::Number(e.number)), Ok(Flow::Normal))
}

/// A boolean literal puts its truth value into the register.
pub open spec fn eval_boolean(st: EvalState, e: BoolExpr) -> Outcome {
    (st.with_value(Value::Boolean(e.value)), Ok(Flow::Normal))
}

/// A variable reference puts into the register what the innermost frame
/// with a binding for the variable gives it; without one it fails.
pub open spec fn eval_variable(st: EvalState, e: VarExpr) -> Outcome {
    match st.lookup(e.variable_idx.index) {
        Some(value) => (st.with_value(value), Ok(Flow::Normal)),
        None => (st, Err(EvalError::UnboundVariable(e.variable_idx))),
    }
}

/// A unary expression evaluates its operand and applies the operator to
/// what the register then holds.
pub open spec fn eval_unary(
    ast: &Ast,
    scope: &GlobalScope,
    st: EvalState,
    e: UnaryExpr,
    fuel: nat,
) -> Outcome
    decreases fuel, 2nat, 0nat,
{
    let (st1, r1) = eval_expression(ast, scope, st, e.operand, fuel);
    if !went_on(r1) {
        (st1, r1)
    } else {
        match st1.last_value {
            None => (st1, Err(EvalError::MissingValue)),
            Some(operand) => match unary_result(e.operator.kind, operand) {
                Ok(value) => (st1.with_value(value), Ok(Flow::Normal)),
                Err(error) => (st1, Err(error)),
            },
        }
    }
}

/// A binary expression evaluates its left operand, then its right one,
/// both in any case, and applies the operator to the two values.
pub open spec fn eval_binary(
    ast: &Ast,
    scope: &GlobalScope,
    st: EvalState,
    e: BinaryExpr,
    fuel: nat,
) -> Outcome
    decreases fuel, 2nat, 0nat,
{
    let (st1, r1) = eval_expression(ast, scope, st, e.left, fuel);
    if !went_on(r1) {
        (st1, r1)
    } else {
        match st1.last_value {
            None => (st1, Err(EvalError::MissingValue)),
            Some(left) => {
                let (st2, r2) = eval_expression(ast, scope, st1, e.right, fuel);
                if !went_on(r2) {
                    (st2, r2)
                } else {
                    match st2.last_value {
                        None => (st2, Err(EvalError::MissingValue)),
                        Some(right) => match binary_result(e.operator.kind, left, right) {
                            Ok(value) => (st2.with_value(value), Ok(Flow::Normal)),
                            Err(error) => (st2, Err(error)),
                        },
                    }
                }
            },
        }
    }
}

/// An assignment evaluates its right-hand side and puts the value in place
/// of what the innermost frame with a binding for the target gave it. A
/// target that no frame binds is an error, and nothing is bound.
pub open spec fn eval_assignment(
    ast: &Ast,
    scope: &GlobalScope,
    st: EvalState,
    e: AssignExpr,
    fuel: nat,
) -> Outcome
    decreases fuel, 2nat, 0nat,
{
    let (st1, r1) = eval_expression(ast, scope, st, e.expression, fuel);
    if !went_on(r1) {
        (st1, r1)
    } else {
        match st1.last_value {
            None => (st1, Err(EvalError::MissingValue)),
            Some(value) => match assign_in(st1.frames, e.variable_idx.index, value) {
                Some(frames) => (st1.with_frames(frames), Ok(Flow::Normal)),
                None => (st1, Err(EvalError::UnboundVariable(e.variable_idx))),
            },
        }
    }
}

/// A call finds its callee by name, which must be declared with as many
/// parameters as the call has arguments. It evaluates the arguments in the
/// caller's frames and binds the parameters to them in one new frame. The
/// statements of the body run with that frame as their only one: the body
/// sees its parameters and what it declares itself, and nothing of the
/// caller. Then the caller's frames are back, as the arguments left them,
/// and the register holds what the body left in it. A `return` in the body
/// ends the call, not the caller.
pub open spec fn eval_call(
    ast: &Ast,
    scope: &GlobalScope,
    st: EvalState,
    e: CallExpr,
    fuel: nat,
) -> Outcome
    decreases fuel, 2nat, 0nat,
{
    match scope.lookup(e.callee.span.literal@) {
        None => (st, Err(EvalError::FunctionNotFound)),
        Some(callee) => {
            let function = scope.functions[callee.index as int];
            if e.arguments.len() != function.parameters.len() {
                (st, Err(EvalError::ArityMismatch))
            } else {
                let (st1, arguments) = eval_arguments(
                    ast,
                    scope,
                    st,
                    e.arguments@,
                    0,
                    Seq::empty(),
                    fuel,
                );
                match arguments {
                    Arguments::Failed(error) => (st1, Err(error)),
                    Arguments::Unwinding(flow) => (st1, Ok(flow)),
                    Arguments::Values(values) => {
                        let (st2, r2) = eval_statements(
                            ast,
                            scope,
                            st1.with_frames(seq![entry_frame(function.parameters@, values)]),
                            function.body@,
                            0,
                            fuel,
                        );
                        (st2.with_frames(st1.frames), call_result(r2))
                    },
                }
            }
        },
    }
}

/// Evaluates the arguments of a call from the one at `from` on, in order,
/// and adds their values to `values`.
pub open spec fn eval_arguments(
    ast: &Ast,
    scope: &GlobalScope,
    st: EvalState,
    arguments: Seq<ExprId>,
    from: int,
    values: Seq<Value>,
    fuel: nat,
) -> (EvalState, Arguments)
    decreases fuel, 1nat, arguments.len() - from,
{
    if from < 0 || from >= arguments.len() {
        (st, Arguments::Values(values))
    } else {
        let (st1, r1) = eval_expression(ast, scope, st, arguments[from], fuel);
        match r1 {
            Err(error) => (st1, Arguments::Failed(error)),
            Ok(Flow::Normal) => match st1.last_value {
                None => (st1, Arguments::Failed(EvalError::MissingValue)),
                Some(value) => eval_arguments(
                    ast,
                    scope,
                    st1,
                    arguments,
                    from + 1,
                    values.push(value),
                    fuel,
                ),
            },
            Ok(flow) => (st1, Arguments::Unwinding(flow)),
        }
    }
}

/// A conditional evaluates its condition in a new frame. On `true` it runs
/// the first branch, on `false` the second, each in a frame of its own.
/// Without a second branch, `false` leaves the register as it was before
/// the conditional. The condition's frame is dropped in the end.
pub open spec fn eval_if(
    ast: &Ast,
    scope: &GlobalScope,
    st: EvalState,
    e: IfExpr,
    fuel: nat,
) -> Outcome
    decreases fuel, 2nat, 0nat,
{
    let (st1, r1) = eval_expression(ast, scope, st.push_frame(Map::empty()), e.condition, fuel);
    let (st2, r2) = if !went_on(r1) {
        (st1, r1)
    } else {
        match st1.last_value {
            None => (st1, Err(EvalError::MissingValue)),
            Some(Value::Boolean(true)) => eval_body(ast, scope, st1, e.then_branch@, fuel),
            Some(Value::Boolean(false)) => match e.else_branch {
                Some(branch) => eval_body(ast, scope, st1, branch.body@, fuel),
                None => (st1.with_register(st.last_value), Ok(Flow::Normal)),
            },
            Some(_) => (st1, Err(EvalError::TypeMismatch)),
        }
    };
    (st2.pop_frame(), r2)
}

/// Evaluates a statement: fails where the budget is spent or the arena has
/// no such node, and else does what the node's kind asks for.
pub open spec fn eval_statement(
    ast: &Ast,
    scope: &GlobalScope,
    st: EvalState,
    id: StmtId,
    fuel: nat,
) -> Outcome
    decreases fuel, 0nat, 0nat,
{
    if fuel == 0 {
        (st, Err(EvalError::DepthExceeded))
    } else if id.index >= ast.statements.len() {
        (st, Err(EvalError::InvalidIndex))
    } else {
        let less = (fuel - 1) as nat;
        match ast.statements[id.index as int].kind {
            StmtKind::Expr(e) => eval_expression(ast, scope, st, e, less),
            StmtKind::Let(s) => eval_let(ast, scope, st, s, less),
            StmtKind::While(s) => eval_while(ast, scope, st, s, less),
            StmtKind::Return(s) => eval_return(ast, scope, st, s, less),
            StmtKind::Break(_) => (st, Ok(Flow::Break)),
            StmtKind::Continue(_) => (st, Ok(Flow::Continue)),
        }
    }
}

/// A `let` evaluates its initializer and binds the variable to the value
/// in the innermost frame, whatever the frames around it bind.
pub open spec fn eval_let(
    ast: &Ast,
    scope: &GlobalScope,
    st: EvalState,
    s: LetStmt,
    fuel: nat,
) -> Outcome
    decreases fuel, 2nat, 0nat,
{
    let (st1, r1) = eval_expression(ast, scope, st, s.initializer, fuel);
    if !went_on(r1) {
        (st1, r1)
    } else {
        match st1.last_value {
            None => (st1, Err(EvalError::MissingValue)),
            Some(value) => (st1.declare(s.variable_idx.index, value), Ok(Flow::Normal)),
        }
    }
}

/// A `while` runs its loop in a new frame, which is dropped in the end.
pub open spec fn eval_while(
    ast: &Ast,
    scope: &GlobalScope,
    st: EvalState,
    s: WhileStmt,
    fuel: nat,
) -> Outcome
    decreases fuel, 2nat, 0nat,
{
    let (st1, r1) = eval_loop(ast, scope, st.push_frame(Map::empty()), s.condition, s.body@, fuel);
    (st1.pop_frame(), r1)
}

/// Runs a loop: the condition, and as long as it yields `true`, the body in
/// a frame of its own and the condition again. A `break` in the body ends
/// the loop; a `continue` ends the round.
pub open spec fn eval_loop(
    ast: &Ast,
    scope: &GlobalScope,
    st: EvalState,
    condition: ExprId,
    body: Seq<StmtId>,
    fuel: nat,
) -> Outcome
    decreases fuel, 1nat, 0nat,
{
    if fuel == 0 {
        (st, Err(EvalError::DepthExceeded))
    } else {
        let less = (fuel - 1) as nat;
        let (st1, r1) = eval_expression(ast, scope, st, condition, less);
        if !went_on(r1) {
            (st1, r1)
        } else {
            match st1.last_value {
                None => (st1, Err(EvalError::MissingValue)),
                Some(Value::Boolean(true)) => {
                    let (st2, r2) = eval_body(ast, scope, st1, body, less);
                    match r2 {
                        Ok(Flow::Normal) => eval_loop(ast, scope, st2, condition, body, less),
                        Ok(Flow::Continue) => eval_loop(ast, scope, st2, condition, body, less),
                        Ok(Flow::Break) => (st2, Ok(Flow::Normal)),
                        _ => (st2, r2),
                    }
                },
                Some(Value::Boolean(false)) => (st1, Ok(Flow::Normal)),
                Some(_) => (st1, Err(EvalError::TypeMismatch)),
            }
        }
    }
}

/// A `return` evaluates its value, if it has one, and starts unwinding.
pub open spec fn eval_return(
    ast: &Ast,
    scope: &GlobalScope,
    st: EvalState,
    s: ReturnStmt,
    fuel: nat,
) -> Outcome
    decreases fuel, 2nat, 0nat,
{
    match s.return_value {
        None => (st, Ok(Flow::Return)),
        Some(e) => {
            let (st1, r1) = eval_expression(ast, scope, st, e, fuel);
            if went_on(r1) {
                (st1, Ok(Flow::Return))
            } else {
                (st1, r1)
            }
        },
    }
}

/// Evaluates the statements of a list from the one at `from` on, in order,
/// up to the first that does not end normally.
pub open spec fn eval_statements(
    ast: &Ast,
    scope: &GlobalScope,
    st: EvalState,
    statements: Seq<StmtId>,
    from: int,
    fuel: nat,
) -> Outcome
    decreases fuel, 1nat, statements.len() - from,
{
    if from < 0 || from >= statements.len() {
        (st, Ok(Flow::Normal))
    } else {
        let (st1, r1) = eval_statement(ast, scope, st, statements[from], fuel);
        if !went_on(r1) {
            (st1, r1)
        } else {
            eval_statements(ast, scope, st1, statements, from + 1, fuel)
        }
    }
}

/// Evaluates a list of statements in a frame of its own.
pub open spec fn eval_body(
    ast: &Ast,
    scope: &GlobalScope,
    st: EvalState,
    statements: Seq<StmtId>,
    fuel: nat,
) -> Outcome
    decreases fuel, 1nat, statements.len() + 1,
{
    let (st1, r1) = eval_statements(ast, scope, st.push_frame(Map::empty()), statements, 0, fuel);
    (st1.pop_frame(), r1)
}

} // verus!
