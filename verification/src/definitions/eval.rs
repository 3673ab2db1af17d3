//! The evaluator: it walks the tree and executes it, with a stack of frames
//! for the variables in scope and a register for the value computed last.
//!
//! It has one method for each node kind, as a visitor has, and entry points
//! for items, statements and expressions that dispatch on a node's tag. It
//! does its own walking: which branch it enters, and how often it goes round
//! a loop, depends on the values it computes. What each method does is
//! stated by the function of the same construct in `semantics`.
//!
//! Every method that may nest takes a budget, `fuel`: it hands its parts
//! one less than it was given, and fails with `DepthExceeded` where none is
//! left. So every evaluation ends. All methods leave the frame stack as
//! deep as they found it, also where they fail.

use vstd::prelude::*;
use std::collections::HashMap;
use std::mem::swap;
use crate::compilation_unit::{GlobalScope, VariableIdx};
use crate::definitions::laws::lemma_assign_keeps_scopes;
use crate::definitions::semantics::{
    Arguments, EvalState, Flow, FrameModel, assign_in, bound_parameters, eval_arguments,
    eval_assignment, eval_binary, eval_body, eval_boolean, eval_call, eval_expression, eval_if,
    eval_let, eval_loop, eval_number, eval_return, eval_statement, eval_statements, eval_unary,
    eval_variable, eval_while, lookup_in, top_result,
};
use crate::definitions::value::{EvalError, Value, apply_binary, apply_unary};
use crate::definitions::visitor::{ASTVisitor, NodeId, Walk};
use crate::definitions::{
    AssignExpr, Ast, BinaryExpr, BlockExpr, Body, BoolExpr, BreakStmt, CallExpr, ContinueStmt, Expr,
    ExprId, ExprKind, FuncDeclaration, IfExpr, ItemId, LetStmt, NumberExpr, ParenthesizedExpr,
    ReturnStmt, Stmt, StmtId, StmtKind, UnaryExpr, VarExpr, WhileStmt,
};
use crate::text::span::TextSpan;

verus! {

/// One lexical scope: the variables bound in it, each with its value.
#[derive(Debug)]
pub struct Frame {
    variables: HashMap<usize, Value>,
}

impl View for Frame {
    type V = FrameModel;

    closed spec fn view(&self) -> FrameModel {
        self.variables@
    }
}

impl Frame {
    fn new() -> (r: Self)
        ensures
            r@ == Map::<usize, Value>::empty(),
    {
        Self { variables: HashMap::new() }
    }

    fn insert(&mut self, idx: VariableIdx, value: Value)
        ensures
            final(self)@ == old(self)@.insert(idx.index, value),
    {
        self.variables.insert(idx.index, value);
    }

    fn get(&self, idx: &VariableIdx) -> (r: Option<Value>)
        ensures
            r == (if self@.contains_key(idx.index) {
                Some(self@[idx.index])
            } else {
                None
            }),
    {
        match self.variables.get(&idx.index) {
            Some(value) => Some(*value),
            None => None,
        }
    }
}

/// The scopes that are active, innermost last. A new stack has one: the
/// outermost, for what the top of a program declares.
#[derive(Debug)]
pub struct Frames {
    frames: Vec<Frame>,
}

impl View for Frames {
    type V = Seq<FrameModel>;

    closed spec fn view(&self) -> Seq<FrameModel> {
        Seq::new(self.frames.len() as nat, |i: int| self.frames[i]@)
    }
}

impl Frames {
    pub fn new() -> (r: Self)
        ensures
            r@ == seq![Map::<usize, Value>::empty()],
    {
        let mut frames: Vec<Frame> = Vec::new();
        frames.push(Frame::new());
        let r = Self { frames };
        assert(r@ =~= seq![Map::<usize, Value>::empty()]);
        r
    }

    /// The number of active scopes.
    pub fn depth(&self) -> (r: usize)
        ensures
            r == self@.len(),
    {
        self.frames.len()
    }

    /// Enters a scope: adds an empty frame as the innermost.
    pub fn push(&mut self)
        ensures
            final(self)@ == old(self)@.push(Map::<usize, Value>::empty()),
    {
        self.frames.push(Frame::new());
        assert(self@ =~= old(self)@.push(Map::<usize, Value>::empty()));
    }

    /// Leaves a scope: drops the innermost frame.
    pub fn pop(&mut self)
        requires
            old(self)@.len() >= 1,
        ensures
            final(self)@ == old(self)@.drop_last(),
    {
        self.frames.pop();
        assert(self@ =~= old(self)@.drop_last());
    }

    /// Gives `idx` a new value in the innermost frame that binds it, and
    /// says whether there was one. Without one, nothing changes.
    pub fn update(&mut self, idx: VariableIdx, value: Value) -> (r: bool)
        ensures
            match assign_in(old(self)@, idx.index, value) {
                Some(frames) => r && final(self)@ == frames,
                None => !r && final(self)@ == old(self)@,
            },
    {
        let mut i: usize = self.frames.len();
        assert(self@.take(i as int) =~= self@);
        while i > 0
            invariant
                i <= self.frames.len(),
                *self == *old(self),
                forall|j: int| i <= j < self.frames.len() ==> !self@[j].contains_key(idx.index),
                assign_in(old(self)@, idx.index, value) == (match assign_in(
                    self@.take(i as int),
                    idx.index,
                    value,
                ) {
                    Some(inner) => Some(inner + self@.skip(i as int)),
                    None => None,
                }),
            decreases i,
        {
            i = i - 1;
            let ghost prefix = self@.take(i + 1);
            assert(prefix.last() == self@[i as int]);
            assert(prefix.drop_last() =~= self@.take(i as int));
            if self.frames[i].get(&idx).is_some() {
                self.frames[i].insert(idx, value);
                assert(self@ =~= prefix.drop_last().push(prefix.last().insert(idx.index, value))
                    + old(self)@.skip(i + 1));
                return true;
            }
            proof {
                match assign_in(self@.take(i as int), idx.index, value) {
                    Some(inner) => {
                        assert(inner.push(prefix.last()) + self@.skip(i + 1) =~= inner
                            + self@.skip(i as int));
                    },
                    None => {},
                }
            }
        }
        false
    }

    /// Binds `idx` to `value` in the innermost frame.
    pub fn insert(&mut self, idx: VariableIdx, value: Value)
        requires
            old(self)@.len() >= 1,
        ensures
            final(self)@ == old(self)@.drop_last().push(
                old(self)@.last().insert(idx.index, value),
            ),
    {
        let last: usize = self.frames.len() - 1;
        self.frames[last].insert(idx, value);
        assert(self@ =~= old(self)@.drop_last().push(old(self)@.last().insert(idx.index, value)));
    }

    /// What `idx` is bound to in the innermost frame that binds it.
    pub fn get(&self, idx: &VariableIdx) -> (r: Option<Value>)
        ensures
            r == lookup_in(self@, idx.index),
    {
        let mut i: usize = self.frames.len();
        assert(self@.take(i as int) =~= self@);
        while i > 0
            invariant
                i <= self.frames.len(),
                lookup_in(self@, idx.index) == lookup_in(self@.take(i as int), idx.index),
            decreases i,
        {
            i = i - 1;
            let ghost prefix = self@.take(i + 1);
            assert(prefix.last() == self@[i as int]);
            assert(prefix.drop_last() =~= self@.take(i as int));
            match self.frames[i].get(idx) {
                Some(value) => {
                    return Some(value);
                },
                None => {},
            }
        }
        None
    }
}

/// What became of the arguments of a call, where evaluating them did not
/// fail.
#[derive(Debug)]
pub enum ArgumentValues {
    /// All were evaluated; here are their values, in order.
    Values(Vec<Value>),
    /// A `return`, `break` or `continue` inside one of them is unwinding.
    Unwinding(Flow),
}

/// What the evaluation of the arguments of a call gave, as a mathematical
/// value.
pub open spec fn arguments_model(r: Result<ArgumentValues, EvalError>) -> Arguments {
    match r {
        Ok(ArgumentValues::Values(values)) => Arguments::Values(values@),
        Ok(ArgumentValues::Unwinding(flow)) => Arguments::Unwinding(flow),
        Err(error) => Arguments::Failed(error),
    }
}

/// The evaluator.
pub struct ASTEval<'a> {
    /// The register: the value computed last, if any.
    pub last_value: Option<Value>,
    pub frames: Frames,
    pub global_scope: &'a GlobalScope,
    /// The nesting budget for each node that a walk hands to the evaluator.
    pub fuel: u64,
    /// How the node that a walk handed over last was left. The evaluator
    /// takes a node from a walk only while this is normal: a failure, and a
    /// `return` at the top of a program, end the run.
    pub outcome: Result<Flow, EvalError>,
}

/// The state of an evaluator that is taken through a tree, as a
/// mathematical value.
pub struct RunState {
    pub eval: EvalState,
    pub outcome: Result<Flow, EvalError>,
    pub fuel: nat,
    pub scope: GlobalScope,
}

impl<'a> View for ASTEval<'a> {
    type V = EvalState;

    open spec fn view(&self) -> EvalState {
        EvalState { last_value: self.last_value, frames: self.frames@ }
    }
}

impl<'a> ASTEval<'a> {
    /// There is a frame: the outermost, at least.
    pub open spec fn wf(&self) -> bool {
        self@.frames.len() >= 1
    }

    /// Whether `after` has the table of functions, the budget and the
    /// outcome that this evaluator has.
    pub open spec fn same_run(&self, after: &Self) -> bool {
        &&& after.global_scope == self.global_scope
        &&& after.fuel == self.fuel
        &&& after.outcome == self.outcome
    }

    /// An evaluator with nothing computed yet, an empty outermost frame,
    /// and the largest budget there is. Who runs programs that may not end
    /// gives it a smaller one.
    pub fn new(global_scope: &'a GlobalScope) -> (r: Self)
        ensures
            r@ == (EvalState { last_value: None, frames: seq![Map::<usize, Value>::empty()] }),
            r.global_scope == global_scope,
            r.fuel == u64::MAX,
            r.outcome == Ok::<Flow, EvalError>(Flow::Normal),
            r.wf(),
    {
        Self {
            last_value: None,
            frames: Frames::new(),
            global_scope,
            fuel: u64::MAX,
            outcome: Ok(Flow::Normal),
        }
    }

    /// Evaluates the expression that a walk hands over, unless the run has
    /// ended.
    fn take_expression(&mut self, ast: &Ast, id: ExprId)
        requires
            old(self).wf(),
        ensures
            final(self).wf(),
            final(self).state() == Self::arrive(old(self).state(), ast, NodeId::Expression(id)),
    {
        match self.outcome {
            Ok(Flow::Normal) => {
                let fuel = self.fuel;
                self.outcome = match self.eval_expression(ast, id, fuel) {
                    Ok(Flow::Break) => Err(EvalError::OutsideLoop),
                    Ok(Flow::Continue) => Err(EvalError::OutsideLoop),
                    other => other,
                };
            },
            _ => {},
        }
    }

    /// Evaluates the statement that a walk hands over, unless the run has
    /// ended.
    fn take_statement(&mut self, ast: &Ast, id: StmtId)
        requires
            old(self).wf(),
        ensures
            final(self).wf(),
            final(self).state() == Self::arrive(old(self).state(), ast, NodeId::Statement(id)),
    {
        match self.outcome {
            Ok(Flow::Normal) => {
                let fuel = self.fuel;
                self.outcome = match self.eval_statement(ast, id, fuel) {
                    Ok(Flow::Break) => Err(EvalError::OutsideLoop),
                    Ok(Flow::Continue) => Err(EvalError::OutsideLoop),
                    other => other,
                };
            },
            _ => {},
        }
    }

    fn push_frame(&mut self)
        ensures
            final(self)@ == old(self)@.push_frame(Map::empty()),
            old(self).same_run(final(self)),
    {
        self.frames.push();
    }

    fn pop_frame(&mut self)
        requires
            old(self)@.frames.len() >= 1,
        ensures
            final(self)@ == old(self)@.pop_frame(),
            old(self).same_run(final(self)),
    {
        self.frames.pop();
    }

    /// What the register holds; an error if nothing has been computed.
    pub fn expect_last_value(&self) -> (r: Result<Value, EvalError>)
        ensures
            r == (match self@.last_value {
                Some(value) => Ok::<Value, EvalError>(value),
                None => Err(EvalError::MissingValue),
            }),
    {
        match self.last_value {
            Some(value) => Ok(value),
            None => Err(EvalError::MissingValue),
        }
    }

    /// Evaluates a list of statements in a frame of its own.
    pub fn eval_body(&mut self, ast: &Ast, body: &Body, fuel: u64) -> (r: Result<
        Flow,
        EvalError,
    >)
        requires
            old(self).wf(),
        ensures
            (final(self)@, r) == eval_body(
                ast,
                old(self).global_scope,
                old(self)@,
                body@,
                fuel as nat,
            ),
            old(self).same_run(final(self)),
            final(self)@.frames.len() == old(self)@.frames.len(),
        decreases fuel, 1nat, body.len() + 1,
    {
        self.push_frame();
        let r = self.eval_statements(ast, body, fuel);
        self.pop_frame();
        r
    }

    /// Evaluates the statements of a list in order, in the frames as they
    /// are, up to the first that does not end normally.
    pub fn eval_statements(&mut self, ast: &Ast, statements: &Vec<StmtId>, fuel: u64) -> (r:
        Result<Flow, EvalError>)
        requires
            old(self).wf(),
        ensures
            (final(self)@, r) == eval_statements(
                ast,
                old(self).global_scope,
                old(self)@,
                statements@,
                0,
                fuel as nat,
            ),
            old(self).same_run(final(self)),
            final(self)@.frames.len() == old(self)@.frames.len(),
        decreases fuel, 1nat, statements.len(),
    {
        let mut i: usize = 0;
        while i < statements.len()
            invariant
                i <= statements.len(),
                old(self).same_run(self),
                self@.frames.len() == old(self)@.frames.len() >= 1,
                eval_statements(
                    ast,
                    old(self).global_scope,
                    old(self)@,
                    statements@,
                    0,
                    fuel as nat,
                ) == eval_statements(
                    ast,
                    self.global_scope,
                    self@,
                    statements@,
                    i as int,
                    fuel as nat,
                ),
            decreases statements.len() - i,
        {
            let r = self.eval_statement(ast, statements[i], fuel);
            match r {
                Ok(Flow::Normal) => {},
                _ => {
                    return r;
                },
            }
            i = i + 1;
        }
        Ok(Flow::Normal)
    }

    /// Evaluates a statement: dispatches on its kind.
    pub fn eval_statement(&mut self, ast: &Ast, statement: StmtId, fuel: u64) -> (r: Result<
        Flow,
        EvalError,
    >)
        requires
            old(self).wf(),
        ensures
            (final(self)@, r) == eval_statement(
                ast,
                old(self).global_scope,
                old(self)@,
                statement,
                fuel as nat,
            ),
            old(self).same_run(final(self)),
            final(self)@.frames.len() == old(self)@.frames.len(),
        decreases fuel, 0nat, 0nat,
    {
        if fuel == 0 {
            return Err(EvalError::DepthExceeded);
        }
        if statement.index >= ast.statements.len() {
            return Err(EvalError::InvalidIndex);
        }
        match &ast.query_statement(statement).kind {
            StmtKind::Expr(expr) => self.eval_expression(ast, *expr, fuel - 1),
            StmtKind::Let(stmt) => self.eval_let_statement(ast, stmt, fuel - 1),
            StmtKind::While(stmt) => self.eval_while_statement(ast, stmt, fuel - 1),
            StmtKind::Return(stmt) => self.eval_return_statement(ast, stmt, fuel - 1),
            StmtKind::Break(stmt) => self.eval_break_statement(ast, stmt),
            StmtKind::Continue(stmt) => self.eval_continue_statement(ast, stmt),
        }
    }

    pub fn eval_let_statement(&mut self, ast: &Ast, let_statement: &LetStmt, fuel: u64) -> (r:
        Result<Flow, EvalError>)
        requires
            old(self).wf(),
        ensures
            (final(self)@, r) == eval_let(
                ast,
                old(self).global_scope,
                old(self)@,
                *let_statement,
                fuel as nat,
            ),
            old(self).same_run(final(self)),
            final(self)@.frames.len() == old(self)@.frames.len(),
        decreases fuel, 2nat, 0nat,
    {
        let r = self.eval_expression(ast, let_statement.initializer, fuel);
        match r {
            Ok(Flow::Normal) => {},
            _ => {
                return r;
            },
        }
        match self.expect_last_value() {
            Err(error) => Err(error),
            Ok(value) => {
                self.frames.insert(let_statement.variable_idx, value);
                Ok(Flow::Normal)
            },
        }
    }

    pub fn eval_while_statement(
        &mut self,
        ast: &Ast,
        while_statement: &WhileStmt,
        fuel: u64,
    ) -> (r: Result<Flow, EvalError>)
        requires
            old(self).wf(),
        ensures
            (final(self)@, r) == eval_while(
                ast,
                old(self).global_scope,
                old(self)@,
                *while_statement,
                fuel as nat,
            ),
            old(self).same_run(final(self)),
            final(self)@.frames.len() == old(self)@.frames.len(),
        decreases fuel, 2nat, 0nat,
    {
        self.push_frame();
        let ghost entered = self@;
        let mut left: u64 = fuel;
        let mut result: Result<Flow, EvalError> = Ok(Flow::Normal);
        let mut running: bool = true;
        // One round for each unit of the budget, at most. `left` is what
        // the rounds still to come may use.
        while running
            invariant
                left <= fuel,
                old(self).same_run(self),
                self@.frames.len() == entered.frames.len() >= 1,
                running ==> eval_loop(
                    ast,
                    old(self).global_scope,
                    entered,
                    while_statement.condition,
                    while_statement.body@,
                    fuel as nat,
                ) == eval_loop(
                    ast,
                    self.global_scope,
                    self@,
                    while_statement.condition,
                    while_statement.body@,
                    left as nat,
                ),
                !running ==> eval_loop(
                    ast,
                    old(self).global_scope,
                    entered,
                    while_statement.condition,
                    while_statement.body@,
                    fuel as nat,
                ) == (self@, result),
            decreases left, (if running { 1nat } else { 0nat }),
        {
            if left == 0 {
                result = Err(EvalError::DepthExceeded);
                running = false;
            } else {
                let r = self.eval_expression(ast, while_statement.condition, left - 1);
                match r {
                    Ok(Flow::Normal) => match self.last_value {
                        None => {
                            result = Err(EvalError::MissingValue);
                            running = false;
                        },
                        Some(Value::Boolean(true)) => {
                            let r = self.eval_body(ast, &while_statement.body, left - 1);
                            match r {
                                Ok(Flow::Normal) => {
                                    left = left - 1;
                                },
                                Ok(Flow::Continue) => {
                                    left = left - 1;
                                },
                                Ok(Flow::Break) => {
                                    result = Ok(Flow::Normal);
                                    running = false;
                                },
                                _ => {
                                    result = r;
                                    running = false;
                                },
                            }
                        },
                        Some(Value::Boolean(false)) => {
                            result = Ok(Flow::Normal);
                            running = false;
                        },
                        Some(_) => {
                            result = Err(EvalError::TypeMismatch);
                            running = false;
                        },
                    },
                    _ => {
                        result = r;
                        running = false;
                    },
                }
            }
        }
        self.pop_frame();
        result
    }

    pub fn eval_return_statement(
        &mut self,
        ast: &Ast,
        return_statement: &ReturnStmt,
        fuel: u64,
    ) -> (r: Result<Flow, EvalError>)
        requires
            old(self).wf(),
        ensures
            (final(self)@, r) == eval_return(
                ast,
                old(self).global_scope,
                old(self)@,
                *return_statement,
                fuel as nat,
            ),
            old(self).same_run(final(self)),
            final(self)@.frames.len() == old(self)@.frames.len(),
        decreases fuel, 2nat, 0nat,
    {
        match &return_statement.return_value {
            None => Ok(Flow::Return),
            Some(expr) => match self.eval_expression(ast, *expr, fuel) {
                Ok(Flow::Normal) => Ok(Flow::Return),
                other => other,
            },
        }
    }

    /// A `break` starts unwinding to the loop around it.
    pub fn eval_break_statement(&mut self, ast: &Ast, break_statement: &BreakStmt) -> (r: Result<
        Flow,
        EvalError,
    >)
        ensures
            *final(self) == *old(self),
            r == Ok::<Flow, EvalError>(Flow::Break),
    {
        Ok(Flow::Break)
    }

    /// A `continue` starts unwinding to the loop around it.
    pub fn eval_continue_statement(
        &mut self,
        ast: &Ast,
        continue_statement: &ContinueStmt,
    ) -> (r: Result<Flow, EvalError>)
        ensures
            *final(self) == *old(self),
            r == Ok::<Flow, EvalError>(Flow::Continue),
    {
        Ok(Flow::Continue)
    }

    /// Evaluates an expression: dispatches on its kind.
    pub fn eval_expression(&mut self, ast: &Ast, expression: ExprId, fuel: u64) -> (r: Result<
        Flow,
        EvalError,
    >)
        requires
            old(self).wf(),
        ensures
            (final(self)@, r) == eval_expression(
                ast,
                old(self).global_scope,
                old(self)@,
                expression,
                fuel as nat,
            ),
            old(self).same_run(final(self)),
            final(self)@.frames.len() == old(self)@.frames.len(),
        decreases fuel, 0nat, 0nat,
    {
        if fuel == 0 {
            return Err(EvalError::DepthExceeded);
        }
        if expression.index >= ast.expressions.len() {
            return Err(EvalError::InvalidIndex);
        }
        match &ast.query_expression(expression).kind {
            ExprKind::Number(expr) => self.eval_number_expression(ast, expr),
            ExprKind::Boolean(expr) => self.eval_boolean_expression(ast, expr),
            ExprKind::Parenthesized(expr) => self.eval_parenthesized_expression(
                ast,
                expr,
                fuel - 1,
            ),
            ExprKind::Unary(expr) => self.eval_unary_expression(ast, expr, fuel - 1),
            ExprKind::Binary(expr) => self.eval_binary_expression(ast, expr, fuel - 1),
            ExprKind::Variable(expr) => self.eval_variable_expression(ast, expr),
            ExprKind::Assignment(expr) => self.eval_assignment_expression(ast, expr, fuel - 1),
            ExprKind::Call(expr) => self.eval_call_expression(ast, expr, fuel - 1),
            ExprKind::Block(expr) => self.eval_block_expr(ast, expr, fuel - 1),
            ExprKind::If(expr) => self.eval_if_expression(ast, expr, fuel - 1),
            ExprKind::Error(span) => self.eval_error(ast, span),
        }
    }

    pub fn eval_number_expression(&mut self, ast: &Ast, number: &NumberExpr) -> (r: Result<
        Flow,
        EvalError,
    >)
        ensures
            (final(self)@, r) == eval_number(old(self)@, *number),
            old(self).same_run(final(self)),
    {
        self.last_value = Some(Value::Number(number.number));
        Ok(Flow::Normal)
    }

    pub fn eval_boolean_expression(&mut self, ast: &Ast, boolean: &BoolExpr) -> (r: Result<
        Flow,
        EvalError,
    >)
        ensures
            (final(self)@, r) == eval_boolean(old(self)@, *boolean),
            old(self).same_run(final(self)),
    {
        self.last_value = Some(Value::Boolean(boolean.value));
        Ok(Flow::Normal)
    }

    pub fn eval_variable_expression(&mut self, ast: &Ast, variable: &VarExpr) -> (r: Result<
        Flow,
        EvalError,
    >)
        ensures
            (final(self)@, r) == eval_variable(old(self)@, *variable),
            old(self).same_run(final(self)),
    {
        match self.frames.get(&variable.variable_idx) {
            Some(value) => {
                self.last_value = Some(value);
                Ok(Flow::Normal)
            },
            None => Err(EvalError::UnboundVariable(variable.variable_idx)),
        }
    }

    /// Evaluation must not reach the placeholder for malformed input.
    pub fn eval_error(&mut self, ast: &Ast, span: &TextSpan) -> (r: Result<Flow, EvalError>)
        ensures
            *final(self) == *old(self),
            r == Err::<Flow, EvalError>(EvalError::ErrorNode),
    {
        Err(EvalError::ErrorNode)
    }

    /// Parentheses change nothing: the inner expression is evaluated.
    pub fn eval_parenthesized_expression(
        &mut self,
        ast: &Ast,
        parenthesized: &ParenthesizedExpr,
        fuel: u64,
    ) -> (r: Result<Flow, EvalError>)
        requires
            old(self).wf(),
        ensures
            (final(self)@, r) == eval_expression(
                ast,
                old(self).global_scope,
                old(self)@,
                parenthesized.inner,
                fuel as nat,
            ),
            old(self).same_run(final(self)),
            final(self)@.frames.len() == old(self)@.frames.len(),
        decreases fuel, 2nat, 0nat,
    {
        self.eval_expression(ast, parenthesized.inner, fuel)
    }

    pub fn eval_unary_expression(&mut self, ast: &Ast, unary: &UnaryExpr, fuel: u64) -> (r:
        Result<Flow, EvalError>)
        requires
            old(self).wf(),
        ensures
            (final(self)@, r) == eval_unary(
                ast,
                old(self).global_scope,
                old(self)@,
                *unary,
                fuel as nat,
            ),
            old(self).same_run(final(self)),
            final(self)@.frames.len() == old(self)@.frames.len(),
        decreases fuel, 2nat, 0nat,
    {
        let r = self.eval_expression(ast, unary.operand, fuel);
        match r {
            Ok(Flow::Normal) => {},
            _ => {
                return r;
            },
        }
        let operand = match self.expect_last_value() {
            Ok(value) => value,
            Err(error) => {
                return Err(error);
            },
        };
        match apply_unary(unary.operator.kind, operand) {
            Ok(value) => {
                self.last_value = Some(value);
                Ok(Flow::Normal)
            },
            Err(error) => Err(error),
        }
    }

    pub fn eval_binary_expression(&mut self, ast: &Ast, binary: &BinaryExpr, fuel: u64) -> (r:
        Result<Flow, EvalError>)
        requires
            old(self).wf(),
        ensures
            (final(self)@, r) == eval_binary(
                ast,
                old(self).global_scope,
                old(self)@,
                *binary,
                fuel as nat,
            ),
            old(self).same_run(final(self)),
            final(self)@.frames.len() == old(self)@.frames.len(),
        decreases fuel, 2nat, 0nat,
    {
        let r = self.eval_expression(ast, binary.left, fuel);
        match r {
            Ok(Flow::Normal) => {},
            _ => {
                return r;
            },
        }
        let left = match self.expect_last_value() {
            Ok(value) => value,
            Err(error) => {
                return Err(error);
            },
        };
        let r = self.eval_expression(ast, binary.right, fuel);
        match r {
            Ok(Flow::Normal) => {},
            _ => {
                return r;
            },
        }
        let right = match self.expect_last_value() {
            Ok(value) => value,
            Err(error) => {
                return Err(error);
            },
        };
        match apply_binary(binary.operator.kind, left, right) {
            Ok(value) => {
                self.last_value = Some(value);
                Ok(Flow::Normal)
            },
            Err(error) => Err(error),
        }
    }

    pub fn eval_assignment_expression(
        &mut self,
        ast: &Ast,
        assignment: &AssignExpr,
        fuel: u64,
    ) -> (r: Result<Flow, EvalError>)
        requires
            old(self).wf(),
        ensures
            (final(self)@, r) == eval_assignment(
                ast,
                old(self).global_scope,
                old(self)@,
                *assignment,
                fuel as nat,
            ),
            old(self).same_run(final(self)),
            final(self)@.frames.len() == old(self)@.frames.len(),
        decreases fuel, 2nat, 0nat,
    {
        let r = self.eval_expression(ast, assignment.expression, fuel);
        match r {
            Ok(Flow::Normal) => {},
            _ => {
                return r;
            },
        }
        let value = match self.expect_last_value() {
            Ok(value) => value,
            Err(error) => {
                return Err(error);
            },
        };
        proof {
            lemma_assign_keeps_scopes(self@.frames, assignment.variable_idx.index, value);
        }
        if self.frames.update(assignment.variable_idx, value) {
            Ok(Flow::Normal)
        } else {
            Err(EvalError::UnboundVariable(assignment.variable_idx))
        }
    }

    pub fn eval_block_expr(&mut self, ast: &Ast, block: &BlockExpr, fuel: u64) -> (r: Result<
        Flow,
        EvalError,
    >)
        requires
            old(self).wf(),
        ensures
            (final(self)@, r) == eval_body(
                ast,
                old(self).global_scope,
                old(self)@,
                block.stmts@,
                fuel as nat,
            ),
            old(self).same_run(final(self)),
            final(self)@.frames.len() == old(self)@.frames.len(),
        decreases fuel, 2nat, 0nat,
    {
        self.eval_body(ast, &block.stmts, fuel)
    }

    pub fn eval_if_expression(&mut self, ast: &Ast, if_expression: &IfExpr, fuel: u64) -> (r:
        Result<Flow, EvalError>)
        requires
            old(self).wf(),
        ensures
            (final(self)@, r) == eval_if(
                ast,
                old(self).global_scope,
                old(self)@,
                *if_expression,
                fuel as nat,
            ),
            old(self).same_run(final(self)),
            final(self)@.frames.len() == old(self)@.frames.len(),
        decreases fuel, 2nat, 0nat,
    {
        let before = self.last_value;
        self.push_frame();
        let r = self.eval_expression(ast, if_expression.condition, fuel);
        let r = match r {
            Ok(Flow::Normal) => match self.last_value {
                None => Err(EvalError::MissingValue),
                Some(Value::Boolean(true)) => self.eval_body(
                    ast,
                    &if_expression.then_branch,
                    fuel,
                ),
                Some(Value::Boolean(false)) => match &if_expression.else_branch {
                    Some(branch) => self.eval_body(ast, &branch.body, fuel),
                    None => {
                        self.last_value = before;
                        Ok(Flow::Normal)
                    },
                },
                Some(_) => Err(EvalError::TypeMismatch),
            },
            _ => r,
        };
        self.pop_frame();
        r
    }

    /// Evaluates the arguments of a call in order and collects their
    /// values, up to the first that does not end normally.
    pub fn eval_arguments(&mut self, ast: &Ast, arguments: &Vec<ExprId>, fuel: u64) -> (r:
        Result<ArgumentValues, EvalError>)
        requires
            old(self).wf(),
        ensures
            (final(self)@, arguments_model(r)) == eval_arguments(
                ast,
                old(self).global_scope,
                old(self)@,
                arguments@,
                0,
                Seq::empty(),
                fuel as nat,
            ),
            r matches Ok(ArgumentValues::Values(values)) ==> values.len() == arguments.len(),
            old(self).same_run(final(self)),
            final(self)@.frames.len() == old(self)@.frames.len(),
        decreases fuel, 1nat, arguments.len(),
    {
        let mut values: Vec<Value> = Vec::new();
        let mut i: usize = 0;
        while i < arguments.len()
            invariant
                i <= arguments.len(),
                i == values.len(),
                old(self).same_run(self),
                self@.frames.len() == old(self)@.frames.len() >= 1,
                eval_arguments(
                    ast,
                    old(self).global_scope,
                    old(self)@,
                    arguments@,
                    0,
                    Seq::empty(),
                    fuel as nat,
                ) == eval_arguments(
                    ast,
                    self.global_scope,
                    self@,
                    arguments@,
                    i as int,
                    values@,
                    fuel as nat,
                ),
            decreases arguments.len() - i,
        {
            match self.eval_expression(ast, arguments[i], fuel) {
                Err(error) => {
                    return Err(error);
                },
                Ok(Flow::Normal) => match self.last_value {
                    None => {
                        return Err(EvalError::MissingValue);
                    },
                    Some(value) => {
                        values.push(value);
                    },
                },
                Ok(flow) => {
                    return Ok(ArgumentValues::Unwinding(flow));
                },
            }
            i = i + 1;
        }
        Ok(ArgumentValues::Values(values))
    }

    /// Calls a function: evaluates the arguments, sets the frames aside,
    /// runs the body with one frame that binds the parameters, and puts the
    /// frames back.
    pub fn eval_call_expression(&mut self, ast: &Ast, call: &CallExpr, fuel: u64) -> (r: Result<
        Flow,
        EvalError,
    >)
        requires
            old(self).wf(),
        ensures
            (final(self)@, r) == eval_call(
                ast,
                old(self).global_scope,
                old(self)@,
                *call,
                fuel as nat,
            ),
            old(self).same_run(final(self)),
            final(self)@.frames.len() == old(self)@.frames.len(),
        decreases fuel, 2nat, 0nat,
    {
        let scope: &'a GlobalScope = self.global_scope;
        let callee = match scope.lookup_function(call.function_name()) {
            Some(callee) => callee,
            None => {
                return Err(EvalError::FunctionNotFound);
            },
        };
        let function = scope.get(callee);
        if call.arguments.len() != function.parameters.len() {
            return Err(EvalError::ArityMismatch);
        }
        let values = match self.eval_arguments(ast, &call.arguments, fuel) {
            Err(error) => {
                return Err(error);
            },
            Ok(ArgumentValues::Unwinding(flow)) => {
                return Ok(flow);
            },
            Ok(ArgumentValues::Values(values)) => values,
        };
        let mut frames = Frames::new();
        let mut j: usize = 0;
        while j < function.parameters.len()
            invariant
                j <= function.parameters.len() == values.len(),
                frames@ == seq![bound_parameters(function.parameters@, values@, j as nat)],
            decreases function.parameters.len() - j,
        {
            frames.insert(function.parameters[j], values[j]);
            assert(frames@ =~= seq![
                bound_parameters(function.parameters@, values@, (j + 1) as nat),
            ]);
            j = j + 1;
        }
        swap(&mut self.frames, &mut frames);
        let r = self.eval_statements(ast, &function.body, fuel);
        swap(&mut self.frames, &mut frames);
        match r {
            Ok(Flow::Normal) => Ok(Flow::Normal),
            Ok(Flow::Return) => Ok(Flow::Normal),
            Ok(_) => Err(EvalError::OutsideLoop),
            Err(error) => Err(error),
        }
    }
}

/// The evaluator as a visitor. It deals with every node that a walk hands
/// it as a whole: it evaluates the node, with the budget `fuel`, and has the
/// walk leave the inside of the node out. So a walk through a program
/// evaluates its statements one after the other. The run ends with the
/// first statement that fails, or that is a `return`; from there on the
/// evaluator lets all nodes pass. A function declaration is not executed:
/// the table of functions has it already.
impl<'a> ASTVisitor for ASTEval<'a> {
    type State = RunState;

    open spec fn inv(&self) -> bool {
        self.wf()
    }

    open spec fn state(&self) -> RunState {
        RunState {
            eval: self@,
            outcome: self.outcome,
            fuel: self.fuel as nat,
            scope: *self.global_scope,
        }
    }

    open spec fn arrive(state: RunState, ast: &Ast, node: NodeId) -> RunState {
        if state.outcome != Ok::<Flow, EvalError>(Flow::Normal) {
            state
        } else {
            match node {
                NodeId::Item(_) => state,
                NodeId::Statement(id) => {
                    let (eval, result) = eval_statement(
                        ast,
                        &state.scope,
                        state.eval,
                        id,
                        state.fuel,
                    );
                    RunState { eval, outcome: top_result(result), ..state }
                },
                NodeId::Expression(id) => {
                    let (eval, result) = eval_expression(
                        ast,
                        &state.scope,
                        state.eval,
                        id,
                        state.fuel,
                    );
                    RunState { eval, outcome: top_result(result), ..state }
                },
            }
        }
    }

    open spec fn descends(state: RunState, ast: &Ast, node: NodeId) -> bool {
        false
    }

    fn visit_func_decl(
        &mut self,
        ast: &Ast,
        func_decl: &FuncDeclaration,
        item_id: ItemId,
    ) -> (walk: Walk) {
        Walk::Skip
    }

    fn visit_let_statement(
        &mut self,
        ast: &Ast,
        let_statement: &LetStmt,
        stmt: &Stmt,
    ) -> (walk: Walk) {
        self.take_statement(ast, stmt.id);
        Walk::Skip
    }

    fn visit_while_statement(
        &mut self,
        ast: &Ast,
        while_statement: &WhileStmt,
        stmt: &Stmt,
    ) -> (walk: Walk) {
        self.take_statement(ast, stmt.id);
        Walk::Skip
    }

    fn visit_return_statement(
        &mut self,
        ast: &Ast,
        return_statement: &ReturnStmt,
        stmt: &Stmt,
    ) -> (walk: Walk) {
        self.take_statement(ast, stmt.id);
        Walk::Skip
    }

    fn visit_break_statement(
        &mut self,
        ast: &Ast,
        break_statement: &BreakStmt,
        stmt: &Stmt,
    ) -> (walk: Walk) {
        self.take_statement(ast, stmt.id);
        Walk::Skip
    }

    fn visit_continue_statement(
        &mut self,
        ast: &Ast,
        continue_statement: &ContinueStmt,
        stmt: &Stmt,
    ) -> (walk: Walk) {
        self.take_statement(ast, stmt.id);
        Walk::Skip
    }

    fn visit_number_expression(
        &mut self,
        ast: &Ast,
        number: &NumberExpr,
        expr: &Expr,
    ) -> (walk: Walk) {
        self.take_expression(ast, expr.id);
        Walk::Skip
    }

    fn visit_boolean_expression(
        &mut self,
        ast: &Ast,
        boolean: &BoolExpr,
        expr: &Expr,
    ) -> (walk: Walk) {
        self.take_expression(ast, expr.id);
        Walk::Skip
    }

    fn visit_variable_expression(
        &mut self,
        ast: &Ast,
        variable: &VarExpr,
        expr: &Expr,
    ) -> (walk: Walk) {
        self.take_expression(ast, expr.id);
        Walk::Skip
    }

    fn visit_error(&mut self, ast: &Ast, span: &TextSpan, expr: &Expr) -> (walk: Walk) {
        self.take_expression(ast, expr.id);
        Walk::Skip
    }

    fn visit_parenthesized_expression(
        &mut self,
        ast: &Ast,
        parenthesized: &ParenthesizedExpr,
        expr: &Expr,
    ) -> (walk: Walk) {
        self.take_expression(ast, expr.id);
        Walk::Skip
    }

    fn visit_unary_expression(
        &mut self,
        ast: &Ast,
        unary: &UnaryExpr,
        expr: &Expr,
    ) -> (walk: Walk) {
        self.take_expression(ast, expr.id);
        Walk::Skip
    }

    fn visit_binary_expression(
        &mut self,
        ast: &Ast,
        binary: &BinaryExpr,
        expr: &Expr,
    ) -> (walk: Walk) {
        self.take_expression(ast, expr.id);
        Walk::Skip
    }

    fn visit_assignment_expression(
        &mut self,
        ast: &Ast,
        assignment: &AssignExpr,
        expr: &Expr,
    ) -> (walk: Walk) {
        self.take_expression(ast, expr.id);
        Walk::Skip
    }

    fn visit_call_expression(&mut self, ast: &Ast, call: &CallExpr, expr: &Expr) -> (walk: Walk) {
        self.take_expression(ast, expr.id);
        Walk::Skip
    }

    fn visit_block_expr(&mut self, ast: &Ast, block: &BlockExpr, expr: &Expr) -> (walk: Walk) {
        self.take_expression(ast, expr.id);
        Walk::Skip
    }

    fn visit_if_expression(
        &mut self,
        ast: &Ast,
        if_expression: &IfExpr,
        expr: &Expr,
    ) -> (walk: Walk) {
        self.take_expression(ast, expr.id);
        Walk::Skip
    }
}

} // verus!
