use nsharp::compilation_unit::{FunctionIdx, GlobalScope, VariableIdx};
use nsharp::definitions::eval::ASTEval;
use nsharp::definitions::lexer::{Token, TokenKind};
use nsharp::definitions::semantics::Flow;
use nsharp::definitions::value::{EvalError, Value};
use nsharp::definitions::visitor::visit_item;
use nsharp::definitions::{
    Ast, BinOpKind, BinOperator, ElseBranch, ExprId, ItemKind, StmtId, StmtKind, UnOpKind,
    UnOperator,
};
use nsharp::text::span::TextSpan;
use nsharp::typings::Type;

/// Takes the evaluator through the program, with the given budget for each
/// statement.
fn run(ast: &Ast, eval: &mut ASTEval, fuel: u64) -> Result<Flow, EvalError> {
    eval.fuel = fuel;
    ast.visit(eval);
    eval.outcome
}

fn tok(kind: TokenKind, text: &str) -> Token {
    Token::new(kind, TextSpan::new(0, text.len(), text.to_string()))
}

fn num(ast: &mut Ast, n: i64) -> ExprId {
    ast.number_expression(tok(TokenKind::Number(n), "n"), n)
}

fn boolean(ast: &mut Ast, b: bool) -> ExprId {
    ast.boolean_expression(tok(if b { TokenKind::True } else { TokenKind::False }, "b"), b)
}

fn var(ast: &mut Ast, name: &str, slot: usize) -> ExprId {
    let id = ast.variable_expression(tok(TokenKind::Identifier, name));
    ast.set_variable_index(id, VariableIdx::new(slot));
    id
}

fn bin(ast: &mut Ast, kind: BinOpKind, left: ExprId, right: ExprId) -> ExprId {
    ast.binary_expression(BinOperator::new(kind, tok(TokenKind::Plus, "op")), left, right)
}

fn assign(ast: &mut Ast, name: &str, slot: usize, value: ExprId) -> ExprId {
    let id = ast.assignment_expression(
        tok(TokenKind::Identifier, name),
        tok(TokenKind::Equals, "="),
        value,
    );
    ast.set_variable_index(id, VariableIdx::new(slot));
    id
}

fn let_stmt(ast: &mut Ast, name: &str, slot: usize, init: ExprId) -> StmtId {
    let id = ast.let_statement(tok(TokenKind::Identifier, name), init, None);
    if let StmtKind::Let(s) = &mut ast.query_statement_mut(id).kind {
        s.variable_idx = VariableIdx::new(slot);
    }
    id
}

fn expr_stmt(ast: &mut Ast, e: ExprId) -> StmtId {
    ast.expression_statement(e)
}

fn block(ast: &mut Ast, stmts: Vec<StmtId>) -> ExprId {
    ast.block_expression(tok(TokenKind::OpenBrace, "{"), stmts, tok(TokenKind::CloseBrace, "}"))
}

fn item(ast: &mut Ast, s: StmtId) {
    ast.item_from_kind(ItemKind::Stmt(s));
}

fn call(ast: &mut Ast, name: &str, args: Vec<ExprId>) -> ExprId {
    ast.call_expression(
        tok(TokenKind::Identifier, name),
        tok(TokenKind::OpenParenthesis, "("),
        args,
        tok(TokenKind::CloseParenthesis, ")"),
    )
}

const X: usize = 0;
const Y: usize = 1;

#[test]
fn let_and_arithmetic_yield_twenty_five() {
    // let x = 2; let y = x + 3; y * y
    let mut ast = Ast::new();
    let two = num(&mut ast, 2);
    let s0 = let_stmt(&mut ast, "x", X, two);
    let x = var(&mut ast, "x", X);
    let three = num(&mut ast, 3);
    let sum = bin(&mut ast, BinOpKind::Plus, x, three);
    let s1 = let_stmt(&mut ast, "y", Y, sum);
    let y1 = var(&mut ast, "y", Y);
    let y2 = var(&mut ast, "y", Y);
    let product = bin(&mut ast, BinOpKind::Multiply, y1, y2);
    let s2 = expr_stmt(&mut ast, product);
    item(&mut ast, s0);
    item(&mut ast, s1);
    item(&mut ast, s2);
    let scope = GlobalScope::new();
    let mut eval = ASTEval::new(&scope);
    assert_eq!(run(&ast, &mut eval, 100), Ok(Flow::Normal));
    assert_eq!(eval.last_value, Some(Value::Number(25)));
    assert_eq!(eval.frames.depth(), 1);
    assert_eq!(eval.frames.get(&VariableIdx::new(X)), Some(Value::Number(2)));
    assert_eq!(eval.frames.get(&VariableIdx::new(Y)), Some(Value::Number(5)));
}

#[test]
fn while_counts_up_to_three() {
    // let x = 0; while x < 3 { x = x + 1; }
    let mut ast = Ast::new();
    let zero = num(&mut ast, 0);
    let s0 = let_stmt(&mut ast, "x", X, zero);
    let x1 = var(&mut ast, "x", X);
    let three = num(&mut ast, 3);
    let cond = bin(&mut ast, BinOpKind::LessThan, x1, three);
    let x2 = var(&mut ast, "x", X);
    let one = num(&mut ast, 1);
    let sum = bin(&mut ast, BinOpKind::Plus, x2, one);
    let set = assign(&mut ast, "x", X, sum);
    let body = expr_stmt(&mut ast, set);
    let w = ast.while_statement(tok(TokenKind::While, "while"), cond, vec![body]);
    item(&mut ast, s0);
    item(&mut ast, w);
    let scope = GlobalScope::new();
    let mut eval = ASTEval::new(&scope);
    assert_eq!(run(&ast, &mut eval, 100), Ok(Flow::Normal));
    assert_eq!(eval.frames.get(&VariableIdx::new(X)), Some(Value::Number(3)));
    assert_eq!(eval.last_value, Some(Value::Boolean(false)));
    assert_eq!(eval.frames.depth(), 1);
}

#[test]
fn endless_loop_runs_out_of_budget() {
    // while true { }
    let mut ast = Ast::new();
    let cond = boolean(&mut ast, true);
    let w = ast.while_statement(tok(TokenKind::While, "while"), cond, vec![]);
    item(&mut ast, w);
    let scope = GlobalScope::new();
    let mut eval = ASTEval::new(&scope);
    assert_eq!(run(&ast, &mut eval, 50), Err(EvalError::DepthExceeded));
    assert_eq!(eval.frames.depth(), 1);
}

fn add_function(ast: &mut Ast, scope: &mut GlobalScope) {
    // func add(a, b) { a + b }
    let a = var(ast, "a", 10);
    let b = var(ast, "b", 11);
    let sum = bin(ast, BinOpKind::Plus, a, b);
    let body = expr_stmt(ast, sum);
    scope.declare_function(
        "add".to_string(),
        vec![VariableIdx::new(10), VariableIdx::new(11)],
        vec![body],
        Type::Int,
    );
}

#[test]
fn call_of_add_yields_five() {
    let mut ast = Ast::new();
    let mut scope = GlobalScope::new();
    add_function(&mut ast, &mut scope);
    let two = num(&mut ast, 2);
    let three = num(&mut ast, 3);
    let c = call(&mut ast, "add", vec![two, three]);
    let s = expr_stmt(&mut ast, c);
    item(&mut ast, s);
    let mut eval = ASTEval::new(&scope);
    assert_eq!(run(&ast, &mut eval, 100), Ok(Flow::Normal));
    assert_eq!(eval.last_value, Some(Value::Number(5)));
    assert_eq!(eval.frames.depth(), 1);
    assert_eq!(eval.frames.get(&VariableIdx::new(10)), None);
}

#[test]
fn call_of_undeclared_function_is_fatal() {
    let mut ast = Ast::new();
    let mut scope = GlobalScope::new();
    add_function(&mut ast, &mut scope);
    let two = num(&mut ast, 2);
    let c = call(&mut ast, "sub", vec![two]);
    let s = expr_stmt(&mut ast, c);
    item(&mut ast, s);
    let mut eval = ASTEval::new(&scope);
    assert_eq!(run(&ast, &mut eval, 100), Err(EvalError::FunctionNotFound));
}

#[test]
fn call_with_wrong_number_of_arguments_is_fatal() {
    let mut ast = Ast::new();
    let mut scope = GlobalScope::new();
    add_function(&mut ast, &mut scope);
    let two = num(&mut ast, 2);
    let c = call(&mut ast, "add", vec![two]);
    let s = expr_stmt(&mut ast, c);
    item(&mut ast, s);
    let mut eval = ASTEval::new(&scope);
    assert_eq!(run(&ast, &mut eval, 100), Err(EvalError::ArityMismatch));
}

fn conditional(ast: &mut Ast, cond: bool, with_else: bool) -> ExprId {
    let c = boolean(ast, cond);
    let one = num(ast, 1);
    let s1 = expr_stmt(ast, one);
    let two = num(ast, 2);
    let s2 = expr_stmt(ast, two);
    let else_branch =
        if with_else { Some(ElseBranch::new(tok(TokenKind::Else, "else"), vec![s2])) } else { None };
    ast.if_expression(tok(TokenKind::If, "if"), c, vec![s1], else_branch)
}

#[test]
fn conditional_takes_first_branch_on_true() {
    let mut ast = Ast::new();
    let e = conditional(&mut ast, true, true);
    let scope = GlobalScope::new();
    let mut eval = ASTEval::new(&scope);
    assert_eq!(eval.eval_expression(&ast, e, 100), Ok(Flow::Normal));
    assert_eq!(eval.last_value, Some(Value::Number(1)));
    assert_eq!(eval.frames.depth(), 1);
}

#[test]
fn conditional_takes_second_branch_on_false() {
    let mut ast = Ast::new();
    let e = conditional(&mut ast, false, true);
    let scope = GlobalScope::new();
    let mut eval = ASTEval::new(&scope);
    assert_eq!(eval.eval_expression(&ast, e, 100), Ok(Flow::Normal));
    assert_eq!(eval.last_value, Some(Value::Number(2)));
}

#[test]
fn conditional_without_else_leaves_register_on_false() {
    let mut ast = Ast::new();
    let seven = num(&mut ast, 7);
    let e = conditional(&mut ast, false, false);
    let scope = GlobalScope::new();
    let mut eval = ASTEval::new(&scope);
    assert_eq!(eval.eval_expression(&ast, e, 100), Ok(Flow::Normal));
    assert_eq!(eval.last_value, None);
    assert_eq!(eval.eval_expression(&ast, seven, 100), Ok(Flow::Normal));
    assert_eq!(eval.eval_expression(&ast, e, 100), Ok(Flow::Normal));
    assert_eq!(eval.last_value, Some(Value::Number(7)));
    assert_eq!(eval.frames.depth(), 1);
}

#[test]
fn inner_let_is_invisible_outside_its_block() {
    // { let x = 1; { let x = 2; } x }
    let mut ast = Ast::new();
    let one = num(&mut ast, 1);
    let outer_let = let_stmt(&mut ast, "x", X, one);
    let two = num(&mut ast, 2);
    let inner_let = let_stmt(&mut ast, "x", X, two);
    let inner = block(&mut ast, vec![inner_let]);
    let inner_stmt = expr_stmt(&mut ast, inner);
    let x = var(&mut ast, "x", X);
    let read = expr_stmt(&mut ast, x);
    let outer = block(&mut ast, vec![outer_let, inner_stmt, read]);
    let scope = GlobalScope::new();
    let mut eval = ASTEval::new(&scope);
    assert_eq!(eval.eval_expression(&ast, outer, 100), Ok(Flow::Normal));
    assert_eq!(eval.last_value, Some(Value::Number(1)));
    assert_eq!(eval.frames.depth(), 1);
    assert_eq!(eval.frames.get(&VariableIdx::new(X)), None);
}

#[test]
fn negation_of_a_number() {
    let mut ast = Ast::new();
    let five = num(&mut ast, 5);
    let neg = ast.unary_expression(
        UnOperator::new(UnOpKind::Minus, tok(TokenKind::Minus, "-")),
        five,
    );
    let scope = GlobalScope::new();
    let mut eval = ASTEval::new(&scope);
    assert_eq!(eval.eval_expression(&ast, neg, 10), Ok(Flow::Normal));
    assert_eq!(eval.last_value, Some(Value::Number(-5)));
}

#[test]
fn value_is_missing_where_nothing_was_computed() {
    // let x = { };
    let mut ast = Ast::new();
    let empty = block(&mut ast, vec![]);
    let s = let_stmt(&mut ast, "x", X, empty);
    let scope = GlobalScope::new();
    let mut eval = ASTEval::new(&scope);
    assert_eq!(eval.eval_statement(&ast, s, 10), Err(EvalError::MissingValue));
    assert_eq!(eval.frames.get(&VariableIdx::new(X)), None);
    assert_eq!(eval.frames.depth(), 1);
}

#[test]
fn budget_bounds_the_nesting() {
    // ((1)) needs three levels.
    let mut ast = Ast::new();
    let one = num(&mut ast, 1);
    let inner = ast.parenthesized_expression(
        tok(TokenKind::OpenParenthesis, "("),
        one,
        tok(TokenKind::CloseParenthesis, ")"),
    );
    let outer = ast.parenthesized_expression(
        tok(TokenKind::OpenParenthesis, "("),
        inner,
        tok(TokenKind::CloseParenthesis, ")"),
    );
    let scope = GlobalScope::new();
    let mut eval = ASTEval::new(&scope);
    assert_eq!(eval.eval_expression(&ast, outer, 2), Err(EvalError::DepthExceeded));
    assert_eq!(eval.eval_expression(&ast, outer, 3), Ok(Flow::Normal));
    assert_eq!(eval.last_value, Some(Value::Number(1)));
}

#[test]
fn unbound_variables_are_fatal() {
    let mut ast = Ast::new();
    let x = var(&mut ast, "x", 3);
    let one = num(&mut ast, 1);
    let set = assign(&mut ast, "y", 4, one);
    let scope = GlobalScope::new();
    let mut eval = ASTEval::new(&scope);
    assert_eq!(
        eval.eval_expression(&ast, x, 10),
        Err(EvalError::UnboundVariable(VariableIdx::new(3)))
    );
    assert_eq!(
        eval.eval_expression(&ast, set, 10),
        Err(EvalError::UnboundVariable(VariableIdx::new(4)))
    );
    // Nothing was bound by the failed assignment.
    assert_eq!(eval.frames.get(&VariableIdx::new(4)), None);
}

#[test]
fn error_nodes_and_bad_indices_are_fatal() {
    let mut ast = Ast::new();
    let err = ast.error_expression(TextSpan::new(0, 1, "?".to_string()));
    let scope = GlobalScope::new();
    let mut eval = ASTEval::new(&scope);
    assert_eq!(eval.eval_expression(&ast, err, 10), Err(EvalError::ErrorNode));
    assert_eq!(eval.eval_expression(&ast, ExprId::new(99), 10), Err(EvalError::InvalidIndex));
    assert_eq!(eval.eval_statement(&ast, StmtId::new(0), 10), Err(EvalError::InvalidIndex));
    assert_eq!(eval.eval_expression(&ast, err, 0), Err(EvalError::DepthExceeded));
}

#[test]
fn conditions_must_be_booleans() {
    let mut ast = Ast::new();
    let one = num(&mut ast, 1);
    let e = ast.if_expression(tok(TokenKind::If, "if"), one, vec![], None);
    let w = ast.while_statement(tok(TokenKind::While, "while"), one, vec![]);
    let scope = GlobalScope::new();
    let mut eval = ASTEval::new(&scope);
    assert_eq!(eval.eval_expression(&ast, e, 10), Err(EvalError::TypeMismatch));
    assert_eq!(eval.frames.depth(), 1);
    assert_eq!(eval.eval_statement(&ast, w, 10), Err(EvalError::TypeMismatch));
    assert_eq!(eval.frames.depth(), 1);
}

#[test]
fn frames_are_balanced_when_evaluation_fails_inside() {
    // { { 1 / 0 } }
    let mut ast = Ast::new();
    let one = num(&mut ast, 1);
    let zero = num(&mut ast, 0);
    let quotient = bin(&mut ast, BinOpKind::Divide, one, zero);
    let s = expr_stmt(&mut ast, quotient);
    let inner = block(&mut ast, vec![s]);
    let s = expr_stmt(&mut ast, inner);
    let outer = block(&mut ast, vec![s]);
    let scope = GlobalScope::new();
    let mut eval = ASTEval::new(&scope);
    assert_eq!(eval.eval_expression(&ast, outer, 100), Err(EvalError::DivisionByZero));
    assert_eq!(eval.frames.depth(), 1);
}

#[test]
fn pure_expression_gives_the_same_value_twice() {
    // (x + 2) * -x
    let mut ast = Ast::new();
    let three = num(&mut ast, 3);
    let s0 = let_stmt(&mut ast, "x", X, three);
    let x1 = var(&mut ast, "x", X);
    let two = num(&mut ast, 2);
    let sum = bin(&mut ast, BinOpKind::Plus, x1, two);
    let x2 = var(&mut ast, "x", X);
    let neg =
        ast.unary_expression(UnOperator::new(UnOpKind::Minus, tok(TokenKind::Minus, "-")), x2);
    let product = bin(&mut ast, BinOpKind::Multiply, sum, neg);
    let scope = GlobalScope::new();
    let mut eval = ASTEval::new(&scope);
    assert_eq!(eval.eval_statement(&ast, s0, 100), Ok(Flow::Normal));
    assert_eq!(eval.eval_expression(&ast, product, 100), Ok(Flow::Normal));
    assert_eq!(eval.last_value, Some(Value::Number(-15)));
    assert_eq!(eval.eval_expression(&ast, product, 100), Ok(Flow::Normal));
    assert_eq!(eval.last_value, Some(Value::Number(-15)));
    assert_eq!(eval.frames.get(&VariableIdx::new(X)), Some(Value::Number(3)));
}

#[test]
fn both_operands_are_evaluated_left_first() {
    // (x = 1) + (x = x + 1): the right operand sees what the left has assigned.
    let mut ast = Ast::new();
    let zero = num(&mut ast, 0);
    let s0 = let_stmt(&mut ast, "x", X, zero);
    let one = num(&mut ast, 1);
    let left = assign(&mut ast, "x", X, one);
    let x = var(&mut ast, "x", X);
    let one_more = num(&mut ast, 1);
    let sum = bin(&mut ast, BinOpKind::Plus, x, one_more);
    let right = assign(&mut ast, "x", X, sum);
    let both = bin(&mut ast, BinOpKind::Plus, left, right);
    let scope = GlobalScope::new();
    let mut eval = ASTEval::new(&scope);
    assert_eq!(eval.eval_statement(&ast, s0, 100), Ok(Flow::Normal));
    assert_eq!(eval.eval_expression(&ast, both, 100), Ok(Flow::Normal));
    assert_eq!(eval.last_value, Some(Value::Number(3)));
    assert_eq!(eval.frames.get(&VariableIdx::new(X)), Some(Value::Number(2)));
}

#[test]
fn return_at_the_top_ends_the_program() {
    let mut ast = Ast::new();
    let one = num(&mut ast, 1);
    let ret = ast.return_statement(tok(TokenKind::Return, "return"), Some(one));
    let two = num(&mut ast, 2);
    let s = expr_stmt(&mut ast, two);
    item(&mut ast, ret);
    item(&mut ast, s);
    let scope = GlobalScope::new();
    let mut eval = ASTEval::new(&scope);
    assert_eq!(run(&ast, &mut eval, 100), Ok(Flow::Return));
    assert_eq!(eval.last_value, Some(Value::Number(1)));
}

#[test]
fn function_declarations_are_not_executed() {
    let mut ast = Ast::new();
    let zero = num(&mut ast, 0);
    let one = num(&mut ast, 1);
    let quotient = bin(&mut ast, BinOpKind::Divide, one, zero);
    let body = expr_stmt(&mut ast, quotient);
    let id = ast.func_item(
        tok(TokenKind::Function, "func"),
        tok(TokenKind::Identifier, "f"),
        vec![],
        vec![body],
        None,
        FunctionIdx::new(0),
    );
    let scope = GlobalScope::new();
    let mut eval = ASTEval::new(&scope);
    visit_item(&mut eval, &ast, id);
    assert_eq!(eval.outcome, Ok(Flow::Normal));
    assert_eq!(eval.last_value, None);
}

#[test]
fn run_ends_with_the_first_failure() {
    // 1 / 0; 2
    let mut ast = Ast::new();
    let one = num(&mut ast, 1);
    let zero = num(&mut ast, 0);
    let quotient = bin(&mut ast, BinOpKind::Divide, one, zero);
    let first = expr_stmt(&mut ast, quotient);
    let two = num(&mut ast, 2);
    let second = expr_stmt(&mut ast, two);
    item(&mut ast, first);
    item(&mut ast, second);
    let scope = GlobalScope::new();
    let mut eval = ASTEval::new(&scope);
    assert_eq!(eval.fuel, u64::MAX);
    ast.visit(&mut eval);
    assert_eq!(eval.outcome, Err(EvalError::DivisionByZero));
    assert_eq!(eval.last_value, Some(Value::Number(0)));
    assert_eq!(eval.frames.depth(), 1);
}

#[test]
fn callee_cannot_read_the_callers_variables() {
    // func f() { v }    { let v = 7; { f() } }
    let mut ast = Ast::new();
    let mut scope = GlobalScope::new();
    let v = var(&mut ast, "v", X);
    let body = expr_stmt(&mut ast, v);
    scope.declare_function("f".to_string(), vec![], vec![body], Type::Int);
    let seven = num(&mut ast, 7);
    let bind = let_stmt(&mut ast, "v", X, seven);
    let c = call(&mut ast, "f", vec![]);
    let cs = expr_stmt(&mut ast, c);
    let inner = block(&mut ast, vec![cs]);
    let inner_stmt = expr_stmt(&mut ast, inner);
    let mut eval = ASTEval::new(&scope);
    assert_eq!(eval.eval_statement(&ast, bind, 100), Ok(Flow::Normal));
    assert_eq!(
        eval.eval_statement(&ast, inner_stmt, 100),
        Err(EvalError::UnboundVariable(VariableIdx::new(X)))
    );
    assert_eq!(eval.frames.depth(), 1);
    assert_eq!(eval.frames.get(&VariableIdx::new(X)), Some(Value::Number(7)));
}

#[test]
fn callee_cannot_assign_to_the_callers_variables() {
    // func g() { v = 1 }    let v = 7; g()
    let mut ast = Ast::new();
    let mut scope = GlobalScope::new();
    let one = num(&mut ast, 1);
    let write = assign(&mut ast, "v", X, one);
    let body = expr_stmt(&mut ast, write);
    scope.declare_function("g".to_string(), vec![], vec![body], Type::Int);
    let seven = num(&mut ast, 7);
    let bind = let_stmt(&mut ast, "v", X, seven);
    let c = call(&mut ast, "g", vec![]);
    let mut eval = ASTEval::new(&scope);
    assert_eq!(eval.eval_statement(&ast, bind, 100), Ok(Flow::Normal));
    assert_eq!(
        eval.eval_expression(&ast, c, 100),
        Err(EvalError::UnboundVariable(VariableIdx::new(X)))
    );
    assert_eq!(eval.frames.depth(), 1);
    assert_eq!(eval.frames.get(&VariableIdx::new(X)), Some(Value::Number(7)));
}

#[test]
fn callee_works_on_its_own_variables() {
    // func h(a) { let v = a + 1; a = v * 2; a }    let v = 7; let a = 0; h(v)
    let mut ast = Ast::new();
    let mut scope = GlobalScope::new();
    let a1 = var(&mut ast, "a", Y);
    let one = num(&mut ast, 1);
    let sum = bin(&mut ast, BinOpKind::Plus, a1, one);
    let s1 = let_stmt(&mut ast, "v", X, sum);
    let v1 = var(&mut ast, "v", X);
    let two = num(&mut ast, 2);
    let twice = bin(&mut ast, BinOpKind::Multiply, v1, two);
    let write = assign(&mut ast, "a", Y, twice);
    let s2 = expr_stmt(&mut ast, write);
    let a2 = var(&mut ast, "a", Y);
    let s3 = expr_stmt(&mut ast, a2);
    scope.declare_function("h".to_string(), vec![VariableIdx::new(Y)], vec![s1, s2, s3], Type::Int);
    let seven = num(&mut ast, 7);
    let bind_v = let_stmt(&mut ast, "v", X, seven);
    let zero = num(&mut ast, 0);
    let bind_a = let_stmt(&mut ast, "a", Y, zero);
    let v2 = var(&mut ast, "v", X);
    let c = call(&mut ast, "h", vec![v2]);
    let mut eval = ASTEval::new(&scope);
    assert_eq!(eval.eval_statement(&ast, bind_v, 100), Ok(Flow::Normal));
    assert_eq!(eval.eval_statement(&ast, bind_a, 100), Ok(Flow::Normal));
    assert_eq!(eval.eval_expression(&ast, c, 100), Ok(Flow::Normal));
    assert_eq!(eval.last_value, Some(Value::Number(16)));
    assert_eq!(eval.frames.depth(), 1);
    assert_eq!(eval.frames.get(&VariableIdx::new(X)), Some(Value::Number(7)));
    assert_eq!(eval.frames.get(&VariableIdx::new(Y)), Some(Value::Number(0)));
}

#[test]
fn block_conditional_and_call_give_the_same_value_twice() {
    // { let y = x + 1; if y > 3 { add(y, x) } else { 0 } }
    let mut ast = Ast::new();
    let mut scope = GlobalScope::new();
    add_function(&mut ast, &mut scope);
    let three = num(&mut ast, 3);
    let bind = let_stmt(&mut ast, "x", X, three);
    let x1 = var(&mut ast, "x", X);
    let one = num(&mut ast, 1);
    let sum = bin(&mut ast, BinOpKind::Plus, x1, one);
    let inner = let_stmt(&mut ast, "y", Y, sum);
    let y1 = var(&mut ast, "y", Y);
    let limit = num(&mut ast, 3);
    let test = bin(&mut ast, BinOpKind::GreaterThan, y1, limit);
    let y2 = var(&mut ast, "y", Y);
    let x2 = var(&mut ast, "x", X);
    let c = call(&mut ast, "add", vec![y2, x2]);
    let first = expr_stmt(&mut ast, c);
    let zero = num(&mut ast, 0);
    let second = expr_stmt(&mut ast, zero);
    let choice = ast.if_expression(
        tok(TokenKind::If, "if"),
        test,
        vec![first],
        Some(ElseBranch::new(tok(TokenKind::Else, "else"), vec![second])),
    );
    let last = expr_stmt(&mut ast, choice);
    let whole = block(&mut ast, vec![inner, last]);
    let mut eval = ASTEval::new(&scope);
    assert_eq!(eval.eval_statement(&ast, bind, 100), Ok(Flow::Normal));
    assert_eq!(eval.eval_expression(&ast, whole, 100), Ok(Flow::Normal));
    assert_eq!(eval.last_value, Some(Value::Number(7)));
    assert_eq!(eval.frames.depth(), 1);
    assert_eq!(eval.frames.get(&VariableIdx::new(X)), Some(Value::Number(3)));
    assert_eq!(eval.frames.get(&VariableIdx::new(Y)), None);
    assert_eq!(eval.eval_expression(&ast, whole, 100), Ok(Flow::Normal));
    assert_eq!(eval.last_value, Some(Value::Number(7)));
    assert_eq!(eval.frames.depth(), 1);
    assert_eq!(eval.frames.get(&VariableIdx::new(X)), Some(Value::Number(3)));
    assert_eq!(eval.frames.get(&VariableIdx::new(Y)), None);
}

#[test]
fn empty_block_as_operand_reads_what_the_register_held() {
    // -{} after 4 gives -4, and after that 4.
    let mut ast = Ast::new();
    let four = num(&mut ast, 4);
    let empty = block(&mut ast, vec![]);
    let neg =
        ast.unary_expression(UnOperator::new(UnOpKind::Minus, tok(TokenKind::Minus, "-")), empty);
    let scope = GlobalScope::new();
    let mut eval = ASTEval::new(&scope);
    assert_eq!(eval.eval_expression(&ast, four, 100), Ok(Flow::Normal));
    assert_eq!(eval.eval_expression(&ast, neg, 100), Ok(Flow::Normal));
    assert_eq!(eval.last_value, Some(Value::Number(-4)));
    assert_eq!(eval.eval_expression(&ast, neg, 100), Ok(Flow::Normal));
    assert_eq!(eval.last_value, Some(Value::Number(4)));
}

#[test]
fn empty_block_and_conditional_without_else_give_the_same_twice() {
    // {} and if false { 1 } hand on what the register held, each time.
    let mut ast = Ast::new();
    let four = num(&mut ast, 4);
    let empty = block(&mut ast, vec![]);
    let skipped = conditional(&mut ast, false, false);
    let scope = GlobalScope::new();
    let mut eval = ASTEval::new(&scope);
    assert_eq!(eval.eval_expression(&ast, four, 100), Ok(Flow::Normal));
    assert_eq!(eval.eval_expression(&ast, empty, 100), Ok(Flow::Normal));
    assert_eq!(eval.last_value, Some(Value::Number(4)));
    assert_eq!(eval.eval_expression(&ast, empty, 100), Ok(Flow::Normal));
    assert_eq!(eval.last_value, Some(Value::Number(4)));
    assert_eq!(eval.eval_expression(&ast, skipped, 100), Ok(Flow::Normal));
    assert_eq!(eval.last_value, Some(Value::Number(4)));
    assert_eq!(eval.eval_expression(&ast, skipped, 100), Ok(Flow::Normal));
    assert_eq!(eval.last_value, Some(Value::Number(4)));
    assert_eq!(eval.frames.depth(), 1);
}

#[test]
fn call_without_arguments_gives_the_same_value_twice() {
    // func six() { let a = 2; a = a * 3; return a; 0 }
    let mut ast = Ast::new();
    let mut scope = GlobalScope::new();
    let two = num(&mut ast, 2);
    let s1 = let_stmt(&mut ast, "a", X, two);
    let a1 = var(&mut ast, "a", X);
    let three = num(&mut ast, 3);
    let product = bin(&mut ast, BinOpKind::Multiply, a1, three);
    let write = assign(&mut ast, "a", X, product);
    let s2 = expr_stmt(&mut ast, write);
    let a2 = var(&mut ast, "a", X);
    let s3 = ast.return_statement(tok(TokenKind::Return, "return"), Some(a2));
    let zero = num(&mut ast, 0);
    let s4 = expr_stmt(&mut ast, zero);
    scope.declare_function("six".to_string(), vec![], vec![s1, s2, s3, s4], Type::Int);
    let c = call(&mut ast, "six", vec![]);
    let mut eval = ASTEval::new(&scope);
    assert_eq!(eval.eval_expression(&ast, c, 100), Ok(Flow::Normal));
    assert_eq!(eval.last_value, Some(Value::Number(6)));
    assert_eq!(eval.frames.depth(), 1);
    assert_eq!(eval.frames.get(&VariableIdx::new(X)), None);
    assert_eq!(eval.eval_expression(&ast, c, 100), Ok(Flow::Normal));
    assert_eq!(eval.last_value, Some(Value::Number(6)));
    assert_eq!(eval.frames.get(&VariableIdx::new(X)), None);
}
