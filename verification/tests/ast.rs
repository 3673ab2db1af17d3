use nsharp::compilation_unit::{FunctionIdx, GlobalScope, VariableIdx};
use nsharp::definitions::eval::{ASTEval, Frames};
use nsharp::definitions::lexer::{Token, TokenKind};
use nsharp::definitions::value::{EvalError, Value};
use nsharp::definitions::{
    Ast, BinOpKind, BinOperator, ExprId, ExprKind, ItemId, ItemKind, StmtId, StmtKind,
};
use nsharp::text::span::TextSpan;
use nsharp::typings::Type;

fn word(kind: TokenKind, text: &str) -> Token {
    Token::new(kind, TextSpan::new(0, text.len(), text.to_string()))
}

#[test]
fn indices_are_plain_numbers() {
    assert_eq!(ExprId::new(3).as_index(), 3);
    assert_eq!(StmtId::new(4).as_index(), 4);
    assert_eq!(ItemId::new(5).as_index(), 5);
    assert_eq!(VariableIdx::new(6).as_index(), 6);
    assert_eq!(FunctionIdx::new(7).as_index(), 7);
    assert_eq!(ExprId::new(1), ExprId::new(1));
    assert_ne!(ExprId::new(1), ExprId::new(2));
}

#[test]
fn new_arena_is_empty() {
    let ast = Ast::new();
    assert!(ast.expressions.is_empty());
    assert!(ast.statements.is_empty());
    assert!(ast.items.is_empty());
}

#[test]
fn nodes_are_appended_and_know_their_index() {
    let mut ast = Ast::new();
    let one = ast.number_expression(word(TokenKind::Number(1), "1"), 1);
    let two = ast.number_expression(word(TokenKind::Number(2), "2"), 2);
    let sum = ast.binary_expression(
        BinOperator::new(BinOpKind::Plus, word(TokenKind::Plus, "+")),
        one,
        two,
    );
    assert_eq!((one.index, two.index, sum.index), (0, 1, 2));
    assert_eq!(ast.expressions.len(), 3);
    assert_eq!(ast.query_expression(sum).id, sum);
    assert_eq!(ast.query_expression(sum).ty, Type::Unresolved);
    match &ast.query_expression(sum).kind {
        ExprKind::Binary(e) => {
            assert_eq!(e.left, one);
            assert_eq!(e.right, two);
            assert_eq!(e.operator.kind, BinOpKind::Plus);
        }
        _ => panic!("a binary expression was expected"),
    }
    let stmt = ast.expression_statement(sum);
    assert_eq!(stmt.index, 0);
    assert_eq!(ast.query_statement(stmt).id, stmt);
    let item = ast.statement_item(stmt);
    assert_eq!(item.index, 0);
    assert_eq!(ast.query_item(item).id, item);
    assert!(matches!(ast.query_item(item).kind, ItemKind::Stmt(s) if s == stmt));
    // Earlier nodes are where they were.
    assert!(matches!(&ast.query_expression(one).kind, ExprKind::Number(n) if n.number == 1));
}

#[test]
fn references_start_unresolved() {
    let mut ast = Ast::new();
    let x = ast.variable_expression(word(TokenKind::Identifier, "x"));
    let set = ast.assignment_expression(
        word(TokenKind::Identifier, "x"),
        word(TokenKind::Equals, "="),
        x,
    );
    let call = ast.call_expression(
        word(TokenKind::Identifier, "f"),
        word(TokenKind::OpenParenthesis, "("),
        vec![x],
        word(TokenKind::CloseParenthesis, ")"),
    );
    assert!(matches!(&ast.query_expression(x).kind, ExprKind::Variable(e) if e.variable_idx.index == 0));
    assert!(
        matches!(&ast.query_expression(call).kind, ExprKind::Call(e) if e.function_idx == FunctionIdx::unreachable())
    );
    ast.set_variable_index(x, VariableIdx::new(4));
    ast.set_variable_index(set, VariableIdx::new(5));
    ast.set_function_index(call, FunctionIdx::new(2));
    ast.set_type(call, Type::Int);
    assert!(matches!(&ast.query_expression(x).kind, ExprKind::Variable(e) if e.variable_idx.index == 4));
    match &ast.query_expression(set).kind {
        ExprKind::Assignment(e) => {
            assert_eq!(e.variable_idx, VariableIdx::new(5));
            assert_eq!(e.expression, x);
            assert_eq!(e.identifier.span.literal, "x");
        }
        _ => panic!("an assignment was expected"),
    }
    match &ast.query_expression(call).kind {
        ExprKind::Call(e) => {
            assert_eq!(e.function_idx, FunctionIdx::new(2));
            assert_eq!(e.arguments, vec![x]);
            assert_eq!(e.function_name(), "f");
        }
        _ => panic!("a call was expected"),
    }
    assert_eq!(ast.query_expression(call).ty, Type::Int);
    assert_eq!(ast.query_expression(call).id, call);
    assert_eq!(ast.query_expression(x).ty, Type::Unresolved);
}

#[test]
fn nodes_are_changed_in_place() {
    let mut ast = Ast::new();
    let one = ast.number_expression(word(TokenKind::Number(1), "1"), 1);
    let stmt = ast.let_statement(word(TokenKind::Identifier, "x"), one, None);
    let item = ast.statement_item(stmt);
    ast.query_expression_mut(one).ty = Type::Int;
    if let StmtKind::Let(s) = &mut ast.query_statement_mut(stmt).kind {
        s.variable_idx = VariableIdx::new(9);
    }
    let other = ast.expression_statement(one);
    ast.query_item_mut(item).kind = ItemKind::Stmt(other);
    assert_eq!(ast.query_expression(one).ty, Type::Int);
    assert!(matches!(&ast.query_statement(stmt).kind, StmtKind::Let(s) if s.variable_idx.index == 9));
    assert!(matches!(ast.query_item(item).kind, ItemKind::Stmt(s) if s == other));
    assert_eq!(ast.expressions.len(), 1);
    assert_eq!(ast.statements.len(), 2);
    assert_eq!(ast.items.len(), 1);
}

#[test]
fn value_of_a_block_is_its_last_expression() {
    let mut ast = Ast::new();
    let one = ast.number_expression(word(TokenKind::Number(1), "1"), 1);
    let let_x = ast.let_statement(word(TokenKind::Identifier, "x"), one, None);
    let two = ast.number_expression(word(TokenKind::Number(2), "2"), 2);
    let last = ast.expression_statement(two);
    let open = || word(TokenKind::OpenBrace, "{");
    let close = || word(TokenKind::CloseBrace, "}");
    let with_value = ast.block_expression(open(), vec![let_x, last], close());
    let without = ast.block_expression(open(), vec![last, let_x], close());
    let empty = ast.block_expression(open(), vec![], close());
    let value_of = |ast: &Ast, id: ExprId| match &ast.query_expression(id).kind {
        ExprKind::Block(b) => b.returning_expression(ast),
        _ => panic!("a block was expected"),
    };
    assert_eq!(value_of(&ast, with_value), Some(two));
    assert_eq!(value_of(&ast, without), None);
    assert_eq!(value_of(&ast, empty), None);
}

#[test]
fn functions_are_found_by_name() {
    let mut scope = GlobalScope::new();
    assert_eq!(scope.lookup_function("f"), None);
    let f = scope.declare_function("f".to_string(), vec![], vec![], Type::Void);
    let g = scope.declare_function("g".to_string(), vec![VariableIdx::new(1)], vec![], Type::Int);
    let again = scope.declare_function("f".to_string(), vec![], vec![StmtId::new(0)], Type::Int);
    assert_eq!((f.index, g.index, again.index), (0, 1, 2));
    assert_eq!(scope.lookup_function("f"), Some(f));
    assert_eq!(scope.lookup_function("g"), Some(g));
    assert_eq!(scope.lookup_function("h"), None);
    assert_eq!(scope.lookup_function(""), None);
    assert_eq!(scope.get(g).name, "g");
    assert_eq!(scope.get(g).parameters, vec![VariableIdx::new(1)]);
    assert_eq!(scope.get(again).body, vec![StmtId::new(0)]);
}

#[test]
fn frames_shadow_and_update_innermost_first() {
    let x = VariableIdx::new(0);
    let y = VariableIdx::new(1);
    let mut frames = Frames::new();
    assert_eq!(frames.depth(), 1);
    assert_eq!(frames.get(&x), None);
    frames.insert(x, Value::Number(1));
    frames.insert(y, Value::Number(10));
    frames.push();
    assert_eq!(frames.get(&x), Some(Value::Number(1)));
    frames.insert(x, Value::Number(2));
    assert_eq!(frames.get(&x), Some(Value::Number(2)));
    // The innermost binding is the one that changes.
    assert!(frames.update(x, Value::Number(3)));
    assert_eq!(frames.get(&x), Some(Value::Number(3)));
    // A binding of an outer frame is changed where it is.
    assert!(frames.update(y, Value::Number(11)));
    assert!(!frames.update(VariableIdx::new(7), Value::Boolean(true)));
    assert_eq!(frames.get(&VariableIdx::new(7)), None);
    frames.pop();
    assert_eq!(frames.depth(), 1);
    assert_eq!(frames.get(&x), Some(Value::Number(1)));
    assert_eq!(frames.get(&y), Some(Value::Number(11)));
}

#[test]
fn register_is_empty_until_something_is_evaluated() {
    let scope = GlobalScope::new();
    let mut eval = ASTEval::new(&scope);
    assert_eq!(eval.last_value, None);
    assert_eq!(eval.expect_last_value(), Err(EvalError::MissingValue));
    let mut ast = Ast::new();
    let one = ast.boolean_expression(word(TokenKind::True, "true"), true);
    assert!(eval.eval_expression(&ast, one, 1).is_ok());
    assert_eq!(eval.expect_last_value(), Ok(Value::Boolean(true)));
}
