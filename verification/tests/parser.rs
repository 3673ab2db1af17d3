use std::collections::HashMap;

use nsharp::compilation_unit::{GlobalScope, VariableIdx};
use nsharp::definitions::eval::ASTEval;
use nsharp::definitions::lexer::{Lexer, Token, TokenKind};
use nsharp::definitions::parser::{Counter, Parser};
use nsharp::definitions::semantics::Flow;
use nsharp::definitions::value::{EvalError, Value};
use nsharp::definitions::visitor::{NodeId, WalkOrder};
use nsharp::definitions::{
    Ast, BinOpAssociativity, BinOpKind, ExprId, ExprKind, ItemKind, StmtId, StmtKind, UnOpKind,
};
use nsharp::text::span::TextSpan;
use nsharp::typings::Type;

fn lex_all(input: &str) -> Vec<Token> {
    let mut lexer = Lexer::new(input);
    let mut tokens = Vec::new();
    while let Some(token) = lexer.next_token() {
        tokens.push(token);
    }
    tokens
}

fn parse_text(input: &str) -> (Ast, usize) {
    let mut ast = Ast::new();
    let mut parser = Parser::new(lex_all(input));
    parser.parse(&mut ast);
    let problems = parser.diagnostics_found().len();
    (ast, problems)
}

/// The expression as text with every operator application in parentheses.
fn show(ast: &Ast, id: ExprId) -> String {
    match &ast.query_expression(id).kind {
        ExprKind::Number(e) => format!("{}", e.number),
        ExprKind::Boolean(e) => format!("{}", e.value),
        ExprKind::Variable(e) => e.identifier.span.literal.clone(),
        ExprKind::Parenthesized(e) => format!("[{}]", show(ast, e.inner)),
        ExprKind::Unary(e) => {
            format!("({}{})", e.operator.token.span.literal, show(ast, e.operand))
        }
        ExprKind::Binary(e) => format!(
            "({} {} {})",
            show(ast, e.left),
            e.operator.token.span.literal,
            show(ast, e.right)
        ),
        ExprKind::Assignment(e) => {
            format!("({} = {})", e.identifier.span.literal, show(ast, e.expression))
        }
        ExprKind::Call(e) => {
            let args: Vec<String> = e.arguments.iter().map(|a| show(ast, *a)).collect();
            format!("{}({})", e.function_name(), args.join(", "))
        }
        ExprKind::Block(e) => format!("{{{}}}", e.stmts.len()),
        ExprKind::If(e) => format!(
            "if {} {{{}}} else {{{}}}",
            show(ast, e.condition),
            e.then_branch.len(),
            e.else_branch.as_ref().map(|b| b.body.len()).unwrap_or(0)
        ),
        ExprKind::Error(_) => "<error>".to_string(),
    }
}

/// The one expression that the text spells, shown with parentheses.
fn shape(input: &str) -> String {
    let (ast, _) = parse_text(input);
    assert_eq!(ast.items.len(), 1);
    let stmt = match &ast.items[0].kind {
        ItemKind::Stmt(s) => *s,
        ItemKind::Function(_) => panic!("an expression was expected"),
    };
    match &ast.query_statement(stmt).kind {
        StmtKind::Expr(e) => show(&ast, *e),
        _ => panic!("an expression was expected"),
    }
}

#[test]
fn counter_counts() {
    let mut counter = Counter::new();
    assert_eq!(counter.get_value(), 0);
    counter.increment();
    counter.increment();
    assert_eq!(counter.get_value(), 2);
}

#[test]
fn tighter_operators_take_their_operands_first() {
    assert_eq!(shape("1 + 2 * 3"), "(1 + (2 * 3))");
    assert_eq!(shape("1 * 2 + 3"), "((1 * 2) + 3)");
    assert_eq!(shape("1 + 2 < 3 * 4"), "((1 + 2) < (3 * 4))");
    assert_eq!(shape("1 | 2 ^ 3 & 4"), "(1 | (2 ^ (3 & 4)))");
    assert_eq!(shape("a == b + 1"), "(a == (b + 1))");
    assert_eq!(shape("2 * 3 ** 2"), "(2 * (3 ** 2))");
    assert_eq!(shape("7 % 3 - 1"), "((7 % 3) - 1)");
}

#[test]
fn operators_group_to_the_left_but_power() {
    assert_eq!(shape("1 - 2 - 3"), "((1 - 2) - 3)");
    assert_eq!(shape("8 / 4 / 2"), "((8 / 4) / 2)");
    assert_eq!(shape("2 ** 3 ** 2"), "(2 ** (3 ** 2))");
    assert_eq!(BinOpKind::Power.associativity(), BinOpAssociativity::Right);
    assert_eq!(BinOpKind::Minus.associativity(), BinOpAssociativity::Left);
    assert_eq!(BinOpKind::Power.precedence(), 20);
    assert_eq!(BinOpKind::Multiply.precedence(), 19);
    assert_eq!(BinOpKind::Plus.precedence(), 18);
    assert_eq!(BinOpKind::LessThan.precedence(), 10);
}

#[test]
fn unary_operators_and_parentheses() {
    assert_eq!(shape("-x * y"), "((-x) * y)");
    assert_eq!(shape("- - 1"), "(-(-1))");
    assert_eq!(shape("~1 + 2"), "((~1) + 2)");
    assert_eq!(shape("(1 + 2) * 3"), "([(1 + 2)] * 3)");
    assert_eq!(shape("-(1)"), "(-[1])");
}

#[test]
fn assignments_and_calls() {
    assert_eq!(shape("x = y = 1 + 2"), "(x = (y = (1 + 2)))");
    assert_eq!(shape("f()"), "f()");
    assert_eq!(shape("f(1, x + 2, g(3))"), "f(1, (x + 2), g(3))");
    assert_eq!(shape("x == 1"), "(x == 1)");
    assert_eq!(shape("true"), "true");
}

#[test]
fn conditionals_and_blocks() {
    assert_eq!(shape("if x < 1 { 1 } else { 2; 3 }"), "if (x < 1) {1} else {2}");
    assert_eq!(shape("if true { }"), "if true {0} else {0}");
    assert_eq!(shape("{ 1; 2; 3 }"), "{3}");
    assert_eq!(shape("1 + { 2 }"), "(1 + {1})");
}

#[test]
fn statements_of_each_kind() {
    let (ast, problems) = parse_text("let x: int = 1; while x < 3 { x = x + 1; } return x; x");
    assert_eq!(problems, 0);
    assert_eq!(ast.items.len(), 4);
    let kinds: Vec<&StmtKind> = ast
        .items
        .iter()
        .map(|item| match &item.kind {
            ItemKind::Stmt(s) => &ast.query_statement(*s).kind,
            ItemKind::Function(_) => panic!("a statement was expected"),
        })
        .collect();
    match kinds[0] {
        StmtKind::Let(s) => {
            assert_eq!(s.identifier.span.literal, "x");
            assert_eq!(s.type_annotation.as_ref().unwrap().type_token.span.literal, "int");
            assert_eq!(show(&ast, s.initializer), "1");
        }
        _ => panic!("a let was expected"),
    }
    match kinds[1] {
        StmtKind::While(s) => {
            assert_eq!(show(&ast, s.condition), "(x < 3)");
            assert_eq!(s.body.len(), 1);
        }
        _ => panic!("a while was expected"),
    }
    match kinds[2] {
        StmtKind::Return(s) => assert_eq!(show(&ast, s.return_value.unwrap()), "x"),
        _ => panic!("a return was expected"),
    }
    assert!(matches!(kinds[3], StmtKind::Expr(_)));
}

#[test]
fn return_without_a_value() {
    let (ast, problems) = parse_text("func f() { return; }");
    assert_eq!(problems, 0);
    match &ast.items[0].kind {
        ItemKind::Function(f) => match &ast.query_statement(f.body[0]).kind {
            StmtKind::Return(s) => assert!(s.return_value.is_none()),
            _ => panic!("a return was expected"),
        },
        _ => panic!("a function was expected"),
    }
}

#[test]
fn function_declarations() {
    let (ast, problems) = parse_text("func add(a: int, b: int) -> int { a + b }  add(2, 3)");
    assert_eq!(problems, 0);
    assert_eq!(ast.items.len(), 2);
    match &ast.items[0].kind {
        ItemKind::Function(f) => {
            assert_eq!(f.identifier.span.literal, "add");
            assert_eq!(f.parameters.len(), 2);
            assert_eq!(f.parameters[0].identifier.span.literal, "a");
            assert_eq!(f.parameters[1].type_annotation.type_token.span.literal, "int");
            assert_eq!(f.return_type.as_ref().unwrap().type_token.span.literal, "int");
            assert_eq!(f.body.len(), 1);
        }
        _ => panic!("a function was expected"),
    }
}

#[test]
fn nodes_carry_their_indices() {
    let (ast, _) = parse_text("let x = (1 + 2) * f(3); { x; }");
    for (i, e) in ast.expressions.iter().enumerate() {
        assert_eq!(e.id.index, i);
        assert_eq!(e.ty, Type::Unresolved);
    }
    for (i, s) in ast.statements.iter().enumerate() {
        assert_eq!(s.id.index, i);
    }
    for (i, item) in ast.items.iter().enumerate() {
        assert_eq!(item.id.index, i);
    }
}

#[test]
fn misplaced_tokens_are_noted_and_parsing_goes_on() {
    let (ast, problems) = parse_text("(1 + 2");
    assert_eq!(problems, 1);
    assert_eq!(ast.items.len(), 1);
    let (ast, problems) = parse_text("1 + ) 2");
    assert!(problems >= 1);
    assert!(ast.expressions.iter().any(|e| matches!(e.kind, ExprKind::Error(_))));
    let (ast, problems) = parse_text("let = ;");
    assert!(problems >= 1);
    assert!(!ast.items.is_empty());
    let (ast, problems) = parse_text("func");
    assert!(problems >= 1);
    assert_eq!(ast.items.len(), 1);
    let (_, problems) = parse_text("if x { 1 ");
    assert_eq!(problems, 1);
    let (_, problems) = parse_text("f(1, 2");
    assert_eq!(problems, 1);
}

#[test]
fn misplaced_token_is_named_with_what_was_asked_for() {
    let mut ast = Ast::new();
    let mut parser = Parser::new(lex_all("(1 ]"));
    parser.parse(&mut ast);
    let found = parser.diagnostics_found();
    assert_eq!(found[0].expected, Some(TokenKind::CloseParenthesis));
    assert_eq!(found[0].found.span.literal, "]");
}

#[test]
fn empty_input_gives_no_items() {
    let (ast, problems) = parse_text("");
    assert_eq!(problems, 0);
    assert!(ast.items.is_empty());
    let (ast, problems) = parse_text("  \n\t ");
    assert_eq!(problems, 0);
    assert!(ast.items.is_empty());
}

#[test]
fn tokens_without_end_of_file_cannot_be_parsed() {
    let tokens = vec![
        Token::new(TokenKind::Number(1), TextSpan::new(0, 1, "1".to_string())),
        Token::new(TokenKind::Whitespace, TextSpan::new(1, 2, " ".to_string())),
        Token::new(TokenKind::Plus, TextSpan::new(2, 3, "+".to_string())),
        Token::new(TokenKind::Number(2), TextSpan::new(3, 4, "2".to_string())),
    ];
    assert!(!Parser::new(tokens).can_parse());
    assert!(!Parser::new(Vec::new()).can_parse());
    let only_space = vec![Token::new(TokenKind::Whitespace, TextSpan::new(0, 1, " ".to_string()))];
    assert!(!Parser::new(only_space).can_parse());
}

#[test]
fn tokens_are_kept_in_order_without_white_space() {
    let tokens = vec![
        Token::new(TokenKind::Whitespace, TextSpan::new(0, 1, " ".to_string())),
        Token::new(TokenKind::Number(7), TextSpan::new(1, 2, "7".to_string())),
        Token::new(TokenKind::Whitespace, TextSpan::new(2, 3, " ".to_string())),
        Token::new(TokenKind::Minus, TextSpan::new(3, 4, "-".to_string())),
        Token::new(TokenKind::Number(2), TextSpan::new(4, 5, "2".to_string())),
        Token::new(TokenKind::Eof, TextSpan::new(0, 0, "\0".to_string())),
        Token::new(TokenKind::Whitespace, TextSpan::new(5, 6, " ".to_string())),
    ];
    let mut ast = Ast::new();
    let mut parser = Parser::new(tokens);
    assert!(parser.can_parse());
    parser.parse(&mut ast);
    assert!(parser.can_parse());
    assert_eq!(parser.diagnostics_found().len(), 0);
    assert_eq!(ast.expressions.len(), 3);
    assert_eq!(ast.items.len(), 1);
    match &ast.expressions[2].kind {
        ExprKind::Binary(binary) => {
            assert_eq!(binary.operator.kind, BinOpKind::Minus);
            match &ast.expressions[binary.left.index].kind {
                ExprKind::Number(number) => assert_eq!(number.number, 7),
                _ => panic!("the left operand is a number"),
            }
            match &ast.expressions[binary.right.index].kind {
                ExprKind::Number(number) => assert_eq!(number.number, 2),
                _ => panic!("the right operand is a number"),
            }
        },
        _ => panic!("the last expression is the difference"),
    }
}

#[test]
fn parsed_tree_can_be_walked() {
    let (ast, _) = parse_text("let x = 1 + 2; f(x)");
    let mut order = WalkOrder::new();
    ast.visit(&mut order);
    assert_eq!(
        order.nodes,
        vec![
            NodeId::Statement(StmtId::new(0)),
            NodeId::Expression(ExprId::new(2)),
            NodeId::Expression(ExprId::new(0)),
            NodeId::Expression(ExprId::new(1)),
            NodeId::Expression(ExprId::new(4)),
            NodeId::Expression(ExprId::new(3)),
        ]
    );
}

/// Gives every name a slot, the same for the same name, and declares the
/// functions: what name resolution would do for programs whose names are
/// all different.
fn resolve(ast: &mut Ast, scope: &mut GlobalScope) {
    let mut slots: HashMap<String, usize> = HashMap::new();
    let mut slot_of = |name: &str| {
        let next = slots.len();
        *slots.entry(name.to_string()).or_insert(next)
    };
    for i in 0..ast.statements.len() {
        if let StmtKind::Let(s) = &mut ast.query_statement_mut(StmtId::new(i)).kind {
            s.variable_idx = VariableIdx::new(slot_of(&s.identifier.span.literal));
        }
    }
    for i in 0..ast.expressions.len() {
        let name = match &ast.query_expression(ExprId::new(i)).kind {
            ExprKind::Variable(e) => e.identifier.span.literal.clone(),
            ExprKind::Assignment(e) => e.identifier.span.literal.clone(),
            _ => continue,
        };
        ast.set_variable_index(ExprId::new(i), VariableIdx::new(slot_of(&name)));
    }
    for item in ast.items.iter() {
        if let ItemKind::Function(f) = &item.kind {
            let parameters = f
                .parameters
                .iter()
                .map(|p| VariableIdx::new(slot_of(&p.identifier.span.literal)))
                .collect();
            scope.declare_function(
                f.identifier.span.literal.clone(),
                parameters,
                f.body.clone(),
                Type::Int,
            );
        }
    }
}

fn run(input: &str) -> (Result<Flow, EvalError>, Option<Value>) {
    let (mut ast, problems) = parse_text(input);
    assert_eq!(problems, 0);
    let mut scope = GlobalScope::new();
    resolve(&mut ast, &mut scope);
    let mut eval = ASTEval::new(&scope);
    eval.fuel = 1000;
    ast.visit(&mut eval);
    assert_eq!(eval.frames.depth(), 1);
    (eval.outcome, eval.last_value)
}

#[test]
fn program_text_is_evaluated() {
    assert_eq!(
        run("let x = 2; let y = x + 3; y * y"),
        (Ok(Flow::Normal), Some(Value::Number(25)))
    );
    assert_eq!(
        run("let x = 0; while x < 3 { x = x + 1; } x"),
        (Ok(Flow::Normal), Some(Value::Number(3)))
    );
    assert_eq!(
        run("func add(a: int, b: int) -> int { a + b } add(2, 3)"),
        (Ok(Flow::Normal), Some(Value::Number(5)))
    );
    assert_eq!(run("if true { 1 } else { 2 }"), (Ok(Flow::Normal), Some(Value::Number(1))));
    assert_eq!(run("if false { 1 } else { 2 }"), (Ok(Flow::Normal), Some(Value::Number(2))));
    assert_eq!(run("7 % 3"), (Ok(Flow::Normal), Some(Value::Number(1))));
    assert_eq!(run("2 ** 10"), (Ok(Flow::Normal), Some(Value::Number(1024))));
    assert_eq!(run("-1 & 3"), (Ok(Flow::Normal), Some(Value::Number(3))));
    assert_eq!(run("~0"), (Ok(Flow::Normal), Some(Value::Number(-1))));
    assert_eq!(run("1 / 0").0, Err(EvalError::DivisionByZero));
    assert_eq!(run("nowhere(1)").0, Err(EvalError::FunctionNotFound));
}

#[test]
fn return_ends_the_function_not_the_caller() {
    let text = "func first(n: int) -> int { while true { if n > 0 { return n; } n = n + 1; } 0 } \
                let r = first(5); r + 1";
    assert_eq!(run(text), (Ok(Flow::Normal), Some(Value::Number(6))));
    let text = "func f() -> int { { { return 1; } } 2 } f() + 10";
    assert_eq!(run(text), (Ok(Flow::Normal), Some(Value::Number(11))));
}

#[test]
fn recursion_within_the_budget() {
    let text = "func fact(k: int) -> int { if k < 2 { 1 } else { k * fact(k - 1) } } fact(10)";
    assert_eq!(run(text), (Ok(Flow::Normal), Some(Value::Number(3628800))));
    let text = "func forever(q: int) -> int { forever(q) } forever(1)";
    assert_eq!(run(text).0, Err(EvalError::DepthExceeded));
}

#[test]
fn unary_kinds_are_told_apart() {
    let (ast, _) = parse_text("~x");
    match &ast.expressions[1].kind {
        ExprKind::Unary(e) => assert_eq!(e.operator.kind, UnOpKind::BitwiseNot),
        _ => panic!("a unary expression was expected"),
    }
}

#[test]
fn break_ends_the_loop_and_continue_the_round() {
    let text = "let n = 0; let s = 0; \
                while true { n = n + 1; if n > 5 { break; } if n % 2 == 0 { continue; } s = s + n; } \
                s";
    assert_eq!(run(text), (Ok(Flow::Normal), Some(Value::Number(9))));
    let text = "let i = 0; let j = 0; let c = 0; \
                while i < 3 { j = 0; while true { j = j + 1; if j > 2 { break; } c = c + 1; } i = i + 1; } \
                c";
    assert_eq!(run(text), (Ok(Flow::Normal), Some(Value::Number(6))));
}

#[test]
fn break_outside_of_a_loop_is_fatal() {
    assert_eq!(run("break;").0, Err(EvalError::OutsideLoop));
    assert_eq!(run("{ continue; }").0, Err(EvalError::OutsideLoop));
    let text = "func f() -> int { break; 1 } let k = 0; while k < 1 { k = k + 1; f(); }";
    assert_eq!(run(text).0, Err(EvalError::OutsideLoop));
}
