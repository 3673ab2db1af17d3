use nsharp::compilation_unit::FunctionIdx;
use nsharp::definitions::lexer::{Token, TokenKind};
use nsharp::definitions::visitor::{
    ASTVisitor, NodeId, Walk, WalkOrder, visit_body, visit_expression, visit_expressions,
    visit_item, visit_statement,
};
use nsharp::definitions::{
    AssignExpr, Ast, BinOpKind, BinOperator, BinaryExpr, BlockExpr, BoolExpr, BreakStmt, CallExpr,
    ContinueStmt, ElseBranch, Expr, ExprId, FuncDeclaration, IfExpr, ItemId, ItemKind, LetStmt,
    NumberExpr, ParenthesizedExpr, ReturnStmt, Stmt, StmtId, UnOpKind, UnOperator, UnaryExpr,
    VarExpr, WhileStmt,
};
use nsharp::text::span::TextSpan;

fn token(kind: TokenKind, text: &str) -> Token {
    Token::new(kind, TextSpan::new(0, text.len(), text.to_string()))
}

/// Writes down what the walk shows it, in the order in which it comes.
struct Recorder {
    seen: Vec<String>,
}

impl ASTVisitor for Recorder {
    type State = ();

    fn inv(&self) -> bool {
        true
    }

    fn state(&self) {}

    fn arrive(_state: (), _ast: &Ast, _node: NodeId) {}

    fn descends(_state: (), _ast: &Ast, _node: NodeId) -> bool {
        true
    }

    fn visit_func_decl(
        &mut self,
        _ast: &Ast,
        func_decl: &FuncDeclaration,
        item_id: ItemId,
    ) -> Walk {
        self.seen.push(format!("func {} @{}", func_decl.identifier.span.literal, item_id.index));
        Walk::Descend
    }

    fn visit_let_statement(&mut self, _ast: &Ast, let_statement: &LetStmt, stmt: &Stmt) -> Walk {
        self.seen.push(format!("let {} @{}", let_statement.identifier.span.literal, stmt.id.index));
        Walk::Descend
    }

    fn visit_while_statement(
        &mut self,
        _ast: &Ast,
        _while_statement: &WhileStmt,
        stmt: &Stmt,
    ) -> Walk {
        self.seen.push(format!("while @{}", stmt.id.index));
        Walk::Descend
    }

    fn visit_return_statement(
        &mut self,
        _ast: &Ast,
        _return_statement: &ReturnStmt,
        stmt: &Stmt,
    ) -> Walk {
        self.seen.push(format!("return @{}", stmt.id.index));
        Walk::Descend
    }

    fn visit_break_statement(
        &mut self,
        _ast: &Ast,
        _break_statement: &BreakStmt,
        stmt: &Stmt,
    ) -> Walk {
        self.seen.push(format!("break @{}", stmt.id.index));
        Walk::Descend
    }

    fn visit_continue_statement(
        &mut self,
        _ast: &Ast,
        _continue_statement: &ContinueStmt,
        stmt: &Stmt,
    ) -> Walk {
        self.seen.push(format!("continue @{}", stmt.id.index));
        Walk::Descend
    }

    fn visit_number_expression(&mut self, _ast: &Ast, number: &NumberExpr, _expr: &Expr) -> Walk {
        self.seen.push(format!("{}", number.number));
        Walk::Descend
    }

    fn visit_boolean_expression(&mut self, _ast: &Ast, boolean: &BoolExpr, _expr: &Expr) -> Walk {
        self.seen.push(format!("{}", boolean.value));
        Walk::Descend
    }

    fn visit_variable_expression(&mut self, _ast: &Ast, variable: &VarExpr, _expr: &Expr) -> Walk {
        self.seen.push(variable.identifier.span.literal.clone());
        Walk::Descend
    }

    fn visit_error(&mut self, _ast: &Ast, _span: &TextSpan, _expr: &Expr) -> Walk {
        self.seen.push("error".to_string());
        Walk::Descend
    }

    fn visit_parenthesized_expression(
        &mut self,
        _ast: &Ast,
        _parenthesized: &ParenthesizedExpr,
        _expr: &Expr,
    ) -> Walk {
        self.seen.push("(".to_string());
        Walk::Descend
    }

    fn visit_unary_expression(&mut self, _ast: &Ast, unary: &UnaryExpr, _expr: &Expr) -> Walk {
        self.seen.push(format!("unary {:?}", unary.operator.kind));
        Walk::Descend
    }

    fn visit_binary_expression(&mut self, _ast: &Ast, binary: &BinaryExpr, _expr: &Expr) -> Walk {
        self.seen.push(format!("binary {:?}", binary.operator.kind));
        Walk::Descend
    }

    fn visit_assignment_expression(
        &mut self,
        _ast: &Ast,
        assignment: &AssignExpr,
        _expr: &Expr,
    ) -> Walk {
        self.seen.push(format!("{} =", assignment.identifier.span.literal));
        Walk::Descend
    }

    fn visit_call_expression(&mut self, _ast: &Ast, call: &CallExpr, _expr: &Expr) -> Walk {
        self.seen.push(format!("call {}", call.function_name()));
        Walk::Descend
    }

    fn visit_block_expr(&mut self, _ast: &Ast, _block: &BlockExpr, _expr: &Expr) -> Walk {
        self.seen.push("{".to_string());
        Walk::Descend
    }

    fn visit_if_expression(&mut self, _ast: &Ast, _if_expression: &IfExpr, _expr: &Expr) -> Walk {
        self.seen.push("if".to_string());
        Walk::Descend
    }
}

fn number(ast: &mut Ast, n: i64) -> nsharp::definitions::ExprId {
    ast.number_expression(token(TokenKind::Number(n), "n"), n)
}

#[test]
fn walk_visits_left_operand_before_right() {
    let mut ast = Ast::new();
    let one = number(&mut ast, 1);
    let two = number(&mut ast, 2);
    let three = number(&mut ast, 3);
    let product = ast.binary_expression(
        BinOperator::new(BinOpKind::Multiply, token(TokenKind::Asterisk, "*")),
        two,
        three,
    );
    let sum = ast.binary_expression(
        BinOperator::new(BinOpKind::Plus, token(TokenKind::Plus, "+")),
        one,
        product,
    );
    let mut recorder = Recorder { seen: Vec::new() };
    visit_expression(&mut recorder, &ast, sum);
    assert_eq!(recorder.seen, vec!["binary Plus", "1", "binary Multiply", "2", "3"]);
}

#[test]
fn walk_visits_condition_then_both_branches() {
    let mut ast = Ast::new();
    let cond = ast.boolean_expression(token(TokenKind::True, "true"), true);
    let one = number(&mut ast, 1);
    let s1 = ast.expression_statement(one);
    let two = number(&mut ast, 2);
    let s2 = ast.expression_statement(two);
    let e = ast.if_expression(
        token(TokenKind::If, "if"),
        cond,
        vec![s1],
        Some(ElseBranch::new(token(TokenKind::Else, "else"), vec![s2])),
    );
    let mut recorder = Recorder { seen: Vec::new() };
    visit_expression(&mut recorder, &ast, e);
    assert_eq!(recorder.seen, vec!["if", "true", "1", "2"]);
}

#[test]
fn walk_visits_statements_and_arguments_in_source_order() {
    let mut ast = Ast::new();
    let one = number(&mut ast, 1);
    let let_x = ast.let_statement(token(TokenKind::Identifier, "x"), one, None);
    let x = ast.variable_expression(token(TokenKind::Identifier, "x"));
    let minus = ast.unary_expression(
        UnOperator::new(UnOpKind::Minus, token(TokenKind::Minus, "-")),
        x,
    );
    let seven = number(&mut ast, 7);
    let paren = ast.parenthesized_expression(
        token(TokenKind::OpenParenthesis, "("),
        seven,
        token(TokenKind::CloseParenthesis, ")"),
    );
    let call = ast.call_expression(
        token(TokenKind::Identifier, "f"),
        token(TokenKind::OpenParenthesis, "("),
        vec![minus, paren],
        token(TokenKind::CloseParenthesis, ")"),
    );
    let set = ast.assignment_expression(
        token(TokenKind::Identifier, "x"),
        token(TokenKind::Equals, "="),
        call,
    );
    let set_stmt = ast.expression_statement(set);
    let ret = ast.return_statement(token(TokenKind::Return, "return"), None);
    let brk = ast.break_statement(token(TokenKind::Break, "break"));
    let cont = ast.continue_statement(token(TokenKind::Continue, "continue"));
    let block = ast.block_expression(
        token(TokenKind::OpenBrace, "{"),
        vec![let_x, set_stmt, ret, brk, cont],
        token(TokenKind::CloseBrace, "}"),
    );
    let block_stmt = ast.expression_statement(block);
    let cond = ast.boolean_expression(token(TokenKind::False, "false"), false);
    let w = ast.while_statement(token(TokenKind::While, "while"), cond, vec![block_stmt]);
    let mut recorder = Recorder { seen: Vec::new() };
    visit_statement(&mut recorder, &ast, w);
    assert_eq!(
        recorder.seen,
        vec![
            "while @6", "false", "{", "let x @0", "1", "x =", "call f", "unary Minus", "x", "(",
            "7", "return @2", "break @3", "continue @4"
        ]
    );
}

#[test]
fn walk_goes_through_every_item() {
    let mut ast = Ast::new();
    let one = number(&mut ast, 1);
    let body = ast.expression_statement(one);
    ast.func_item(
        token(TokenKind::Function, "func"),
        token(TokenKind::Identifier, "f"),
        vec![],
        vec![body],
        None,
        FunctionIdx::new(0),
    );
    let err = ast.error_expression(TextSpan::new(0, 0, String::new()));
    let s = ast.expression_statement(err);
    let second = ast.item_from_kind(ItemKind::Stmt(s));
    let mut recorder = Recorder { seen: Vec::new() };
    ast.visit(&mut recorder);
    assert_eq!(recorder.seen, vec!["func f @0", "1", "error"]);
    let mut again = Recorder { seen: Vec::new() };
    visit_item(&mut again, &ast, second);
    assert_eq!(again.seen, vec!["error"]);
}

#[test]
fn walk_order_lists_nodes_as_arrived_at() {
    let mut ast = Ast::new();
    let one = number(&mut ast, 1);
    let two = number(&mut ast, 2);
    let sum = ast.binary_expression(
        BinOperator::new(BinOpKind::Plus, token(TokenKind::Plus, "+")),
        one,
        two,
    );
    let let_x = ast.let_statement(token(TokenKind::Identifier, "x"), sum, None);
    ast.item_from_kind(ItemKind::Stmt(let_x));
    let mut order = WalkOrder::new();
    ast.visit(&mut order);
    assert_eq!(
        order.nodes,
        vec![
            NodeId::Statement(StmtId::new(0)),
            NodeId::Expression(ExprId::new(2)),
            NodeId::Expression(ExprId::new(0)),
            NodeId::Expression(ExprId::new(1)),
        ]
    );
}

#[test]
fn walk_through_lists_keeps_their_order() {
    let mut ast = Ast::new();
    let one = number(&mut ast, 1);
    let two = number(&mut ast, 2);
    let s1 = ast.expression_statement(two);
    let s2 = ast.expression_statement(one);
    let mut order = WalkOrder::new();
    visit_expressions(&mut order, &ast, &vec![two, one, two]);
    assert_eq!(
        order.nodes,
        vec![NodeId::Expression(two), NodeId::Expression(one), NodeId::Expression(two)]
    );
    let mut order = WalkOrder::new();
    visit_body(&mut order, &ast, &vec![s2, s1]);
    assert_eq!(order.nodes, vec![NodeId::Expression(one), NodeId::Expression(two)]);
}

/// Looks at the outermost operator of every expression and no further.
struct Surface {
    seen: Vec<String>,
}

impl ASTVisitor for Surface {
    type State = ();

    fn inv(&self) -> bool {
        true
    }

    fn state(&self) {}

    fn arrive(_state: (), _ast: &Ast, _node: NodeId) {}

    fn descends(_state: (), _ast: &Ast, _node: NodeId) -> bool {
        false
    }

    fn visit_func_decl(&mut self, _: &Ast, _: &FuncDeclaration, _: ItemId) -> Walk {
        Walk::Descend
    }

    fn visit_let_statement(&mut self, _: &Ast, _: &LetStmt, _: &Stmt) -> Walk {
        Walk::Descend
    }

    fn visit_while_statement(&mut self, _: &Ast, _: &WhileStmt, _: &Stmt) -> Walk {
        Walk::Skip
    }

    fn visit_return_statement(&mut self, _: &Ast, _: &ReturnStmt, _: &Stmt) -> Walk {
        Walk::Descend
    }

    fn visit_break_statement(&mut self, _: &Ast, _: &BreakStmt, _: &Stmt) -> Walk {
        Walk::Skip
    }

    fn visit_continue_statement(&mut self, _: &Ast, _: &ContinueStmt, _: &Stmt) -> Walk {
        Walk::Skip
    }

    fn visit_number_expression(&mut self, _: &Ast, number: &NumberExpr, _: &Expr) -> Walk {
        self.seen.push(format!("{}", number.number));
        Walk::Skip
    }

    fn visit_boolean_expression(&mut self, _: &Ast, _: &BoolExpr, _: &Expr) -> Walk {
        Walk::Skip
    }

    fn visit_variable_expression(&mut self, _: &Ast, _: &VarExpr, _: &Expr) -> Walk {
        Walk::Skip
    }

    fn visit_error(&mut self, _: &Ast, _: &TextSpan, _: &Expr) -> Walk {
        Walk::Skip
    }

    fn visit_parenthesized_expression(
        &mut self,
        _: &Ast,
        _: &ParenthesizedExpr,
        _: &Expr,
    ) -> Walk {
        Walk::Descend
    }

    fn visit_unary_expression(&mut self, _: &Ast, _: &UnaryExpr, _: &Expr) -> Walk {
        Walk::Skip
    }

    fn visit_binary_expression(&mut self, _: &Ast, binary: &BinaryExpr, _: &Expr) -> Walk {
        self.seen.push(format!("{:?}", binary.operator.kind));
        Walk::Skip
    }

    fn visit_assignment_expression(&mut self, _: &Ast, _: &AssignExpr, _: &Expr) -> Walk {
        Walk::Descend
    }

    fn visit_call_expression(&mut self, _: &Ast, _: &CallExpr, _: &Expr) -> Walk {
        Walk::Skip
    }

    fn visit_block_expr(&mut self, _: &Ast, _: &BlockExpr, _: &Expr) -> Walk {
        Walk::Descend
    }

    fn visit_if_expression(&mut self, _: &Ast, _: &IfExpr, _: &Expr) -> Walk {
        Walk::Skip
    }
}

#[test]
fn walk_leaves_out_what_a_visitor_skips() {
    // let x = (1 + 2 * 3); while true { 4 }
    let mut ast = Ast::new();
    let one = number(&mut ast, 1);
    let two = number(&mut ast, 2);
    let three = number(&mut ast, 3);
    let product = ast.binary_expression(
        BinOperator::new(BinOpKind::Multiply, token(TokenKind::Asterisk, "*")),
        two,
        three,
    );
    let sum = ast.binary_expression(
        BinOperator::new(BinOpKind::Plus, token(TokenKind::Plus, "+")),
        one,
        product,
    );
    let paren = ast.parenthesized_expression(
        token(TokenKind::OpenParenthesis, "("),
        sum,
        token(TokenKind::CloseParenthesis, ")"),
    );
    let let_x = ast.let_statement(token(TokenKind::Identifier, "x"), paren, None);
    let cond = ast.boolean_expression(token(TokenKind::True, "true"), true);
    let four = number(&mut ast, 4);
    let body = ast.expression_statement(four);
    let w = ast.while_statement(token(TokenKind::While, "while"), cond, vec![body]);
    ast.statement_item(let_x);
    ast.statement_item(w);
    let mut surface = Surface { seen: Vec::new() };
    ast.visit(&mut surface);
    assert_eq!(surface.seen, vec!["Plus"]);
}
