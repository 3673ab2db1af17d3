//! Constructors for every kind of node. Each appends one node to the arena
//! and returns its index. The arena stays well-formed where the new node
//! refers only to nodes that are in it already.

use vstd::prelude::*;
use crate::compilation_unit::{FunctionIdx, VariableIdx};
use crate::definitions::lexer::Token;
use crate::definitions::{
    AssignExpr, Ast, BinOperator, BinaryExpr, BlockExpr, Body, BoolExpr, BreakStmt, CallExpr,
    ContinueStmt, ElseBranch, ExprId, ExprKind, FuncDeclParameter, FuncDeclaration,
    FunctionReturnTypeSyntax, IfExpr, ItemId, ItemKind, LetStmt, NumberExpr, ParenthesizedExpr,
    ReturnStmt, StaticTypeAnnotation, StmtId, StmtKind, UnOperator, UnaryExpr, VarExpr, WhileStmt,
    exprs_below, stmts_below,
};
use crate::text::span::TextSpan;

verus! {

impl Ast {
    /// Appends a number literal.
    pub fn number_expression(&mut self, token: Token, number: i64) -> (id: ExprId)
        ensures
            old(self).grown_by_expression(
                final(self),
                ExprKind::Number(NumberExpr { number, token }),
                id,
            ),
            old(self).wf() ==> final(self).wf(),
    {
        self.expr_from_kind(ExprKind::Number(NumberExpr { number, token }))
    }

    /// Appends a boolean literal.
    pub fn boolean_expression(&mut self, token: Token, value: bool) -> (id: ExprId)
        ensures
            old(self).grown_by_expression(
                final(self),
                ExprKind::Boolean(BoolExpr { value, token }),
                id,
            ),
            old(self).wf() ==> final(self).wf(),
    {
        self.expr_from_kind(ExprKind::Boolean(BoolExpr { value, token }))
    }

    /// Appends an expression in parentheses.
    pub fn parenthesized_expression(
        &mut self,
        left_paren: Token,
        expression: ExprId,
        right_paren: Token,
    ) -> (id: ExprId)
        ensures
            old(self).grown_by_expression(
                final(self),
                ExprKind::Parenthesized(
                    ParenthesizedExpr { left_paren, inner: expression, right_paren },
                ),
                id,
            ),
            old(self).wf() && expression.index < old(self).expressions.len() ==> final(self).wf(),
    {
        self.expr_from_kind(
            ExprKind::Parenthesized(
                ParenthesizedExpr { left_paren, inner: expression, right_paren },
            ),
        )
    }

    /// Appends the application of a unary operator.
    pub fn unary_expression(&mut self, operator: UnOperator, operand: ExprId) -> (id: ExprId)
        ensures
            old(self).grown_by_expression(
                final(self),
                ExprKind::Unary(UnaryExpr { operator, operand }),
                id,
            ),
            old(self).wf() && operand.index < old(self).expressions.len() ==> final(self).wf(),
    {
        self.expr_from_kind(ExprKind::Unary(UnaryExpr { operator, operand }))
    }

    /// Appends the application of a binary operator.
    pub fn binary_expression(&mut self, operator: BinOperator, left: ExprId, right: ExprId) -> (id:
        ExprId)
        ensures
            old(self).grown_by_expression(
                final(self),
                ExprKind::Binary(BinaryExpr { left, operator, right }),
                id,
            ),
            old(self).wf() && left.index < old(self).expressions.len() && right.index < old(
                self,
            ).expressions.len() ==> final(self).wf(),
    {
        self.expr_from_kind(ExprKind::Binary(BinaryExpr { left, operator, right }))
    }

    /// Appends a reference to a variable, not yet resolved.
    pub fn variable_expression(&mut self, identifier: Token) -> (id: ExprId)
        ensures
            old(self).grown_by_expression(
                final(self),
                ExprKind::Variable(VarExpr { identifier, variable_idx: VariableIdx { index: 0 } }),
                id,
            ),
            old(self).wf() ==> final(self).wf(),
    {
        self.expr_from_kind(
            ExprKind::Variable(VarExpr { identifier, variable_idx: VariableIdx::new(0) }),
        )
    }

    /// Appends an assignment, its target not yet resolved.
    pub fn assignment_expression(
        &mut self,
        identifier: Token,
        equals: Token,
        expression: ExprId,
    ) -> (id: ExprId)
        ensures
            old(self).grown_by_expression(
                final(self),
                ExprKind::Assignment(
                    AssignExpr {
                        identifier,
                        equals,
                        expression,
                        variable_idx: VariableIdx { index: 0 },
                    },
                ),
                id,
            ),
            old(self).wf() && expression.index < old(self).expressions.len() ==> final(self).wf(),
    {
        self.expr_from_kind(
            ExprKind::Assignment(
                AssignExpr { identifier, equals, expression, variable_idx: VariableIdx::new(0) },
            ),
        )
    }

    /// Appends a call, its callee not yet resolved.
    pub fn call_expression(
        &mut self,
        callee: Token,
        left_paren: Token,
        arguments: Vec<ExprId>,
        right_paren: Token,
    ) -> (id: ExprId)
        ensures
            old(self).grown_by_expression(
                final(self),
                ExprKind::Call(
                    CallExpr {
                        callee,
                        left_paren,
                        arguments,
                        right_paren,
                        function_idx: FunctionIdx { index: usize::MAX },
                    },
                ),
                id,
            ),
            old(self).wf() && exprs_below(arguments@, old(self).expressions.len() as int)
                ==> final(self).wf(),
    {
        self.expr_from_kind(
            ExprKind::Call(
                CallExpr {
                    callee,
                    left_paren,
                    arguments,
                    right_paren,
                    function_idx: FunctionIdx::unreachable(),
                },
            ),
        )
    }

    /// Appends a block.
    pub fn block_expression(
        &mut self,
        left_brace: Token,
        statements: Vec<StmtId>,
        right_brace: Token,
    ) -> (id: ExprId)
        ensures
            old(self).grown_by_expression(
                final(self),
                ExprKind::Block(BlockExpr { left_brace, stmts: statements, right_brace }),
                id,
            ),
            old(self).wf() && stmts_below(statements@, old(self).statements.len() as int)
                ==> final(self).wf(),
    {
        self.expr_from_kind(
            ExprKind::Block(BlockExpr { left_brace, stmts: statements, right_brace }),
        )
    }

    /// Appends a conditional.
    pub fn if_expression(
        &mut self,
        if_keyword: Token,
        condition: ExprId,
        then_branch: Body,
        else_branch: Option<ElseBranch>,
    ) -> (id: ExprId)
        ensures
            old(self).grown_by_expression(
                final(self),
                ExprKind::If(IfExpr { if_keyword, condition, then_branch, else_branch }),
                id,
            ),
            ({
                &&& old(self).wf()
                &&& condition.index < old(self).expressions.len()
                &&& stmts_below(then_branch@, old(self).statements.len() as int)
                &&& else_branch matches Some(branch) ==> stmts_below(
                    branch.body@,
                    old(self).statements.len() as int,
                )
            }) ==> final(self).wf(),
    {
        self.expr_from_kind(
            ExprKind::If(IfExpr { if_keyword, condition, then_branch, else_branch }),
        )
    }

    /// Appends the placeholder for malformed input.
    pub fn error_expression(&mut self, span: TextSpan) -> (id: ExprId)
        ensures
            old(self).grown_by_expression(final(self), ExprKind::Error(span), id),
            old(self).wf() ==> final(self).wf(),
    {
        self.expr_from_kind(ExprKind::Error(span))
    }

    /// Appends an expression used as a statement.
    pub fn expression_statement(&mut self, expr_id: ExprId) -> (id: StmtId)
        ensures
            old(self).grown_by_statement(final(self), StmtKind::Expr(expr_id), id),
            old(self).wf() && expr_id.index < old(self).expressions.len() ==> final(self).wf(),
    {
        self.stmt_of_kind(StmtKind::Expr(expr_id))
    }

    /// Appends a `let`, its variable not yet resolved.
    pub fn let_statement(
        &mut self,
        identifier: Token,
        initializer: ExprId,
        type_annotation: Option<StaticTypeAnnotation>,
    ) -> (id: StmtId)
        ensures
            old(self).grown_by_statement(
                final(self),
                StmtKind::Let(
                    LetStmt {
                        identifier,
                        initializer,
                        type_annotation,
                        variable_idx: VariableIdx { index: 0 },
                    },
                ),
                id,
            ),
            old(self).wf() && initializer.index < old(self).expressions.len()
                ==> final(self).wf(),
    {
        self.stmt_of_kind(
            StmtKind::Let(
                LetStmt {
                    identifier,
                    initializer,
                    type_annotation,
                    variable_idx: VariableIdx::new(0),
                },
            ),
        )
    }

    /// Appends a `while` loop.
    pub fn while_statement(&mut self, while_keyword: Token, condition: ExprId, body: Body) -> (id:
        StmtId)
        ensures
            old(self).grown_by_statement(
                final(self),
                StmtKind::While(WhileStmt { while_keyword, condition, body }),
                id,
            ),
            old(self).wf() && condition.index < old(self).expressions.len() && stmts_below(
                body@,
                old(self).statements.len() as int,
            ) ==> final(self).wf(),
    {
        self.stmt_of_kind(StmtKind::While(WhileStmt { while_keyword, condition, body }))
    }

    /// Appends a `return`.
    pub fn return_statement(&mut self, return_keyword: Token, return_value: Option<ExprId>) -> (id:
        StmtId)
        ensures
            old(self).grown_by_statement(
                final(self),
                StmtKind::Return(ReturnStmt { return_keyword, return_value }),
                id,
            ),
            old(self).wf() && (return_value matches Some(value) ==> value.index < old(
                self,
            ).expressions.len()) ==> final(self).wf(),
    {
        self.stmt_of_kind(StmtKind::Return(ReturnStmt { return_keyword, return_value }))
    }

    /// Appends a `break`.
    pub fn break_statement(&mut self, break_keyword: Token) -> (id: StmtId)
        ensures
            old(self).grown_by_statement(
                final(self),
                StmtKind::Break(BreakStmt { break_keyword }),
                id,
            ),
            old(self).wf() ==> final(self).wf(),
    {
        self.stmt_of_kind(StmtKind::Break(BreakStmt { break_keyword }))
    }

    /// Appends a `continue`.
    pub fn continue_statement(&mut self, continue_keyword: Token) -> (id: StmtId)
        ensures
            old(self).grown_by_statement(
                final(self),
                StmtKind::Continue(ContinueStmt { continue_keyword }),
                id,
            ),
            old(self).wf() ==> final(self).wf(),
    {
        self.stmt_of_kind(StmtKind::Continue(ContinueStmt { continue_keyword }))
    }

    /// Appends a function declaration.
    pub fn func_item(
        &mut self,
        func_keyword: Token,
        identifier: Token,
        parameters: Vec<FuncDeclParameter>,
        body: Body,
        return_type: Option<FunctionReturnTypeSyntax>,
        function_idx: FunctionIdx,
    ) -> (id: ItemId)
        ensures
            old(self).grown_by_item(
                final(self),
                ItemKind::Function(
                    FuncDeclaration {
                        func_keyword,
                        identifier,
                        parameters,
                        body,
                        return_type,
                        idx: function_idx,
                    },
                ),
                id,
            ),
            old(self).wf() && stmts_below(body@, old(self).statements.len() as int)
                ==> final(self).wf(),
    {
        self.item_from_kind(
            ItemKind::Function(
                FuncDeclaration {
                    func_keyword,
                    identifier,
                    parameters,
                    body,
                    return_type,
                    idx: function_idx,
                },
            ),
        )
    }

    /// Appends a statement as an item of the program.
    pub fn statement_item(&mut self, statement: StmtId) -> (id: ItemId)
        ensures
            old(self).grown_by_item(final(self), ItemKind::Stmt(statement), id),
            old(self).wf() && statement.index < old(self).statements.len() ==> final(self).wf(),
    {
        self.item_from_kind(ItemKind::Stmt(statement))
    }
}

} // verus!
