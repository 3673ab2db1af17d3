//! The traversal protocol: a visitor says what it does at each kind of node,
//! and one walk, the same for all visitors, takes it through the tree.
//!
//! The walk calls the visitor's method for a node when it arrives there. The
//! method says whether the walk is to go on into the node. If so, it goes
//! to the nodes that this one refers to, in source order: the statements of
//! a body one after the other, the left operand before the right, a
//! condition before the branches, the arguments of a call from first to
//! last. What a visitor has gathered is a mathematical value, its state;
//! arriving at a node is a function on states, and the walk is the
//! composition of these functions in that order.

use vstd::prelude::*;
use crate::definitions::ranks::{ceiling, lemma_ceiling_is_above};
use crate::definitions::{
    AssignExpr, Ast, BinaryExpr, BlockExpr, Body, BoolExpr, BreakStmt, CallExpr, ContinueStmt, Expr,
    ExprId, ExprKind, FuncDeclaration, IfExpr, Item, ItemId, ItemKind, LetStmt, NumberExpr,
    ParenthesizedExpr, ReturnStmt, Stmt, StmtId, StmtKind, UnaryExpr, VarExpr, WhileStmt,
    exprs_below, stmts_below,
};
use crate::text::span::TextSpan;

verus! {

impl Ast {
    /// Whether `expr` is the node that the arena holds under its index.
    pub open spec fn holds_expression(&self, expr: &Expr) -> bool {
        expr.id.index < self.expressions.len() && self.expressions[expr.id.index as int] == *expr
    }

    /// Whether `stmt` is the node that the arena holds under its index.
    pub open spec fn holds_statement(&self, stmt: &Stmt) -> bool {
        stmt.id.index < self.statements.len() && self.statements[stmt.id.index as int] == *stmt
    }

    /// A height above those of all the statements in `body`.
    pub open spec fn body_rank(&self, body: Seq<StmtId>) -> nat {
        ceiling(body.map_values(|s: StmtId| self.statement_rank(s)))
    }

    /// A height above those of all the expressions in `list`.
    pub open spec fn list_rank(&self, list: Seq<ExprId>) -> nat {
        ceiling(list.map_values(|e: ExprId| self.expression_rank(e)))
    }

    /// In a well-formed arena, what an expression refers to is in the arena
    /// and lower than the expression.
    pub proof fn lemma_expression_children_lower(&self, id: ExprId)
        requires
            self.wf(),
            id.index < self.expressions.len(),
        ensures
            self.expressions[id.index as int].kind.children_lower(
                self.ranks(),
                self.expression_rank(id),
            ),
            self.ranks().expressions.len() == self.expressions.len(),
            self.ranks().statements.len() == self.statements.len(),
    {
    }

    /// In a well-formed arena, what a statement refers to is in the arena
    /// and lower than the statement.
    pub proof fn lemma_statement_children_lower(&self, id: StmtId)
        requires
            self.wf(),
            id.index < self.statements.len(),
        ensures
            self.statements[id.index as int].kind.children_lower(
                self.ranks(),
                self.statement_rank(id),
            ),
            self.ranks().expressions.len() == self.expressions.len(),
            self.ranks().statements.len() == self.statements.len(),
    {
    }

    /// A body whose statements are lower than `bound` is in the arena, is
    /// not higher than `bound`, and is higher than each of its statements.
    pub proof fn lemma_body_rank(&self, body: Seq<StmtId>, bound: nat)
        requires
            self.ranks().statements.len() == self.statements.len(),
            self.ranks().statements_below(body, bound),
        ensures
            stmts_below(body, self.statements.len() as int),
            self.body_rank(body) <= bound,
            forall|i: int|
                0 <= i < body.len() ==> self.statement_rank(#[trigger] body[i]) < self.body_rank(
                    body,
                ),
    {
        let heights = body.map_values(|s: StmtId| self.statement_rank(s));
        assert forall|i: int| 0 <= i < heights.len() implies #[trigger] heights[i] < bound by {
            assert(self.ranks().statement_below(body[i], bound));
        }
        lemma_ceiling_at_most(heights, bound);
        assert forall|i: int| 0 <= i < body.len() implies self.statement_rank(#[trigger] body[i])
            < self.body_rank(body) by {
            lemma_ceiling_is_above(heights, i);
        }
        assert forall|i: int| 0 <= i < body.len() implies (#[trigger] body[i]).index
            < self.statements.len() by {
            assert(self.ranks().statement_below(body[i], bound));
        }
    }

    /// A list of expressions that are lower than `bound` is in the arena, is
    /// not higher than `bound`, and is higher than each of its expressions.
    pub proof fn lemma_list_rank(&self, list: Seq<ExprId>, bound: nat)
        requires
            self.ranks().expressions.len() == self.expressions.len(),
            self.ranks().expressions_below(list, bound),
        ensures
            exprs_below(list, self.expressions.len() as int),
            self.list_rank(list) <= bound,
            forall|i: int|
                0 <= i < list.len() ==> self.expression_rank(#[trigger] list[i]) < self.list_rank(
                    list,
                ),
    {
        let heights = list.map_values(|e: ExprId| self.expression_rank(e));
        assert forall|i: int| 0 <= i < heights.len() implies #[trigger] heights[i] < bound by {
            assert(self.ranks().expression_below(list[i], bound));
        }
        lemma_ceiling_at_most(heights, bound);
        assert forall|i: int| 0 <= i < list.len() implies self.expression_rank(#[trigger] list[i])
            < self.list_rank(list) by {
            lemma_ceiling_is_above(heights, i);
        }
        assert forall|i: int| 0 <= i < list.len() implies (#[trigger] list[i]).index
            < self.expressions.len() by {
            assert(self.ranks().expression_below(list[i], bound));
        }
    }

    /// The statements of an item of a well-formed arena are in the arena,
    /// and a body is higher than each of its statements.
    pub proof fn lemma_body_in_arena(&self, body: Seq<StmtId>)
        requires
            self.wf(),
            stmts_below(body, self.statements.len() as int),
        ensures
            forall|i: int|
                0 <= i < body.len() ==> self.statement_rank(#[trigger] body[i]) < self.body_rank(
                    body,
                ),
    {
        let heights = body.map_values(|s: StmtId| self.statement_rank(s));
        assert forall|i: int| 0 <= i < body.len() implies self.statement_rank(#[trigger] body[i])
            < self.body_rank(body) by {
            lemma_ceiling_is_above(heights, i);
        }
    }
}

/// Heights that are all below a bound have a ceiling that is not above
/// it.
pub proof fn lemma_ceiling_at_most(heights: Seq<nat>, bound: nat)
    requires
        forall|i: int| 0 <= i < heights.len() ==> #[trigger] heights[i] < bound,
    ensures
        ceiling(heights) <= bound,
    decreases heights.len(),
{
    if heights.len() > 0 {
        lemma_ceiling_at_most(heights.drop_last(), bound);
    }
}

/// A node that a walk arrives at: a function declaration, a statement that
/// is not a mere expression, or an expression.
#[derive(Debug, Clone, Copy, PartialEq, Eq, Structural)]
pub enum NodeId {
    Item(ItemId),
    Statement(StmtId),
    Expression(ExprId),
}

/// What the walk does behind a node at which it has arrived.
#[derive(Debug, Clone, Copy, PartialEq, Eq, Structural)]
pub enum Walk {
    /// It goes on to the nodes that the node refers to.
    Descend,
    /// It leaves them out: the visitor has dealt with the node as a whole.
    Skip,
}

/// What a pass over the tree does at each kind of node.
///
/// Every method is called when the walk arrives at a node of its kind, with
/// the node and its payload. It must do to the visitor's state what
/// `arrive` says of that node, and answer as `descends` says. It is not to
/// call the walk.
pub trait ASTVisitor: Sized {
    /// What a visitor has gathered, as a mathematical value.
    type State;

    /// What a visitor needs to be true of itself, and keeps true.
    spec fn inv(&self) -> bool;

    spec fn state(&self) -> Self::State;

    /// What the state becomes when the walk arrives at `node`.
    spec fn arrive(state: Self::State, ast: &Ast, node: NodeId) -> Self::State;

    /// Whether the walk, arriving at `node` in the given state, is to go on
    /// into it.
    spec fn descends(state: Self::State, ast: &Ast, node: NodeId) -> bool;

    fn visit_func_decl(
        &mut self,
        ast: &Ast,
        func_decl: &FuncDeclaration,
        item_id: ItemId,
    ) -> (walk: Walk)
        requires
            old(self).inv(),
            ast.wf(),
            item_id.index < ast.items.len(),
            ast.items[item_id.index as int].kind == ItemKind::Function(*func_decl),
        ensures
            final(self).inv(),
            final(self).state() == Self::arrive(old(self).state(), ast, NodeId::Item(item_id)),
            (walk == Walk::Descend) == Self::descends(old(self).state(), ast, NodeId::Item(item_id)),
    ;

    fn visit_let_statement(
        &mut self,
        ast: &Ast,
        let_statement: &LetStmt,
        stmt: &Stmt,
    ) -> (walk: Walk)
        requires
            old(self).inv(),
            ast.wf(),
            ast.holds_statement(stmt),
            stmt.kind == StmtKind::Let(*let_statement),
        ensures
            final(self).inv(),
            final(self).state() == Self::arrive(old(self).state(), ast, NodeId::Statement(stmt.id)),
            (walk == Walk::Descend) == Self::descends(old(self).state(), ast, NodeId::Statement(stmt.id)),
    ;

    fn visit_while_statement(
        &mut self,
        ast: &Ast,
        while_statement: &WhileStmt,
        stmt: &Stmt,
    ) -> (walk: Walk)
        requires
            old(self).inv(),
            ast.wf(),
            ast.holds_statement(stmt),
            stmt.kind == StmtKind::While(*while_statement),
        ensures
            final(self).inv(),
            final(self).state() == Self::arrive(old(self).state(), ast, NodeId::Statement(stmt.id)),
            (walk == Walk::Descend) == Self::descends(old(self).state(), ast, NodeId::Statement(stmt.id)),
    ;

    fn visit_return_statement(
        &mut self,
        ast: &Ast,
        return_statement: &ReturnStmt,
        stmt: &Stmt,
    ) -> (walk: Walk)
        requires
            old(self).inv(),
            ast.wf(),
            ast.holds_statement(stmt),
            stmt.kind == StmtKind::Return(*return_statement),
        ensures
            final(self).inv(),
            final(self).state() == Self::arrive(old(self).state(), ast, NodeId::Statement(stmt.id)),
            (walk == Walk::Descend) == Self::descends(old(self).state(), ast, NodeId::Statement(stmt.id)),
    ;

    fn visit_break_statement(
        &mut self,
        ast: &Ast,
        break_statement: &BreakStmt,
        stmt: &Stmt,
    ) -> (walk: Walk)
        requires
            old(self).inv(),
            ast.wf(),
            ast.holds_statement(stmt),
            stmt.kind == StmtKind::Break(*break_statement),
        ensures
            final(self).inv(),
            final(self).state() == Self::arrive(old(self).state(), ast, NodeId::Statement(stmt.id)),
            (walk == Walk::Descend) == Self::descends(old(self).state(), ast, NodeId::Statement(stmt.id)),
    ;

    fn visit_continue_statement(
        &mut self,
        ast: &Ast,
        continue_statement: &ContinueStmt,
        stmt: &Stmt,
    ) -> (walk: Walk)
        requires
            old(self).inv(),
            ast.wf(),
            ast.holds_statement(stmt),
            stmt.kind == StmtKind::Continue(*continue_statement),
        ensures
            final(self).inv(),
            final(self).state() == Self::arrive(old(self).state(), ast, NodeId::Statement(stmt.id)),
            (walk == Walk::Descend) == Self::descends(old(self).state(), ast, NodeId::Statement(stmt.id)),
    ;

    fn visit_number_expression(
        &mut self,
        ast: &Ast,
        number: &NumberExpr,
        expr: &Expr,
    ) -> (walk: Walk)
        requires
            old(self).inv(),
            ast.wf(),
            ast.holds_expression(expr),
            expr.kind == ExprKind::Number(*number),
        ensures
            final(self).inv(),
            final(self).state() == Self::arrive(old(self).state(), ast, NodeId::Expression(expr.id)),
            (walk == Walk::Descend) == Self::descends(old(self).state(), ast, NodeId::Expression(expr.id)),
    ;

    fn visit_boolean_expression(
        &mut self,
        ast: &Ast,
        boolean: &BoolExpr,
        expr: &Expr,
    ) -> (walk: Walk)
        requires
            old(self).inv(),
            ast.wf(),
            ast.holds_expression(expr),
            expr.kind == ExprKind::Boolean(*boolean),
        ensures
            final(self).inv(),
            final(self).state() == Self::arrive(old(self).state(), ast, NodeId::Expression(expr.id)),
            (walk == Walk::Descend) == Self::descends(old(self).state(), ast, NodeId::Expression(expr.id)),
    ;

    fn visit_variable_expression(
        &mut self,
        ast: &Ast,
        variable: &VarExpr,
        expr: &Expr,
    ) -> (walk: Walk)
        requires
            old(self).inv(),
            ast.wf(),
            ast.holds_expression(expr),
            expr.kind == ExprKind::Variable(*variable),
        ensures
            final(self).inv(),
            final(self).state() == Self::arrive(old(self).state(), ast, NodeId::Expression(expr.id)),
            (walk == Walk::Descend) == Self::descends(old(self).state(), ast, NodeId::Expression(expr.id)),
    ;

    fn visit_error(&mut self, ast: &Ast, span: &TextSpan, expr: &Expr) -> (walk: Walk)
        requires
            old(self).inv(),
            ast.wf(),
            ast.holds_expression(expr),
            expr.kind == ExprKind::Error(*span),
        ensures
            final(self).inv(),
            final(self).state() == Self::arrive(old(self).state(), ast, NodeId::Expression(expr.id)),
            (walk == Walk::Descend) == Self::descends(old(self).state(), ast, NodeId::Expression(expr.id)),
    ;

    fn visit_parenthesized_expression(
        &mut self,
        ast: &Ast,
        parenthesized: &ParenthesizedExpr,
        expr: &Expr,
    ) -> (walk: Walk)
        requires
            old(self).inv(),
            ast.wf(),
            ast.holds_expression(expr),
            expr.kind == ExprKind::Parenthesized(*parenthesized),
        ensures
            final(self).inv(),
            final(self).state() == Self::arrive(old(self).state(), ast, NodeId::Expression(expr.id)),
            (walk == Walk::Descend) == Self::descends(old(self).state(), ast, NodeId::Expression(expr.id)),
    ;

    fn visit_unary_expression(&mut self, ast: &Ast, unary: &UnaryExpr, expr: &Expr) -> (walk: Walk)
        requires
            old(self).inv(),
            ast.wf(),
            ast.holds_expression(expr),
            expr.kind == ExprKind::Unary(*unary),
        ensures
            final(self).inv(),
            final(self).state() == Self::arrive(old(self).state(), ast, NodeId::Expression(expr.id)),
            (walk == Walk::Descend) == Self::descends(old(self).state(), ast, NodeId::Expression(expr.id)),
    ;

    fn visit_binary_expression(
        &mut self,
        ast: &Ast,
        binary: &BinaryExpr,
        expr: &Expr,
    ) -> (walk: Walk)
        requires
            old(self).inv(),
            ast.wf(),
            ast.holds_expression(expr),
            expr.kind == ExprKind::Binary(*binary),
        ensures
            final(self).inv(),
            final(self).state() == Self::arrive(old(self).state(), ast, NodeId::Expression(expr.id)),
            (walk == Walk::Descend) == Self::descends(old(self).state(), ast, NodeId::Expression(expr.id)),
    ;

    fn visit_assignment_expression(
        &mut self,
        ast: &Ast,
        assignment: &AssignExpr,
        expr: &Expr,
    ) -> (walk: Walk)
        requires
            old(self).inv(),
            ast.wf(),
            ast.holds_expression(expr),
            expr.kind == ExprKind::Assignment(*assignment),
        ensures
            final(self).inv(),
            final(self).state() == Self::arrive(old(self).state(), ast, NodeId::Expression(expr.id)),
            (walk == Walk::Descend) == Self::descends(old(self).state(), ast, NodeId::Expression(expr.id)),
    ;

    fn visit_call_expression(&mut self, ast: &Ast, call: &CallExpr, expr: &Expr) -> (walk: Walk)
        requires
            old(self).inv(),
            ast.wf(),
            ast.holds_expression(expr),
            expr.kind == ExprKind::Call(*call),
        ensures
            final(self).inv(),
            final(self).state() == Self::arrive(old(self).state(), ast, NodeId::Expression(expr.id)),
            (walk == Walk::Descend) == Self::descends(old(self).state(), ast, NodeId::Expression(expr.id)),
    ;

    fn visit_block_expr(&mut self, ast: &Ast, block: &BlockExpr, expr: &Expr) -> (walk: Walk)
        requires
            old(self).inv(),
            ast.wf(),
            ast.holds_expression(expr),
            expr.kind == ExprKind::Block(*block),
        ensures
            final(self).inv(),
            final(self).state() == Self::arrive(old(self).state(), ast, NodeId::Expression(expr.id)),
            (walk == Walk::Descend) == Self::descends(old(self).state(), ast, NodeId::Expression(expr.id)),
    ;

    fn visit_if_expression(
        &mut self,
        ast: &Ast,
        if_expression: &IfExpr,
        expr: &Expr,
    ) -> (walk: Walk)
        requires
            old(self).inv(),
            ast.wf(),
            ast.holds_expression(expr),
            expr.kind == ExprKind::If(*if_expression),
        ensures
            final(self).inv(),
            final(self).state() == Self::arrive(old(self).state(), ast, NodeId::Expression(expr.id)),
            (walk == Walk::Descend) == Self::descends(old(self).state(), ast, NodeId::Expression(expr.id)),
    ;
}

/// The walk through an expression: the visitor's function for the node,
/// and then, if the visitor has it so, the walks through the nodes it
/// refers to, in source order.
pub open spec fn walk_expression<V: ASTVisitor>(state: V::State, ast: &Ast, id: ExprId) -> V::State
    decreases ast.expression_rank(id), 1nat, 0nat,
    when ast.wf() && id.index < ast.expressions.len()
{
    let arrived = V::arrive(state, ast, NodeId::Expression(id));
    if !V::descends(state, ast, NodeId::Expression(id)) {
        arrived
    } else {
        match ast.expressions[id.index as int].kind {
            ExprKind::Number(_) => arrived,
            ExprKind::Boolean(_) => arrived,
            ExprKind::Variable(_) => arrived,
            ExprKind::Error(_) => arrived,
            ExprKind::Parenthesized(e) => {
                proof {
                    ast.lemma_expression_children_lower(id);
                }
                walk_expression::<V>(arrived, ast, e.inner)
            },
            ExprKind::Unary(e) => {
                proof {
                    ast.lemma_expression_children_lower(id);
                }
                walk_expression::<V>(arrived, ast, e.operand)
            },
            ExprKind::Binary(e) => {
                proof {
                    ast.lemma_expression_children_lower(id);
                }
                walk_expression::<V>(walk_expression::<V>(arrived, ast, e.left), ast, e.right)
            },
            ExprKind::Assignment(e) => {
                proof {
                    ast.lemma_expression_children_lower(id);
                }
                walk_expression::<V>(arrived, ast, e.expression)
            },
            ExprKind::Call(e) => {
                proof {
                    ast.lemma_expression_children_lower(id);
                    ast.lemma_list_rank(e.arguments@, ast.expression_rank(id));
                }
                walk_expressions::<V>(arrived, ast, e.arguments@, 0)
            },
            ExprKind::Block(e) => {
                proof {
                    ast.lemma_expression_children_lower(id);
                    ast.lemma_body_rank(e.stmts@, ast.expression_rank(id));
                }
                walk_statements::<V>(arrived, ast, e.stmts@, 0)
            },
            ExprKind::If(e) => {
                proof {
                    ast.lemma_expression_children_lower(id);
                    ast.lemma_body_rank(e.then_branch@, ast.expression_rank(id));
                    if let Some(branch) = e.else_branch {
                        ast.lemma_body_rank(branch.body@, ast.expression_rank(id));
                    }
                }
                let decided = walk_expression::<V>(arrived, ast, e.condition);
                let first = walk_statements::<V>(decided, ast, e.then_branch@, 0);
                match e.else_branch {
                    Some(branch) => walk_statements::<V>(first, ast, branch.body@, 0),
                    None => first,
                }
            },
        }
    }
}

/// The walk through a list of expressions from the one at `from` on.
pub open spec fn walk_expressions<V: ASTVisitor>(
    state: V::State,
    ast: &Ast,
    list: Seq<ExprId>,
    from: int,
) -> V::State
    decreases ast.list_rank(list), 0nat, list.len() - from,
    when ast.wf() && exprs_below(list, ast.expressions.len() as int) && 0 <= from
{
    if from >= list.len() {
        state
    } else {
        proof {
            lemma_ceiling_is_above(list.map_values(|e: ExprId| ast.expression_rank(e)), from);
        }
        walk_expressions::<V>(walk_expression::<V>(state, ast, list[from]), ast, list, from + 1)
    }
}

/// The walk through a statement: the visitor's function for the node, and
/// then, if the visitor has it so, the walks through the nodes it refers
/// to, in source order. For an expression statement there is no function:
/// the walk goes through the expression.
pub open spec fn walk_statement<V: ASTVisitor>(state: V::State, ast: &Ast, id: StmtId) -> V::State
    decreases ast.statement_rank(id), 1nat, 0nat,
    when ast.wf() && id.index < ast.statements.len()
{
    match ast.statements[id.index as int].kind {
        StmtKind::Expr(e) => {
            proof {
                ast.lemma_statement_children_lower(id);
            }
            walk_expression::<V>(state, ast, e)
        },
        kind => {
            let arrived = V::arrive(state, ast, NodeId::Statement(id));
            if !V::descends(state, ast, NodeId::Statement(id)) {
                arrived
            } else {
                match kind {
                    StmtKind::Let(s) => {
                        proof {
                            ast.lemma_statement_children_lower(id);
                        }
                        walk_expression::<V>(arrived, ast, s.initializer)
                    },
                    StmtKind::While(s) => {
                        proof {
                            ast.lemma_statement_children_lower(id);
                            ast.lemma_body_rank(s.body@, ast.statement_rank(id));
                        }
                        walk_statements::<V>(
                            walk_expression::<V>(arrived, ast, s.condition),
                            ast,
                            s.body@,
                            0,
                        )
                    },
                    StmtKind::Return(s) => {
                        proof {
                            ast.lemma_statement_children_lower(id);
                        }
                        match s.return_value {
                            Some(e) => walk_expression::<V>(arrived, ast, e),
                            None => arrived,
                        }
                    },
                    _ => arrived,
                }
            }
        },
    }
}

/// The walk through a list of statements from the one at `from` on.
pub open spec fn walk_statements<V: ASTVisitor>(
    state: V::State,
    ast: &Ast,
    body: Seq<StmtId>,
    from: int,
) -> V::State
    decreases ast.body_rank(body), 0nat, body.len() - from,
    when ast.wf() && stmts_below(body, ast.statements.len() as int) && 0 <= from
{
    if from >= body.len() {
        state
    } else {
        proof {
            lemma_ceiling_is_above(body.map_values(|s: StmtId| ast.statement_rank(s)), from);
        }
        walk_statements::<V>(walk_statement::<V>(state, ast, body[from]), ast, body, from + 1)
    }
}

/// The walk through an item: through the statement, if it is one; for a
/// function declaration, the visitor's function and then, if the visitor has
/// it so, the walk through the body.
pub open spec fn walk_item<V: ASTVisitor>(state: V::State, ast: &Ast, id: ItemId) -> V::State {
    match ast.items[id.index as int].kind {
        ItemKind::Stmt(s) => walk_statement::<V>(state, ast, s),
        ItemKind::Function(f) => {
            let arrived = V::arrive(state, ast, NodeId::Item(id));
            if V::descends(state, ast, NodeId::Item(id)) {
                walk_statements::<V>(arrived, ast, f.body@, 0)
            } else {
                arrived
            }
        },
    }
}

/// The walk through the items of an arena from the one at `from` on.
pub open spec fn walk_items<V: ASTVisitor>(state: V::State, ast: &Ast, from: int) -> V::State
    decreases ast.items.len() - from,
{
    if from < 0 || from >= ast.items.len() {
        state
    } else {
        walk_items::<V>(walk_item::<V>(state, ast, ItemId { index: from as usize }), ast, from + 1)
    }
}

/// Takes a visitor through an item.
pub fn visit_item<V: ASTVisitor>(visitor: &mut V, ast: &Ast, item: ItemId)
    requires
        old(visitor).inv(),
        ast.wf(),
        item.index < ast.items.len(),
    ensures
        final(visitor).inv(),
        final(visitor).state() == walk_item::<V>(old(visitor).state(), ast, item),
{
    match &ast.query_item(item).kind {
        ItemKind::Stmt(stmt) => visit_statement(visitor, ast, *stmt),
        ItemKind::Function(func_decl) => {
            match visitor.visit_func_decl(ast, func_decl, item) {
                Walk::Descend => {
                    visit_body(visitor, ast, &func_decl.body);
                },
                Walk::Skip => {},
            }
        },
    }
}

/// Takes a visitor through the statements of a body, in order.
pub fn visit_body<V: ASTVisitor>(visitor: &mut V, ast: &Ast, body: &Body)
    requires
        old(visitor).inv(),
        ast.wf(),
        stmts_below(body@, ast.statements.len() as int),
    ensures
        final(visitor).inv(),
        final(visitor).state() == walk_statements::<V>(old(visitor).state(), ast, body@, 0),
    decreases ast.body_rank(body@), 0nat, body.len(),
{
    let mut i: usize = 0;
    while i < body.len()
        invariant
            visitor.inv(),
            ast.wf(),
            stmts_below(body@, ast.statements.len() as int),
            i <= body.len(),
            walk_statements::<V>(old(visitor).state(), ast, body@, 0) == walk_statements::<V>(
                visitor.state(),
                ast,
                body@,
                i as int,
            ),
        decreases body.len() - i,
    {
        proof {
            ast.lemma_body_in_arena(body@);
        }
        visit_statement(visitor, ast, body[i]);
        i = i + 1;
    }
}

/// Takes a visitor through a statement.
pub fn visit_statement<V: ASTVisitor>(visitor: &mut V, ast: &Ast, statement: StmtId)
    requires
        old(visitor).inv(),
        ast.wf(),
        statement.index < ast.statements.len(),
    ensures
        final(visitor).inv(),
        final(visitor).state() == walk_statement::<V>(old(visitor).state(), ast, statement),
    decreases ast.statement_rank(statement), 1nat, 0nat,
{
    let stmt = ast.query_statement(statement);
    proof {
        ast.lemma_statement_children_lower(statement);
    }
    match &stmt.kind {
        StmtKind::Expr(expr) => {
            visit_expression(visitor, ast, *expr);
        },
        StmtKind::Let(let_statement) => {
            match visitor.visit_let_statement(ast, let_statement, stmt) {
                Walk::Descend => {
                    visit_expression(visitor, ast, let_statement.initializer);
                },
                Walk::Skip => {},
            }
        },
        StmtKind::While(while_statement) => {
            proof {
                ast.lemma_body_rank(while_statement.body@, ast.statement_rank(statement));
            }
            match visitor.visit_while_statement(ast, while_statement, stmt) {
                Walk::Descend => {
                    visit_expression(visitor, ast, while_statement.condition);
                    visit_body(visitor, ast, &while_statement.body);
                },
                Walk::Skip => {},
            }
        },
        StmtKind::Return(return_statement) => {
            match visitor.visit_return_statement(ast, return_statement, stmt) {
                Walk::Descend => match &return_statement.return_value {
                    Some(expr) => {
                        visit_expression(visitor, ast, *expr);
                    },
                    None => {},
                },
                Walk::Skip => {},
            }
        },
        StmtKind::Break(break_statement) => {
            visitor.visit_break_statement(ast, break_statement, stmt);
        },
        StmtKind::Continue(continue_statement) => {
            visitor.visit_continue_statement(ast, continue_statement, stmt);
        },
    }
}

/// Takes a visitor through the expressions of a list, in order.
pub fn visit_expressions<V: ASTVisitor>(visitor: &mut V, ast: &Ast, list: &Vec<ExprId>)
    requires
        old(visitor).inv(),
        ast.wf(),
        exprs_below(list@, ast.expressions.len() as int),
    ensures
        final(visitor).inv(),
        final(visitor).state() == walk_expressions::<V>(old(visitor).state(), ast, list@, 0),
    decreases ast.list_rank(list@), 0nat, list.len(),
{
    let mut i: usize = 0;
    while i < list.len()
        invariant
            visitor.inv(),
            ast.wf(),
            exprs_below(list@, ast.expressions.len() as int),
            i <= list.len(),
            walk_expressions::<V>(old(visitor).state(), ast, list@, 0) == walk_expressions::<V>(
                visitor.state(),
                ast,
                list@,
                i as int,
            ),
        decreases list.len() - i,
    {
        proof {
            lemma_ceiling_is_above(
                list@.map_values(|e: ExprId| ast.expression_rank(e)),
                i as int,
            );
        }
        visit_expression(visitor, ast, list[i]);
        i = i + 1;
    }
}

/// Takes a visitor through an expression.
pub fn visit_expression<V: ASTVisitor>(visitor: &mut V, ast: &Ast, expression: ExprId)
    requires
        old(visitor).inv(),
        ast.wf(),
        expression.index < ast.expressions.len(),
    ensures
        final(visitor).inv(),
        final(visitor).state() == walk_expression::<V>(old(visitor).state(), ast, expression),
    decreases ast.expression_rank(expression), 1nat, 0nat,
{
    let expr = ast.query_expression(expression);
    proof {
        ast.lemma_expression_children_lower(expression);
    }
    match &expr.kind {
        ExprKind::Number(number) => {
            visitor.visit_number_expression(ast, number, expr);
        },
        ExprKind::Boolean(boolean) => {
            visitor.visit_boolean_expression(ast, boolean, expr);
        },
        ExprKind::Variable(variable) => {
            visitor.visit_variable_expression(ast, variable, expr);
        },
        ExprKind::Error(span) => {
            visitor.visit_error(ast, span, expr);
        },
        ExprKind::Parenthesized(parenthesized) => {
            match visitor.visit_parenthesized_expression(ast, parenthesized, expr) {
                Walk::Descend => {
                    visit_expression(visitor, ast, parenthesized.inner);
                },
                Walk::Skip => {},
            }
        },
        ExprKind::Unary(unary) => {
            match visitor.visit_unary_expression(ast, unary, expr) {
                Walk::Descend => {
                    visit_expression(visitor, ast, unary.operand);
                },
                Walk::Skip => {},
            }
        },
        ExprKind::Binary(binary) => {
            match visitor.visit_binary_expression(ast, binary, expr) {
                Walk::Descend => {
                    visit_expression(visitor, ast, binary.left);
                    visit_expression(visitor, ast, binary.right);
                },
                Walk::Skip => {},
            }
        },
        ExprKind::Assignment(assignment) => {
            match visitor.visit_assignment_expression(ast, assignment, expr) {
                Walk::Descend => {
                    visit_expression(visitor, ast, assignment.expression);
                },
                Walk::Skip => {},
            }
        },
        ExprKind::Call(call) => {
            proof {
                ast.lemma_list_rank(call.arguments@, ast.expression_rank(expression));
            }
            match visitor.visit_call_expression(ast, call, expr) {
                Walk::Descend => {
                    visit_expressions(visitor, ast, &call.arguments);
                },
                Walk::Skip => {},
            }
        },
        ExprKind::Block(block) => {
            proof {
                ast.lemma_body_rank(block.stmts@, ast.expression_rank(expression));
            }
            match visitor.visit_block_expr(ast, block, expr) {
                Walk::Descend => {
                    visit_body(visitor, ast, &block.stmts);
                },
                Walk::Skip => {},
            }
        },
        ExprKind::If(if_expression) => {
            proof {
                ast.lemma_body_rank(if_expression.then_branch@, ast.expression_rank(expression));
                if if_expression.else_branch is Some {
                    ast.lemma_body_rank(
                        if_expression.else_branch->0.body@,
                        ast.expression_rank(expression),
                    );
                }
            }
            match visitor.visit_if_expression(ast, if_expression, expr) {
                Walk::Descend => {
                    visit_expression(visitor, ast, if_expression.condition);
                    visit_body(visitor, ast, &if_expression.then_branch);
                    match &if_expression.else_branch {
                        Some(branch) => {
                            visit_body(visitor, ast, &branch.body);
                        },
                        None => {},
                    }
                },
                Walk::Skip => {},
            }
        },
    }
}

impl Ast {
    /// Takes a visitor through the whole tree: through every item, in
    /// order.
    pub fn visit<V: ASTVisitor>(&self, visitor: &mut V)
        requires
            old(visitor).inv(),
            self.wf(),
        ensures
            final(visitor).inv(),
            final(visitor).state() == walk_items::<V>(old(visitor).state(), self, 0),
    {
        let mut i: usize = 0;
        while i < self.items.len()
            invariant
                visitor.inv(),
                self.wf(),
                i <= self.items.len(),
                walk_items::<V>(old(visitor).state(), self, 0) == walk_items::<V>(
                    visitor.state(),
                    self,
                    i as int,
                ),
            decreases self.items.len() - i,
        {
            visit_item(visitor, self, ItemId::new(i));
            i = i + 1;
        }
    }
}

/// A visitor that writes down the nodes in the order in which the walk
/// arrives at them, and has the walk go everywhere.
#[derive(Debug)]
pub struct WalkOrder {
    pub nodes: Vec<NodeId>,
}

impl WalkOrder {
    pub fn new() -> (r: Self)
        ensures
            r.nodes@ == Seq::<NodeId>::empty(),
    {
        Self { nodes: Vec::new() }
    }
}

impl ASTVisitor for WalkOrder {
    type State = Seq<NodeId>;

    open spec fn inv(&self) -> bool {
        true
    }

    open spec fn state(&self) -> Seq<NodeId> {
        self.nodes@
    }

    open spec fn arrive(state: Seq<NodeId>, ast: &Ast, node: NodeId) -> Seq<NodeId> {
        state.push(node)
    }

    open spec fn descends(state: Seq<NodeId>, ast: &Ast, node: NodeId) -> bool {
        true
    }

    fn visit_func_decl(
        &mut self,
        ast: &Ast,
        func_decl: &FuncDeclaration,
        item_id: ItemId,
    ) -> (walk: Walk) {
        self.nodes.push(NodeId::Item(item_id));
        Walk::Descend
    }

    fn visit_let_statement(
        &mut self,
        ast: &Ast,
        let_statement: &LetStmt,
        stmt: &Stmt,
    ) -> (walk: Walk) {
        self.nodes.push(NodeId::Statement(stmt.id));
        Walk::Descend
    }

    fn visit_while_statement(
        &mut self,
        ast: &Ast,
        while_statement: &WhileStmt,
        stmt: &Stmt,
    ) -> (walk: Walk) {
        self.nodes.push(NodeId::Statement(stmt.id));
        Walk::Descend
    }

    fn visit_return_statement(
        &mut self,
        ast: &Ast,
        return_statement: &ReturnStmt,
        stmt: &Stmt,
    ) -> (walk: Walk) {
        self.nodes.push(NodeId::Statement(stmt.id));
        Walk::Descend
    }

    fn visit_break_statement(
        &mut self,
        ast: &Ast,
        break_statement: &BreakStmt,
        stmt: &Stmt,
    ) -> (walk: Walk) {
        self.nodes.push(NodeId::Statement(stmt.id));
        Walk::Descend
    }

    fn visit_continue_statement(
        &mut self,
        ast: &Ast,
        continue_statement: &ContinueStmt,
        stmt: &Stmt,
    ) -> (walk: Walk) {
        self.nodes.push(NodeId::Statement(stmt.id));
        Walk::Descend
    }

    fn visit_number_expression(
        &mut self,
        ast: &Ast,
        number: &NumberExpr,
        expr: &Expr,
    ) -> (walk: Walk) {
        self.nodes.push(NodeId::Expression(expr.id));
        Walk::Descend
    }

    fn visit_boolean_expression(
        &mut self,
        ast: &Ast,
        boolean: &BoolExpr,
        expr: &Expr,
    ) -> (walk: Walk) {
        self.nodes.push(NodeId::Expression(expr.id));
        Walk::Descend
    }

    fn visit_variable_expression(
        &mut self,
        ast: &Ast,
        variable: &VarExpr,
        expr: &Expr,
    ) -> (walk: Walk) {
        self.nodes.push(NodeId::Expression(expr.id));
        Walk::Descend
    }

    fn visit_error(&mut self, ast: &Ast, span: &TextSpan, expr: &Expr) -> (walk: Walk) {
        self.nodes.push(NodeId::Expression(expr.id));
        Walk::Descend
    }

    fn visit_parenthesized_expression(
        &mut self,
        ast: &Ast,
        parenthesized: &ParenthesizedExpr,
        expr: &Expr,
    ) -> (walk: Walk) {
        self.nodes.push(NodeId::Expression(expr.id));
        Walk::Descend
    }

    fn visit_unary_expression(
        &mut self,
        ast: &Ast,
        unary: &UnaryExpr,
        expr: &Expr,
    ) -> (walk: Walk) {
        self.nodes.push(NodeId::Expression(expr.id));
        Walk::Descend
    }

    fn visit_binary_expression(
        &mut self,
        ast: &Ast,
        binary: &BinaryExpr,
        expr: &Expr,
    ) -> (walk: Walk) {
        self.nodes.push(NodeId::Expression(expr.id));
        Walk::Descend
    }

    fn visit_assignment_expression(
        &mut self,
        ast: &Ast,
        assignment: &AssignExpr,
        expr: &Expr,
    ) -> (walk: Walk) {
        self.nodes.push(NodeId::Expression(expr.id));
        Walk::Descend
    }

    fn visit_call_expression(&mut self, ast: &Ast, call: &CallExpr, expr: &Expr) -> (walk: Walk) {
        self.nodes.push(NodeId::Expression(expr.id));
        Walk::Descend
    }

    fn visit_block_expr(&mut self, ast: &Ast, block: &BlockExpr, expr: &Expr) -> (walk: Walk) {
        self.nodes.push(NodeId::Expression(expr.id));
        Walk::Descend
    }

    fn visit_if_expression(
        &mut self,
        ast: &Ast,
        if_expression: &IfExpr,
        expr: &Expr,
    ) -> (walk: Walk) {
        self.nodes.push(NodeId::Expression(expr.id));
        Walk::Descend
    }
}

} // verus!
