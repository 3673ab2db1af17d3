//! The syntax tree: its node kinds and the arena that owns the nodes.
//!
//! Nodes refer to one another by index only. The arena appends and never
//! removes, so an index, once given out, stays good for the arena's life.

use vstd::prelude::*;
use crate::compilation_unit::{FunctionIdx, VariableIdx};
use crate::definitions::lexer::Token;
use crate::definitions::ranks::Ranks;
use crate::text::span::TextSpan;
use crate::typings::Type;

pub mod constructors;
pub mod eval;
pub mod grammar;
pub mod grammar_laws;
pub mod laws;
pub mod lexer;
pub mod parser;
pub mod purity;
pub mod ranks;
pub mod semantics;
pub mod shape;
pub mod value;
pub mod visitor;

verus! {

/// The place of an expression in the arena.
#[derive(Debug, Clone, Copy, PartialEq, Eq, Structural, Hash)]
pub struct ExprId {
    pub index: usize,
}

impl ExprId {
    pub fn new(index: usize) -> (r: Self)
        ensures
            r.index == index,
    {
        Self { index }
    }

    pub fn as_index(&self) -> (r: usize)
        ensures
            r == self.index,
    {
        self.index
    }
}

/// The place of a statement in the arena.
#[derive(Debug, Clone, Copy, PartialEq, Eq, Structural, Hash)]
pub struct StmtId {
    pub index: usize,
}

impl StmtId {
    pub fn new(index: usize) -> (r: Self)
        ensures
            r.index == index,
    {
        Self { index }
    }

    pub fn as_index(&self) -> (r: usize)
        ensures
            r == self.index,
    {
        self.index
    }
}

/// The place of an item in the arena.
#[derive(Debug, Clone, Copy, PartialEq, Eq, Structural, Hash)]
pub struct ItemId {
    pub index: usize,
}

impl ItemId {
    pub fn new(index: usize) -> (r: Self)
        ensures
            r.index == index,
    {
        Self { index }
    }

    pub fn as_index(&self) -> (r: usize)
        ensures
            r == self.index,
    {
        self.index
    }
}

/// A list of statements, in source order.
pub type Body = Vec<StmtId>;

#[derive(Debug, Clone, Copy, PartialEq, Eq, Structural)]
pub enum UnOpKind {
    Minus,
    BitwiseNot,
}

#[derive(Debug, Clone)]
pub struct UnOperator {
    pub kind: UnOpKind,
    pub token: Token,
}

impl UnOperator {
    pub fn new(kind: UnOpKind, token: Token) -> (r: Self)
        ensures
            r.kind == kind,
            r.token == token,
    {
        Self { kind, token }
    }
}

#[derive(Debug, Clone, Copy, PartialEq, Eq, Structural)]
pub enum BinOpKind {
    Plus,
    Minus,
    Multiply,
    Divide,
    Modulo,
    Power,
    BitwiseAnd,
    BitwiseOr,
    BitwiseXor,
    Equals,
    NotEquals,
    LessThan,
    LessThanOrEqual,
    GreaterThan,
    GreaterThanOrEqual,
}

/// The side to which operators of one precedence group.
#[derive(Debug, Clone, Copy, PartialEq, Eq, Structural)]
pub enum BinOpAssociativity {
    Left,
    Right,
}

impl BinOpKind {
    /// How tightly the operator binds: the higher, the tighter.
    pub open spec fn spec_precedence(self) -> u8 {
        match self {
            BinOpKind::Power => 20,
            BinOpKind::Multiply | BinOpKind::Divide | BinOpKind::Modulo => 19,
            BinOpKind::Plus | BinOpKind::Minus => 18,
            BinOpKind::BitwiseAnd => 17,
            BinOpKind::BitwiseXor => 16,
            BinOpKind::BitwiseOr => 15,
            BinOpKind::Equals
            | BinOpKind::NotEquals
            | BinOpKind::LessThan
            | BinOpKind::LessThanOrEqual
            | BinOpKind::GreaterThan
            | BinOpKind::GreaterThanOrEqual => 10,
        }
    }

    /// Power groups to the right, every other operator to the left.
    pub open spec fn spec_associativity(self) -> BinOpAssociativity {
        match self {
            BinOpKind::Power => BinOpAssociativity::Right,
            _ => BinOpAssociativity::Left,
        }
    }

    #[verifier::when_used_as_spec(spec_precedence)]
    pub fn precedence(self) -> (r: u8)
        ensures
            r == self.spec_precedence(),
    {
        match self {
            BinOpKind::Power => 20,
            BinOpKind::Multiply | BinOpKind::Divide | BinOpKind::Modulo => 19,
            BinOpKind::Plus | BinOpKind::Minus => 18,
            BinOpKind::BitwiseAnd => 17,
            BinOpKind::BitwiseXor => 16,
            BinOpKind::BitwiseOr => 15,
            BinOpKind::Equals
            | BinOpKind::NotEquals
            | BinOpKind::LessThan
            | BinOpKind::LessThanOrEqual
            | BinOpKind::GreaterThan
            | BinOpKind::GreaterThanOrEqual => 10,
        }
    }

    #[verifier::when_used_as_spec(spec_associativity)]
    pub fn associativity(self) -> (r: BinOpAssociativity)
        ensures
            r == self.spec_associativity(),
    {
        match self {
            BinOpKind::Power => BinOpAssociativity::Right,
            _ => BinOpAssociativity::Left,
        }
    }
}

#[derive(Debug, Clone)]
pub struct BinOperator {
    pub kind: BinOpKind,
    pub token: Token,
}

impl BinOperator {
    pub fn new(kind: BinOpKind, token: Token) -> (r: Self)
        ensures
            r.kind == kind,
            r.token == token,
    {
        Self { kind, token }
    }
}

#[derive(Debug, Clone)]
pub struct NumberExpr {
    pub number: i64,
    pub token: Token,
}

#[derive(Debug, Clone)]
pub struct BoolExpr {
    pub value: bool,
    pub token: Token,
}

#[derive(Debug, Clone)]
pub struct ParenthesizedExpr {
    pub left_paren: Token,
    pub inner: ExprId,
    pub right_paren: Token,
}

#[derive(Debug, Clone)]
pub struct UnaryExpr {
    pub operator: UnOperator,
    pub operand: ExprId,
}

#[derive(Debug, Clone)]
pub struct BinaryExpr {
    pub left: ExprId,
    pub operator: BinOperator,
    pub right: ExprId,
}

/// A reference to a variable. `variable_idx` is a placeholder until name
/// resolution has set it.
#[derive(Debug, Clone)]
pub struct VarExpr {
    pub identifier: Token,
    pub variable_idx: VariableIdx,
}

/// An assignment to a variable. `variable_idx` is a placeholder until name
/// resolution has set it.
#[derive(Debug, Clone)]
pub struct AssignExpr {
    pub identifier: Token,
    pub equals: Token,
    pub expression: ExprId,
    pub variable_idx: VariableIdx,
}

/// A call. `function_idx` is a placeholder until name resolution has set
/// it.
#[derive(Debug, Clone)]
pub struct CallExpr {
    pub callee: Token,
    pub left_paren: Token,
    pub arguments: Vec<ExprId>,
    pub right_paren: Token,
    pub function_idx: FunctionIdx,
}

impl CallExpr {
    /// The name of the function called, as written.
    pub fn function_name(&self) -> (r: &str)
        ensures
            r@ == self.callee.span.literal@,
    {
        self.callee.span.literal.as_str()
    }
}

#[derive(Debug, Clone)]
pub struct BlockExpr {
    pub left_brace: Token,
    pub stmts: Vec<StmtId>,
    pub right_brace: Token,
}

#[derive(Debug, Clone)]
pub struct ElseBranch {
    pub else_keyword: Token,
    pub body: Body,
}

impl ElseBranch {
    pub fn new(else_keyword: Token, body: Body) -> (r: Self)
        ensures
            r.else_keyword == else_keyword,
            r.body == body,
    {
        ElseBranch { else_keyword, body }
    }
}

#[derive(Debug, Clone)]
pub struct IfExpr {
    pub if_keyword: Token,
    pub condition: ExprId,
    pub then_branch: Body,
    pub else_branch: Option<ElseBranch>,
}

#[derive(Debug, Clone)]
pub enum ExprKind {
    Number(NumberExpr),
    Boolean(BoolExpr),
    Parenthesized(ParenthesizedExpr),
    Unary(UnaryExpr),
    Binary(BinaryExpr),
    Variable(VarExpr),
    Assignment(AssignExpr),
    Call(CallExpr),
    Block(BlockExpr),
    If(IfExpr),
    /// What parsing leaves where the input was malformed.
    Error(TextSpan),
}

#[derive(Debug, Clone)]
pub struct Expr {
    pub kind: ExprKind,
    pub id: ExprId,
    pub ty: Type,
}

impl Expr {
    pub fn new(kind: ExprKind, id: ExprId, ty: Type) -> (r: Self)
        ensures
            r.kind == kind,
            r.id == id,
            r.ty == ty,
    {
        Self { kind, id, ty }
    }
}

#[derive(Debug, Clone)]
pub struct StaticTypeAnnotation {
    pub colon: Token,
    pub type_token: Token,
}

impl StaticTypeAnnotation {
    pub fn new(colon: Token, type_token: Token) -> (r: Self)
        ensures
            r.colon == colon,
            r.type_token == type_token,
    {
        Self { colon, type_token }
    }
}

/// A `let`. `variable_idx` is a placeholder until name resolution has set
/// it.
#[derive(Debug, Clone)]
pub struct LetStmt {
    pub identifier: Token,
    pub initializer: ExprId,
    pub type_annotation: Option<StaticTypeAnnotation>,
    pub variable_idx: VariableIdx,
}

#[derive(Debug, Clone)]
pub struct WhileStmt {
    pub while_keyword: Token,
    pub condition: ExprId,
    pub body: Body,
}

#[derive(Debug, Clone)]
pub struct ReturnStmt {
    pub return_keyword: Token,
    pub return_value: Option<ExprId>,
}

#[derive(Debug, Clone)]
pub struct BreakStmt {
    pub break_keyword: Token,
}

#[derive(Debug, Clone)]
pub struct ContinueStmt {
    pub continue_keyword: Token,
}

#[derive(Debug, Clone)]
pub enum StmtKind {
    Expr(ExprId),
    Let(LetStmt),
    While(WhileStmt),
    Return(ReturnStmt),
    Break(BreakStmt),
    Continue(ContinueStmt),
}

#[derive(Debug, Clone)]
pub struct Stmt {
    pub kind: StmtKind,
    pub id: StmtId,
}

impl Stmt {
    pub fn new(kind: StmtKind, id: StmtId) -> (r: Self)
        ensures
            r.kind == kind,
            r.id == id,
    {
        Self { kind, id }
    }
}

#[derive(Debug, Clone)]
pub struct FuncDeclParameter {
    pub identifier: Token,
    pub type_annotation: StaticTypeAnnotation,
}

#[derive(Debug, Clone)]
pub struct FunctionReturnTypeSyntax {
    pub arrow: Token,
    pub type_token: Token,
}

impl FunctionReturnTypeSyntax {
    pub fn new(arrow: Token, type_token: Token) -> (r: Self)
        ensures
            r.arrow == arrow,
            r.type_token == type_token,
    {
        Self { arrow, type_token }
    }
}

#[derive(Debug, Clone)]
pub struct FuncDeclaration {
    pub func_keyword: Token,
    pub identifier: Token,
    pub parameters: Vec<FuncDeclParameter>,
    pub body: Body,
    pub return_type: Option<FunctionReturnTypeSyntax>,
    pub idx: FunctionIdx,
}

#[derive(Debug, Clone)]
pub enum ItemKind {
    Stmt(StmtId),
    Function(FuncDeclaration),
}

#[derive(Debug, Clone)]
pub struct Item {
    pub kind: ItemKind,
    pub id: ItemId,
}

impl Item {
    pub fn new(kind: ItemKind, id: ItemId) -> (r: Self)
        ensures
            r.kind == kind,
            r.id == id,
    {
        Self { kind, id }
    }
}

/// Whether every statement index in `body` is below `bound`.
pub open spec fn stmts_below(body: Seq<StmtId>, bound: int) -> bool {
    forall|i: int| 0 <= i < body.len() ==> (#[trigger] body[i]).index < bound
}

/// Whether every expression index in `list` is below `bound`.
pub open spec fn exprs_below(list: Seq<ExprId>, bound: int) -> bool {
    forall|i: int| 0 <= i < list.len() ==> (#[trigger] list[i]).index < bound
}

impl ExprKind {
    /// Whether the indices of the expressions that this node refers to lie
    /// below `expr_bound`, and those of the statements below `stmt_bound`.
    pub open spec fn children_within(self, expr_bound: int, stmt_bound: int) -> bool {
        match self {
            ExprKind::Number(_) => true,
            ExprKind::Boolean(_) => true,
            ExprKind::Parenthesized(e) => e.inner.index < expr_bound,
            ExprKind::Unary(e) => e.operand.index < expr_bound,
            ExprKind::Binary(e) => e.left.index < expr_bound && e.right.index < expr_bound,
            ExprKind::Variable(_) => true,
            ExprKind::Assignment(e) => e.expression.index < expr_bound,
            ExprKind::Call(e) => exprs_below(e.arguments@, expr_bound),
            ExprKind::Block(e) => stmts_below(e.stmts@, stmt_bound),
            ExprKind::If(e) => {
                &&& e.condition.index < expr_bound
                &&& stmts_below(e.then_branch@, stmt_bound)
                &&& e.else_branch matches Some(branch) ==> stmts_below(branch.body@, stmt_bound)
            },
            ExprKind::Error(_) => true,
        }
    }
}

impl StmtKind {
    /// Whether the indices of the expressions that this node refers to lie
    /// below `expr_bound`, and those of the statements below `stmt_bound`.
    pub open spec fn children_within(self, expr_bound: int, stmt_bound: int) -> bool {
        match self {
            StmtKind::Expr(e) => e.index < expr_bound,
            StmtKind::Let(s) => s.initializer.index < expr_bound,
            StmtKind::While(s) => s.condition.index < expr_bound && stmts_below(
                s.body@,
                stmt_bound,
            ),
            StmtKind::Return(s) => s.return_value matches Some(e) ==> e.index < expr_bound,
            StmtKind::Break(_) => true,
            StmtKind::Continue(_) => true,
        }
    }
}

impl ItemKind {
    /// Whether the indices of the statements that this item refers to lie
    /// below `stmt_bound`.
    pub open spec fn children_within(self, stmt_bound: int) -> bool {
        match self {
            ItemKind::Stmt(s) => s.index < stmt_bound,
            ItemKind::Function(f) => stmts_below(f.body@, stmt_bound),
        }
    }
}

impl ExprKind {
    /// This node with `idx` as its resolved variable, where it is a
    /// variable reference or an assignment.
    pub open spec fn with_variable_index(self, idx: VariableIdx) -> ExprKind {
        match self {
            ExprKind::Variable(e) => ExprKind::Variable(
                VarExpr { identifier: e.identifier, variable_idx: idx },
            ),
            ExprKind::Assignment(e) => ExprKind::Assignment(
                AssignExpr {
                    identifier: e.identifier,
                    equals: e.equals,
                    expression: e.expression,
                    variable_idx: idx,
                },
            ),
            _ => self,
        }
    }

    /// This node with `idx` as its resolved function, where it is a call.
    pub open spec fn with_function_index(self, idx: FunctionIdx) -> ExprKind {
        match self {
            ExprKind::Call(e) => ExprKind::Call(
                CallExpr {
                    callee: e.callee,
                    left_paren: e.left_paren,
                    arguments: e.arguments,
                    right_paren: e.right_paren,
                    function_idx: idx,
                },
            ),
            _ => self,
        }
    }
}

/// The arena: three append-only containers, one for each category of node.
#[derive(Debug, Clone)]
pub struct Ast {
    pub statements: Vec<Stmt>,
    pub expressions: Vec<Expr>,
    pub items: Vec<Item>,
}

impl Ast {
    /// Whether `after` holds as many nodes of each category as this arena
    /// at least.
    pub open spec fn no_longer_than(&self, after: &Ast) -> bool {
        &&& self.expressions.len() <= after.expressions.len()
        &&& self.statements.len() <= after.statements.len()
        &&& self.items.len() <= after.items.len()
    }

    pub fn new() -> (r: Self)
        ensures
            r.statements@.len() == 0,
            r.expressions@.len() == 0,
            r.items@.len() == 0,
            r.wf(),
    {
        let r = Self { statements: Vec::new(), expressions: Vec::new(), items: Vec::new() };
        assert(r.ranked_by(Ranks { expressions: Seq::empty(), statements: Seq::empty() }));
        r
    }

    pub fn query_item(&self, item_id: ItemId) -> (r: &Item)
        requires
            item_id.index < self.items.len(),
        ensures
            *r == self.items[item_id.index as int],
    {
        &self.items[item_id.index]
    }

    pub fn query_expression(&self, expr_id: ExprId) -> (r: &Expr)
        requires
            expr_id.index < self.expressions.len(),
        ensures
            *r == self.expressions[expr_id.index as int],
    {
        &self.expressions[expr_id.index]
    }

    pub fn query_statement(&self, stmt_id: StmtId) -> (r: &Stmt)
        requires
            stmt_id.index < self.statements.len(),
        ensures
            *r == self.statements[stmt_id.index as int],
    {
        &self.statements[stmt_id.index]
    }

    /// The node at `expr_id`, to be changed in place. The arena afterwards
    /// is the arena before with that one node as the caller has left it.
    pub fn query_expression_mut(&mut self, expr_id: ExprId) -> (r: &mut Expr)
        requires
            expr_id.index < old(self).expressions.len(),
        ensures
            *r == old(self).expressions[expr_id.index as int],
            final(self).expressions@ == old(self).expressions@.update(
                expr_id.index as int,
                *final(r),
            ),
            final(self).statements == old(self).statements,
            final(self).items == old(self).items,
    {
        &mut self.expressions[expr_id.index]
    }

    /// The node at `stmt_id`, to be changed in place. The arena afterwards
    /// is the arena before with that one node as the caller has left it.
    pub fn query_statement_mut(&mut self, stmt_id: StmtId) -> (r: &mut Stmt)
        requires
            stmt_id.index < old(self).statements.len(),
        ensures
            *r == old(self).statements[stmt_id.index as int],
            final(self).statements@ == old(self).statements@.update(
                stmt_id.index as int,
                *final(r),
            ),
            final(self).expressions == old(self).expressions,
            final(self).items == old(self).items,
    {
        &mut self.statements[stmt_id.index]
    }

    /// The node at `item_id`, to be changed in place. The arena afterwards
    /// is the arena before with that one node as the caller has left it.
    pub fn query_item_mut(&mut self, item_id: ItemId) -> (r: &mut Item)
        requires
            item_id.index < old(self).items.len(),
        ensures
            *r == old(self).items[item_id.index as int],
            final(self).items@ == old(self).items@.update(item_id.index as int, *final(r)),
            final(self).expressions == old(self).expressions,
            final(self).statements == old(self).statements,
    {
        &mut self.items[item_id.index]
    }

    /// Records the variable that a variable reference or an assignment was
    /// resolved to.
    pub fn set_variable_index(&mut self, expr_id: ExprId, variable_idx: VariableIdx)
        requires
            expr_id.index < old(self).expressions.len(),
            old(self).expressions[expr_id.index as int].kind is Variable || old(
                self,
            ).expressions[expr_id.index as int].kind is Assignment,
        ensures
            final(self).expressions@ == old(self).expressions@.update(
                expr_id.index as int,
                Expr {
                    kind: old(self).expressions[expr_id.index as int].kind.with_variable_index(
                        variable_idx,
                    ),
                    id: old(self).expressions[expr_id.index as int].id,
                    ty: old(self).expressions[expr_id.index as int].ty,
                },
            ),
            final(self).statements == old(self).statements,
            final(self).items == old(self).items,
            old(self).wf() ==> final(self).wf(),
    {
        let expr = self.query_expression_mut(expr_id);
        match &mut expr.kind {
            ExprKind::Assignment(assignment) => {
                assignment.variable_idx = variable_idx;
            },
            ExprKind::Variable(variable) => {
                variable.variable_idx = variable_idx;
            },
            _ => {},
        }
        proof {
            if old(self).wf() {
                old(self).lemma_expression_annotated(
                    &*self,
                    expr_id.index as int,
                    self.expressions[expr_id.index as int].kind,
                );
            }
        }
    }

    /// Records the function that a call was resolved to.
    pub fn set_function_index(&mut self, expr_id: ExprId, function_idx: FunctionIdx)
        requires
            expr_id.index < old(self).expressions.len(),
            old(self).expressions[expr_id.index as int].kind is Call,
        ensures
            final(self).expressions@ == old(self).expressions@.update(
                expr_id.index as int,
                Expr {
                    kind: old(self).expressions[expr_id.index as int].kind.with_function_index(
                        function_idx,
                    ),
                    id: old(self).expressions[expr_id.index as int].id,
                    ty: old(self).expressions[expr_id.index as int].ty,
                },
            ),
            final(self).statements == old(self).statements,
            final(self).items == old(self).items,
            old(self).wf() ==> final(self).wf(),
    {
        let expr = self.query_expression_mut(expr_id);
        match &mut expr.kind {
            ExprKind::Call(call) => {
                call.function_idx = function_idx;
            },
            _ => {},
        }
        proof {
            if old(self).wf() {
                old(self).lemma_expression_annotated(
                    &*self,
                    expr_id.index as int,
                    self.expressions[expr_id.index as int].kind,
                );
            }
        }
    }

    /// Records the type that an expression was checked to have.
    pub fn set_type(&mut self, expr_id: ExprId, ty: Type)
        requires
            expr_id.index < old(self).expressions.len(),
        ensures
            final(self).expressions@ == old(self).expressions@.update(
                expr_id.index as int,
                Expr {
                    kind: old(self).expressions[expr_id.index as int].kind,
                    id: old(self).expressions[expr_id.index as int].id,
                    ty,
                },
            ),
            final(self).statements == old(self).statements,
            final(self).items == old(self).items,
            old(self).wf() ==> final(self).wf(),
    {
        let expr = self.query_expression_mut(expr_id);
        expr.ty = ty;
        proof {
            if old(self).wf() {
                old(self).lemma_expression_annotated(
                    &*self,
                    expr_id.index as int,
                    self.expressions[expr_id.index as int].kind,
                );
            }
        }
    }

    /// Appends an expression of the given kind, its type not yet resolved,
    /// and returns its index.
    ///
    /// The node is stored under a placeholder index first, and then told its
    /// real one.
    pub fn expr_from_kind(&mut self, kind: ExprKind) -> (id: ExprId)
        ensures
            id.index == old(self).expressions.len(),
            final(self).expressions@ == old(self).expressions@.push(
                Expr { kind, id, ty: Type::Unresolved },
            ),
            final(self).statements == old(self).statements,
            final(self).items == old(self).items,
            old(self).grown_by_expression(final(self), kind, id),
            old(self).wf() && kind.children_within(
                old(self).expressions.len() as int,
                old(self).statements.len() as int,
            ) ==> final(self).wf(),
    {
        let id = ExprId::new(self.expressions.len());
        let expr = Expr::new(kind, ExprId::new(0), Type::Unresolved);
        self.expressions.push(expr);
        self.expressions[id.index].id = id;
        assert(self.expressions@ =~= old(self).expressions@.push(
            Expr { kind, id, ty: Type::Unresolved },
        ));
        proof {
            old(self).lemma_view_with_expression(&*self, kind, id);
        }
        proof {
            if old(self).wf() && kind.children_within(
                old(self).expressions.len() as int,
                old(self).statements.len() as int,
            ) {
                old(self).lemma_expression_added(&*self, kind, id);
            }
        }
        id
    }

    /// Appends a statement of the given kind and returns its index.
    pub fn stmt_of_kind(&mut self, kind: StmtKind) -> (id: StmtId)
        ensures
            id.index == old(self).statements.len(),
            final(self).statements@ == old(self).statements@.push(Stmt { kind, id }),
            final(self).expressions == old(self).expressions,
            final(self).items == old(self).items,
            old(self).grown_by_statement(final(self), kind, id),
            old(self).wf() && kind.children_within(
                old(self).expressions.len() as int,
                old(self).statements.len() as int,
            ) ==> final(self).wf(),
    {
        let id = StmtId::new(self.statements.len());
        let stmt = Stmt::new(kind, StmtId::new(0));
        self.statements.push(stmt);
        self.statements[id.index].id = id;
        assert(self.statements@ =~= old(self).statements@.push(Stmt { kind, id }));
        proof {
            old(self).lemma_view_with_statement(&*self, kind, id);
        }
        proof {
            if old(self).wf() && kind.children_within(
                old(self).expressions.len() as int,
                old(self).statements.len() as int,
            ) {
                old(self).lemma_statement_added(&*self, kind, id);
            }
        }
        id
    }

    /// Appends an item of the given kind and returns its index.
    pub fn item_from_kind(&mut self, kind: ItemKind) -> (id: ItemId)
        ensures
            id.index == old(self).items.len(),
            final(self).items@ == old(self).items@.push(Item { kind, id }),
            final(self).expressions == old(self).expressions,
            final(self).statements == old(self).statements,
            old(self).grown_by_item(final(self), kind, id),
            old(self).wf() && kind.children_within(old(self).statements.len() as int)
                ==> final(self).wf(),
    {
        let id = ItemId::new(self.items.len());
        let item = Item::new(kind, ItemId::new(0));
        self.items.push(item);
        self.items[id.index].id = id;
        assert(self.items@ =~= old(self).items@.push(Item { kind, id }));
        proof {
            old(self).lemma_view_with_item(&*self, kind, id);
        }
        proof {
            if old(self).wf() {
                assert(self.ranked_by(old(self).ranks()));
            }
        }
        id
    }

    /// Whether `after` is this arena with one expression of `kind` appended
    /// at `id`, its type not yet resolved, and nothing else changed.
    pub open spec fn grown_by_expression(&self, after: &Ast, kind: ExprKind, id: ExprId) -> bool {
        &&& id.index == self.expressions.len()
        &&& after.expressions@ == self.expressions@.push(Expr { kind, id, ty: Type::Unresolved })
        &&& after.statements == self.statements
        &&& after.items == self.items
        &&& after@ == self@.with_expression(kind@)
        &&& id == self@.next_expression()
    }

    /// Whether `after` is this arena with one statement of `kind` appended
    /// at `id`, and nothing else changed.
    pub open spec fn grown_by_statement(&self, after: &Ast, kind: StmtKind, id: StmtId) -> bool {
        &&& id.index == self.statements.len()
        &&& after.statements@ == self.statements@.push(Stmt { kind, id })
        &&& after.expressions == self.expressions
        &&& after.items == self.items
        &&& after@ == self@.with_statement(kind@)
        &&& id == self@.next_statement()
    }

    /// Whether `after` is this arena with one item of `kind` appended at
    /// `id`, and nothing else changed.
    pub open spec fn grown_by_item(&self, after: &Ast, kind: ItemKind, id: ItemId) -> bool {
        &&& id.index == self.items.len()
        &&& after.items@ == self.items@.push(Item { kind, id })
        &&& after.expressions == self.expressions
        &&& after.statements == self.statements
        &&& after@ == self@.with_item(kind@)
        &&& id == self@.next_item()
    }
}

impl BlockExpr {
    /// The expression whose value is the block's: that of its last
    /// statement, if that is an expression statement.
    pub fn returning_expression(&self, ast: &Ast) -> (r: Option<ExprId>)
        requires
            stmts_below(self.stmts@, ast.statements.len() as int),
        ensures
            r == (if self.stmts.len() > 0 {
                match ast.statements[self.stmts@.last().index as int].kind {
                    StmtKind::Expr(expr_id) => Some(expr_id),
                    _ => None,
                }
            } else {
                None
            }),
    {
        let n = self.stmts.len();
        if n > 0 {
            let stmt = ast.query_statement(self.stmts[n - 1]);
            match &stmt.kind {
                StmtKind::Expr(expr_id) => Some(*expr_id),
                _ => None,
            }
        } else {
            None
        }
    }
}

} // verus!
