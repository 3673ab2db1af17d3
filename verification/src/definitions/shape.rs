//! The tree as a mathematical value: nodes with sequences where the arena
//! has vectors, and an arena of such nodes.

use vstd::prelude::*;
use crate::compilation_unit::FunctionIdx;
use crate::definitions::lexer::Token;
use crate::definitions::{
    AssignExpr, Ast, BinaryExpr, BlockExpr, BoolExpr, BreakStmt, CallExpr, ContinueStmt, ElseBranch,
    Expr, ExprId, ExprKind, FuncDeclParameter, FuncDeclaration, FunctionReturnTypeSyntax, IfExpr,
    Item, ItemId, ItemKind, LetStmt, NumberExpr, ParenthesizedExpr, ReturnStmt, Stmt, StmtId,
    StmtKind, UnaryExpr, VarExpr, WhileStmt,
};
use crate::text::span::TextSpan;
use crate::typings::Type;

verus! {

pub struct CallShape {
    pub callee: Token,
    pub left_paren: Token,
    pub arguments: Seq<ExprId>,
    pub right_paren: Token,
    pub function_idx: FunctionIdx,
}

pub struct BlockShape {
    pub left_brace: Token,
    pub stmts: Seq<StmtId>,
    pub right_brace: Token,
}

pub struct ElseShape {
    pub else_keyword: Token,
    pub body: Seq<StmtId>,
}

pub struct IfShape {
    pub if_keyword: Token,
    pub condition: ExprId,
    pub then_branch: Seq<StmtId>,
    pub else_branch: Option<ElseShape>,
}

/// What an expression node says.
pub enum ExprShape {
    Number(NumberExpr),
    Boolean(BoolExpr),
    Parenthesized(ParenthesizedExpr),
    Unary(UnaryExpr),
    Binary(BinaryExpr),
    Variable(VarExpr),
    Assignment(AssignExpr),
    Call(CallShape),
    Block(BlockShape),
    If(IfShape),
    Error(TextSpan),
}

pub struct WhileShape {
    pub while_keyword: Token,
    pub condition: ExprId,
    pub body: Seq<StmtId>,
}

/// What a statement node says.
pub enum StmtShape {
    Expr(ExprId),
    Let(LetStmt),
    While(WhileShape),
    Return(ReturnStmt),
    Break(BreakStmt),
    Continue(ContinueStmt),
}

pub struct FunctionShape {
    pub func_keyword: Token,
    pub identifier: Token,
    pub parameters: Seq<FuncDeclParameter>,
    pub body: Seq<StmtId>,
    pub return_type: Option<FunctionReturnTypeSyntax>,
    pub idx: FunctionIdx,
}

/// What an item says.
pub enum ItemShape {
    Stmt(StmtId),
    Function(FunctionShape),
}

impl View for CallExpr {
    type V = CallShape;

    open spec fn view(&self) -> CallShape {
        CallShape {
            callee: self.callee,
            left_paren: self.left_paren,
            arguments: self.arguments@,
            right_paren: self.right_paren,
            function_idx: self.function_idx,
        }
    }
}

impl View for BlockExpr {
    type V = BlockShape;

    open spec fn view(&self) -> BlockShape {
        BlockShape {
            left_brace: self.left_brace,
            stmts: self.stmts@,
            right_brace: self.right_brace,
        }
    }
}

impl View for ElseBranch {
    type V = ElseShape;

    open spec fn view(&self) -> ElseShape {
        ElseShape { else_keyword: self.else_keyword, body: self.body@ }
    }
}

impl View for IfExpr {
    type V = IfShape;

    open spec fn view(&self) -> IfShape {
        IfShape {
            if_keyword: self.if_keyword,
            condition: self.condition,
            then_branch: self.then_branch@,
            else_branch: match self.else_branch {
                Some(branch) => Some(branch@),
                None => None,
            },
        }
    }
}

impl View for ExprKind {
    type V = ExprShape;

    open spec fn view(&self) -> ExprShape {
        match *self {
            ExprKind::Number(e) => ExprShape::Number(e),
            ExprKind::Boolean(e) => ExprShape::Boolean(e),
            ExprKind::Parenthesized(e) => ExprShape::Parenthesized(e),
            ExprKind::Unary(e) => ExprShape::Unary(e),
            ExprKind::Binary(e) => ExprShape::Binary(e),
            ExprKind::Variable(e) => ExprShape::Variable(e),
            ExprKind::Assignment(e) => ExprShape::Assignment(e),
            ExprKind::Call(e) => ExprShape::Call(e@),
            ExprKind::Block(e) => ExprShape::Block(e@),
            ExprKind::If(e) => ExprShape::If(e@),
            ExprKind::Error(span) => ExprShape::Error(span),
        }
    }
}

impl View for WhileStmt {
    type V = WhileShape;

    open spec fn view(&self) -> WhileShape {
        WhileShape {
            while_keyword: self.while_keyword,
            condition: self.condition,
            body: self.body@,
        }
    }
}

impl View for StmtKind {
    type V = StmtShape;

    open spec fn view(&self) -> StmtShape {
        match *self {
            StmtKind::Expr(e) => StmtShape::Expr(e),
            StmtKind::Let(s) => StmtShape::Let(s),
            StmtKind::While(s) => StmtShape::While(s@),
            StmtKind::Return(s) => StmtShape::Return(s),
            StmtKind::Break(s) => StmtShape::Break(s),
            StmtKind::Continue(s) => StmtShape::Continue(s),
        }
    }
}

impl View for FuncDeclaration {
    type V = FunctionShape;

    open spec fn view(&self) -> FunctionShape {
        FunctionShape {
            func_keyword: self.func_keyword,
            identifier: self.identifier,
            parameters: self.parameters@,
            body: self.body@,
            return_type: self.return_type,
            idx: self.idx,
        }
    }
}

impl View for ItemKind {
    type V = ItemShape;

    open spec fn view(&self) -> ItemShape {
        match *self {
            ItemKind::Stmt(s) => ItemShape::Stmt(s),
            ItemKind::Function(f) => ItemShape::Function(f@),
        }
    }
}

/// An expression of the arena: what it says and the type it was found to
/// have.
pub struct ExprModel {
    pub shape: ExprShape,
    pub ty: Type,
}

/// The nodes of an arena, each at the place of its index.
pub struct ArenaModel {
    pub expressions: Seq<ExprModel>,
    pub statements: Seq<StmtShape>,
    pub items: Seq<ItemShape>,
}

impl ArenaModel {
    /// The index that the next expression will have.
    pub open spec fn next_expression(self) -> ExprId {
        ExprId { index: self.expressions.len() as usize }
    }

    /// The index that the next statement will have.
    pub open spec fn next_statement(self) -> StmtId {
        StmtId { index: self.statements.len() as usize }
    }

    /// The index that the next item will have.
    pub open spec fn next_item(self) -> ItemId {
        ItemId { index: self.items.len() as usize }
    }

    /// This arena with one more expression, its type not yet resolved.
    pub open spec fn with_expression(self, shape: ExprShape) -> ArenaModel {
        ArenaModel {
            expressions: self.expressions.push(ExprModel { shape, ty: Type::Unresolved }),
            statements: self.statements,
            items: self.items,
        }
    }

    /// This arena with one more statement.
    pub open spec fn with_statement(self, shape: StmtShape) -> ArenaModel {
        ArenaModel {
            expressions: self.expressions,
            statements: self.statements.push(shape),
            items: self.items,
        }
    }

    /// This arena with one more item.
    pub open spec fn with_item(self, shape: ItemShape) -> ArenaModel {
        ArenaModel {
            expressions: self.expressions,
            statements: self.statements,
            items: self.items.push(shape),
        }
    }
}

impl View for Ast {
    type V = ArenaModel;

    open spec fn view(&self) -> ArenaModel {
        ArenaModel {
            expressions: Seq::new(
                self.expressions.len() as nat,
                |i: int| ExprModel { shape: self.expressions[i].kind@, ty: self.expressions[i].ty },
            ),
            statements: Seq::new(self.statements.len() as nat, |i: int| self.statements[i].kind@),
            items: Seq::new(self.items.len() as nat, |i: int| self.items[i].kind@),
        }
    }
}

impl Ast {
    /// An arena with an expression appended is, as a value, the arena of
    /// before with that expression.
    pub proof fn lemma_view_with_expression(&self, after: &Ast, kind: ExprKind, id: ExprId)
        requires
            id.index == self.expressions.len(),
            after.expressions@ == self.expressions@.push(Expr { kind, id, ty: Type::Unresolved }),
            after.statements == self.statements,
            after.items == self.items,
        ensures
            after@ == self@.with_expression(kind@),
            id == self@.next_expression(),
    {
        assert(after@.expressions =~= self@.with_expression(kind@).expressions);
        assert(after@.statements =~= self@.statements);
        assert(after@.items =~= self@.items);
    }

    /// An arena with a statement appended is, as a value, the arena of
    /// before with that statement.
    pub proof fn lemma_view_with_statement(&self, after: &Ast, kind: StmtKind, id: StmtId)
        requires
            id.index == self.statements.len(),
            after.statements@ == self.statements@.push(Stmt { kind, id }),
            after.expressions == self.expressions,
            after.items == self.items,
        ensures
            after@ == self@.with_statement(kind@),
            id == self@.next_statement(),
    {
        assert(after@.expressions =~= self@.expressions);
        assert(after@.statements =~= self@.with_statement(kind@).statements);
        assert(after@.items =~= self@.items);
    }

    /// An arena with an item appended is, as a value, the arena of before
    /// with that item.
    pub proof fn lemma_view_with_item(&self, after: &Ast, kind: ItemKind, id: ItemId)
        requires
            id.index == self.items.len(),
            after.items@ == self.items@.push(Item { kind, id }),
            after.expressions == self.expressions,
            after.statements == self.statements,
        ensures
            after@ == self@.with_item(kind@),
            id == self@.next_item(),
    {
        assert(after@.expressions =~= self@.expressions);
        assert(after@.statements =~= self@.statements);
        assert(after@.items =~= self@.with_item(kind@).items);
    }
}

} // verus!
