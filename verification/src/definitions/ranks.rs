//! Well-formed arenas. The nodes of a well-formed arena form no cycle: each
//! can be given a height that is above the heights of the nodes it refers to.
//! That is so wherever nodes were made after the nodes they refer to.

use vstd::prelude::*;
use crate::definitions::{Ast, ExprId, ExprKind, StmtId, StmtKind};

verus! {

/// A height for every expression and every statement of an arena.
pub struct Ranks {
    pub expressions: Seq<nat>,
    pub statements: Seq<nat>,
}

/// A number above every number in `heights`.
pub open spec fn ceiling(heights: Seq<nat>) -> nat
    decreases heights.len(),
{
    if heights.len() == 0 {
        0
    } else if heights.last() >= ceiling(heights.drop_last()) {
        heights.last() + 1
    } else {
        ceiling(heights.drop_last())
    }
}

pub proof fn lemma_ceiling_is_above(heights: Seq<nat>, i: int)
    requires
        0 <= i < heights.len(),
    ensures
        heights[i] < ceiling(heights),
    decreases heights.len(),
{
    if i < heights.len() - 1 {
        lemma_ceiling_is_above(heights.drop_last(), i);
    }
}

impl Ranks {
    /// Whether `id` has a height, and one below `bound`.
    pub open spec fn expression_below(self, id: ExprId, bound: nat) -> bool {
        id.index < self.expressions.len() && self.expressions[id.index as int] < bound
    }

    /// Whether `id` has a height, and one below `bound`.
    pub open spec fn statement_below(self, id: StmtId, bound: nat) -> bool {
        id.index < self.statements.len() && self.statements[id.index as int] < bound
    }

    pub open spec fn expressions_below(self, list: Seq<ExprId>, bound: nat) -> bool {
        forall|i: int| 0 <= i < list.len() ==> self.expression_below(#[trigger] list[i], bound)
    }

    pub open spec fn statements_below(self, list: Seq<StmtId>, bound: nat) -> bool {
        forall|i: int| 0 <= i < list.len() ==> self.statement_below(#[trigger] list[i], bound)
    }

    /// Whether `more` gives every node that has a height here the same
    /// height, and maybe heights to further nodes.
    pub open spec fn extended_by(self, more: Ranks) -> bool {
        &&& self.expressions.len() <= more.expressions.len()
        &&& self.statements.len() <= more.statements.len()
        &&& forall|i: int|
            0 <= i < self.expressions.len() ==> self.expressions[i]
                == #[trigger] more.expressions[i]
        &&& forall|i: int|
            0 <= i < self.statements.len() ==> self.statements[i] == #[trigger] more.statements[i]
    }

    /// A height above all the heights given.
    pub open spec fn top(self) -> nat {
        ceiling(self.expressions) + ceiling(self.statements)
    }
}

impl ExprKind {
    /// Whether every node that this node refers to has a height below
    /// `bound`.
    pub open spec fn children_lower(self, ranks: Ranks, bound: nat) -> bool {
        match self {
            ExprKind::Number(_) => true,
            ExprKind::Boolean(_) => true,
            ExprKind::Parenthesized(e) => ranks.expression_below(e.inner, bound),
            ExprKind::Unary(e) => ranks.expression_below(e.operand, bound),
            ExprKind::Binary(e) => ranks.expression_below(e.left, bound) && ranks.expression_below(
                e.right,
                bound,
            ),
            ExprKind::Variable(_) => true,
            ExprKind::Assignment(e) => ranks.expression_below(e.expression, bound),
            ExprKind::Call(e) => ranks.expressions_below(e.arguments@, bound),
            ExprKind::Block(e) => ranks.statements_below(e.stmts@, bound),
            ExprKind::If(e) => {
                &&& ranks.expression_below(e.condition, bound)
                &&& ranks.statements_below(e.then_branch@, bound)
                &&& e.else_branch matches Some(branch) ==> ranks.statements_below(
                    branch.body@,
                    bound,
                )
            },
            ExprKind::Error(_) => true,
        }
    }
}

impl StmtKind {
    /// Whether every node that this node refers to has a height below
    /// `bound`.
    pub open spec fn children_lower(self, ranks: Ranks, bound: nat) -> bool {
        match self {
            StmtKind::Expr(e) => ranks.expression_below(e, bound),
            StmtKind::Let(s) => ranks.expression_below(s.initializer, bound),
            StmtKind::While(s) => ranks.expression_below(s.condition, bound)
                && ranks.statements_below(s.body@, bound),
            StmtKind::Return(s) => s.return_value matches Some(e) ==> ranks.expression_below(
                e,
                bound,
            ),
            StmtKind::Break(_) => true,
            StmtKind::Continue(_) => true,
        }
    }
}

/// Children that are lower under some heights are lower under the same
/// heights extended.
pub proof fn lemma_expression_children_stay_lower(
    kind: ExprKind,
    ranks: Ranks,
    more: Ranks,
    bound: nat,
)
    requires
        ranks.extended_by(more),
        kind.children_lower(ranks, bound),
    ensures
        kind.children_lower(more, bound),
{
    match kind {
        ExprKind::Call(e) => {
            assert forall|i: int| 0 <= i < e.arguments@.len() implies more.expression_below(
                #[trigger] e.arguments@[i],
                bound,
            ) by {
                assert(ranks.expression_below(e.arguments@[i], bound));
            }
        },
        ExprKind::Block(e) => {
            lemma_statements_stay_lower(e.stmts@, ranks, more, bound);
        },
        ExprKind::If(e) => {
            lemma_statements_stay_lower(e.then_branch@, ranks, more, bound);
            if let Some(branch) = e.else_branch {
                lemma_statements_stay_lower(branch.body@, ranks, more, bound);
            }
        },
        _ => {},
    }
}

pub proof fn lemma_statements_stay_lower(list: Seq<StmtId>, ranks: Ranks, more: Ranks, bound: nat)
    requires
        ranks.extended_by(more),
        ranks.statements_below(list, bound),
    ensures
        more.statements_below(list, bound),
{
    assert forall|i: int| 0 <= i < list.len() implies more.statement_below(
        #[trigger] list[i],
        bound,
    ) by {
        assert(ranks.statement_below(list[i], bound));
    }
}

/// Children that are lower under some heights are lower under the same
/// heights extended.
pub proof fn lemma_statement_children_stay_lower(
    kind: StmtKind,
    ranks: Ranks,
    more: Ranks,
    bound: nat,
)
    requires
        ranks.extended_by(more),
        kind.children_lower(ranks, bound),
    ensures
        kind.children_lower(more, bound),
{
    match kind {
        StmtKind::While(s) => {
            lemma_statements_stay_lower(s.body@, ranks, more, bound);
        },
        _ => {},
    }
}

pub proof fn lemma_statements_within_are_lower(list: Seq<StmtId>, ranks: Ranks)
    requires
        crate::definitions::stmts_below(list, ranks.statements.len() as int),
    ensures
        ranks.statements_below(list, ranks.top()),
{
    assert forall|i: int| 0 <= i < list.len() implies ranks.statement_below(
        #[trigger] list[i],
        ranks.top(),
    ) by {
        lemma_ceiling_is_above(ranks.statements, list[i].index as int);
    }
}

/// Children that have heights at all are lower than the top.
pub proof fn lemma_expression_children_below_top(kind: ExprKind, ranks: Ranks)
    requires
        kind.children_within(ranks.expressions.len() as int, ranks.statements.len() as int),
    ensures
        kind.children_lower(ranks, ranks.top()),
{
    match kind {
        ExprKind::Parenthesized(e) => {
            lemma_ceiling_is_above(ranks.expressions, e.inner.index as int);
        },
        ExprKind::Unary(e) => {
            lemma_ceiling_is_above(ranks.expressions, e.operand.index as int);
        },
        ExprKind::Binary(e) => {
            lemma_ceiling_is_above(ranks.expressions, e.left.index as int);
            lemma_ceiling_is_above(ranks.expressions, e.right.index as int);
        },
        ExprKind::Assignment(e) => {
            lemma_ceiling_is_above(ranks.expressions, e.expression.index as int);
        },
        ExprKind::Call(e) => {
            assert forall|i: int| 0 <= i < e.arguments@.len() implies ranks.expression_below(
                #[trigger] e.arguments@[i],
                ranks.top(),
            ) by {
                lemma_ceiling_is_above(ranks.expressions, e.arguments@[i].index as int);
            }
        },
        ExprKind::Block(e) => {
            lemma_statements_within_are_lower(e.stmts@, ranks);
        },
        ExprKind::If(e) => {
            lemma_ceiling_is_above(ranks.expressions, e.condition.index as int);
            lemma_statements_within_are_lower(e.then_branch@, ranks);
            if let Some(branch) = e.else_branch {
                lemma_statements_within_are_lower(branch.body@, ranks);
            }
        },
        _ => {},
    }
}

/// Children that have heights at all are lower than the top.
pub proof fn lemma_statement_children_below_top(kind: StmtKind, ranks: Ranks)
    requires
        kind.children_within(ranks.expressions.len() as int, ranks.statements.len() as int),
    ensures
        kind.children_lower(ranks, ranks.top()),
{
    match kind {
        StmtKind::Expr(e) => {
            lemma_ceiling_is_above(ranks.expressions, e.index as int);
        },
        StmtKind::Let(s) => {
            lemma_ceiling_is_above(ranks.expressions, s.initializer.index as int);
        },
        StmtKind::While(s) => {
            lemma_ceiling_is_above(ranks.expressions, s.condition.index as int);
            lemma_statements_within_are_lower(s.body@, ranks);
        },
        StmtKind::Return(s) => {
            if let Some(e) = s.return_value {
                lemma_ceiling_is_above(ranks.expressions, e.index as int);
            }
        },
        StmtKind::Break(_) => {},
        StmtKind::Continue(_) => {},
    }
}

impl Ast {
    /// Whether `ranks` gives every expression and statement a height above
    /// the heights of the nodes it refers to.
    pub open spec fn ranked_by(&self, ranks: Ranks) -> bool {
        &&& ranks.expressions.len() == self.expressions.len()
        &&& ranks.statements.len() == self.statements.len()
        &&& forall|i: int|
            0 <= i < self.expressions.len() ==> (
            #[trigger] self.expressions[i]).kind.children_lower(ranks, ranks.expressions[i])
        &&& forall|i: int|
            0 <= i < self.statements.len() ==> (#[trigger] self.statements[i]).kind.children_lower(
                ranks,
                ranks.statements[i],
            )
    }

    /// Every node carries its own index; every index inside a node is that
    /// of a node in the arena; and no node refers to itself, directly or
    /// through others.
    pub open spec fn wf(&self) -> bool {
        &&& forall|i: int|
            0 <= i < self.expressions.len() ==> (#[trigger] self.expressions[i]).id.index == i
        &&& forall|i: int|
            0 <= i < self.statements.len() ==> (#[trigger] self.statements[i]).id.index == i
        &&& forall|i: int|
            0 <= i < self.items.len() ==> {
                &&& (#[trigger] self.items[i]).id.index == i
                &&& self.items[i].kind.children_within(self.statements.len() as int)
            }
        &&& exists|ranks: Ranks| self.ranked_by(ranks)
    }

    /// Heights that show a well-formed arena to be one.
    pub open spec fn ranks(&self) -> Ranks {
        choose|ranks: Ranks| self.ranked_by(ranks)
    }

    /// How high an expression stands above the leaves.
    pub open spec fn expression_rank(&self, id: ExprId) -> nat {
        self.ranks().expressions[id.index as int]
    }

    /// How high a statement stands above the leaves.
    pub open spec fn statement_rank(&self, id: StmtId) -> nat {
        self.ranks().statements[id.index as int]
    }

    /// An arena stays well-formed when an expression is added that refers
    /// only to nodes which are there already.
    pub proof fn lemma_expression_added(&self, after: &Ast, kind: ExprKind, id: ExprId)
        requires
            self.wf(),
            self.grown_by_expression(after, kind, id),
            kind.children_within(self.expressions.len() as int, self.statements.len() as int),
        ensures
            after.wf(),
    {
        let ranks = self.ranks();
        let more = Ranks {
            expressions: ranks.expressions.push(ranks.top()),
            statements: ranks.statements,
        };
        lemma_expression_children_below_top(kind, ranks);
        lemma_expression_children_stay_lower(kind, ranks, more, ranks.top());
        assert forall|i: int| 0 <= i < after.expressions.len() implies (
        #[trigger] after.expressions[i]).kind.children_lower(more, more.expressions[i]) by {
            if i < self.expressions.len() {
                assert(after.expressions[i] == self.expressions[i]);
                lemma_expression_children_stay_lower(
                    self.expressions[i].kind,
                    ranks,
                    more,
                    ranks.expressions[i],
                );
            }
        }
        assert forall|i: int| 0 <= i < after.statements.len() implies (
        #[trigger] after.statements[i]).kind.children_lower(more, more.statements[i]) by {
            lemma_statement_children_stay_lower(
                self.statements[i].kind,
                ranks,
                more,
                ranks.statements[i],
            );
        }
        assert(after.ranked_by(more));
    }

    /// An arena stays well-formed when a statement is added that refers
    /// only to nodes which are there already.
    pub proof fn lemma_statement_added(&self, after: &Ast, kind: StmtKind, id: StmtId)
        requires
            self.wf(),
            self.grown_by_statement(after, kind, id),
            kind.children_within(self.expressions.len() as int, self.statements.len() as int),
        ensures
            after.wf(),
    {
        let ranks = self.ranks();
        let more = Ranks {
            expressions: ranks.expressions,
            statements: ranks.statements.push(ranks.top()),
        };
        lemma_statement_children_below_top(kind, ranks);
        lemma_statement_children_stay_lower(kind, ranks, more, ranks.top());
        assert forall|i: int| 0 <= i < after.statements.len() implies (
        #[trigger] after.statements[i]).kind.children_lower(more, more.statements[i]) by {
            if i < self.statements.len() {
                assert(after.statements[i] == self.statements[i]);
                lemma_statement_children_stay_lower(
                    self.statements[i].kind,
                    ranks,
                    more,
                    ranks.statements[i],
                );
            }
        }
        assert forall|i: int| 0 <= i < after.expressions.len() implies (
        #[trigger] after.expressions[i]).kind.children_lower(more, more.expressions[i]) by {
            lemma_expression_children_stay_lower(
                self.expressions[i].kind,
                ranks,
                more,
                ranks.expressions[i],
            );
        }
        assert(after.ranked_by(more));
        assert forall|i: int|
            0 <= i < after.items.len() implies after.items[i].kind.children_within(
            after.statements.len() as int,
        ) by {
            assert(self.items[i].kind.children_within(self.statements.len() as int));
        }
    }

    /// An arena stays well-formed when an expression is replaced by one
    /// that refers to the same nodes.
    pub proof fn lemma_expression_annotated(&self, after: &Ast, at: int, kind: ExprKind)
        requires
            self.wf(),
            0 <= at < self.expressions.len(),
            after.expressions@.len() == self.expressions@.len(),
            forall|i: int|
                0 <= i < self.expressions.len() && i != at ==> after.expressions[i]
                    == self.expressions[i],
            after.expressions[at].id == self.expressions[at].id,
            after.expressions[at].kind == kind,
            after.statements == self.statements,
            after.items == self.items,
            forall|ranks: Ranks, bound: nat|
                self.expressions[at].kind.children_lower(ranks, bound) ==> kind.children_lower(
                    ranks,
                    bound,
                ),
        ensures
            after.wf(),
    {
        let ranks = self.ranks();
        assert forall|i: int| 0 <= i < after.expressions.len() implies (
        #[trigger] after.expressions[i]).kind.children_lower(ranks, ranks.expressions[i]) by {
            assert(self.expressions[i].kind.children_lower(ranks, ranks.expressions[i]));
        }
        assert(after.ranked_by(ranks));
    }

    /// An arena stays well-formed when a statement is replaced by one that
    /// refers to the same nodes.
    pub proof fn lemma_statement_annotated(&self, after: &Ast, at: int, kind: StmtKind)
        requires
            self.wf(),
            0 <= at < self.statements.len(),
            after.statements@.len() == self.statements@.len(),
            forall|i: int|
                0 <= i < self.statements.len() && i != at ==> after.statements[i]
                    == self.statements[i],
            after.statements[at].id == self.statements[at].id,
            after.statements[at].kind == kind,
            after.expressions == self.expressions,
            after.items == self.items,
            forall|ranks: Ranks, bound: nat|
                self.statements[at].kind.children_lower(ranks, bound) ==> kind.children_lower(
                    ranks,
                    bound,
                ),
        ensures
            after.wf(),
    {
        let ranks = self.ranks();
        assert forall|i: int| 0 <= i < after.statements.len() implies (
        #[trigger] after.statements[i]).kind.children_lower(ranks, ranks.statements[i]) by {
            assert(self.statements[i].kind.children_lower(ranks, ranks.statements[i]));
        }
        assert(after.ranked_by(ranks));
    }
}

} // verus!
