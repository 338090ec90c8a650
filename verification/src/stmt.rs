//! The statements of the syntax tree.

use vstd::prelude::*;

use crate::expression::Expr;
use crate::expression::ExprView;
use crate::printer::fits_assignment;
use crate::token::Token;
use crate::token::TokenType;
use crate::token::TokenView;

verus! {

/// A statement.
#[derive(Debug)]
pub enum Stmt {
    Expression { expression: Expr },
    Print { expression: Expr },
    Var { name: Token, right: Option<Expr> },
    Block { statements: Vec<Stmt> },
    If { condition: Expr, then_branch: Box<Stmt>, else_branch: Option<Box<Stmt>> },
    While { condition: Expr, body: Box<Stmt> },
}

/// The mathematical model of a [`Stmt`].
pub enum StmtView {
    Expression { expression: ExprView },
    Print { expression: ExprView },
    Var { name: TokenView, right: Option<ExprView> },
    Block { statements: Seq<StmtView> },
    If { condition: ExprView, then_branch: Box<StmtView>, else_branch: Option<Box<StmtView>> },
    While { condition: ExprView, body: Box<StmtView> },
}

/// What holds of every expression that the parser makes: its variables
/// are named by identifiers, and it has the shape that the grammar gives
/// to expressions.
pub open spec fn sound(e: ExprView) -> bool {
    e.well_formed() && fits_assignment(e)
}

impl StmtView {
    /// Every expression of the statement is sound, and a declared variable
    /// is named by an identifier.
    pub open spec fn well_formed(self) -> bool
        decreases self,
    {
        match self {
            StmtView::Expression { expression } => sound(expression),
            StmtView::Print { expression } => sound(expression),
            StmtView::Var { name, right } => name.token_type == TokenType::Id && (right matches Some(
                e,
            ) ==> sound(e)),
            StmtView::Block { statements } => forall|i: int|
                0 <= i < statements.len() ==> (#[trigger] statements[i]).well_formed(),
            StmtView::If { condition, then_branch, else_branch } => {
                &&& sound(condition)
                &&& then_branch.well_formed()
                &&& else_branch matches Some(e) ==> e.well_formed()
            },
            StmtView::While { condition, body } => sound(condition) && body.well_formed(),
        }
    }
}

/// The models of a sequence of statements.
pub open spec fn stmt_views(statements: Seq<Stmt>) -> Seq<StmtView> {
    Seq::new(statements.len(), |i: int| statements[i]@)
}

impl Stmt {
    /// The model of this statement.
    pub open spec fn model(&self) -> StmtView
        decreases self,
    {
        match self {
            Stmt::Expression { expression } => StmtView::Expression { expression: expression@ },
            Stmt::Print { expression } => StmtView::Print { expression: expression@ },
            Stmt::Var { name, right } => StmtView::Var {
                name: name@,
                right: match right {
                    Some(e) => Some(e@),
                    None => None,
                },
            },
            Stmt::Block { statements } => StmtView::Block {
                statements: Seq::new(
                    statements@.len(),
                    |i: int|
                        if 0 <= i < statements.len() {
                            statements[i].model()
                        } else {
                            StmtView::Block { statements: Seq::empty() }
                        },
                ),
            },
            Stmt::If { condition, then_branch, else_branch } => StmtView::If {
                condition: condition@,
                then_branch: Box::new(then_branch.model()),
                else_branch: match else_branch {
                    Some(e) => Some(Box::new(e.model())),
                    None => None,
                },
            },
            Stmt::While { condition, body } => StmtView::While {
                condition: condition@,
                body: Box::new(body.model()),
            },
        }
    }
}

impl View for Stmt {
    type V = StmtView;

    open spec fn view(&self) -> StmtView {
        self.model()
    }
}

/// A block's model holds the models of its statements.
pub proof fn block_model(statements: Vec<Stmt>)
    ensures
        (Stmt::Block { statements })@ == (StmtView::Block {
            statements: stmt_views(statements@),
        }),
{
    assert((Stmt::Block { statements })@->Block_statements =~= stmt_views(statements@));
}

/// Copies a sequence of statements.
pub fn clone_statements(statements: &Vec<Stmt>) -> (r: Vec<Stmt>)
    ensures
        stmt_views(r@) == stmt_views(statements@),
    decreases statements,
{
    let mut r: Vec<Stmt> = Vec::new();
    let mut i: usize = 0;
    while i < statements.len()
        invariant
            i <= statements.len(),
            r.len() == i,
            forall|j: int| 0 <= j < i ==> r@[j]@ == statements@[j]@,
        decreases statements.len() - i,
    {
        r.push(statements[i].clone());
        i = i + 1;
    }
    assert(stmt_views(r@) =~= stmt_views(statements@));
    r
}

impl Clone for Stmt {
    fn clone(&self) -> (r: Self)
        ensures
            r@ == self@,
        decreases self,
    {
        match self {
            Stmt::Expression { expression } => Stmt::Expression { expression: expression.clone() },
            Stmt::Print { expression } => Stmt::Print { expression: expression.clone() },
            Stmt::Var { name, right } => Stmt::Var {
                name: name.clone(),
                right: match right {
                    Some(e) => Some(e.clone()),
                    None => None,
                },
            },
            Stmt::Block { statements } => {
                let copies = clone_statements(statements);
                proof {
                    block_model(copies);
                    block_model(*statements);
                }
                Stmt::Block { statements: copies }
            },
            Stmt::If { condition, then_branch, else_branch } => Stmt::If {
                condition: condition.clone(),
                then_branch: Box::new((&**then_branch).clone()),
                else_branch: match else_branch {
                    Some(e) => Some(Box::new((&**e).clone())),
                    None => None,
                },
            },
            Stmt::While { condition, body } => Stmt::While {
                condition: condition.clone(),
                body: Box::new((&**body).clone()),
            },
        }
    }
}

} // verus!
