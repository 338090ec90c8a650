//! The expressions of the syntax tree.

use vstd::prelude::*;

use crate::token::Literal;
use crate::token::LiteralView;
use crate::token::Token;
use crate::token::TokenType;
use crate::token::TokenView;

verus! {

/// An expression.
#[derive(Debug)]
pub enum Expr {
    Binary { left: Box<Expr>, operator: Token, right: Box<Expr> },
    Grouping { expression: Box<Expr> },
    Literal { value: Literal },
    Unary { operator: Token, right: Box<Expr> },
    Variable { token: Token },
    Assign { name: Token, value: Box<Expr> },
    Logical { left: Box<Expr>, operator: Token, right: Box<Expr> },
    Call { callee: Box<Expr>, paren: Token, arguments: Vec<Expr> },
}

/// The mathematical model of an [`Expr`].
pub enum ExprView {
    Binary { left: Box<ExprView>, operator: TokenView, right: Box<ExprView> },
    Grouping { expression: Box<ExprView> },
    Literal { value: LiteralView },
    Unary { operator: TokenView, right: Box<ExprView> },
    Variable { token: TokenView },
    Assign { name: TokenView, value: Box<ExprView> },
    Logical { left: Box<ExprView>, operator: TokenView, right: Box<ExprView> },
    Call { callee: Box<ExprView>, paren: TokenView, arguments: Seq<ExprView> },
}

impl ExprView {
    /// A variable is named by an identifier, here and in every
    /// sub-expression, and so is the target of an assignment.
    pub open spec fn well_formed(self) -> bool
        decreases self,
    {
        match self {
            ExprView::Binary { left, operator, right } => left.well_formed() && right.well_formed(),
            ExprView::Grouping { expression } => expression.well_formed(),
            ExprView::Literal { value } => true,
            ExprView::Unary { operator, right } => right.well_formed(),
            ExprView::Variable { token } => token.token_type == TokenType::Id,
            ExprView::Assign { name, value } => name.token_type == TokenType::Id
                && value.well_formed(),
            ExprView::Logical { left, operator, right } => left.well_formed()
                && right.well_formed(),
            ExprView::Call { callee, paren, arguments } => {
                &&& callee.well_formed()
                &&& forall|i: int|
                    0 <= i < arguments.len() ==> (#[trigger] arguments[i]).well_formed()
            },
        }
    }
}

impl Expr {
    /// The model of this expression.
    pub open spec fn model(&self) -> ExprView
        decreases self,
    {
        match self {
            Expr::Binary { left, operator, right } => ExprView::Binary {
                left: Box::new(left.model()),
                operator: operator@,
                right: Box::new(right.model()),
            },
            Expr::Grouping { expression } => ExprView::Grouping {
                expression: Box::new(expression.model()),
            },
            Expr::Literal { value } => ExprView::Literal { value: value@ },
            Expr::Unary { operator, right } => ExprView::Unary {
                operator: operator@,
                right: Box::new(right.model()),
            },
            Expr::Variable { token } => ExprView::Variable { token: token@ },
            Expr::Assign { name, value } => ExprView::Assign {
                name: name@,
                value: Box::new(value.model()),
            },
            Expr::Logical { left, operator, right } => ExprView::Logical {
                left: Box::new(left.model()),
                operator: operator@,
                right: Box::new(right.model()),
            },
            Expr::Call { callee, paren, arguments } => ExprView::Call {
                callee: Box::new(callee.model()),
                paren: paren@,
                arguments: Seq::new(
                    arguments@.len(),
                    |i: int|
                        if 0 <= i < arguments.len() {
                            arguments[i].model()
                        } else {
                            ExprView::Literal { value: LiteralView::Nill }
                        },
                ),
            },
        }
    }
}

impl View for Expr {
    type V = ExprView;

    open spec fn view(&self) -> ExprView {
        self.model()
    }
}

impl Clone for Expr {
    fn clone(&self) -> (r: Self)
        ensures
            r@ == self@,
        decreases self,
    {
        match self {
            Expr::Binary { left, operator, right } => Expr::Binary {
                left: Box::new((&**left).clone()),
                operator: operator.clone(),
                right: Box::new((&**right).clone()),
            },
            Expr::Grouping { expression } => Expr::Grouping {
                expression: Box::new((&**expression).clone()),
            },
            Expr::Literal { value } => Expr::Literal { value: value.clone() },
            Expr::Unary { operator, right } => Expr::Unary {
                operator: operator.clone(),
                right: Box::new((&**right).clone()),
            },
            Expr::Variable { token } => Expr::Variable { token: token.clone() },
            Expr::Assign { name, value } => Expr::Assign {
                name: name.clone(),
                value: Box::new((&**value).clone()),
            },
            Expr::Logical { left, operator, right } => Expr::Logical {
                left: Box::new((&**left).clone()),
                operator: operator.clone(),
                right: Box::new((&**right).clone()),
            },
            Expr::Call { callee, paren, arguments } => {
                let mut copies: Vec<Expr> = Vec::new();
                let mut i: usize = 0;
                while i < arguments.len()
                    invariant
                        i <= arguments.len(),
                        copies.len() == i,
                        forall|j: int| 0 <= j < i ==> copies@[j]@ == arguments@[j]@,
                        self matches Expr::Call { arguments: a, .. } && a == arguments,
                    decreases arguments.len() - i,
                {
                    copies.push(arguments[i].clone());
                    i = i + 1;
                }
                let r = Expr::Call {
                    callee: Box::new((&**callee).clone()),
                    paren: paren.clone(),
                    arguments: copies,
                };
                assert(r@->Call_arguments =~= self@->Call_arguments);
                r
            },
        }
    }
}

} // verus!
