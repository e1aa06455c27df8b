//! Putting parentheses where the grouping of a tree differs from the way
//! its operators would be read without them.

use vstd::prelude::*;
use crate::ast::{Expr, PrefixBase, PrefixExpr};
use crate::climb::{takes_left, takes_right};
use crate::ops::{BinOp, UNARY_LEVEL};

verus! {

/// `out` is `e` with parentheses put where they are needed inside it, and
/// around it unless `fits`.
pub open spec fn fitted(out: Expr, e: Expr, fits: bool) -> bool
    decreases e, 1int,
{
    if fits {
        parenthesizes(out, e)
    } else {
        out matches Expr::PrefixExpr(p) && p.suffixes@.len() == 0 && (p.base matches PrefixBase::Paren(
            inner,
        ) && parenthesizes(*inner, e))
    }
}

/// `out` is `e` with each operand that would be read differently without
/// parentheses put into parentheses, and nothing else changed.
pub open spec fn parenthesizes(out: Expr, e: Expr) -> bool
    decreases e, 0int,
{
    match e {
        Expr::BinOp(op, left, right) => {
            out matches Expr::BinOp(out_op, out_left, out_right) && out_op == op && fitted(
                *out_left,
                *left,
                takes_left(*left, op),
            ) && fitted(*out_right, *right, takes_right(*right, op))
        },
        Expr::UnOp(op, operand) => {
            out matches Expr::UnOp(out_op, out_operand) && out_op == op && fitted(
                *out_operand,
                *operand,
                operand.level() >= 11,
            )
        },
        _ => out == e,
    }
}

impl Expr {
    /// The expression with parentheses put around each operand that would
    /// be read differently without them. What comes back groups as written,
    /// so it can be written out and read again unchanged.
    pub fn parenthesized(self) -> (r: Expr)
        ensures
            parenthesizes(r, self),
            r.binds_as_written(),
            r.level() == self.level(),
            r is UnOp <==> self is UnOp,
            self.binds_as_written() ==> r == self,
        decreases self,
    {
        proof {
            if self.binds_as_written() {
                assert forall|out: Expr| parenthesizes(out, self) implies out == self by {
                    lemma_nothing_to_parenthesize(out, self);
                }
            }
        }
        match self {
            Expr::BinOp(op, left, right) => {
                let level: u8 = op.binding_level();
                let left_level: u8 = left.binding_level();
                let left_fits = if op.is_right_associative() {
                    left_level > level
                } else {
                    left_level >= level
                };
                let right_fits = match &*right {
                    Expr::UnOp(_, _) => true,
                    _ => right.binding_level() > op.right_binding_limit(),
                };
                let new_left = fit((*left).parenthesized(), left_fits, Ghost(*left));
                let new_right = fit((*right).parenthesized(), right_fits, Ghost(*right));
                Expr::BinOp(op, Box::new(new_left), Box::new(new_right))
            },
            Expr::UnOp(op, operand) => {
                let fits = operand.binding_level() >= UNARY_LEVEL;
                let new_operand = fit((*operand).parenthesized(), fits, Ghost(*operand));
                Expr::UnOp(op, Box::new(new_operand))
            },
            other => other,
        }
    }
}

/// `inner` as it is where it fits, in parentheses where it does not.
fn fit(inner: Expr, fits: bool, Ghost(e): Ghost<Expr>) -> (r: Expr)
    requires
        parenthesizes(inner, e),
        inner.binds_as_written(),
        inner.level() == e.level(),
        inner is UnOp <==> e is UnOp,
    ensures
        fitted(r, e, fits),
        r.binds_as_written(),
        fits ==> r == inner,
        !fits ==> r.is_primary(),
{
    if fits {
        inner
    } else {
        Expr::PrefixExpr(PrefixExpr::paren(inner))
    }
}

/// A tree that groups as written needs no parentheses: putting them where
/// they are needed leaves it as it is.
pub proof fn lemma_nothing_to_parenthesize(out: Expr, e: Expr)
    requires
        e.binds_as_written(),
        parenthesizes(out, e),
    ensures
        out == e,
    decreases e,
{
    match (e, out) {
        (Expr::BinOp(_, left, right), Expr::BinOp(_, out_left, out_right)) => {
            lemma_nothing_to_parenthesize(*out_left, *left);
            lemma_nothing_to_parenthesize(*out_right, *right);
        },
        (Expr::UnOp(_, operand), Expr::UnOp(_, out_operand)) => {
            lemma_nothing_to_parenthesize(*out_operand, *operand);
        },
        _ => {},
    }
}

} // verus!
