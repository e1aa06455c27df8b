//! Operator identities and the binding table consulted while a tree is built.

use vstd::prelude::*;

verus! {

/// A binary operator.
#[derive(Clone, Copy, Debug, PartialEq, Eq, Hash, PartialOrd, Ord, Structural)]
pub enum BinOp {
    Add,
    Sub,
    Mul,
    Div,
    Mod,
    Pow,
    IDiv,
    BitAnd,
    BitOr,
    BitXor,
    ShL,
    ShR,
    Concat,
    Equal,
    Less,
    LessEqual,
    Greater,
    GreaterEqual,
    NotEqual,
    And,
    Or,
}

/// A unary operator.
#[derive(Clone, Copy, Debug, PartialEq, Eq, Hash, PartialOrd, Ord, Structural)]
pub enum UnOp {
    Negate,
    Not,
    Len,
    BitNot,
}

/// The binding level shared by all unary operators.
pub const UNARY_LEVEL: u8 = 11;

/// The binding level of an operand that needs no operator at all.
pub const PRIMARY_LEVEL: u8 = 13;

impl BinOp {
    /// Binding level: a larger number binds tighter.
    pub open spec fn level(self) -> int {
        match self {
            BinOp::Or => 1,
            BinOp::And => 2,
            BinOp::Less | BinOp::Greater | BinOp::LessEqual | BinOp::GreaterEqual
            | BinOp::NotEqual | BinOp::Equal => 3,
            BinOp::BitOr => 4,
            BinOp::BitXor => 5,
            BinOp::BitAnd => 6,
            BinOp::ShL | BinOp::ShR => 7,
            BinOp::Concat => 8,
            BinOp::Add | BinOp::Sub => 9,
            BinOp::Mul | BinOp::Div | BinOp::IDiv | BinOp::Mod => 10,
            BinOp::Pow => 12,
        }
    }

    /// Whether a run of this operator groups to the right.
    pub open spec fn right_assoc(self) -> bool {
        self == BinOp::Concat || self == BinOp::Pow
    }

    /// The loosest level that the right operand may have without parentheses.
    pub open spec fn right_limit(self) -> int {
        if self.right_assoc() {
            self.level() - 1
        } else {
            self.level()
        }
    }

    /// The binding level of the operator, from 1 for `or` to 12 for `^`.
    pub fn binding_level(&self) -> (r: u8)
        ensures
            r == self.level(),
            1 <= r <= 12,
            r != UNARY_LEVEL,
    {
        match self {
            BinOp::Or => 1,
            BinOp::And => 2,
            BinOp::Less | BinOp::Greater | BinOp::LessEqual | BinOp::GreaterEqual
            | BinOp::NotEqual | BinOp::Equal => 3,
            BinOp::BitOr => 4,
            BinOp::BitXor => 5,
            BinOp::BitAnd => 6,
            BinOp::ShL | BinOp::ShR => 7,
            BinOp::Concat => 8,
            BinOp::Add | BinOp::Sub => 9,
            BinOp::Mul | BinOp::Div | BinOp::IDiv | BinOp::Mod => 10,
            BinOp::Pow => 12,
        }
    }

    /// Whether a run of this operator groups to the right: `..` and `^` do.
    pub fn is_right_associative(&self) -> (r: bool)
        ensures
            r == self.right_assoc(),
    {
        match self {
            BinOp::Concat | BinOp::Pow => true,
            _ => false,
        }
    }

    /// The level above which an operator must bind to be taken into this
    /// operator's right operand.
    pub fn right_binding_limit(&self) -> (r: u8)
        ensures
            r == self.right_limit(),
    {
        let level: u8 = self.binding_level();
        if self.is_right_associative() {
            level - 1
        } else {
            level
        }
    }
}

impl UnOp {
    /// Binding level of every unary operator.
    pub open spec fn level(self) -> int {
        11
    }

    /// The binding level of the operator.
    pub fn binding_level(&self) -> (r: u8)
        ensures
            r == self.level(),
    {
        UNARY_LEVEL
    }
}

/// Operators of one level group the same way.
pub proof fn lemma_level_fixes_associativity(a: BinOp, b: BinOp)
    requires
        a.level() == b.level(),
    ensures
        a.right_assoc() == b.right_assoc(),
{
}

/// Every unary operator binds tighter than every binary operator but `^`,
/// and `^` binds tighter than every unary operator.
pub proof fn lemma_unary_between(u: UnOp, b: BinOp)
    ensures
        b != BinOp::Pow ==> b.level() < u.level(),
        b == BinOp::Pow ==> u.level() < b.level(),
{
}

} // verus!
