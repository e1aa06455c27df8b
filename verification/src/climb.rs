//! Building an expression tree from a flat run of operands and operators.
//!
//! The shape of the tree is decided here, once, from the binding table:
//! nothing that walks the tree later has to know the table.

use vstd::prelude::*;
use crate::ast::Expr;
use crate::ops::{BinOp, UnOp, PRIMARY_LEVEL, UNARY_LEVEL};
use crate::order::{mirrors, reversed};
use crate::unique::lemma_written_tree_unique;

verus! {

/// One element of an expression as written: an operand that is complete in
/// itself, or an operator.
#[derive(Debug, PartialEq, Eq, Hash, PartialOrd, Ord)]
pub enum Token {
    Operand(Expr),
    Unary(UnOp),
    Binary(BinOp),
}

impl Expr {
    /// Neither a binary nor a unary operation: an operand complete in itself.
    pub open spec fn is_primary(&self) -> bool {
        !(self is BinOp) && !(self is UnOp)
    }

    /// How tightly the outermost operator of the expression binds.
    pub open spec fn level(&self) -> int {
        match *self {
            Expr::BinOp(op, _, _) => op.level(),
            Expr::UnOp(op, _) => op.level(),
            _ => 13,
        }
    }

    /// The expression written out in order, without parentheses around its
    /// operations.
    pub open spec fn tokens(&self) -> Seq<Token>
        decreases *self,
    {
        match *self {
            Expr::BinOp(op, left, right) => left.tokens() + seq![Token::Binary(op)]
                + right.tokens(),
            Expr::UnOp(op, operand) => seq![Token::Unary(op)] + operand.tokens(),
            _ => seq![Token::Operand(*self)],
        }
    }

    /// The tree groups its operators the way the binding table reads them
    /// when they are written without parentheses.
    ///
    /// A left operand binds at least as tightly as its operator, and strictly
    /// tighter when the operator groups to the right. A right operand is a
    /// unary operation, or binds strictly tighter than its operator, or as
    /// tightly when the operator groups to the right. The operand of a unary
    /// operator is a unary operation, a power, or a primary.
    pub open spec fn binds_as_written(&self) -> bool
        decreases *self,
    {
        match *self {
            Expr::BinOp(op, left, right) => {
                &&& left.binds_as_written()
                &&& right.binds_as_written()
                &&& takes_left(*left, op)
                &&& takes_right(*right, op)
            },
            Expr::UnOp(_, operand) => operand.binds_as_written() && operand.level() >= 11,
            _ => true,
        }
    }

    /// The binding level of the outermost operator; that of a primary is
    /// above every operator's.
    pub fn binding_level(&self) -> (r: u8)
        ensures
            r == self.level(),
    {
        match self {
            Expr::BinOp(op, _, _) => op.binding_level(),
            Expr::UnOp(op, _) => op.binding_level(),
            _ => PRIMARY_LEVEL,
        }
    }

    /// Whether the tree groups its operators as the binding table reads
    /// them, so that it can be written without parentheses.
    pub fn groups_as_written(&self) -> (r: bool)
        ensures
            r == self.binds_as_written(),
        decreases *self,
    {
        match self {
            Expr::BinOp(op, left, right) => {
                let level: u8 = op.binding_level();
                let left_level: u8 = left.binding_level();
                let left_fits = if op.is_right_associative() {
                    left_level > level
                } else {
                    left_level >= level
                };
                let right_fits = match &**right {
                    Expr::UnOp(_, _) => true,
                    _ => right.binding_level() > op.right_binding_limit(),
                };
                left_fits && right_fits && left.groups_as_written() && right.groups_as_written()
            },
            Expr::UnOp(_, operand) => {
                operand.binding_level() >= UNARY_LEVEL && operand.groups_as_written()
            },
            _ => true,
        }
    }

    /// Writes the expression out in order behind what `out` holds.
    pub fn write_tokens(self, out: &mut Vec<Token>)
        ensures
            final(out)@ == old(out)@ + self.tokens(),
        decreases self,
    {
        let ghost before = out@;
        match self {
            Expr::BinOp(op, left, right) => {
                let ghost l = left.tokens();
                let ghost r = right.tokens();
                (*left).write_tokens(out);
                out.push(Token::Binary(op));
                (*right).write_tokens(out);
                proof {
                    assert(out@ =~= before + (l + seq![Token::Binary(op)] + r));
                }
            },
            Expr::UnOp(op, operand) => {
                let ghost x = operand.tokens();
                out.push(Token::Unary(op));
                (*operand).write_tokens(out);
                proof {
                    assert(out@ =~= before + (seq![Token::Unary(op)] + x));
                }
            },
            other => {
                out.push(Token::Operand(other));
                proof {
                    assert(out@ =~= before + seq![Token::Operand(other)]);
                }
            },
        }
    }

    /// The expression written out in order, without parentheses around its
    /// operations.
    pub fn into_tokens(self) -> (r: Vec<Token>)
        ensures
            r@ == self.tokens(),
    {
        let mut out: Vec<Token> = Vec::new();
        self.write_tokens(&mut out);
        proof {
            assert(out@ =~= self.tokens());
        }
        out
    }

    /// The tree that the expression spells when it is written out and read
    /// again: the same operands and operators in the same order, grouped as
    /// the binding table says. A tree that groups as written comes back
    /// unchanged.
    pub fn regrouped(self) -> (r: Expr)
        ensures
            r.tokens() == self.tokens(),
            r.binds_as_written(),
            self.binds_as_written() ==> r == self,
    {
        proof {
            lemma_tokens_well_formed(self);
        }
        match Expr::from_tokens(self.into_tokens()) {
            Some(e) => e,
            None => vstd::pervasive::unreached(),
        }
    }

    /// Whether the expression is a primary.
    pub fn is_operand(&self) -> (r: bool)
        ensures
            r == self.is_primary(),
    {
        match self {
            Expr::BinOp(_, _, _) => false,
            Expr::UnOp(_, _) => false,
            _ => true,
        }
    }

    /// Builds the tree of an expression written as `tokens`.
    ///
    /// Succeeds exactly on a well-formed run. The tree reads back as the
    /// same run and groups its operators as the binding table says; it is
    /// the only such tree, so a tree that groups as written comes back
    /// unchanged from its own tokens.
    pub fn from_tokens(tokens: Vec<Token>) -> (r: Option<Expr>)
        ensures
            r is Some <==> well_formed(tokens@),
            r matches Some(e) ==> e.tokens() == tokens@ && e.binds_as_written(),
            forall|e: Expr| #[trigger] e.tokens() == tokens@ && e.binds_as_written() ==> r == Some(e),
    {
        let ghost written = tokens@;
        let mut stack = reversed(tokens);
        match climb(&mut stack, 0, Ghost(written)) {
            Some(e) => {
                if stack.len() == 0 {
                    proof {
                        assert(e.tokens() =~= written);
                        lemma_tokens_well_formed(e);
                        assert forall|other: Expr| #[trigger]
                            other.tokens() == written && other.binds_as_written() implies other
                            == e by {
                            lemma_written_tree_unique(other, e);
                        }
                    }
                    Some(e)
                } else {
                    proof {
                        let at = written.len() - stack@.len();
                        assert(stack@[stack@.len() - 1] == written[at]);
                        assert(written[at - 1] is Operand);
                        assert(written[at] matches Token::Binary(op) ==> op.level() > 0);
                        assert(!placed(written, at));
                        assert forall|other: Expr| #[trigger] other.tokens() == written implies false by {
                            lemma_tokens_well_formed(other);
                        }
                    }
                    None
                }
            },
            None => {
                proof {
                    assert forall|other: Expr| #[trigger] other.tokens() == written implies false by {
                        lemma_tokens_well_formed(other);
                    }
                }
                None
            },
        }
    }
}

/// `right` can stand to the right of `op` without parentheses.
pub open spec fn takes_right(right: Expr, op: BinOp) -> bool {
    right is UnOp || right.level() > op.right_limit()
}

/// `left` can stand to the left of `op` without parentheses.
pub open spec fn takes_left(left: Expr, op: BinOp) -> bool {
    if op.right_assoc() {
        left.level() > op.level()
    } else {
        left.level() >= op.level()
    }
}

/// The token at `at` stands where the grammar allows it: a binary operator
/// exactly behind an operand, and an operand only if it is a primary.
pub open spec fn placed(s: Seq<Token>, at: int) -> bool {
    &&& s[at] is Binary <==> (at > 0 && s[at - 1] is Operand)
    &&& s[at] matches Token::Operand(e) ==> e.is_primary()
}

/// A run of tokens that spells one expression: it ends in an operand, a
/// binary operator stands exactly behind each operand but the last, and
/// each operand is a primary.
pub open spec fn well_formed(s: Seq<Token>) -> bool {
    &&& s.len() > 0
    &&& s.last() is Operand
    &&& forall|i: int| 0 <= i < s.len() ==> #[trigger] placed(s, i)
}

/// An operand may start at `at`: nothing or an operator stands before it.
pub open spec fn operand_expected(s: Seq<Token>, at: int) -> bool {
    0 <= at <= s.len() && (at == 0 || !(s[at - 1] is Operand))
}

/// The binary operator at `at`, if one stands there and binds tighter than
/// `limit`.
pub open spec fn binary_above(s: Seq<Token>, at: int, limit: int) -> Option<BinOp> {
    if 0 <= at < s.len() {
        match s[at] {
            Token::Binary(op) => if op.level() > limit {
                Some(op)
            } else {
                None
            },
            _ => None,
        }
    } else {
        None
    }
}

/// `e` is the tree of `s[from..to]`, read under `limit`: it takes in every
/// operator that binds tighter than `limit` and stops before the first that
/// does not.
pub open spec fn reads(s: Seq<Token>, from: int, to: int, e: Expr, limit: int) -> bool {
    &&& 0 <= from < to <= s.len()
    &&& e.tokens() == s.subrange(from, to)
    &&& e.binds_as_written()
    &&& (e is UnOp || e.level() > limit)
    &&& s[to - 1] is Operand
    &&& binary_above(s, to, limit) is None
}

/// The binary operator on top of the stack, if it binds tighter than
/// `limit`. The stack is left as it is.
fn next_binary(stack: &Vec<Token>, limit: u8, Ghost(s): Ghost<Seq<Token>>) -> (r: Option<BinOp>)
    requires
        mirrors(stack@, s),
    ensures
        r == binary_above(s, s.len() - stack@.len(), limit as int),
{
    let n: usize = stack.len();
    if n == 0 {
        None
    } else {
        match &stack[n - 1] {
            Token::Binary(op) => {
                if op.binding_level() > limit {
                    Some(*op)
                } else {
                    None
                }
            },
            _ => None,
        }
    }
}

/// Reads one expression from the top of the stack: an operand with its
/// unary operators, then every binary operator that binds tighter than
/// `limit`, each with its right operand. `s` is the whole run, of which
/// the stack holds what is still to be read.
fn climb(stack: &mut Vec<Token>, limit: u8, Ghost(s): Ghost<Seq<Token>>) -> (r: Option<Expr>)
    requires
        mirrors(old(stack)@, s),
        operand_expected(s, s.len() - old(stack)@.len()),
        limit <= 12,
    ensures
        mirrors(final(stack)@, s),
        final(stack)@.len() <= old(stack)@.len(),
        r is None ==> !well_formed(s),
        r matches Some(e) ==> reads(
            s,
            s.len() - old(stack)@.len(),
            s.len() - final(stack)@.len(),
            e,
            limit as int,
        ),
    decreases old(stack)@.len(),
{
    let ghost from = s.len() - stack@.len();
    let mut lhs = match stack.pop() {
        None => {
            return None;
        },
        Some(Token::Binary(_)) => {
            proof {
                assert(s[from] is Binary);
                assert(!placed(s, from));
            }
            return None;
        },
        Some(Token::Operand(e)) => {
            proof {
                assert(s[from] == Token::Operand(e));
            }
            if !e.is_operand() {
                proof {
                    assert(!placed(s, from));
                }
                return None;
            }
            proof {
                assert(e.tokens() =~= s.subrange(from, from + 1));
            }
            e
        },
        Some(Token::Unary(op)) => {
            proof {
                assert(s[from] == Token::Unary(op));
            }
            match climb(stack, UNARY_LEVEL, Ghost(s)) {
                None => {
                    return None;
                },
                Some(operand) => {
                    let e = Expr::UnOp(op, Box::new(operand));
                    proof {
                        let to = s.len() - stack@.len();
                        assert(e.tokens() =~= s.subrange(from, to));
                    }
                    e
                },
            }
        },
    };
    let mut next = next_binary(stack, limit, Ghost(s));
    while next.is_some()
        invariant
            mirrors(stack@, s),
            stack@.len() < old(stack)@.len(),
            old(stack)@.len() <= s.len(),
            from == s.len() - old(stack)@.len(),
            lhs.tokens() == s.subrange(from, s.len() - stack@.len()),
            lhs.binds_as_written(),
            lhs is UnOp || lhs.level() > limit,
            s[s.len() - stack@.len() - 1] is Operand,
            next == binary_above(s, s.len() - stack@.len(), limit as int),
            s.len() - stack@.len() < s.len() ==> (s[s.len() - stack@.len()] matches Token::Binary(
                op,
            ) ==> takes_left(lhs, op)),
        decreases stack@.len(),
    {
        let ghost at = s.len() - stack@.len();
        let op = next.unwrap();
        stack.pop();
        let right_limit: u8 = op.right_binding_limit();
        match climb(stack, right_limit, Ghost(s)) {
            None => {
                return None;
            },
            Some(rhs) => {
                let ghost left = lhs;
                lhs = Expr::BinOp(op, Box::new(lhs), Box::new(rhs));
                proof {
                    let to = s.len() - stack@.len();
                    assert(s[at] == Token::Binary(op));
                    assert(left.tokens() == s.subrange(from, at));
                    assert(rhs.tokens() == s.subrange(at + 1, to));
                    assert(lhs.tokens() == left.tokens() + seq![Token::Binary(op)] + rhs.tokens());
                    assert(lhs.tokens() =~= s.subrange(from, to));
                    assert(binary_above(s, to, right_limit as int) is None);
                }
            },
        }
        next = next_binary(stack, limit, Ghost(s));
    }
    Some(lhs)
}

/// Writing out any tree gives a well-formed run of tokens.
pub proof fn lemma_tokens_well_formed(e: Expr)
    ensures
        well_formed(e.tokens()),
    decreases e,
{
    let s = e.tokens();
    match e {
        Expr::BinOp(op, left, right) => {
            lemma_tokens_well_formed(*left);
            lemma_tokens_well_formed(*right);
            let a = left.tokens();
            let b = right.tokens();
            assert(s.len() == a.len() + 1 + b.len());
            assert forall|i: int| 0 <= i < s.len() implies #[trigger] placed(s, i) by {
                if i < a.len() {
                    assert(placed(a, i));
                    assert(s[i] == a[i]);
                    if i > 0 {
                        assert(s[i - 1] == a[i - 1]);
                    }
                } else if i == a.len() {
                    assert(s[i] == Token::Binary(op));
                    assert(s[i - 1] == a.last());
                } else {
                    let k = i - a.len() - 1;
                    assert(placed(b, k));
                    assert(s[i] == b[k]);
                    if k > 0 {
                        assert(s[i - 1] == b[k - 1]);
                    } else {
                        assert(s[i - 1] == Token::Binary(op));
                    }
                }
            }
            assert(s.last() == b.last());
        },
        Expr::UnOp(op, operand) => {
            lemma_tokens_well_formed(*operand);
            let b = operand.tokens();
            assert forall|i: int| 0 <= i < s.len() implies #[trigger] placed(s, i) by {
                if i > 0 {
                    assert(placed(b, i - 1));
                    assert(s[i] == b[i - 1]);
                    if i > 1 {
                        assert(s[i - 1] == b[i - 2]);
                    } else {
                        assert(s[i - 1] == Token::Unary(op));
                    }
                } else {
                    assert(s[i] == Token::Unary(op));
                }
            }
            assert(s.last() == b.last());
        },
        _ => {},
    }
}

/// In a tree that groups as written, the left operand of a power is a
/// primary: a unary operator before a power applies to the whole power.
pub proof fn lemma_power_outranks_unary(e: Expr)
    requires
        e.binds_as_written(),
        e matches Expr::BinOp(BinOp::Pow, _, _),
    ensures
        e matches Expr::BinOp(_, left, _) && left.is_primary(),
{
}

/// In a tree that groups as written, an operand with an operator of its
/// parent's level stands on the right exactly when that level groups to the
/// right.
pub proof fn lemma_equal_levels_lean_one_way(e: Expr)
    requires
        e.binds_as_written(),
    ensures
        e matches Expr::BinOp(op, left, right) ==> {
            &&& (*left matches Expr::BinOp(inner, _, _) && inner.level() == op.level())
                ==> !op.right_assoc()
            &&& (*right matches Expr::BinOp(inner, _, _) && inner.level() == op.level())
                ==> op.right_assoc()
        },
{
}

} // verus!
