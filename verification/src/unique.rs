//! A run of tokens has at most one tree that groups its operators the way
//! the binding table reads them.
//!
//! The proof walks the left spines of two such trees from the bottom up and
//! finds them equal node by node.

use vstd::prelude::*;
use crate::ast::Expr;
use crate::climb::{binary_above, lemma_tokens_well_formed, reads, takes_left, Token};
use crate::ops::{lemma_level_fixes_associativity, BinOp};

verus! {

/// The left operand of a binary operation; any other expression itself.
pub open spec fn left_of(e: Expr) -> Expr {
    match e {
        Expr::BinOp(_, left, _) => *left,
        _ => e,
    }
}

/// The expression reached from `e` by `k` steps into left operands.
pub open spec fn descend(e: Expr, k: nat) -> Expr
    decreases k,
{
    if k == 0 {
        e
    } else {
        left_of(descend(e, (k - 1) as nat))
    }
}

/// The number of binary operations on the way down the left operands.
pub open spec fn spine_len(e: Expr) -> nat
    decreases e,
{
    match e {
        Expr::BinOp(_, left, _) => 1 + spine_len(*left),
        _ => 0,
    }
}

/// `next` may follow `op` where `op` has already taken its right operand.
proof fn lemma_next_within_right_limit(op: BinOp, next: BinOp)
    requires
        if next.right_assoc() {
            op.level() > next.level()
        } else {
            op.level() >= next.level()
        },
    ensures
        next.level() <= op.right_limit(),
{
    if op.level() == next.level() {
        lemma_level_fixes_associativity(op, next);
    }
}

/// Each step down the spine leaves one binary operation fewer below.
proof fn lemma_descend_spine(e: Expr, k: nat)
    requires
        k <= spine_len(e),
    ensures
        spine_len(descend(e, k)) == spine_len(e) - k,
    decreases k,
{
    if k > 0 {
        lemma_descend_spine(e, (k - 1) as nat);
    }
}

/// What holds of the node `k` steps down the left spine of a tree `a` read
/// from `s[from..to]` under `limit`: it spells a prefix of the same tokens,
/// and the operator behind it is the one of its parent.
proof fn lemma_spine_node(s: Seq<Token>, from: int, limit: int, a: Expr, to: int, k: nat)
    requires
        reads(s, from, to, a, limit),
        k <= spine_len(a),
    ensures
        ({
            let x = descend(a, k);
            let end = from + x.tokens().len();
            &&& from < end <= to
            &&& x.tokens() == s.subrange(from, end)
            &&& x.binds_as_written()
            &&& (x is UnOp || x.level() > limit)
            &&& s[end - 1] is Operand
            &&& k == 0 ==> end == to
            &&& k > 0 ==> {
                let up = descend(a, (k - 1) as nat);
                &&& up matches Expr::BinOp(op, left, right)
                &&& *left == x
                &&& end < to
                &&& s[end] == Token::Binary(op)
                &&& op.level() > limit
                &&& takes_left(x, op)
                &&& reads(s, end + 1, from + up.tokens().len(), *right, op.right_limit())
            }
        }),
    decreases k,
{
    let x = descend(a, k);
    lemma_tokens_well_formed(x);
    if k == 0 {
        assert(a.tokens().len() == to - from);
    } else {
        let up = descend(a, (k - 1) as nat);
        lemma_spine_node(s, from, limit, a, to, (k - 1) as nat);
        lemma_descend_spine(a, (k - 1) as nat);
        let up_end = from + up.tokens().len();
        match up {
            Expr::BinOp(op, left, right) => {
                let end = from + x.tokens().len();
                let r = *right;
                assert(*left == x);
                assert(up.tokens() == x.tokens() + seq![Token::Binary(op)] + r.tokens());
                assert(up.tokens().len() == x.tokens().len() + 1 + r.tokens().len());
                lemma_tokens_well_formed(r);
                assert(x.tokens() =~= s.subrange(from, end)) by {
                    assert forall|i: int| 0 <= i < x.tokens().len() implies x.tokens()[i]
                        == s.subrange(from, end)[i] by {
                        assert(up.tokens()[i] == x.tokens()[i]);
                        assert(s.subrange(from, up_end)[i] == s[from + i]);
                    }
                }
                assert(s[end] == Token::Binary(op)) by {
                    assert(up.tokens()[end - from] == Token::Binary(op));
                    assert(s.subrange(from, up_end)[end - from] == s[end]);
                }
                assert(r.tokens() =~= s.subrange(end + 1, up_end)) by {
                    assert forall|i: int| 0 <= i < r.tokens().len() implies r.tokens()[i]
                        == s.subrange(end + 1, up_end)[i] by {
                        assert(up.tokens()[end - from + 1 + i] == r.tokens()[i]);
                        assert(s.subrange(from, up_end)[end - from + 1 + i] == s[end + 1 + i]);
                    }
                }
                assert(s[end - 1] is Operand) by {
                    assert(x.tokens().last() == s.subrange(from, end)[end - from - 1]);
                }
                assert(s[up_end - 1] is Operand);
                assert(binary_above(s, up_end, op.right_limit()) is None) by {
                    if k - 1 > 0 {
                        let above = descend(a, (k - 2) as nat);
                        match above {
                            Expr::BinOp(next, _, _) => {
                                lemma_next_within_right_limit(op, next);
                            },
                            _ => {},
                        }
                    }
                }
            },
            _ => {},
        }
    }
}

/// Two trees read from the same place under the same limit that share a
/// node on their left spines are the same tree.
proof fn lemma_climb_together(
    s: Seq<Token>,
    from: int,
    limit: int,
    a: Expr,
    to_a: int,
    b: Expr,
    to_b: int,
    i: nat,
    j: nat,
)
    requires
        reads(s, from, to_a, a, limit),
        reads(s, from, to_b, b, limit),
        limit <= 11,
        i <= spine_len(a),
        j <= spine_len(b),
        descend(a, i) == descend(b, j),
    ensures
        a == b,
    decreases to_a - from, 0int, i,
{
    lemma_spine_node(s, from, limit, a, to_a, i);
    lemma_spine_node(s, from, limit, b, to_b, j);
    let x = descend(a, i);
    let end = from + x.tokens().len();
    if i == 0 && j == 0 {
    } else if i == 0 {
        assert(binary_above(s, end, limit) is None);
    } else if j == 0 {
        assert(binary_above(s, end, limit) is None);
    } else {
        let up_a = descend(a, (i - 1) as nat);
        let up_b = descend(b, (j - 1) as nat);
        lemma_spine_node(s, from, limit, a, to_a, (i - 1) as nat);
        match (up_a, up_b) {
            (Expr::BinOp(op_a, left_a, right_a), Expr::BinOp(op_b, left_b, right_b)) => {
                assert(op_a == op_b);
                lemma_reads_unique(
                    s,
                    end + 1,
                    op_a.right_limit(),
                    *right_a,
                    from + up_a.tokens().len(),
                    *right_b,
                    from + up_b.tokens().len(),
                );
                assert(up_a == up_b);
            },
            _ => {},
        }
        lemma_climb_together(s, from, limit, a, to_a, b, to_b, (i - 1) as nat, (j - 1) as nat);
    }
}

/// At most one tree is read from a given place under a given limit.
pub proof fn lemma_reads_unique(
    s: Seq<Token>,
    from: int,
    limit: int,
    a: Expr,
    to_a: int,
    b: Expr,
    to_b: int,
)
    requires
        reads(s, from, to_a, a, limit),
        reads(s, from, to_b, b, limit),
        limit <= 11,
    ensures
        a == b,
    decreases to_a - from, 1int, 0nat,
{
    let i = spine_len(a);
    let j = spine_len(b);
    lemma_descend_spine(a, i);
    lemma_descend_spine(b, j);
    lemma_spine_node(s, from, limit, a, to_a, i);
    lemma_spine_node(s, from, limit, b, to_b, j);
    let head_a = descend(a, i);
    let head_b = descend(b, j);
    let end_a = from + head_a.tokens().len();
    let end_b = from + head_b.tokens().len();
    assert(head_a.tokens()[0] == s[from]) by {
        assert(s.subrange(from, end_a)[0] == s[from]);
    }
    assert(head_b.tokens()[0] == s[from]) by {
        assert(s.subrange(from, end_b)[0] == s[from]);
    }
    match (head_a, head_b) {
        (Expr::UnOp(op_a, inner_a), Expr::UnOp(op_b, inner_b)) => {
            let xa = *inner_a;
            let xb = *inner_b;
            lemma_tokens_well_formed(xa);
            lemma_tokens_well_formed(xb);
            assert(xa.tokens() =~= s.subrange(from + 1, end_a)) by {
                assert forall|k: int| 0 <= k < xa.tokens().len() implies xa.tokens()[k]
                    == s.subrange(from + 1, end_a)[k] by {
                    assert(head_a.tokens()[k + 1] == xa.tokens()[k]);
                    assert(s.subrange(from, end_a)[k + 1] == s[from + 1 + k]);
                }
            }
            assert(xb.tokens() =~= s.subrange(from + 1, end_b)) by {
                assert forall|k: int| 0 <= k < xb.tokens().len() implies xb.tokens()[k]
                    == s.subrange(from + 1, end_b)[k] by {
                    assert(head_b.tokens()[k + 1] == xb.tokens()[k]);
                    assert(s.subrange(from, end_b)[k + 1] == s[from + 1 + k]);
                }
            }
            assert(binary_above(s, end_a, 11) is None);
            assert(binary_above(s, end_b, 11) is None);
            lemma_reads_unique(s, from + 1, 11, xa, end_a, xb, end_b);
            assert(head_a == head_b);
        },
        _ => {
            assert(head_a == head_b);
        },
    }
    lemma_climb_together(s, from, limit, a, to_a, b, to_b, i, j);
}

/// Two trees that group their operators as written and spell the same
/// tokens are the same tree.
pub proof fn lemma_written_tree_unique(a: Expr, b: Expr)
    requires
        a.binds_as_written(),
        b.binds_as_written(),
        a.tokens() == b.tokens(),
    ensures
        a == b,
{
    let s = a.tokens();
    lemma_tokens_well_formed(a);
    assert(s.subrange(0, s.len() as int) =~= s);
    lemma_reads_unique(s, 0, 0, a, s.len() as int, b, s.len() as int);
}

} // verus!
