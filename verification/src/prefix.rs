//! Prefix expressions as a base with a chain of suffixes, and the two
//! readings of a finished chain: an assignable variable or a function call.

use vstd::prelude::*;
use crate::lexeme::Name;
use crate::ast::{Args, Expr, FunctionCall, PrefixBase, PrefixExpr, Stmt, Suffix, Var};

verus! {

/// The mathematical content of a prefix expression.
pub struct Chain {
    pub base: PrefixBase,
    pub suffixes: Seq<Suffix>,
}

impl Chain {
    /// The last suffix is a call, plain or by method.
    pub open spec fn ends_in_call(self) -> bool {
        self.suffixes.len() > 0 && self.suffixes.last().is_call()
    }

    /// The chain names a location that can be assigned to: a bare name, or
    /// anything followed by an index or a field access.
    pub open spec fn assignable(self) -> bool {
        if self.suffixes.len() == 0 {
            self.base is Name
        } else {
            self.suffixes.last() is Index || self.suffixes.last() is Field
        }
    }
}

impl Suffix {
    /// The suffix calls what stands before it, plainly or by method.
    pub open spec fn is_call(self) -> bool {
        self is Call || self is Method
    }
}

impl View for PrefixExpr {
    type V = Chain;

    open spec fn view(&self) -> Chain {
        Chain { base: self.base, suffixes: self.suffixes@ }
    }
}

impl PrefixExpr {
    /// A bare name.
    pub fn name(name: Name) -> (r: PrefixExpr)
        ensures
            r@ == (Chain { base: PrefixBase::Name(name), suffixes: Seq::empty() }),
    {
        PrefixExpr { base: PrefixBase::Name(name), suffixes: Vec::new() }
    }

    /// A parenthesized expression.
    pub fn paren(inner: Expr) -> (r: PrefixExpr)
        ensures
            r@ == (Chain { base: PrefixBase::Paren(Box::new(inner)), suffixes: Seq::empty() }),
    {
        PrefixExpr { base: PrefixBase::Paren(Box::new(inner)), suffixes: Vec::new() }
    }

    /// The chain with `suffix` applied after all the others.
    pub fn followed_by(self, suffix: Suffix) -> (r: PrefixExpr)
        ensures
            r@ == (Chain { base: self.base, suffixes: self.suffixes@.push(suffix) }),
    {
        let PrefixExpr { base, suffixes } = self;
        let mut suffixes = suffixes;
        suffixes.push(suffix);
        PrefixExpr { base, suffixes }
    }

    /// Whether the chain is a function call, by a look at its last suffix.
    pub fn is_call(&self) -> (r: bool)
        ensures
            r == self@.ends_in_call(),
    {
        let n: usize = self.suffixes.len();
        if n == 0 {
            false
        } else {
            match &self.suffixes[n - 1] {
                Suffix::Call(_) => true,
                Suffix::Method(_, _) => true,
                _ => false,
            }
        }
    }

    /// Whether the chain is a variable, by a look at its last suffix.
    pub fn is_var(&self) -> (r: bool)
        ensures
            r == self@.assignable(),
    {
        let n: usize = self.suffixes.len();
        if n == 0 {
            match &self.base {
                PrefixBase::Name(_) => true,
                PrefixBase::Paren(_) => false,
            }
        } else {
            match &self.suffixes[n - 1] {
                Suffix::Index(_) => true,
                Suffix::Field(_) => true,
                _ => false,
            }
        }
    }

    /// Reads the chain as a function call: the last suffix becomes the call,
    /// the rest the callee. `None` exactly when the chain does not end in a
    /// call.
    pub fn into_call(self) -> (r: Option<FunctionCall>)
        ensures
            r is Some <==> self@.ends_in_call(),
            r matches Some(call) ==> call.chain() == self@,
    {
        let ghost before = self@;
        let PrefixExpr { base, suffixes } = self;
        let mut suffixes = suffixes;
        match suffixes.pop() {
            Some(Suffix::Call(args)) => {
                let call = FunctionCall { callee: PrefixExpr { base, suffixes }, method: None, args };
                proof {
                    assert(call.chain().suffixes =~= before.suffixes);
                }
                Some(call)
            },
            Some(Suffix::Method(name, args)) => {
                let call = FunctionCall {
                    callee: PrefixExpr { base, suffixes },
                    method: Some(name),
                    args,
                };
                proof {
                    assert(call.chain().suffixes =~= before.suffixes);
                }
                Some(call)
            },
            _ => None,
        }
    }

    /// Reads the chain as an assignment target. `None` exactly when the
    /// chain is not assignable.
    pub fn into_var(self) -> (r: Option<Var>)
        ensures
            r is Some <==> self@.assignable(),
            r matches Some(var) ==> var.chain() == self@,
    {
        let ghost before = self@;
        let PrefixExpr { base, suffixes } = self;
        let mut suffixes = suffixes;
        match suffixes.pop() {
            Some(Suffix::Index(key)) => {
                let var = Var::Indexed(PrefixExpr { base, suffixes }, key);
                proof {
                    assert(var.chain().suffixes =~= before.suffixes);
                }
                Some(var)
            },
            Some(Suffix::Field(name)) => {
                let var = Var::Field(PrefixExpr { base, suffixes }, name);
                proof {
                    assert(var.chain().suffixes =~= before.suffixes);
                }
                Some(var)
            },
            Some(_) => None,
            None => {
                match base {
                    PrefixBase::Name(name) => {
                        proof {
                            assert(before.suffixes =~= Seq::empty());
                        }
                        Some(Var::Name(name))
                    },
                    PrefixBase::Paren(_) => None,
                }
            },
        }
    }
}

impl FunctionCall {
    /// The suffix that makes the call.
    pub open spec fn call_suffix(&self) -> Suffix {
        match self.method {
            Some(name) => Suffix::Method(name, self.args),
            None => Suffix::Call(self.args),
        }
    }

    /// The call written out as a chain: the callee's chain, then the call.
    pub open spec fn chain(&self) -> Chain {
        Chain { base: self.callee.base, suffixes: self.callee.suffixes@.push(self.call_suffix()) }
    }

    /// The call as a prefix expression, to be chained further or used as a
    /// value.
    pub fn into_prefix(self) -> (r: PrefixExpr)
        ensures
            r@ == self.chain(),
            r@.ends_in_call(),
    {
        let FunctionCall { callee, method, args } = self;
        match method {
            Some(name) => callee.followed_by(Suffix::Method(name, args)),
            None => callee.followed_by(Suffix::Call(args)),
        }
    }
}

impl Var {
    /// The variable written out as a chain.
    pub open spec fn chain(&self) -> Chain {
        match *self {
            Var::Name(name) => Chain { base: PrefixBase::Name(name), suffixes: Seq::empty() },
            Var::Indexed(prefix, key) => Chain {
                base: prefix.base,
                suffixes: prefix.suffixes@.push(Suffix::Index(key)),
            },
            Var::Field(prefix, name) => Chain {
                base: prefix.base,
                suffixes: prefix.suffixes@.push(Suffix::Field(name)),
            },
        }
    }

    /// The variable as a prefix expression, to be chained further or used as
    /// a value.
    pub fn into_prefix(self) -> (r: PrefixExpr)
        ensures
            r@ == self.chain(),
            r@.assignable(),
    {
        match self {
            Var::Name(name) => PrefixExpr::name(name),
            Var::Indexed(prefix, key) => prefix.followed_by(Suffix::Index(key)),
            Var::Field(prefix, name) => prefix.followed_by(Suffix::Field(name)),
        }
    }
}

impl Stmt {
    /// A prefix expression used as a statement. Only a function call is a
    /// statement: `None` exactly when the chain does not end in a call.
    pub fn expression_statement(prefix: PrefixExpr) -> (r: Option<Stmt>)
        ensures
            r is Some <==> prefix@.ends_in_call(),
            r matches Some(stmt) ==> stmt matches Stmt::Call(call) && call.chain() == prefix@,
    {
        match prefix.into_call() {
            Some(call) => Some(Stmt::Call(call)),
            None => None,
        }
    }
}

/// No chain is both a variable and a function call.
pub proof fn lemma_var_or_call(chain: Chain)
    ensures
        !(chain.assignable() && chain.ends_in_call()),
{
}

/// A chain with at least one suffix is a variable or a function call; with
/// none it is a variable exactly when its base is a name.
pub proof fn lemma_chain_classified(chain: Chain)
    ensures
        chain.suffixes.len() > 0 ==> (chain.assignable() || chain.ends_in_call()),
        chain.suffixes.len() == 0 ==> (chain.assignable() <==> chain.base is Name),
{
}

} // verus!
