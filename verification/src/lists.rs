//! Lists of names, expressions, fields and parameters: which position of
//! an expression list may yield several values, how the positional fields of
//! a table constructor are numbered, and where an ellipsis may stand.

use vstd::prelude::*;
use crate::lexeme::{receiver_chars, Ellipsis, Name};
use crate::ast::{
    Args, Block, Chunk, Expr, ExprList, Field, FieldList, FuncBody, FuncName, NameList, ParamList,
    PrefixExpr, ReturnStmt, Stmt, TableCtor, Var, VarList,
};
use crate::order::{mirrors, reversed};

verus! {

impl Expr {
    /// The expression may yield any number of values: a function call or
    /// `...`. A call in parentheses yields one value.
    pub open spec fn multi_value(&self) -> bool {
        *self is Ellipsis || (*self matches Expr::PrefixExpr(p) && p@.ends_in_call())
    }

    /// Whether the expression may yield any number of values.
    pub fn is_multi_value(&self) -> (r: bool)
        ensures
            r == self.multi_value(),
    {
        match self {
            Expr::Ellipsis => true,
            Expr::PrefixExpr(p) => p.is_call(),
            _ => false,
        }
    }
}

impl ExprList {
    /// The element at `i` may expand to several values: it is the last one
    /// and a multi-value expression. Every other element gives one value.
    pub open spec fn expanding_at(&self, i: int) -> bool {
        0 <= i && i == self.0@.len() - 1 && self.0@[i].multi_value()
    }

    /// The list ends in an element that may expand.
    pub open spec fn expanding(&self) -> bool {
        self.0@.len() > 0 && self.0@.last().multi_value()
    }

    /// Whether the element at `i` may expand to several values.
    pub fn expands_at(&self, i: usize) -> (r: bool)
        ensures
            r == self.expanding_at(i as int),
    {
        let n: usize = self.0.len();
        n > 0 && i == n - 1 && self.0[i].is_multi_value()
    }

    /// Whether the last element may expand to several values.
    pub fn expands(&self) -> (r: bool)
        ensures
            r == self.expanding(),
    {
        let n: usize = self.0.len();
        n > 0 && self.0[n - 1].is_multi_value()
    }
}

/// At most one position of a list expands, and it is the last.
pub proof fn lemma_only_last_expands(list: ExprList, i: int)
    requires
        list.expanding_at(i),
    ensures
        i == list.0@.len() - 1,
        list.expanding(),
        forall|j: int| j != i ==> !list.expanding_at(j),
{
}

impl ReturnStmt {
    /// The statement may return a number of values unknown before it runs.
    pub open spec fn expanding(&self) -> bool {
        self.0.expanding()
    }

    /// Whether the returned list ends in an element that may expand.
    pub fn expands(&self) -> (r: bool)
        ensures
            r == self.expanding(),
    {
        self.0.expands()
    }
}

impl Args {
    /// The call may pass a number of arguments unknown before it runs.
    pub open spec fn expanding(&self) -> bool {
        *self matches Args::List(list) && list.expanding()
    }

    /// Whether the arguments end in an element that may expand.
    pub fn expands(&self) -> (r: bool)
        ensures
            r == self.expanding(),
    {
        match self {
            Args::List(list) => list.expands(),
            _ => false,
        }
    }
}

impl Stmt {
    /// The right-hand side of an assignment or a local declaration ends in
    /// an element that may expand.
    pub open spec fn values_expanding(&self) -> bool {
        match *self {
            Stmt::Assign(_, values) => values.expanding(),
            Stmt::Local(_, Some(values)) => values.expanding(),
            _ => false,
        }
    }

    /// Whether the values assigned end in an element that may expand.
    pub fn values_expand(&self) -> (r: bool)
        ensures
            r == self.values_expanding(),
    {
        match self {
            Stmt::Assign(_, values) => values.expands(),
            Stmt::Local(_, Some(values)) => values.expands(),
            _ => false,
        }
    }

    /// The declaration `function name body`. Where `name` ends in a method
    /// name, the parameter `self` is put before the parameters of `body`.
    pub fn function(name: FuncName, body: FuncBody) -> (r: Stmt)
        ensures
            r matches Stmt::Function(n, b) && n == name && b.1 == body.1 && b.0.1 == body.0.1 && (
            if name.receiver() is Some {
                &&& b.0.names().len() == body.0.names().len() + 1
                &&& b.0.names()[0]@ == receiver_chars()
                &&& b.0.names().subrange(1, b.0.names().len() as int) == body.0.names()
            } else {
                b.0.names() == body.0.names()
            }),
    {
        if name.has_receiver() {
            let FuncBody(ParamList(NameList(names), ellipsis), block) = body;
            let ghost given = names@;
            let mut names = names;
            names.insert(0, Name::receiver());
            proof {
                assert(names@.subrange(1, names@.len() as int) =~= given);
            }
            Stmt::Function(name, FuncBody(ParamList(NameList(names), ellipsis), block))
        } else {
            Stmt::Function(name, body)
        }
    }
}

/// How many of the first `n` fields are positional.
pub open spec fn positional_before(fields: Seq<Field>, n: int) -> nat
    decreases n,
{
    if n <= 0 {
        0
    } else {
        positional_before(fields, n - 1) + if fields[n - 1] is Expr {
            1nat
        } else {
            0nat
        }
    }
}

impl FieldList {
    /// The number under which the field at `i` is stored, if it is
    /// positional: positional fields count from 1 in the order written, and
    /// a field with a key takes no number.
    pub open spec fn slot(&self, i: int) -> Option<nat> {
        if 0 <= i < self.0@.len() && self.0@[i] is Expr {
            Some(positional_before(self.0@, i) + 1)
        } else {
            None
        }
    }

    /// The number of positional fields.
    pub open spec fn positionals(&self) -> nat {
        positional_before(self.0@, self.0@.len() as int)
    }

    /// The number of positional fields.
    pub fn positional_count(&self) -> (r: usize)
        ensures
            r == self.positionals(),
    {
        count_positional(&self.0, self.0.len())
    }

    /// The number under which the field at `i` is stored; `None` for a field
    /// with a key and for an index past the end.
    pub fn positional_index(&self, i: usize) -> (r: Option<usize>)
        ensures
            r is Some <==> self.slot(i as int) is Some,
            r matches Some(k) ==> self.slot(i as int) == Some(k as nat),
    {
        if i < self.0.len() {
            match &self.0[i] {
                Field::Expr(_) => {
                    proof {
                        lemma_positional_bound(self.0@, i as int);
                    }
                    Some(count_positional(&self.0, i) + 1)
                },
                _ => None,
            }
        } else {
            None
        }
    }
}

/// Counts the positional fields among the first `n`.
fn count_positional(fields: &Vec<Field>, n: usize) -> (r: usize)
    requires
        n <= fields@.len(),
    ensures
        r == positional_before(fields@, n as int),
        r <= n,
{
    let mut count: usize = 0;
    let mut i: usize = 0;
    while i < n
        invariant
            i <= n <= fields@.len(),
            count <= i,
            count == positional_before(fields@, i as int),
        decreases n - i,
    {
        match &fields[i] {
            Field::Expr(_) => {
                count = count + 1;
            },
            _ => {},
        }
        i = i + 1;
    }
    count
}

/// No more fields are positional than there are fields.
pub proof fn lemma_positional_bound(fields: Seq<Field>, n: int)
    requires
        0 <= n,
    ensures
        positional_before(fields, n) <= n,
    decreases n,
{
    if n > 0 {
        lemma_positional_bound(fields, n - 1);
    }
}

/// The count of positional fields never falls as more fields are read.
pub proof fn lemma_positional_monotone(fields: Seq<Field>, m: int, n: int)
    requires
        0 <= m <= n,
    ensures
        positional_before(fields, m) <= positional_before(fields, n),
    decreases n - m,
{
    if m < n {
        lemma_positional_monotone(fields, m, n - 1);
    }
}

/// Positional fields are numbered from 1 to the number of positional
/// fields, and a later one has the larger number.
pub proof fn lemma_slots_in_order(list: FieldList, i: int, j: int)
    requires
        i < j,
        list.slot(i) is Some,
        list.slot(j) is Some,
    ensures
        1 <= list.slot(i)->0 < list.slot(j)->0 <= list.positionals(),
{
    lemma_positional_monotone(list.0@, i + 1, j);
    lemma_positional_monotone(list.0@, j + 1, list.0@.len() as int);
}

impl TableCtor {
    /// The constructor ends in a positional field that may expand.
    pub open spec fn expanding(&self) -> bool {
        self.0.0@.len() > 0 && (self.0.0@.last() matches Field::Expr(e) && e.multi_value())
    }

    /// Whether the last field is positional and may expand.
    pub fn expands(&self) -> (r: bool)
        ensures
            r == self.expanding(),
    {
        let n: usize = self.0.0.len();
        if n == 0 {
            false
        } else {
            match &self.0.0[n - 1] {
                Field::Expr(e) => e.is_multi_value(),
                _ => false,
            }
        }
    }
}

/// One parameter as written between the parentheses.
#[derive(Clone, Debug, PartialEq, Eq, Hash, PartialOrd, Ord)]
pub enum Param {
    Name(Name),
    Ellipsis,
}

/// An ellipsis stands nowhere but in the last place.
pub open spec fn ellipsis_last(params: Seq<Param>) -> bool {
    forall|i: int| 0 <= i < params.len() && #[trigger] params[i] is Ellipsis ==> i == params.len() - 1
}

impl ParamList {
    /// The named parameters, first to last.
    pub open spec fn names(&self) -> Seq<Name> {
        self.0.0@
    }

    /// The parameter list written as `params`. `None` exactly when an
    /// ellipsis stands before the last place.
    pub fn from_params(params: Vec<Param>) -> (r: Option<ParamList>)
        ensures
            r is Some <==> ellipsis_last(params@),
            r matches Some(list) ==> {
                &&& list.1 is Some <==> (params@.len() > 0 && params@.last() is Ellipsis)
                &&& list.names().len() == params@.len() - if list.1 is Some {
                    1int
                } else {
                    0int
                }
                &&& forall|i: int|
                    0 <= i < list.names().len() ==> #[trigger] params@[i] == Param::Name(
                        list.names()[i],
                    )
            },
    {
        let ghost written = params@;
        let mut stack = reversed(params);
        let mut names: Vec<Name> = Vec::new();
        while stack.len() > 0
            invariant
                written == params@,
                mirrors(stack@, written),
                names@.len() + stack@.len() == written.len(),
                forall|i: int|
                    0 <= i < names@.len() ==> #[trigger] written[i] == Param::Name(names@[i]),
            decreases stack@.len(),
        {
            let ghost at = names@.len() as int;
            let ghost top = stack@.len() - 1;
            assert(stack@[top] == written[at]);
            match stack.pop() {
                Some(Param::Name(name)) => {
                    names.push(name);
                },
                Some(Param::Ellipsis) => {
                    if stack.len() == 0 {
                        return Some(ParamList(NameList(names), Some(Ellipsis)));
                    } else {
                        return None;
                    }
                },
                None => {},
            }
        }
        Some(ParamList(NameList(names), None))
    }
}

/// Every chain is an assignable location.
pub open spec fn all_assignable(targets: Seq<PrefixExpr>) -> bool {
    forall|i: int| 0 <= i < targets.len() ==> (#[trigger] targets[i])@.assignable()
}

impl VarList {
    /// The targets of an assignment, each read as a variable. `None`
    /// exactly when one of them is not assignable.
    pub fn from_prefixes(targets: Vec<PrefixExpr>) -> (r: Option<VarList>)
        ensures
            r is Some <==> all_assignable(targets@),
            r matches Some(list) ==> {
                &&& list.0@.len() == targets@.len()
                &&& forall|i: int|
                    0 <= i < targets@.len() ==> list.0@[i].chain() == (#[trigger] targets@[i])@
            },
    {
        let ghost written = targets@;
        let mut stack = reversed(targets);
        let mut vars: Vec<Var> = Vec::new();
        while stack.len() > 0
            invariant
                written == targets@,
                mirrors(stack@, written),
                vars@.len() + stack@.len() == written.len(),
                forall|i: int|
                    0 <= i < vars@.len() ==> (#[trigger] written[i])@.assignable() && vars@[i].chain()
                        == written[i]@,
            decreases stack@.len(),
        {
            let ghost at = vars@.len() as int;
            let ghost top = stack@.len() - 1;
            assert(stack@[top] == written[at]);
            match stack.pop() {
                Some(target) => {
                    match target.into_var() {
                        Some(var) => {
                            vars.push(var);
                        },
                        None => {
                            return None;
                        },
                    }
                },
                None => {},
            }
        }
        Some(VarList(vars))
    }
}

impl FuncName {
    /// The name `path[0].path[1]...`, with `:method` behind it if there is
    /// one. `None` exactly when `path` is empty.
    pub fn new(path: Vec<Name>, method: Option<Name>) -> (r: Option<FuncName>)
        ensures
            r is Some <==> path@.len() > 0,
            r matches Some(name) ==> name.dotted() == path@ && name.receiver() == method,
    {
        if path.len() == 0 {
            None
        } else {
            Some(FuncName::assemble(path, method))
        }
    }

    /// Whether the declared function takes an implicit `self`.
    pub fn has_receiver(&self) -> (r: bool)
        ensures
            r == self.receiver() is Some,
    {
        self.method_name().is_some()
    }
}

/// One element of a block as written.
#[derive(Debug, PartialEq, Eq, Hash, PartialOrd, Ord)]
pub enum BlockItem {
    Stmt(Stmt),
    Return(ReturnStmt),
}

/// A return statement stands nowhere but in the last place.
pub open spec fn return_last(items: Seq<BlockItem>) -> bool {
    forall|i: int| 0 <= i < items.len() && #[trigger] items[i] is Return ==> i == items.len() - 1
}

impl Block {
    /// A block of `statements`, closed by `ret` if there is one.
    pub fn new(statements: Vec<Stmt>, ret: Option<ReturnStmt>) -> (r: Block)
        ensures
            r == Block(statements, ret),
    {
        Block(statements, ret)
    }

    /// The block written as `items`. `None` exactly when something follows
    /// a return statement.
    pub fn from_items(items: Vec<BlockItem>) -> (r: Option<Block>)
        ensures
            r is Some <==> return_last(items@),
            r matches Some(block) ==> {
                &&& block.1 matches Some(ret) ==> items@.len() > 0 && items@.last()
                    == BlockItem::Return(ret)
                &&& block.1 is None ==> block.0@.len() == items@.len()
                &&& block.1 is Some ==> block.0@.len() == items@.len() - 1
                &&& forall|i: int|
                    0 <= i < block.0@.len() ==> #[trigger] items@[i] == BlockItem::Stmt(block.0@[i])
            },
    {
        let ghost written = items@;
        let mut stack = reversed(items);
        let mut statements: Vec<Stmt> = Vec::new();
        while stack.len() > 0
            invariant
                written == items@,
                mirrors(stack@, written),
                statements@.len() + stack@.len() == written.len(),
                forall|i: int|
                    0 <= i < statements@.len() ==> #[trigger] written[i] == BlockItem::Stmt(
                        statements@[i],
                    ),
            decreases stack@.len(),
        {
            let ghost at = statements@.len() as int;
            let ghost top = stack@.len() - 1;
            assert(stack@[top] == written[at]);
            match stack.pop() {
                Some(BlockItem::Stmt(stmt)) => {
                    statements.push(stmt);
                },
                Some(BlockItem::Return(ret)) => {
                    if stack.len() == 0 {
                        return Some(Block(statements, Some(ret)));
                    } else {
                        return None;
                    }
                },
                None => {},
            }
        }
        Some(Block(statements, None))
    }

    /// Whether a return statement closes the block.
    pub fn has_return(&self) -> (r: bool)
        ensures
            r == self.1 is Some,
    {
        self.1.is_some()
    }
}

impl Chunk {
    /// The program made of `block`.
    pub fn new(block: Block) -> (r: Chunk)
        ensures
            r == Chunk(block),
    {
        Chunk(block)
    }
}

} // verus!
