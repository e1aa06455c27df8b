//! Node shapes of the syntax tree.
//!
//! Every node owns its children; recursive positions are boxed or held in
//! vectors. Shapes that the grammar forbids have no value here wherever a
//! type can rule them out.

use vstd::prelude::*;
use crate::lexeme::{Ellipsis, LiteralString, Name, Numeral};
use crate::ops::{BinOp, UnOp};

verus! {

/// chunk ::= block
#[derive(Debug, PartialEq, Eq, Hash, PartialOrd, Ord)]
pub struct Chunk(pub Block);

/// block ::= {stat} [retstat]
///
/// The return statement has a slot of its own behind the statements, so
/// nothing can follow it.
#[derive(Debug, PartialEq, Eq, Hash, PartialOrd, Ord)]
pub struct Block(pub Vec<Stmt>, pub Option<ReturnStmt>);

/// One branch of an `if` chain: a condition and the block it guards.
#[derive(Debug, PartialEq, Eq, Hash, PartialOrd, Ord)]
pub struct Branch(pub Expr, pub Block);

/// stat ::= `;` | varlist `=` explist | functioncall | label | break |
///          goto Name | do block end | while exp do block end |
///          repeat block until exp |
///          if exp then block {elseif exp then block} [else block] end |
///          for Name `=` exp `,` exp [`,` exp] do block end |
///          for namelist in explist do block end |
///          function funcname funcbody |
///          local function Name funcbody | local namelist [`=` explist]
#[derive(Debug, PartialEq, Eq, Hash, PartialOrd, Ord)]
pub enum Stmt {
    Empty,
    Assign(VarList, ExprList),
    Call(FunctionCall),
    Label(Label),
    Break,
    Goto(Name),
    Do(Block),
    While(Expr, Block),
    Repeat(Block, Expr),
    If(Vec<Branch>, Option<Block>),
    NumericFor(Name, Expr, Expr, Option<Expr>, Block),
    GenericFor(NameList, ExprList, Block),
    Function(FuncName, FuncBody),
    LocalFunction(Name, FuncBody),
    Local(NameList, Option<ExprList>),
}

/// retstat ::= return [explist] [`;`]
#[derive(Debug, PartialEq, Eq, Hash, PartialOrd, Ord)]
pub struct ReturnStmt(pub ExprList);

/// label ::= `::` Name `::`
#[derive(Clone, Debug, PartialEq, Eq, Hash, PartialOrd, Ord)]
pub struct Label(pub Name);

/// funcname ::= Name {`.` Name} [`:` Name]
///
/// The dotted path is never empty; see [`FuncName::new`].
#[derive(Debug, PartialEq, Eq, Hash, PartialOrd, Ord)]
pub struct FuncName {
    path: Vec<Name>,
    method: Option<Name>,
}

/// varlist ::= var {`,` var}
#[derive(Debug, PartialEq, Eq, Hash, PartialOrd, Ord)]
pub struct VarList(pub Vec<Var>);

/// var ::= Name | prefixexp `[` exp `]` | prefixexp `.` Name
#[derive(Debug, PartialEq, Eq, Hash, PartialOrd, Ord)]
pub enum Var {
    Name(Name),
    Indexed(PrefixExpr, Expr),
    Field(PrefixExpr, Name),
}

/// namelist ::= Name {`,` Name}
#[derive(Clone, Debug, PartialEq, Eq, Hash, PartialOrd, Ord)]
pub struct NameList(pub Vec<Name>);

/// explist ::= exp {`,` exp}
#[derive(Debug, PartialEq, Eq, Hash, PartialOrd, Ord)]
pub struct ExprList(pub Vec<Expr>);

/// exp ::= nil | false | true | Numeral | LiteralString | `...` |
///         functiondef | prefixexp | tableconstructor | exp binop exp |
///         unop exp
#[derive(Debug, PartialEq, Eq, Hash, PartialOrd, Ord)]
pub enum Expr {
    Nil,
    False,
    True,
    Numeral(Numeral),
    LiteralString(LiteralString),
    Ellipsis,
    FunctionDef(FunctionDef),
    PrefixExpr(PrefixExpr),
    TableCtor(TableCtor),
    BinOp(BinOp, Box<Expr>, Box<Expr>),
    UnOp(UnOp, Box<Expr>),
}

/// What a prefix expression starts from.
#[derive(Debug, PartialEq, Eq, Hash, PartialOrd, Ord)]
pub enum PrefixBase {
    Name(Name),
    Paren(Box<Expr>),
}

/// One step applied to the value to its left.
#[derive(Debug, PartialEq, Eq, Hash, PartialOrd, Ord)]
pub enum Suffix {
    /// `[` exp `]`
    Index(Expr),
    /// `.` Name
    Field(Name),
    /// args
    Call(Args),
    /// `:` Name args
    Method(Name, Args),
}

/// prefixexp ::= var | functioncall | `(` exp `)`
///
/// Held without left recursion: a base and the suffixes applied to it from
/// left to right.
#[derive(Debug, PartialEq, Eq, Hash, PartialOrd, Ord)]
pub struct PrefixExpr {
    pub base: PrefixBase,
    pub suffixes: Vec<Suffix>,
}

/// functioncall ::= prefixexp args | prefixexp `:` Name args
#[derive(Debug, PartialEq, Eq, Hash, PartialOrd, Ord)]
pub struct FunctionCall {
    /// The value that is called.
    pub callee: PrefixExpr,
    /// The method looked up on the callee, for the `:` form.
    pub method: Option<Name>,
    pub args: Args,
}

/// args ::= `(` [explist] `)` | tableconstructor | LiteralString
#[derive(Debug, PartialEq, Eq, Hash, PartialOrd, Ord)]
pub enum Args {
    List(ExprList),
    Table(TableCtor),
    String(LiteralString),
}

/// functiondef ::= function funcbody
#[derive(Debug, PartialEq, Eq, Hash, PartialOrd, Ord)]
pub struct FunctionDef(pub FuncBody);

/// funcbody ::= `(` [parlist] `)` block end
#[derive(Debug, PartialEq, Eq, Hash, PartialOrd, Ord)]
pub struct FuncBody(pub ParamList, pub Block);

/// parlist ::= namelist [`,` `...`] | `...`
///
/// The ellipsis is a slot behind the names, so it cannot stand among them.
#[derive(Clone, Debug, PartialEq, Eq, Hash, PartialOrd, Ord)]
pub struct ParamList(pub NameList, pub Option<Ellipsis>);

/// tableconstructor ::= `{` [fieldlist] `}`
#[derive(Debug, PartialEq, Eq, Hash, PartialOrd, Ord)]
pub struct TableCtor(pub FieldList);

/// fieldlist ::= field {fieldsep field} [fieldsep]
#[derive(Debug, PartialEq, Eq, Hash, PartialOrd, Ord)]
pub struct FieldList(pub Vec<Field>);

/// field ::= `[` exp `]` `=` exp | Name `=` exp | exp
#[derive(Debug, PartialEq, Eq, Hash, PartialOrd, Ord)]
pub enum Field {
    NameAssign(Name, Expr),
    ExprAssign(Expr, Expr),
    Expr(Expr),
}

impl FuncName {
    /// The dotted names, first to last.
    pub closed spec fn dotted(&self) -> Seq<Name> {
        self.path@
    }

    /// The name behind `:`, if any.
    pub closed spec fn receiver(&self) -> Option<Name> {
        self.method
    }

    /// The dotted path holds at least one name.
    #[verifier::type_invariant]
    spec fn well_formed(&self) -> bool {
        self.path@.len() > 0
    }

    /// Puts together a name whose path is known not to be empty.
    pub(crate) fn assemble(path: Vec<Name>, method: Option<Name>) -> (r: FuncName)
        requires
            path@.len() > 0,
        ensures
            r.dotted() == path@,
            r.receiver() == method,
    {
        FuncName { path, method }
    }

    /// The dotted names, first to last: there is at least one.
    pub fn path(&self) -> (r: &Vec<Name>)
        ensures
            r@ == self.dotted(),
            r@.len() > 0,
    {
        proof {
            use_type_invariant(self);
        }
        &self.path
    }

    /// The name behind `:`, if any.
    pub fn method_name(&self) -> (r: &Option<Name>)
        ensures
            *r == self.receiver(),
    {
        &self.method
    }
}

} // verus!
