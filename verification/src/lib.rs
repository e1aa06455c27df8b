//! Abstract syntax tree for Lua 5.3 programs.
//!
//! The tree records only resolved shapes: operator binding, the suffix chain
//! of a prefix expression, and which positions of an expression list may
//! yield several values. The grammar rules that decide those shapes are
//! stated as contracts and proved.

pub mod lexeme;
pub mod ops;
pub mod ast;
pub mod prefix;
pub mod order;
pub mod climb;
pub mod unique;
pub mod parens;
pub mod lists;

