use lua_ast::ast::{
    Args, Block, Chunk, Expr, ExprList, Field, FieldList, FuncBody, FuncName, NameList, ParamList,
    PrefixExpr, ReturnStmt, Stmt, Suffix, TableCtor, VarList, Var,
};
use lua_ast::lexeme::{Ellipsis, Name, Numeral};
use lua_ast::lists::{BlockItem, Param};

fn call(name: &str) -> Expr {
    Expr::PrefixExpr(
        PrefixExpr::name(Name::new(name)).followed_by(Suffix::Call(Args::List(ExprList(vec![])))),
    )
}

fn var(name: &str) -> Expr {
    Expr::PrefixExpr(PrefixExpr::name(Name::new(name)))
}

fn num(text: &str) -> Expr {
    Expr::Numeral(Numeral::new(text))
}

#[test]
fn return_of_one_call_expands() {
    let ret = ReturnStmt(ExprList(vec![call("f")]));
    assert!(ret.expands());
    assert!(ret.0.expands_at(0));
}

#[test]
fn return_of_two_calls_expands_only_the_last() {
    let ret = ReturnStmt(ExprList(vec![call("f"), call("g")]));
    assert!(ret.expands());
    assert!(!ret.0.expands_at(0));
    assert!(ret.0.expands_at(1));
    assert!(!ret.0.expands_at(2));
}

#[test]
fn list_ending_in_a_plain_value_does_not_expand() {
    let list = ExprList(vec![call("f"), var("x")]);
    assert!(!list.expands());
    assert!(!list.expands_at(0));
    assert!(!list.expands_at(1));
    assert!(!ExprList(vec![]).expands());
    assert!(!ExprList(vec![]).expands_at(0));
}

#[test]
fn ellipsis_expands_and_parenthesized_call_does_not() {
    assert!(Expr::Ellipsis.is_multi_value());
    assert!(call("f").is_multi_value());
    assert!(!var("f").is_multi_value());
    assert!(!Expr::Nil.is_multi_value());
    assert!(!Expr::PrefixExpr(PrefixExpr::paren(call("f"))).is_multi_value());
    assert!(ExprList(vec![num("1"), Expr::Ellipsis]).expands());
}

#[test]
fn local_with_one_call_takes_all_its_values() {
    let stmt = Stmt::Local(
        NameList(vec![Name::new("a"), Name::new("b")]),
        Some(ExprList(vec![call("f")])),
    );
    assert!(stmt.values_expand());
    match stmt {
        Stmt::Local(names, Some(values)) => {
            assert_eq!(names.0.len(), 2);
            assert_eq!(values.0.len(), 1);
            assert!(values.expands_at(0));
        },
        _ => panic!("not a local declaration"),
    }
}

#[test]
fn statements_without_an_expanding_tail() {
    let bare = Stmt::Local(NameList(vec![Name::new("a")]), None);
    assert!(!bare.values_expand());
    let assign = Stmt::Assign(VarList(vec![Var::Name(Name::new("a"))]), ExprList(vec![num("1")]));
    assert!(!assign.values_expand());
    let spread = Stmt::Assign(VarList(vec![Var::Name(Name::new("a"))]), ExprList(vec![call("f")]));
    assert!(spread.values_expand());
    assert!(!Stmt::Break.values_expand());
}

#[test]
fn arguments_expand_only_as_a_list() {
    assert!(Args::List(ExprList(vec![var("x"), Expr::Ellipsis])).expands());
    assert!(!Args::List(ExprList(vec![Expr::Ellipsis, var("x")])).expands());
    assert!(!Args::Table(TableCtor(FieldList(vec![Field::Expr(Expr::Ellipsis)]))).expands());
}

#[test]
fn ellipsis_in_last_place_is_accepted() {
    let list = ParamList::from_params(vec![
        Param::Name(Name::new("a")),
        Param::Name(Name::new("b")),
        Param::Ellipsis,
    ]);
    assert_eq!(
        list,
        Some(ParamList(NameList(vec![Name::new("a"), Name::new("b")]), Some(Ellipsis)))
    );
}

#[test]
fn ellipsis_before_a_name_is_rejected() {
    let list = ParamList::from_params(vec![
        Param::Name(Name::new("a")),
        Param::Ellipsis,
        Param::Name(Name::new("b")),
    ]);
    assert_eq!(list, None);
    assert_eq!(ParamList::from_params(vec![Param::Ellipsis, Param::Ellipsis]), None);
}

#[test]
fn parameter_lists_without_ellipsis_or_names() {
    assert_eq!(ParamList::from_params(vec![]), Some(ParamList(NameList(vec![]), None)));
    assert_eq!(
        ParamList::from_params(vec![Param::Ellipsis]),
        Some(ParamList(NameList(vec![]), Some(Ellipsis)))
    );
    assert_eq!(
        ParamList::from_params(vec![Param::Name(Name::new("x")), Param::Name(Name::new("y"))]),
        Some(ParamList(NameList(vec![Name::new("x"), Name::new("y")]), None))
    );
}

#[test]
fn positional_fields_count_from_one() {
    // { 10, x = 1, 20, [3] = 4, 30 }
    let fields = FieldList(vec![
        Field::Expr(num("10")),
        Field::NameAssign(Name::new("x"), num("1")),
        Field::Expr(num("20")),
        Field::ExprAssign(num("3"), num("4")),
        Field::Expr(num("30")),
    ]);
    assert_eq!(fields.positional_index(0), Some(1));
    assert_eq!(fields.positional_index(1), None);
    assert_eq!(fields.positional_index(2), Some(2));
    assert_eq!(fields.positional_index(3), None);
    assert_eq!(fields.positional_index(4), Some(3));
    assert_eq!(fields.positional_index(5), None);
    assert_eq!(fields.positional_count(), 3);
    assert_eq!(FieldList(vec![]).positional_count(), 0);
}

#[test]
fn table_expands_on_a_trailing_positional_call() {
    assert!(TableCtor(FieldList(vec![Field::Expr(num("1")), Field::Expr(call("f"))])).expands());
    assert!(!TableCtor(FieldList(vec![Field::Expr(call("f")), Field::Expr(num("1"))])).expands());
    assert!(!TableCtor(FieldList(vec![Field::NameAssign(Name::new("x"), call("f"))])).expands());
    assert!(!TableCtor(FieldList(vec![])).expands());
}

#[test]
fn function_name_needs_a_path() {
    assert_eq!(FuncName::new(vec![], None), None);
    assert_eq!(FuncName::new(vec![], Some(Name::new("m"))), None);
    let name = FuncName::new(vec![Name::new("a"), Name::new("b")], Some(Name::new("m"))).unwrap();
    assert_eq!(name.path(), &vec![Name::new("a"), Name::new("b")]);
    assert_eq!(name.method_name(), &Some(Name::new("m")));
    assert!(name.has_receiver());
    let plain = FuncName::new(vec![Name::new("f")], None).unwrap();
    assert!(!plain.has_receiver());
    assert_eq!(plain.method_name(), &None);
}

#[test]
fn method_declaration_gets_self_first() {
    let name = FuncName::new(vec![Name::new("t")], Some(Name::new("m"))).unwrap();
    let body = FuncBody(
        ParamList(NameList(vec![Name::new("x")]), Some(Ellipsis)),
        Block::new(vec![], None),
    );
    match Stmt::function(name, body) {
        Stmt::Function(n, FuncBody(params, block)) => {
            assert!(n.has_receiver());
            assert_eq!(
                params,
                ParamList(NameList(vec![Name::new("self"), Name::new("x")]), Some(Ellipsis))
            );
            assert_eq!(block, Block(vec![], None));
        },
        _ => panic!("not a function declaration"),
    }
}

#[test]
fn plain_declaration_keeps_its_parameters() {
    let name = FuncName::new(vec![Name::new("t"), Name::new("f")], None).unwrap();
    let body = FuncBody(ParamList(NameList(vec![Name::new("x")]), None), Block::new(vec![], None));
    match Stmt::function(name, body) {
        Stmt::Function(_, FuncBody(params, _)) => {
            assert_eq!(params, ParamList(NameList(vec![Name::new("x")]), None));
        },
        _ => panic!("not a function declaration"),
    }
}

#[test]
fn block_keeps_its_return_behind_the_statements() {
    let block = Block::new(vec![Stmt::Empty, Stmt::Break], Some(ReturnStmt(ExprList(vec![]))));
    assert!(block.has_return());
    assert_eq!(block.0.len(), 2);
    assert!(!Block::new(vec![], None).has_return());
    let chunk = Chunk::new(block);
    assert!(chunk.0.has_return());
}

#[test]
fn block_items_end_in_a_return() {
    let items = vec![
        BlockItem::Stmt(Stmt::Empty),
        BlockItem::Stmt(Stmt::Break),
        BlockItem::Return(ReturnStmt(ExprList(vec![call("f")]))),
    ];
    assert_eq!(
        Block::from_items(items),
        Some(Block(vec![Stmt::Empty, Stmt::Break], Some(ReturnStmt(ExprList(vec![call("f")])))))
    );
    assert_eq!(Block::from_items(vec![]), Some(Block(vec![], None)));
    assert_eq!(
        Block::from_items(vec![BlockItem::Stmt(Stmt::Goto(Name::new("top")))]),
        Some(Block(vec![Stmt::Goto(Name::new("top"))], None))
    );
}

#[test]
fn statement_behind_a_return_is_rejected() {
    let items = vec![
        BlockItem::Return(ReturnStmt(ExprList(vec![]))),
        BlockItem::Stmt(Stmt::Empty),
    ];
    assert_eq!(Block::from_items(items), None);
    let twice = vec![
        BlockItem::Return(ReturnStmt(ExprList(vec![]))),
        BlockItem::Return(ReturnStmt(ExprList(vec![]))),
    ];
    assert_eq!(Block::from_items(twice), None);
}
