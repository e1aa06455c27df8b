use lua_ast::ast::{Args, Expr, ExprList, PrefixExpr, Suffix, Var, VarList};
use lua_ast::climb::Token;
use lua_ast::lexeme::{Name, Numeral};
use lua_ast::ops::{BinOp, UnOp};

fn var(name: &str) -> Expr {
    Expr::PrefixExpr(PrefixExpr::name(Name::new(name)))
}

fn num(text: &str) -> Expr {
    Expr::Numeral(Numeral::new(text))
}

fn bin(op: BinOp, left: Expr, right: Expr) -> Expr {
    Expr::BinOp(op, Box::new(left), Box::new(right))
}

fn un(op: UnOp, operand: Expr) -> Expr {
    Expr::UnOp(op, Box::new(operand))
}

// a or b and c == d .. e + f * -g ^ h
fn mixed() -> Expr {
    let power = bin(BinOp::Pow, var("g"), var("h"));
    let product = bin(BinOp::Mul, var("f"), un(UnOp::Negate, power));
    let sum = bin(BinOp::Add, var("e"), product);
    let concat = bin(BinOp::Concat, var("d"), sum);
    let equal = bin(BinOp::Equal, var("c"), concat);
    bin(BinOp::Or, var("a"), bin(BinOp::And, var("b"), equal))
}

#[test]
fn tree_is_written_out_in_order() {
    let tree = bin(BinOp::Sub, bin(BinOp::Sub, var("a"), var("b")), un(UnOp::Negate, var("c")));
    assert_eq!(
        tree.into_tokens(),
        vec![
            Token::Operand(var("a")),
            Token::Binary(BinOp::Sub),
            Token::Operand(var("b")),
            Token::Binary(BinOp::Sub),
            Token::Unary(UnOp::Negate),
            Token::Operand(var("c")),
        ]
    );
    assert_eq!(num("1").into_tokens(), vec![Token::Operand(num("1"))]);
}

#[test]
fn written_tokens_go_behind_what_is_there() {
    let mut out = vec![Token::Unary(UnOp::Not)];
    bin(BinOp::Add, var("a"), var("b")).write_tokens(&mut out);
    assert_eq!(
        out,
        vec![
            Token::Unary(UnOp::Not),
            Token::Operand(var("a")),
            Token::Binary(BinOp::Add),
            Token::Operand(var("b")),
        ]
    );
}

#[test]
fn written_and_read_again_gives_the_same_tree() {
    assert!(mixed().groups_as_written());
    assert_eq!(Expr::from_tokens(mixed().into_tokens()), Some(mixed()));
    assert_eq!(mixed().regrouped(), mixed());
    let chain = bin(BinOp::Concat, var("a"), bin(BinOp::Concat, var("b"), var("c")));
    assert_eq!(Expr::from_tokens(chain.into_tokens()).unwrap().into_tokens().len(), 5);
}

#[test]
fn badly_grouped_tree_is_regrouped() {
    // (-2) ^ 2 without its parentheses spells -(2 ^ 2)
    let forced = bin(BinOp::Pow, un(UnOp::Negate, num("2")), num("2"));
    assert!(!forced.groups_as_written());
    assert_eq!(forced.regrouped(), un(UnOp::Negate, bin(BinOp::Pow, num("2"), num("2"))));
    // a - (b - c) without its parentheses spells (a - b) - c
    let leaning = bin(BinOp::Sub, var("a"), bin(BinOp::Sub, var("b"), var("c")));
    assert!(!leaning.groups_as_written());
    assert_eq!(
        leaning.regrouped(),
        bin(BinOp::Sub, bin(BinOp::Sub, var("a"), var("b")), var("c"))
    );
}

#[test]
fn grouping_is_checked_against_the_table() {
    assert!(var("a").groups_as_written());
    assert!(bin(BinOp::Add, var("a"), bin(BinOp::Mul, var("b"), var("c"))).groups_as_written());
    assert!(!bin(BinOp::Mul, var("a"), bin(BinOp::Add, var("b"), var("c"))).groups_as_written());
    assert!(!bin(BinOp::Mul, bin(BinOp::Add, var("a"), var("b")), var("c")).groups_as_written());
    assert!(bin(BinOp::Pow, var("a"), un(UnOp::Negate, var("b"))).groups_as_written());
    assert!(bin(BinOp::Pow, var("a"), bin(BinOp::Pow, var("b"), var("c"))).groups_as_written());
    assert!(!bin(BinOp::Pow, bin(BinOp::Pow, var("a"), var("b")), var("c")).groups_as_written());
    assert!(un(UnOp::Not, un(UnOp::Negate, var("a"))).groups_as_written());
    assert!(!un(UnOp::Not, bin(BinOp::Equal, var("a"), var("b"))).groups_as_written());
    assert!(un(UnOp::Negate, bin(BinOp::Pow, var("a"), var("b"))).groups_as_written());
    assert!(!bin(BinOp::Add, var("a"), bin(BinOp::Add, var("b"), var("c"))).groups_as_written());
    assert!(bin(BinOp::Add, bin(BinOp::Add, var("a"), var("b")), var("c")).groups_as_written());
}

#[test]
fn level_of_an_expression_is_that_of_its_outermost_operator() {
    assert_eq!(var("a").binding_level(), 13);
    assert_eq!(Expr::Nil.binding_level(), 13);
    assert_eq!(un(UnOp::Len, var("a")).binding_level(), 11);
    assert_eq!(bin(BinOp::Concat, var("a"), var("b")).binding_level(), 8);
    assert_eq!(mixed().binding_level(), 1);
}

#[test]
fn assignment_targets_must_all_be_variables() {
    let targets = vec![
        PrefixExpr::name(Name::new("a")),
        PrefixExpr::name(Name::new("t")).followed_by(Suffix::Field(Name::new("x"))),
    ];
    assert_eq!(
        VarList::from_prefixes(targets),
        Some(VarList(vec![
            Var::Name(Name::new("a")),
            Var::Field(PrefixExpr::name(Name::new("t")), Name::new("x")),
        ]))
    );
    let with_call = vec![
        PrefixExpr::name(Name::new("a")),
        PrefixExpr::name(Name::new("f")).followed_by(Suffix::Call(Args::List(ExprList(vec![])))),
    ];
    assert_eq!(VarList::from_prefixes(with_call), None);
    assert_eq!(VarList::from_prefixes(vec![]), Some(VarList(vec![])));
}

fn paren(inner: Expr) -> Expr {
    Expr::PrefixExpr(PrefixExpr::paren(inner))
}

// (a + b) * (c - (d - e)) ^ -f, grouped by the tree alone
fn forced() -> Expr {
    let sum = bin(BinOp::Add, var("a"), var("b"));
    let difference = bin(BinOp::Sub, var("c"), bin(BinOp::Sub, var("d"), var("e")));
    let power = bin(BinOp::Pow, difference, un(UnOp::Negate, var("f")));
    bin(BinOp::Mul, sum, power)
}

#[test]
fn parentheses_go_where_the_grouping_needs_them() {
    let sum = paren(bin(BinOp::Add, var("a"), var("b")));
    let inner = paren(bin(BinOp::Sub, var("d"), var("e")));
    let difference = paren(bin(BinOp::Sub, var("c"), inner));
    let power = bin(BinOp::Pow, difference, un(UnOp::Negate, var("f")));
    assert_eq!(forced().parenthesized(), bin(BinOp::Mul, sum, power));
    assert!(forced().parenthesized().groups_as_written());
    assert!(!forced().groups_as_written());
}

#[test]
fn unary_operand_is_parenthesized_unless_it_binds_tighter() {
    let negated_sum = un(UnOp::Negate, bin(BinOp::Add, var("a"), var("b")));
    assert_eq!(
        negated_sum.parenthesized(),
        un(UnOp::Negate, paren(bin(BinOp::Add, var("a"), var("b"))))
    );
    let negated_power = un(UnOp::Negate, bin(BinOp::Pow, var("a"), var("b")));
    assert_eq!(
        negated_power.parenthesized(),
        un(UnOp::Negate, bin(BinOp::Pow, var("a"), var("b")))
    );
    let power_of_negation = bin(BinOp::Pow, un(UnOp::Negate, num("2")), num("2"));
    assert_eq!(
        power_of_negation.parenthesized(),
        bin(BinOp::Pow, paren(un(UnOp::Negate, num("2"))), num("2"))
    );
}

#[test]
fn tree_that_groups_as_written_gets_no_parentheses() {
    assert_eq!(mixed().parenthesized(), mixed());
    assert_eq!(var("a").parenthesized(), var("a"));
}

#[test]
fn any_tree_survives_writing_and_reading_once_parenthesized() {
    let written = forced().parenthesized().into_tokens();
    assert_eq!(written.len(), 6);
    assert_eq!(Expr::from_tokens(written), Some(forced().parenthesized()));
    assert_eq!(forced().parenthesized().regrouped(), forced().parenthesized());
}
