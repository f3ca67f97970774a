use lama::ast::{Expr, Literal};
use lama::expr::{eval_expr, parse_int, parse_term};
use lama::fs::File;
use lama::items::parse_module;
use lama::span::{RangedPosition, Span};
use lama::tree::{ParseTree, Rule};

fn pos(a: usize, b: usize) -> RangedPosition {
    RangedPosition::new((1, a), (1, b))
}

fn leaf(rule: Rule, a: usize, b: usize, text: &str) -> ParseTree {
    ParseTree::new(rule, pos(a, b), text.to_string(), Vec::new())
}

fn node(rule: Rule, a: usize, b: usize, children: Vec<ParseTree>) -> ParseTree {
    ParseTree::new(rule, pos(a, b), String::new(), children)
}

fn int_term(text: &str, col: usize) -> ParseTree {
    let end = col + text.len() - 1;
    node(Rule::Term, col, end, vec![node(Rule::Value, col, end, vec![leaf(Rule::Int, col, end, text)])])
}

fn ident_value(name: &str, col: usize) -> ParseTree {
    let end = col + name.len() - 1;
    node(
        Rule::Value,
        col,
        end,
        vec![node(Rule::Ident, col, end, vec![leaf(Rule::Ident, col, end, name)])],
    )
}

fn call(a: usize, b: usize, args: Vec<Vec<ParseTree>>) -> ParseTree {
    node(Rule::FnCall, a, b, args.into_iter().map(|items| node(Rule::Expr, a, b, items)).collect())
}

fn file() -> File {
    File::Repl(0)
}

fn show(e: &Expr) -> String {
    fn bin(name: &str, l: &Span<Box<Expr>>, r: &Span<Box<Expr>>) -> String {
        format!("{}({}, {})", name, show(&l.content), show(&r.content))
    }
    match e {
        Expr::Literal(Literal::Int(i)) => format!("{}", i),
        Expr::Literal(Literal::Float(s)) => s.clone(),
        Expr::Literal(Literal::String(s)) => format!("{:?}", s),
        Expr::Add(l, _, r) => bin("Add", l, r),
        Expr::Sub(l, _, r) => bin("Sub", l, r),
        Expr::Mul(l, _, r) => bin("Mul", l, r),
        Expr::Div(l, _, r) => bin("Div", l, r),
        Expr::Pow(l, _, r) => bin("Pow", l, r),
        Expr::Not(x) => format!("Not({})", show(&x.content)),
        Expr::FnCall(c, args) => format!(
            "Call({}, [{}])",
            show(&c.content),
            args.iter().map(|a| show(&a.content)).collect::<Vec<_>>().join(", ")
        ),
        Expr::If(..) => "If".to_string(),
        Expr::Ident(p) => format!(
            "Ident({})",
            p.iter().map(|s| s.content.clone()).collect::<Vec<_>>().join("::")
        ),
    }
}

/// `a o1 b o2 c`, one column per character.
fn three(a: &str, o1: Rule, b: &str, o2: Rule, c: &str) -> Vec<ParseTree> {
    vec![
        int_term(a, 1),
        leaf(o1, 2, 2, ""),
        int_term(b, 3),
        leaf(o2, 4, 4, ""),
        int_term(c, 5),
    ]
}

fn build(items: &Vec<ParseTree>) -> String {
    let e = eval_expr(items, &file()).expect("the tree is well formed");
    show(&e.content)
}

#[test]
fn product_binds_tighter_than_sum() {
    assert_eq!(build(&three("1", Rule::Add, "2", Rule::Multiply, "3")), "Add(1, Mul(2, 3))");
}

#[test]
fn power_groups_to_the_right() {
    assert_eq!(build(&three("2", Rule::Power, "3", Rule::Power, "2")), "Pow(2, Pow(3, 2))");
}

#[test]
fn difference_groups_to_the_left() {
    assert_eq!(build(&three("1", Rule::Subtract, "2", Rule::Subtract, "3")), "Sub(Sub(1, 2), 3)");
}

#[test]
fn quotient_then_sum() {
    assert_eq!(build(&three("8", Rule::Divide, "4", Rule::Add, "1")), "Add(Div(8, 4), 1)");
}

#[test]
fn merged_span_covers_both_operands() {
    let items = vec![int_term("1", 1), leaf(Rule::Add, 3, 3, ""), int_term("2", 5)];
    let e = eval_expr(&items, &file()).unwrap();
    assert_eq!(e.range.start, (1, 1));
    assert_eq!(e.range.end, (1, 5));
    let s: Span<()> = Span::new_from_inner(&[pos(1, 1), pos(5, 5)], file(), ());
    assert_eq!(s.range.start, (1, 1));
    assert_eq!(s.range.end, (1, 5));
}

#[test]
fn merge_takes_earliest_start_and_latest_end() {
    let a = RangedPosition::new((2, 4), (3, 1));
    let b = RangedPosition::new((2, 1), (2, 9));
    let c = RangedPosition::new((3, 7), (3, 8));
    let s: Span<u8> = Span::new_from_inner(&[a, b, c], file(), 7);
    assert_eq!(s.range.start, (2, 1));
    assert_eq!(s.range.end, (3, 8));
    assert_eq!(s.content, 7);
}

#[test]
fn calls_chain_left_to_right() {
    let term = node(
        Rule::Term,
        1,
        7,
        vec![
            ident_value("f", 1),
            call(2, 4, vec![vec![int_term("1", 3)]]),
            call(5, 7, vec![vec![int_term("2", 6)]]),
        ],
    );
    let e = parse_term(&term, &file()).unwrap();
    assert_eq!(show(&e.content), "Call(Call(Ident(f), [1]), [2])");
    assert_eq!(e.range.start, (1, 1));
    assert_eq!(e.range.end, (1, 7));
}

#[test]
fn unary_operators_wrap_the_calls() {
    let unary = |col: usize| node(Rule::Unary, col, col, vec![leaf(Rule::Not, col, col, "!")]);
    let term = node(Rule::Term, 1, 5, vec![unary(1), unary(2), ident_value("x", 3), call(4, 5, vec![])]);
    let e = parse_term(&term, &file()).unwrap();
    assert_eq!(show(&e.content), "Not(Not(Call(Ident(x), [])))");
    assert_eq!(e.range.start, (1, 1));
}

#[test]
fn rebuilding_gives_the_same_tree() {
    let items = three("2", Rule::Power, "3", Rule::Multiply, "4");
    assert_eq!(build(&items), build(&items));
    assert_eq!(build(&items), "Mul(Pow(2, 3), 4)");
}

#[test]
fn malformed_sequence_is_refused() {
    let items = vec![int_term("1", 1), leaf(Rule::Add, 2, 2, "")];
    assert!(eval_expr(&items, &file()).is_none());
    let items = vec![int_term("1", 1), int_term("2", 2)];
    assert!(eval_expr(&items, &file()).is_none());
}

#[test]
fn integer_literals() {
    assert_eq!(parse_int(&"9223372036854775807".to_string()), Some(i64::MAX));
    assert_eq!(parse_int(&"9223372036854775808".to_string()), None);
    assert_eq!(parse_int(&"042".to_string()), Some(42));
    assert_eq!(parse_int(&"4a".to_string()), None);
    assert_eq!(parse_int(&String::new()), None);
}

#[test]
fn module_items_are_collected() {
    let m = |pub_kw: bool, name: &str| {
        let mut ch = Vec::new();
        if pub_kw {
            ch.push(leaf(Rule::PubKw, 1, 3, "pub"));
        }
        ch.push(leaf(Rule::ModKw, 5, 7, "mod"));
        ch.push(leaf(Rule::Ident, 9, 12, name));
        node(Rule::ModItem, 1, 13, ch)
    };
    let body = node(Rule::Block, 1, 2, vec![node(Rule::Statement, 1, 1, vec![int_term("1", 1)])]);
    let f = node(
        Rule::FnItem,
        1,
        20,
        vec![
            leaf(Rule::FnKw, 1, 2, "fn"),
            leaf(Rule::Ident, 4, 7, "main"),
            node(Rule::FnArgs, 8, 9, vec![]),
            node(Rule::ReturnType, 10, 10, vec![]),
            body,
        ],
    );
    let module = node(Rule::Module, 1, 40, vec![m(true, "util"), f, m(false, "priv"), leaf(Rule::Eoi, 40, 40, "")]);
    let ast = parse_module(&module, &file()).unwrap();
    assert_eq!(ast.mods.len(), 2);
    assert_eq!(ast.mods[0].name.content, "util");
    assert!(ast.mods[0].pub_kw.is_some());
    assert_eq!(ast.mods[1].name.content, "priv");
    assert!(ast.mods[1].pub_kw.is_none());
    assert_eq!(ast.fns.len(), 1);
    assert_eq!(ast.fns[0].name.content, "main");
    assert_eq!(ast.fns[0].body.content.len(), 1);
}

fn ty(name: &str) -> ParseTree {
    node(Rule::Type, 1, 1, vec![leaf(Rule::Ident, 1, 1, name)])
}

fn method(name: &str, with_body: bool) -> Vec<ParseTree> {
    let mut ch = vec![
        leaf(Rule::FnKw, 1, 2, "fn"),
        leaf(Rule::Ident, 4, 6, name),
        node(
            Rule::FnArgs,
            7,
            20,
            vec![node(Rule::FnArg, 8, 19, vec![leaf(Rule::Ident, 8, 11, "self"), ty("Self")])],
        ),
        node(Rule::ReturnType, 21, 30, vec![ty("Target")]),
    ];
    if with_body {
        ch.push(node(Rule::Block, 31, 40, vec![node(Rule::Statement, 32, 32, vec![int_term("1", 32)])]));
    }
    ch
}

#[test]
fn traits_and_implementations_are_collected() {
    let trait_item = node(
        Rule::TraitItem,
        1,
        50,
        vec![
            leaf(Rule::TraitKw, 1, 5, "trait"),
            leaf(Rule::Ident, 7, 9, "Add"),
            node(Rule::DefGenerics, 10, 16, vec![leaf(Rule::Ident, 11, 15, "Other")]),
            node(
                Rule::TraitType,
                18,
                30,
                vec![leaf(Rule::TypeKw, 18, 21, "type"), node(Rule::TypeDef, 23, 28, vec![leaf(Rule::Ident, 23, 28, "Target")])],
            ),
            node(Rule::TraitFn, 31, 40, method("add", false)),
            node(Rule::TraitFn, 41, 50, method("twice", true)),
        ],
    );
    let impl_trait = node(
        Rule::ImplTraitItem,
        1,
        60,
        vec![
            leaf(Rule::ImplKw, 1, 4, "impl"),
            node(
                Rule::Trait,
                6,
                16,
                vec![leaf(Rule::Ident, 6, 8, "Add"), node(Rule::Generics, 9, 16, vec![ty("number")])],
            ),
            leaf(Rule::ForKw, 18, 20, "for"),
            ty("number"),
            node(
                Rule::ImplType,
                30,
                45,
                vec![
                    leaf(Rule::TypeKw, 30, 33, "type"),
                    node(Rule::TypeDef, 35, 40, vec![leaf(Rule::Ident, 35, 40, "Target")]),
                    ty("number"),
                ],
            ),
            node(Rule::ImplFn, 46, 60, method("add", true)),
        ],
    );
    let module = node(Rule::Module, 1, 60, vec![trait_item, impl_trait]);
    let ast = parse_module(&module, &file()).unwrap();
    assert_eq!(ast.trait_defs.len(), 1);
    let t = &ast.trait_defs[0];
    assert_eq!(t.name.content, "Add");
    assert_eq!(t.fn_signatures.len(), 1);
    assert_eq!(t.fn_defs.len(), 1);
    assert_eq!(t.types.len(), 1);
    assert_eq!(ast.trait_impls.len(), 1);
    let i = &ast.trait_impls[0];
    assert_eq!(i.trait_.content.name.content, "Add");
    assert_eq!(i.trait_.content.generics.len(), 1);
    assert_eq!(i.fn_defs.len(), 1);
    assert_eq!(i.types.len(), 1);
}

#[test]
fn implementation_method_without_body_is_refused() {
    let bad = node(
        Rule::ImplItem,
        1,
        30,
        vec![leaf(Rule::ImplKw, 1, 4, "impl"), ty("number"), node(Rule::ImplFn, 10, 30, method("add", false))],
    );
    let module = node(Rule::Module, 1, 30, vec![bad]);
    assert!(parse_module(&module, &file()).is_none());
}

#[test]
fn function_without_arrow_returns_empty() {
    let f = node(Rule::FnItem, 1, 20, method("go", true));
    let module = node(Rule::Module, 1, 20, vec![f]);
    let ast = parse_module(&module, &file()).unwrap();
    let fd = &ast.fns[0];
    assert!(matches!(fd.return_type.content, lama::ast::Type::Other { .. }));
    assert!(fd.where_clause.is_none());
    assert!(fd.pub_kw.is_none());
    assert_eq!(fd.args.len(), 1);
    assert_eq!(fd.args[0].0.content, "self");
    let mut plain = method("go", true);
    plain[3] = node(Rule::ReturnType, 21, 21, vec![]);
    let module = node(Rule::Module, 1, 40, vec![node(Rule::FnItem, 1, 40, plain)]);
    let ast = parse_module(&module, &file()).unwrap();
    assert!(matches!(ast.fns[0].return_type.content, lama::ast::Type::Empty));
    assert_eq!(ast.fns[0].return_type.range.start, (1, 21));
}
