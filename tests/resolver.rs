use lama::ast::AstModule;
use lama::error::{Error, ErrorCode, NonLocatedError, ReturnValue};
use lama::fs::{File, Fs};
use lama::modules::{build_tree, Module, ModuleChild, ModuleTree};
use lama::options::{externlib_from_str, validate_externlib};
use lama::span::{RangedPosition, Span};
use lama::tree::{ParseTree, Rule};

fn pos(a: usize, b: usize) -> RangedPosition {
    RangedPosition::new((1, a), (1, b))
}

fn leaf(rule: Rule, text: &str) -> ParseTree {
    ParseTree::new(rule, pos(1, 1), text.to_string(), Vec::new())
}

/// The tree of a file that declares `mod <name>;` for each name.
fn module_declaring(names: &[&str]) -> ParseTree {
    let items = names
        .iter()
        .map(|n| {
            ParseTree::new(Rule::ModItem, pos(1, 9), String::new(), vec![leaf(Rule::ModKw, "mod"), leaf(Rule::Ident, n)])
        })
        .collect();
    ParseTree::new(Rule::Module, pos(1, 9), String::new(), items)
}

fn empty_ast() -> AstModule {
    AstModule { mods: vec![], fns: vec![], trait_defs: vec![], trait_impls: vec![], impls: vec![] }
}

fn name_at(name: &str, a: usize, b: usize) -> Span<String> {
    Span::new(RangedPosition::new((3, a), (3, b)), File::Path("a/main.lama".to_string()), name.to_string())
}

fn fs_with(paths: &[&str]) -> Fs {
    let mut fs = Fs::new();
    for p in paths {
        fs.insert_file(p.to_string(), Ok(module_declaring(&[])));
    }
    fs
}

fn found(r: Result<File, Error>) -> String {
    match r {
        Ok(File::Path(p)) => p,
        _ => panic!("expected a path"),
    }
}

#[test]
fn sibling_file_wins_over_directory_module() {
    let fs = fs_with(&["a/util/mod.lama", "a/util.lama"]);
    let main = File::Path("a/main.lama".to_string());
    assert_eq!(found(fs.find_child(&main, "main", &name_at("util", 5, 8))), "a/util.lama");
}

#[test]
fn directory_module_when_no_sibling_file() {
    let fs = fs_with(&["a/util/mod.lama", "a/other.lama"]);
    let main = File::Path("a/main.lama".to_string());
    assert_eq!(found(fs.find_child(&main, "main", &name_at("util", 5, 8))), "a/util/mod.lama");
}

#[test]
fn nested_folder_of_the_current_module() {
    let fs = fs_with(&["a/net/tcp.lama"]);
    let net = File::Path("a/net.lama".to_string());
    assert_eq!(found(fs.find_child(&net, "net", &name_at("tcp", 5, 7))), "a/net/tcp.lama");
    let fs = fs_with(&["a/net/tcp/mod.lama"]);
    assert_eq!(found(fs.find_child(&net, "net", &name_at("tcp", 5, 7))), "a/net/tcp/mod.lama");
}

#[test]
fn missing_module_is_reported_at_its_name() {
    let fs = fs_with(&["a/other.lama"]);
    let main = File::Path("a/main.lama".to_string());
    match fs.find_child(&main, "main", &name_at("util", 5, 8)) {
        Err(e) => {
            assert_eq!(e.code, ErrorCode::ModuleNotFoundError);
            assert_eq!(e.span.range.start, (3, 5));
            assert_eq!(e.span.range.end, (3, 8));
            assert_eq!(e.message, "Module `util` not found relative to main");
        },
        Ok(_) => panic!("no file should be found"),
    }
}

#[test]
fn prompt_entries_look_in_the_working_directory() {
    let mut fs = fs_with(&["util.lama"]);
    let entry = fs.insert_repl_statement("mod util;".to_string());
    assert!(matches!(entry, File::Repl(0)));
    assert_eq!(fs.repl.len(), 1);
    assert_eq!(found(fs.find_child(&entry, "repl", &name_at("util", 5, 8))), "util.lama");
}

fn root_ast(fs: &Fs, names: &[&str]) -> AstModule {
    let _ = fs;
    lama::items::parse_module(&module_declaring(names), &File::Path("a/main.lama".to_string())).unwrap()
}

#[test]
fn tree_is_built_recursively() {
    let mut fs = Fs::new();
    fs.insert_file("a/x.lama".to_string(), Ok(module_declaring(&["y"])));
    fs.insert_file("a/x/y.lama".to_string(), Ok(module_declaring(&[])));
    let ast = root_ast(&fs, &["x"]);
    let m = build_tree(&fs, &File::Path("a/main.lama".to_string()), "main", ast, true).unwrap();
    assert!(m.allow_builtins);
    assert_eq!(m.children.len(), 1);
    assert_eq!(m.children[0].name, "x");
    assert!(!m.children[0].is_pub);
    assert!(m.children[0].module.allow_builtins);
    assert_eq!(m.children[0].module.children.len(), 1);
    assert_eq!(m.children[0].module.children[0].name, "y");
}

#[test]
fn syntax_error_deep_down_aborts_the_build() {
    let mut fs = Fs::new();
    fs.insert_file("a/x.lama".to_string(), Ok(module_declaring(&["y"])));
    fs.insert_file("a/x/y.lama".to_string(), Ok(module_declaring(&["z"])));
    fs.insert_file("a/x/y/z.lama".to_string(), Err("expected `;`".to_string()));
    let ast = root_ast(&fs, &["x"]);
    match build_tree(&fs, &File::Path("a/main.lama".to_string()), "main", ast, false) {
        Err(e) => {
            assert_eq!(e.code, ErrorCode::SyntaxError);
            assert_eq!(e.message, "expected `;`");
        },
        Ok(_) => panic!("the build must fail"),
    }
}

#[test]
fn missing_child_aborts_the_build() {
    let mut fs = Fs::new();
    fs.insert_file("a/x.lama".to_string(), Ok(module_declaring(&["gone"])));
    let ast = root_ast(&fs, &["x"]);
    match build_tree(&fs, &File::Path("a/main.lama".to_string()), "main", ast, false) {
        Err(e) => assert_eq!(e.code, ErrorCode::ModuleNotFoundError),
        Ok(_) => panic!("the build must fail"),
    }
}

#[test]
fn self_declaring_module_is_a_cycle() {
    let mut fs = Fs::new();
    fs.insert_file("a/x.lama".to_string(), Ok(module_declaring(&["x"])));
    let ast = root_ast(&fs, &["x"]);
    match build_tree(&fs, &File::Path("a/main.lama".to_string()), "main", ast, false) {
        Err(e) => assert_eq!(e.code, ErrorCode::ModuleCycleError),
        Ok(_) => panic!("the build must fail"),
    }
}

fn leaf_module() -> Module {
    Module { ast: empty_ast(), children: vec![], allow_builtins: false }
}

fn with_child(name: &str, is_pub: bool, module: Module) -> Module {
    Module {
        ast: empty_ast(),
        children: vec![ModuleChild { name: name.to_string(), is_pub, module }],
        allow_builtins: false,
    }
}

fn path(p: &[&str]) -> Vec<String> {
    p.iter().map(|s| s.to_string()).collect()
}

#[test]
fn private_module_hides_its_public_child() {
    let root = with_child("priv", false, with_child("inner", true, leaf_module()));
    assert!(!root.is_reachable(&path(&["priv", "inner"])));
    assert!(!root.is_reachable(&path(&["priv"])));
    let root = with_child("open", true, with_child("inner", true, leaf_module()));
    assert!(root.is_reachable(&path(&["open", "inner"])));
    assert!(!root.is_reachable(&path(&["open", "missing"])));
    assert!(root.is_reachable(&path(&[])));
}

#[test]
fn libraries_are_reached_by_their_name() {
    let lib = ModuleTree::new(vec![], with_child("io", true, leaf_module()));
    let tree = ModuleTree::new(vec![("std".to_string(), lib)], with_child("io", false, leaf_module()));
    assert!(tree.is_reachable(&path(&["std", "io"])));
    assert!(!tree.is_reachable(&path(&["io"])));
    assert!(!tree.is_reachable(&path(&["core", "io"])));
}

#[test]
fn labels_and_return_codes() {
    assert_eq!(ErrorCode::ModuleNotFoundError.label(), "error[0]");
    assert_eq!(ErrorCode::WarnTest.label(), "warning[2]");
    assert_eq!(ErrorCode::InfoTest.label(), "info[3]");
    let e = NonLocatedError::new(ErrorCode::NoMainError, "no main".to_string());
    assert_eq!(e.display_line(), "error[1]: no main");
    assert!(e.is_fatal());
    assert_eq!(ReturnValue::from(e).value, 1);
    let w = NonLocatedError::new(ErrorCode::WarnTest, "careful".to_string());
    assert!(w.conclude().is_ok());
    let span: Span<()> = Span::new(RangedPosition::new((1, 1), (1, 2)), File::Repl(0), ());
    let e = span.into_error(ErrorCode::SyntaxError, "bad".to_string());
    assert_eq!(e.get_return_code(), 4);
    assert!(e.conclude().is_err());
}

#[test]
fn extern_bindings() {
    assert_eq!(externlib_from_str("std=/lib/std=1"), ("std".to_string(), "/lib/std=1".to_string()));
    assert_eq!(externlib_from_str("std"), ("std".to_string(), String::new()));
    assert!(validate_externlib("core=/x".to_string()).is_ok());
    assert!(validate_externlib("core".to_string()).is_err());
}

fn module_with_pub(names: &[(&str, bool)]) -> ParseTree {
    let items = names
        .iter()
        .map(|(n, p)| {
            let mut ch = Vec::new();
            if *p {
                ch.push(leaf(Rule::PubKw, "pub"));
            }
            ch.push(leaf(Rule::ModKw, "mod"));
            ch.push(leaf(Rule::Ident, n));
            ParseTree::new(Rule::ModItem, pos(1, 9), String::new(), ch)
        })
        .collect();
    ParseTree::new(Rule::Module, pos(1, 9), String::new(), items)
}

#[test]
fn built_tree_hides_children_of_private_modules() {
    let mut fs = Fs::new();
    fs.insert_file("a/hidden.lama".to_string(), Ok(module_with_pub(&[("inner", true)])));
    fs.insert_file("a/hidden/inner.lama".to_string(), Ok(module_with_pub(&[])));
    fs.insert_file("a/shown.lama".to_string(), Ok(module_with_pub(&[("inner", true)])));
    fs.insert_file("a/shown/inner.lama".to_string(), Ok(module_with_pub(&[])));
    let main = File::Path("a/main.lama".to_string());
    let ast = lama::items::parse_module(&module_with_pub(&[("hidden", false), ("shown", true)]), &main).unwrap();
    let m = build_tree(&fs, &main, "main", ast, false).unwrap();
    assert!(!m.is_reachable(&path(&["hidden", "inner"])));
    assert!(m.is_reachable(&path(&["shown", "inner"])));
}

#[test]
fn type_database_starts_empty_and_records_impls() {
    let db = lama::checker::TypeDB::new_root();
    assert!(format!("{:?}", db).contains("children_dbs"));
    let mut t = lama::checker::Type { generics: vec![], impls: vec![], trait_impls: vec![] };
    let ty = Span::new(pos(1, 3), File::Repl(0), lama::ast::Type::Empty);
    t.add_impl(lama::ast::Impl { generics: None, type_: ty, where_clause: None, fn_defs: vec![], types: vec![] });
    assert_eq!(t.impls.len(), 1);
    assert_eq!(t.trait_impls.len(), 0);
}

#[test]
fn libraries_are_listed_in_loading_order() {
    let externs = vec![("json".to_string(), "libs/json/lib.lama".to_string())];
    let libs = lama::modules::libraries_to_load("sys", false, &externs);
    let got: Vec<(String, String, bool)> = libs.iter().map(|l| (l.name.clone(), l.entry.clone(), l.allow_builtins)).collect();
    assert_eq!(
        got,
        vec![
            ("core".to_string(), "sys/core/lib.lama".to_string(), true),
            ("std".to_string(), "sys/std/lib.lama".to_string(), true),
            ("json".to_string(), "libs/json/lib.lama".to_string(), false),
        ]
    );
    let libs = lama::modules::libraries_to_load("sys", true, &vec![]);
    assert_eq!(libs.len(), 1);
    assert_eq!(libs[0].name, "core");
}

#[test]
fn a_later_binding_replaces_an_earlier_one() {
    let lib = |child: &str| ModuleTree::new(vec![], with_child(child, true, leaf_module()));
    let libs = lama::modules::bind_library(vec![], "std".to_string(), lib("old"));
    let libs = lama::modules::bind_library(libs, "core".to_string(), lib("c"));
    let libs = lama::modules::bind_library(libs, "std".to_string(), lib("new"));
    let names: Vec<&str> = libs.iter().map(|(n, _)| n.as_str()).collect();
    assert_eq!(names, vec!["core", "std"]);
    let tree = ModuleTree::new(libs, leaf_module());
    assert!(tree.is_reachable(&path(&["std", "new"])));
    assert!(!tree.is_reachable(&path(&["std", "old"])));
}

#[test]
fn prompt_entries_are_read_back() {
    let mut fs = Fs::new();
    let f = fs.insert_repl_statement("1 + 2".to_string());
    assert_eq!(fs.repl_source(&f).map(|s| s.as_str()), Some("1 + 2"));
    assert!(fs.repl_source(&File::Repl(7)).is_none());
    assert!(fs.repl_source(&File::Path("x.lama".to_string())).is_none());
}

#[test]
fn builtins_flag_reaches_grandchildren_and_first_error_wins() {
    let mut fs = Fs::new();
    fs.insert_file("a/x.lama".to_string(), Ok(module_declaring(&["y"])));
    fs.insert_file("a/x/y.lama".to_string(), Ok(module_declaring(&[])));
    let main = File::Path("a/main.lama".to_string());
    let m = build_tree(&fs, &main, "main", root_ast(&fs, &["x"]), true).unwrap();
    assert!(m.children[0].module.children[0].module.allow_builtins);
    // `gone` has no file and comes before `x`: its error is the one reported.
    fs.insert_file("a/bad.lama".to_string(), Err("unexpected `}`".to_string()));
    match build_tree(&fs, &main, "main", root_ast(&fs, &["gone", "bad"]), false) {
        Err(e) => assert_eq!(e.code, ErrorCode::ModuleNotFoundError),
        Ok(_) => panic!("the build must fail"),
    }
    match build_tree(&fs, &main, "main", root_ast(&fs, &["x", "bad"]), false) {
        Err(e) => assert_eq!(e.code, ErrorCode::SyntaxError),
        Ok(_) => panic!("the build must fail"),
    }
}

#[test]
fn module_summary() {
    let m = Module {
        ast: empty_ast(),
        children: vec![
            ModuleChild { name: "a".to_string(), is_pub: true, module: with_child("b", false, leaf_module()) },
            ModuleChild { name: "c".to_string(), is_pub: false, module: leaf_module() },
        ],
        allow_builtins: true,
    };
    assert_eq!(m.summary(), " builtin {pub a {b {}}, c {}}");
}
