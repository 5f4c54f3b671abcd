use gretea::ast::ast_helpers::{from_module, make_vector, to};
use gretea::ast::{GreteaKeywords, GreteaSyntax, GreteaVariableList};
use gretea::files::{add, header, normalize, to_gretea};
use gretea::optimize::optimize_helpers::{is_boolean, is_eq_or_uneq};
use gretea::optimize::optimizer::optimize;
use gretea::optimize::OptimizeBlocks;
use gretea::read::GreteaFileData;
use gretea::strmap::StrMap;

fn strings(v: &[&str]) -> Vec<String> {
    v.iter().map(|s| s.to_string()).collect()
}

#[test]
fn default_syntax_knows_its_keywords() {
    let syntax = GreteaSyntax::default();
    assert_eq!(syntax.match_keyword(&"fn".to_string()), GreteaKeywords::Fn);
    assert_eq!(syntax.match_keyword(&"let".to_string()), GreteaKeywords::Var);
    assert_eq!(syntax.match_keyword(&"var".to_string()), GreteaKeywords::Var);
    assert_eq!(syntax.match_keyword(&"set".to_string()), GreteaKeywords::SetDirective);
    assert_eq!(syntax.match_keyword(&"[[".to_string()), GreteaKeywords::FlagLeft);
    assert_eq!(syntax.match_keyword(&"@".to_string()), GreteaKeywords::DirectiveEnd);
    assert_eq!(syntax.match_keyword(&"main".to_string()), GreteaKeywords::Undefined);
    assert_eq!(syntax.syntax_list.entries.len(), 37);
    assert_eq!(syntax.ast_include_args, "include_args");
    assert_eq!(syntax.ast_flag_right, "]]");
}

#[test]
fn match_keyword_ignores_one_trailing_line_break() {
    let syntax = GreteaSyntax::default();
    assert_eq!(syntax.match_keyword(&"while\n".to_string()), GreteaKeywords::While);
    assert_eq!(syntax.match_keyword(&"while\n\n".to_string()), GreteaKeywords::Undefined);
    assert_eq!(syntax.match_keyword(&"\n".to_string()), GreteaKeywords::Undefined);
}

#[test]
fn add_files_a_new_spelling() {
    let mut syntax = GreteaSyntax::default();
    syntax.add("func".to_string(), GreteaKeywords::Fn);
    syntax.add("fn".to_string(), GreteaKeywords::Module);
    assert_eq!(syntax.match_keyword(&"func".to_string()), GreteaKeywords::Fn);
    assert_eq!(syntax.match_keyword(&"fn".to_string()), GreteaKeywords::Module);
}

#[test]
fn ast_helpers() {
    assert_eq!(to("abc"), "abc");
    assert_eq!(from_module(&"tea#green#fmt".to_string()), "tea::green::fmt");
    assert_eq!(from_module(&"plain".to_string()), "plain");
    assert_eq!(make_vector(&"int".to_string()), "std::vector<int> ");
}

#[test]
fn variable_list_starts_empty() {
    assert!(GreteaVariableList::default().variable_list.is_empty());
}

#[test]
fn strmap_walks_keys_in_order() {
    let mut m: StrMap<u32> = StrMap::new();
    m.insert("pear".to_string(), 1);
    m.insert("apple".to_string(), 2);
    m.insert("fig".to_string(), 3);
    m.insert("apple".to_string(), 4);
    let keys: Vec<&str> = m.entries.iter().map(|e| e.0.as_str()).collect();
    assert_eq!(keys, vec!["apple", "fig", "pear"]);
    assert_eq!(m.get("apple"), Some(&4));
    assert_eq!(m.get("kiwi"), None);
    assert_eq!(m.len(), 3);
}

#[test]
fn strmap_orders_by_code_point() {
    let mut m: StrMap<bool> = StrMap::new();
    m.insert("b".to_string(), true);
    m.insert("B".to_string(), true);
    m.insert("ab".to_string(), true);
    m.insert("a".to_string(), true);
    m.insert("é".to_string(), true);
    let keys: Vec<&str> = m.entries.iter().map(|e| e.0.as_str()).collect();
    assert_eq!(keys, vec!["B", "a", "ab", "b", "é"]);
}

#[test]
fn optimize_folds_true_and_false() {
    let t = optimize(&strings(&["if", "x", "=", "=", "true"]), OptimizeBlocks::StatementBool);
    assert_eq!(t, strings(&["if", "x", "", "", ""]));
    let f = optimize(&strings(&["if", "x", "!", "=", "false"]), OptimizeBlocks::StatementBool);
    assert_eq!(f, strings(&["if", "!x", "", "", ""]));
}

#[test]
fn optimize_leaves_other_conditions() {
    let d = strings(&["if", "a", "<", "b"]);
    assert_eq!(optimize(&d, OptimizeBlocks::StatementBool), d);
    let d = strings(&["if", "a", "=", "=", "b"]);
    assert_eq!(optimize(&d, OptimizeBlocks::StatementBool), d);
}

#[test]
fn optimize_folds_each_comparison() {
    let d = strings(&["if", "a", "=", "=", "true", "&&", "b", "=", "=", "false"]);
    assert_eq!(
        optimize(&d, OptimizeBlocks::StatementBool),
        strings(&["if", "a", "", "", "", "&&", "!b", "", "", ""])
    );
}

#[test]
fn optimize_helpers_recognise_tokens() {
    assert!(is_eq_or_uneq(&"!".to_string()));
    assert!(is_eq_or_uneq(&"=".to_string()));
    assert!(!is_eq_or_uneq(&"==".to_string()));
    assert!(is_boolean(&"true".to_string()));
    assert!(is_boolean(&"false".to_string()));
    assert!(!is_boolean(&"True".to_string()));
}

#[test]
fn file_names() {
    assert_eq!(to_gretea("hello".to_string()), "hello.tea");
    assert_eq!(normalize("hello.tea".to_string()), "hello");
    assert_eq!(normalize("a.tea.b.tea".to_string()), "a.b");
    assert_eq!(normalize("x.te".to_string()), "x.te");
    assert_eq!(add("hello".to_string()), "hello.cpp");
    assert_eq!(header("hello".to_string()), "hello.hpp");
    assert_eq!(normalize(to_gretea("mod.t".to_string())), "mod.t");
}

#[test]
fn read_raw_file_skips_comments() {
    let mut d = GreteaFileData { raw_data: "old".to_string(), unparsed: vec![], lines: strings(&["kept"]), func_list: vec![] };
    d.read_raw_file(&strings(&["fn main() {", "  // comment", "}"]));
    assert_eq!(d.raw_data, " fn main() {\n }\n");
    assert_eq!(d.lines, strings(&["kept", "fn main() {", "}"]));
}

#[test]
fn optimize_comparison_with_boolean_literals() {
    let d = strings(&["a", "&&", "x", "=", "=", "true", "||", "y", "!", "=", "false", ")"]);
    let once = optimize(&d, OptimizeBlocks::StatementBool);
    assert_eq!(once, strings(&["a", "&&", "x", "", "", "", "||", "!y", "", "", "", ")"]));
    let single = optimize(&strings(&["x", "=", "=", "false"]), OptimizeBlocks::StatementBool);
    assert_eq!(single, strings(&["!x", "", "", ""]));
}
