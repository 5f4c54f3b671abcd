use gretea::ast::{GreteaCompileType, GreteaSyntax, GreteaVariableList};
use gretea::lexer::gretea_lexer::init_lexer;
use gretea::log::LogTypes;
use gretea::parser::{GreteaParseErrorKind, GreteaParseEvent, GreteaParser};
use gretea::read::GreteaFileData;

fn strings(v: &[&str]) -> Vec<String> {
    v.iter().map(|s| s.to_string()).collect()
}

fn data(raw: &str) -> GreteaFileData {
    GreteaFileData { raw_data: raw.to_string(), unparsed: vec![], lines: vec![], func_list: vec![] }
}

fn parser() -> GreteaParser {
    GreteaParser {
        init_ast: GreteaSyntax::default(),
        data_list: GreteaVariableList::default(),
        func_data: vec![],
        raw_data: data(""),
        func_list: vec![],
        compile_list: vec![],
        events: vec![],
    }
}

#[test]
fn lexer_compiles_main() {
    let out = init_lexer(&data(" fn main() = int {\n . 0\n }\n")).ok().unwrap();
    assert_eq!(out.generated, "int main(int argc, char** argv) \n{\nreturn 0\n ;}\n");
    assert_eq!(out.func_list, strings(&["main"]));
    assert_eq!(out.sources.entries.len(), 0);
    assert!(out.events.is_empty());
}

#[test]
fn lexer_keeps_known_functions_first() {
    let mut d = data(" fn f() {\n }\n");
    d.func_list = strings(&["known"]);
    let out = init_lexer(&d).ok().unwrap();
    assert_eq!(out.func_list, strings(&["known", "f"]));
    assert_eq!(out.generated, "void f() {\n}\n");
}

#[test]
fn lexer_immutable_variable_by_default() {
    let out = init_lexer(&data(" var x = 5\n")).ok().unwrap();
    assert_eq!(out.generated, "const auto x = 5\n;\n");
}

#[test]
fn lexer_mutable_variable() {
    let out = init_lexer(&data(" var mut y = 1\n")).ok().unwrap();
    assert_eq!(out.generated, " auto y = 1\n;\n");
}

#[test]
fn lexer_import_records_the_source() {
    let out = init_lexer(&data(" import tea.green.fmt\n")).ok().unwrap();
    assert_eq!(out.generated, "#include\"fmt.hpp\"\n");
    assert_eq!(out.sources.entries.len(), 1);
    assert_eq!(out.sources.entries[0].0, "tea/green/fmt");
    assert!(out.sources.entries[0].1);
}

#[test]
fn lexer_condition_folds_true() {
    let out = init_lexer(&data(" if x == true {\n }\n")).ok().unwrap();
    assert_eq!(out.generated, "if (x) {\n}\n");
}

#[test]
fn lexer_blank_source_generates_nothing() {
    let out = init_lexer(&data("   \n  ")).ok().unwrap();
    assert_eq!(out.generated, "");
    assert!(out.func_list.is_empty());
}

#[test]
fn parse_unknown_flag_is_reported() {
    let mut p = parser();
    let cg = p.parse(&strings(&["[[", "wrong", "]]"])).ok().unwrap();
    assert_eq!(cg.generated, "");
    assert_eq!(p.events.len(), 2);
    match &p.events[0] {
        GreteaParseEvent::Log { log_type, message, token, line, column } => {
            assert_eq!(*log_type, LogTypes::Warning);
            assert_eq!(message, "[[ ]] flag not found.");
            assert_eq!(token, "wrong");
            assert_eq!((*line, *column), (1, 2));
        }
        _ => panic!("expected a message"),
    }
    match &p.events[1] {
        GreteaParseEvent::Log { log_type, message, .. } => {
            assert_eq!(*log_type, LogTypes::Help);
            assert_eq!(message, "you may have missed this: [[ \"..\" ]]");
        }
        _ => panic!("expected a message"),
    }
}

#[test]
fn parse_flags_switch_optimization_and_guards() {
    let mut p = parser();
    let cg = p.parse(&strings(&["[[", "no_optimize", "]]", "[[", "library", "]]"])).ok().unwrap();
    assert!(!cg.optimize);
    assert_eq!(cg.generated, "#pragma once\n");
}

#[test]
fn parse_runtime_block_is_handed_out() {
    let mut p = parser();
    let cg = p.parse(&strings(&["runtime", "{", "println", "hi", "}"])).ok().unwrap();
    assert_eq!(cg.generated, "");
    assert_eq!(p.events.len(), 1);
    match &p.events[0] {
        GreteaParseEvent::Runtime { script } => assert_eq!(script, "println hi "),
        _ => panic!("expected a runtime block"),
    }
}

#[test]
fn parse_missing_return_type() {
    let mut p = parser();
    let r = p.parse(&strings(&["fn", "f", "(", ")", "=", "{"]));
    match r {
        Err(e) => {
            assert_eq!(e.kind, GreteaParseErrorKind::MissingReturnType);
            assert_eq!(e.token, "{");
            assert_eq!((e.line, e.column), (1, 6));
        }
        Ok(_) => panic!("expected an error"),
    }
    assert_eq!(p.func_list, strings(&["f"]));
}

#[test]
fn parse_incomplete_condition() {
    let mut p = parser();
    match p.parse(&strings(&["if", "{"])) {
        Err(e) => assert_eq!(e.kind, GreteaParseErrorKind::IncompleteCondition),
        Ok(_) => panic!("expected an error"),
    }
}

#[test]
fn parse_unbalanced_call() {
    let mut p = parser();
    p.func_list = strings(&["foo"]);
    match p.parse(&strings(&["foo", ")"])) {
        Err(e) => assert_eq!(e.kind, GreteaParseErrorKind::UnbalancedCallParentheses),
        Ok(_) => panic!("expected an error"),
    }
}

#[test]
fn parse_element_without_argument() {
    let mut p = parser();
    p.func_list = strings(&["foo"]);
    match p.parse(&strings(&["foo", "["])) {
        Err(e) => assert_eq!(e.kind, GreteaParseErrorKind::ElementWithoutArgument),
        Ok(_) => panic!("expected an error"),
    }
}

#[test]
fn parse_operator_first_argument() {
    let mut p = parser();
    p.func_list = strings(&["foo"]);
    match p.parse(&strings(&["foo", "(", "(", "x", ")", ")"])) {
        Err(e) => assert_eq!(e.kind, GreteaParseErrorKind::OperatorFirstArgument),
        Ok(_) => panic!("expected an error"),
    }
}

#[test]
fn parse_unfoldable_condition() {
    let mut p = parser();
    p.init_ast.add("!".to_string(), gretea::ast::GreteaKeywords::If);
    match p.parse(&strings(&["!", "=", "false", "{"])) {
        Err(e) => assert_eq!(e.kind, GreteaParseErrorKind::UnfoldableCondition),
        Ok(_) => panic!("expected an error"),
    }
}

#[test]
fn parse_function_call() {
    let mut p = parser();
    p.func_list = strings(&["print"]);
    let cg = p.parse(&strings(&["print", "(", "a", ",", "b", ")"])).ok().unwrap();
    assert_eq!(cg.generated, "print(a,b);\n");
}

#[test]
fn parse_alias_is_replaced() {
    let mut p = parser();
    let cg = p.parse(&strings(&["alias", "pi", "=", "3", "var", "x", "=", "#", "pi"])).ok().unwrap();
    assert_eq!(cg.generated, "const auto x = 3;\n");
    assert_eq!(p.data_list.variable_list.len(), 1);
    assert_eq!(p.data_list.variable_list[0].__name, "x");
}

#[test]
fn parse_compile_setting_is_filed() {
    let mut p = parser();
    let cg = p.parse(&strings(&["compile", "default", "int", "{", "42", "}"])).ok().unwrap();
    assert_eq!(cg.generated, "");
    assert_eq!(p.compile_list.len(), 1);
    assert!(p.compile_list[0].__type == GreteaCompileType::Default);
    assert_eq!(p.compile_list[0].__name, "int");
    assert_eq!(p.compile_list[0].__data, "42 ");
}

#[test]
fn parse_compile_setting_is_replaced_by_name() {
    let mut p = parser();
    let _ = p
        .parse(&strings(&["compile", "default", "int", "{", "1", "}", "compile", "default", "int", "{", "2", "}"]))
        .ok()
        .unwrap();
    assert_eq!(p.compile_list.len(), 1);
    assert_eq!(p.compile_list[0].__data, "2 ");
}

#[test]
fn parse_structure() {
    let mut p = parser();
    let cg = p
        .parse(&strings(&["struct", "Pt", "{", "x", ":", "int", ",", "y", ":", "int", ",", "}"]))
        .ok()
        .unwrap();
    assert_eq!(cg.generated, "class Pt\n{\npublic:\nconst int x ;\nconst int y ;\n};\n");
    assert_eq!(p.data_list.variable_list.len(), 2);
}

#[test]
fn parse_enumeration() {
    let mut p = parser();
    let cg = p.parse(&strings(&["enum", "Color", "{", "Red", ",", "Blue", "}"])).ok().unwrap();
    assert_eq!(cg.generated, "enum Color  {\nRed,\nBlue\n};");
}

#[test]
fn parse_error_names_the_line_and_column_of_its_token() {
    let mut p = parser();
    match p.parse(&strings(&["\n", "", "if", "\n", "{"])) {
        Err(e) => {
            assert_eq!(e.kind, GreteaParseErrorKind::IncompleteCondition);
            assert_eq!(e.token, "{");
            assert_eq!((e.line, e.column), (3, 5));
        }
        Ok(_) => panic!("expected an error"),
    }
}

#[test]
fn lexer_error_counts_line_breaks() {
    // "{" is padded into "", "{", "": the tokens are "x\n", "if", "", "{", "".
    match init_lexer(&data("x\n if {")) {
        Err((e, _)) => {
            assert_eq!(e.kind, GreteaParseErrorKind::IncompleteCondition);
            assert_eq!((e.line, e.column), (2, 4));
        }
        Ok(_) => panic!("expected an error"),
    }
}

#[test]
fn parse_variable_of_type_placeholder_is_auto() {
    let mut p = parser();
    let cg = p.parse(&strings(&["var", "x", ":", "_", "=", "5"])).ok().unwrap();
    assert_eq!(cg.generated, "const auto x = 5;\n");
    assert_eq!(p.data_list.variable_list[0].__type, "");
}

#[test]
fn parse_function_with_return_and_line() {
    let mut p = parser();
    let cg = p
        .parse(&strings(&["fn", "f", "(", ")", "=", "int", "var", "y", "=", "7", "y", "+", "1;", "return", "y;"]))
        .ok()
        .unwrap();
    assert_eq!(cg.generated, "int f() \nconst auto y = 7;\ny+1; ;\nreturn y; ;");
    assert_eq!(p.func_list, strings(&["f"]));
    assert_eq!(p.func_data[0].__function_return_type, "int");
}

#[test]
fn parse_method_call_in_unsafe_block() {
    let mut p = parser();
    let cg = p.parse(&strings(&["unsafe", "{", "obj.run", "(", "x", ")", "}"])).ok().unwrap();
    assert_eq!(cg.generated, "obj.run(x);\n");
}

#[test]
fn parse_preprocessor_alias_is_a_define() {
    let mut p = parser();
    let cg = p.parse(&strings(&["`", "alias", "N", "=", "5"])).ok().unwrap();
    assert_eq!(cg.generated, "#define N 5\n");
}

#[test]
fn parse_element_access_in_call() {
    let mut p = parser();
    p.func_list = strings(&["foo"]);
    let cg = p.parse(&strings(&["foo", "(", "a", "[", "1", "]", ")"])).ok().unwrap();
    assert_eq!(cg.generated, "foo(a[1]);\n");
}

#[test]
fn parse_default_setting_reads_back() {
    let mut p = parser();
    let cg = p
        .parse(&strings(&[
            "compile", "default", "int", "{", "42", "}", "var", "x", ":", "int", "=", "[[", "default", "]]",
        ]))
        .ok()
        .unwrap();
    assert_eq!(cg.generated, "const int  x = 42 ;\n");
    assert_eq!(p.data_list.variable_list[0].__data, "42 ");
}

#[test]
fn parse_let_is_immutable() {
    let mut p = parser();
    let cg = p.parse(&strings(&["", "let", "x", "", "=", "", "5\n"])).ok().unwrap();
    assert_eq!(cg.generated, "const auto x = 5\n;\n");
    assert_eq!(cg.sources.entries.len(), 0);
    assert!(cg.optimize);
    assert_eq!(p.data_list.variable_list.len(), 1);
    assert_eq!(p.data_list.variable_list[0].__name, "x");
    assert_eq!(p.data_list.variable_list[0].__data, "5\n");
}

#[test]
fn parse_mut_variable_drops_const() {
    let mut p = parser();
    let cg = p.parse(&strings(&["var", "mut", "y", "=", "7\n"])).ok().unwrap();
    assert_eq!(cg.generated, " auto y = 7\n;\n");
    assert_eq!(p.data_list.variable_list.len(), 1);
    assert_eq!(p.data_list.variable_list[0].__name, "y");
    assert_eq!(p.data_list.variable_list[0].__type, "");
}

#[test]
fn parse_mut_structure_member_drops_const() {
    let mut p = parser();
    let cg = p.parse(&strings(&["struct", "P", "{", "mut", "x", ":", "int", ",", "}"])).ok().unwrap();
    assert_eq!(cg.generated, "class P\n{\npublic:\n int x ;\n};\n");
}

#[test]
fn parse_function_head_is_recorded() {
    let mut p = parser();
    let cg = p
        .parse(&strings(&["fn", "add", "(", "a", ":", "int", ",", "b", ":", "int", ")", "=", "int", "{"]))
        .ok()
        .unwrap();
    assert_eq!(cg.generated, "int add(int a,int b) \n{\n");
    assert_eq!(p.func_list, strings(&["add"]));
    assert_eq!(p.func_data.len(), 1);
    assert_eq!(p.func_data[0].__function_name, "add");
    assert_eq!(p.func_data[0].__function_return_type, "int");
}

#[test]
fn parse_missing_return_type_place() {
    let mut p = parser();
    let e = p.parse(&strings(&["fn", "f", "(", ")", "=", "{"])).err().unwrap();
    assert_eq!(e.kind, GreteaParseErrorKind::MissingReturnType);
    assert_eq!(e.line, 1);
    assert_eq!(e.column, 6);
    assert_eq!(e.token, "{");
}

#[test]
fn parse_condition_against_true_is_folded() {
    let mut p = parser();
    let cg = p.parse(&strings(&["if", "x", "=", "=", "true", "{", "}"])).ok().unwrap();
    assert_eq!(cg.generated, "if (x) {\n}\n");
    assert!(cg.optimize);
}

#[test]
fn parse_call_of_known_function() {
    let mut p = parser();
    p.func_list = strings(&["f"]);
    let cg = p.parse(&strings(&["f", "(", "a", ",", "b", ")"])).ok().unwrap();
    assert_eq!(cg.generated, "f(a,b);\n");
    assert_eq!(p.func_list, strings(&["f"]));
}

#[test]
fn parse_blank_tokens_change_nothing_but_places() {
    let plain = strings(&["let", "x", "=", "5\n", "fn", "f", "(", ")", "{", "}"]);
    let padded = strings(&["", "let", " ", "x", "", "=", "5\n", " ", "fn", "f", "", "(", ")", "{", " ", "}", ""]);
    let mut p1 = parser();
    let mut p2 = parser();
    let c1 = p1.parse(&plain).ok().unwrap();
    let c2 = p2.parse(&padded).ok().unwrap();
    assert_eq!(c1.generated, c2.generated);
    assert_eq!(c1.sources.entries.len(), c2.sources.entries.len());
    assert_eq!(c1.optimize, c2.optimize);
    assert_eq!(p1.data_list.variable_list.len(), p2.data_list.variable_list.len());
    assert_eq!(p1.func_list, p2.func_list);
    assert_eq!(p1.func_data.len(), p2.func_data.len());
}

#[test]
fn lexer_appends_defined_functions_to_known_ones() {
    let mut d = data(" fn main() = int {\n");
    d.func_list = strings(&["f"]);
    let out = init_lexer(&d).ok().unwrap();
    assert_eq!(out.generated, "int main(int argc, char** argv) \n{\n");
    assert_eq!(out.sources.entries.len(), 0);
    assert_eq!(out.func_list, strings(&["f", "main"]));
}
