use gretea::ast::GreteaSyntax;
use gretea::ast::GreteaVariableList;
use gretea::cg::GreteaCodegen;
use gretea::parser::GreteaParser;
use gretea::read::GreteaFileData;
use gretea::strmap::StrMap;

fn cg() -> GreteaCodegen {
    GreteaCodegen { generated: String::new(), sources: StrMap::new(), optimize: true }
}

fn strings(v: &[&str]) -> Vec<String> {
    v.iter().map(|s| s.to_string()).collect()
}

fn parser() -> GreteaParser {
    GreteaParser {
        init_ast: GreteaSyntax::default(),
        data_list: GreteaVariableList::default(),
        func_data: vec![],
        raw_data: GreteaFileData { raw_data: String::new(), unparsed: vec![], lines: vec![], func_list: vec![] },
        func_list: vec![],
        compile_list: vec![],
        events: vec![],
    }
}

#[test]
fn import_of_a_module() {
    let mut c = cg();
    c.import("tea.green.fmt".to_string(), false);
    assert_eq!(c.generated, "#include\"fmt.hpp\"\n");
    assert_eq!(c.sources.entries.len(), 1);
    assert_eq!(c.sources.entries[0].0, "tea/green/fmt");
    assert!(c.sources.entries[0].1);
}

#[test]
fn import_of_a_local_module_trims_and_keeps_order() {
    let mut c = cg();
    c.import(" my.util\n".to_string(), false);
    c.import("a.b".to_string(), false);
    assert_eq!(c.generated, "#include\"util.hpp\"\n#include\"b.hpp\"\n");
    assert_eq!(c.sources.entries[0].0, "a/b");
    assert!(!c.sources.entries[0].1);
    assert_eq!(c.sources.entries[1].0, "my/util");
    assert!(!c.sources.entries[1].1);
}

#[test]
fn import_of_a_header() {
    let mut c = cg();
    c.import("<iostream>".to_string(), true);
    assert_eq!(c.generated, "#include <iostream>\n");
    assert_eq!(c.sources.entries.len(), 0);
}

#[test]
fn function_head_with_arguments_in_key_order() {
    let mut c = cg();
    let mut p = parser();
    let mut args: StrMap<String> = StrMap::new();
    args.insert("y".to_string(), "int".to_string());
    args.insert("x".to_string(), "string".to_string());
    c.function(&mut p, &args, &"add".to_string(), &"int".to_string(), &String::new(), false, false);
    assert_eq!(c.generated, "int add(string x,int y) \n");
    assert_eq!(p.func_data.len(), 1);
    assert_eq!(p.func_data[0].__function_name, "add");
    assert_eq!(p.func_data[0].__function_arguments.len(), 2);
    assert_eq!(p.func_data[0].__function_arguments[0].__arg_name, "x");
    assert_eq!(p.func_data[0].__function_arguments[0].__arg_type, "string");
}

#[test]
fn function_head_generic_and_void() {
    let mut c = cg();
    let mut p = parser();
    let args: StrMap<String> = StrMap::new();
    c.function(&mut p, &args, &"show".to_string(), &"void".to_string(), &"T".to_string(), true, true);
    assert_eq!(c.generated, "template<typename... T>\nvoid show() {\n");
}

#[test]
fn function_head_of_main() {
    let mut c = cg();
    let mut p = parser();
    let mut args: StrMap<String> = StrMap::new();
    args.insert("ignored".to_string(), "int".to_string());
    c.function(&mut p, &args, &"main".to_string(), &"int".to_string(), &String::new(), false, false);
    assert_eq!(c.generated, "int main(int argc, char** argv) \n");
}

#[test]
fn function_call_glues_operators() {
    let mut c = cg();
    c.function_call(&strings(&["a", "+", "b", "c"]), &"f".to_string(), false);
    assert_eq!(c.generated, "f(a+b,c);\n");
}

#[test]
fn function_call_unpacked() {
    let mut c = cg();
    c.function_call(&strings(&["x"]), &"print".to_string(), true);
    assert_eq!(c.generated, "(print(x), ...);\n");
}

#[test]
fn function_call_of_main_has_no_arguments() {
    let mut c = cg();
    c.function_call(&strings(&["+"]), &"main".to_string(), false);
    assert_eq!(c.generated, "main();\n");
}

#[test]
fn variable_definitions() {
    let mut c = cg();
    c.variable_definition(&"5".to_string(), &String::new(), &"x".to_string(), false);
    c.variable_definition(&String::new(), &"int".to_string(), &"y".to_string(), true);
    assert_eq!(c.generated, "const auto x = 5;\n int y ;\n");
}

#[test]
fn preprocess_set_defaults_to_zero() {
    let mut c = cg();
    c.preprocess_set(&String::new(), &"FLAG".to_string());
    c.preprocess_set(&"2".to_string(), &"N".to_string());
    assert_eq!(c.generated, "#define FLAG 0\n#define N 2\n");
}

#[test]
fn statements() {
    let mut c = cg();
    c.statement(&strings(&["if", "a", "#", "b", "=", "=", "true"]), false);
    assert_eq!(c.generated, "if (a::b) {\n");
    let mut c = cg();
    c.statement(&strings(&["else", "if", "x", "=", "=", "false"]), false);
    assert_eq!(c.generated, "else if(!x) {\n");
    let mut c = cg();
    c.statement(&strings(&["else"]), false);
    assert_eq!(c.generated, "else {\n");
    let mut c = cg();
    c.statement(&strings(&["while", "n", "<", "3"]), true);
    assert_eq!(c.generated, "while (n<3) {\n");
}

#[test]
fn statement_without_optimization() {
    let mut c = cg();
    c.optimize = false;
    c.statement(&strings(&["if", "a", "=", "=", "true"]), false);
    assert_eq!(c.generated, "if (a==true) {\n");
}

#[test]
fn statement_translates_module_separators() {
    let mut c = cg();
    c.statement(&strings(&["if", "m#f"]), false);
    assert_eq!(c.generated, "if (m::f) {\n");
}

#[test]
fn directives() {
    let mut c = cg();
    c.statement_directive(&strings(&["if", "A", "==", "1"]));
    c.statement_directive(&strings(&["else", "if", "B"]));
    c.statement_directive(&strings(&["else"]));
    c.directive_end();
    assert_eq!(c.generated, "#if A==1\n#elif B\n#else\n#endif\n");
}

#[test]
fn blocks_and_loops() {
    let mut c = cg();
    c.module(&"ns".to_string());
    c.structure(&"Box".to_string(), &"T".to_string());
    c.structure(&"Pt".to_string(), &String::new());
    c.enumeration(&"Color".to_string(), &"int".to_string(), &"Red,\nGreen".to_string());
    c.enumeration(&"E".to_string(), &String::new(), &"A".to_string());
    c.for_loop();
    c.for_iter(&"x".to_string(), &"xs".to_string());
    c.for_continue();
    c.for_break();
    assert_eq!(
        c.generated,
        "namespace nstemplate<typename T>\nclass Box\nclass Pt\nenum Color : int {\nRed,\nGreen\n};enum E  {\nA\n};while(1)for(auto x : xs)continue;\nbreak;\n"
    );
}

#[test]
fn small_pieces() {
    let mut c = cg();
    c.return_variable(&"x".to_string());
    c.return_variable(&String::new());
    c.header_guards();
    c.cpp_vector(&"int".to_string());
    c.cpp_args();
    c.character(&"}".to_string());
    assert_eq!(
        c.generated,
        "return x;return ;#pragma once\nstd::vector<int>std::vector<string> arguments(argv, argv + argc);\n}\n"
    );
}

#[test]
fn assembly_block() {
    let mut c = cg();
    c.assembly(&"mov a, b\nx\n?_\nraw line\n _? \nnop".to_string());
    assert_eq!(c.generated, "asm(\n\"mov a, b\"\nraw line\n\"nop\"\n);\n");
}
