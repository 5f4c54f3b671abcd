use gretea::read::GreteaFileData;
use gretea::tokenizer::gretea_tokenizer::{
    get_data, is_comment, is_data, is_end_of_data, is_start_of_data, replace, replace_with, tokenize,
};

fn file(raw: &str) -> GreteaFileData {
    GreteaFileData {
        raw_data: raw.to_string(),
        unparsed: vec![],
        lines: vec![],
        func_list: vec![],
    }
}

fn strings(v: &[&str]) -> Vec<String> {
    v.iter().map(|s| s.to_string()).collect()
}

#[test]
fn tokenize_cuts_around_punctuation() {
    let tokens = tokenize(&file(" fn main() = int {\n . 0\n }\n"));
    assert_eq!(
        tokens,
        strings(&[
            "", "fn", "main", "(", "", ")", "", "", "=", "", "int", "", "{", "\n", ".", "0\n", "", "}", "\n"
        ])
    );
}

#[test]
fn tokenize_keeps_quoted_data_together() {
    let tokens = tokenize(&file("say \"hello big world\" now"));
    assert_eq!(tokens, strings(&["say", "\"hello big world\" ", "now"]));
}

#[test]
fn tokenize_single_piece_datum() {
    let tokens = tokenize(&file("\"x\" y"));
    assert_eq!(tokens, strings(&["\"x\"", "y"]));
}

#[test]
fn tokenize_drops_unclosed_datum() {
    let tokens = tokenize(&file("a \"open and"));
    assert_eq!(tokens, strings(&["a"]));
}

#[test]
fn tokenize_empty_text() {
    assert_eq!(tokenize(&file("")), strings(&[""]));
}

#[test]
fn replace_pads_every_token_character() {
    assert_eq!(replace(&"a(b)".to_string()), "a ( b ) ");
    assert_eq!(replace(&"x#y:z=w,v".to_string()), "x # y : z = w , v");
    assert_eq!(replace(&"`[]{}".to_string()), " `  [  ]  {  } ");
    assert_eq!(replace(&"plain".to_string()), "plain");
}

#[test]
fn replace_with_one_character() {
    assert_eq!(replace_with(&"a.b.c".to_string(), '.'), "a . b . c");
    assert_eq!(replace_with(&"abc".to_string(), '.'), "abc");
}

#[test]
fn replace_agrees_with_successive_replace_with() {
    let list = ['`', '(', ')', '[', ']', '#', '{', '}', ':', '=', ','];
    let input = "f(a[1]#b{c}:d=e,`g`)".to_string();
    let mut step = input.clone();
    for c in list.iter() {
        step = replace_with(&step, *c);
    }
    assert_eq!(replace(&input), step);
}

#[test]
fn data_markers() {
    assert!(is_start_of_data(&"  \"abc"));
    assert!(!is_start_of_data(&"abc\""));
    assert!(is_end_of_data(&"abc\"  \n"));
    assert!(!is_end_of_data(&"\"abc"));
    assert!(is_data(&"\"abc"));
    assert!(is_data(&"abc\""));
    assert!(!is_data(&"abc"));
}

#[test]
fn comment_lines() {
    assert!(is_comment(&"  // note"));
    assert!(is_comment(&"//"));
    assert!(!is_comment(&"/ / no"));
    assert!(!is_comment(&"/"));
    assert!(!is_comment(&"x // trailing"));
    assert!(!is_comment(&""));
}

#[test]
fn get_data_collects_up_to_closing_quote() {
    let tokens = vec!["say", "", "\"hello", "big", "world\"", "after"];
    assert_eq!(get_data(&tokens, 2), ("\"hello ".to_string(), 2));
    assert_eq!(get_data(&tokens, 3), ("big world\" ".to_string(), 4));
    assert_eq!(get_data(&tokens, 0), ("say \"hello ".to_string(), 2));
}

#[test]
fn get_data_without_datum_reads_to_the_end() {
    let tokens = vec!["a", "b"];
    assert_eq!(get_data(&tokens, 0), ("a b ".to_string(), 1));
    assert_eq!(get_data(&tokens, 5), ("".to_string(), 0));
}

#[test]
fn tokens_without_quotes_are_the_pieces_of_the_padded_text() {
    let raw = " let x = f(a,b) { }\n";
    let expected: Vec<String> = replace(&raw.to_string()).split(' ').map(|s| s.to_string()).collect();
    assert_eq!(tokenize(&file(raw)), expected);
    assert_eq!(tokenize(&file(" let x = 5\n")), vec!["", "let", "x", "", "=", "", "5\n"]);
}
