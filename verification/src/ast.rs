//! The syntax tables of Gretea: keywords, the keyword table, and the records the parser
//! keeps about variables, functions and compile-time settings.
use vstd::prelude::*;
use crate::strmap::StrMap;
use crate::text::{ends_with_char, ends_with, chars_of, string_of_range, replace_char};

pub mod ast_helpers;

verus! {

#[derive(Copy, Clone, PartialEq, Eq, Structural, Debug)]
pub enum GreteaKeywords {
    Import,
    Include,
    Fn,
    Var,
    Mut,
    Assembly,
    Cpp,
    Runtime,
    Unsafe,
    Safe,
    IncludeArgs,
    Alias,
    Type,
    If,
    Else,
    Module,
    Struct,
    Enum,
    For,
    While,
    Compile,
    Continue,
    Break,
    LeftParenthese,
    RightParenthese,
    LeftSqBracket,
    RightSqBracket,
    LeftCurlyBracket,
    RightCurlyBracket,
    Preprocessor,
    SetDirective,
    In,
    FlagLeft,
    FlagRight,
    Vector,
    DirectiveEnd,
    Undefined,
}

/// The spelling of every keyword of the language, and the table from spellings to keywords.
pub struct GreteaSyntax {
    pub ast_import: String,
    pub ast_include: String,
    pub ast_fn: String,
    pub ast_var: String,
    pub ast_let: String,
    pub ast_mut: String,
    pub ast_assembly: String,
    pub ast_cpp: String,
    pub ast_runtime: String,
    pub ast_unsafe: String,
    pub ast_safe: String,
    pub ast_include_args: String,
    pub ast_alias: String,
    pub ast_type: String,
    pub ast_if: String,
    pub ast_else: String,
    pub ast_module: String,
    pub ast_struct: String,
    pub ast_enum: String,
    pub ast_for: String,
    pub ast_while: String,
    pub ast_compile: String,
    pub ast_continue: String,
    pub ast_break: String,
    pub ast_left_parenthese: String,
    pub ast_right_parenthese: String,
    pub ast_square_left_bracket: String,
    pub ast_square_right_bracket: String,
    pub ast_curly_left_bracket: String,
    pub ast_curly_right_bracket: String,
    pub ast_preprocessor: String,
    pub ast_set: String,
    pub ast_in: String,
    pub ast_flag_left: String,
    pub ast_flag_right: String,
    pub ast_vector: String,
    pub ast_directive_end: String,
    pub syntax_list: StrMap<GreteaKeywords>,
}

#[derive(PartialEq, Eq, Structural, Copy, Clone, Debug)]
pub enum GreteaCompileType {
    Default,
    Undefined,
}

/// A `compile` setting: its kind, the name it is filed under, and the text it stands for.
#[derive(Clone)]
pub struct GreteaCompileData {
    pub __type: GreteaCompileType,
    pub __name: String,
    pub __data: String,
}

/// A variable (or structure member) that the parser has defined.
pub struct GreteaVariableData {
    pub __keyword_type: GreteaKeywords,
    pub __name: String,
    pub __type: String,
    pub __data: String,
}

/// A function that the parser has declared.
pub struct GreteaFunctionData {
    pub __function_name: String,
    pub __function_return_type: String,
    pub __function_arguments: Vec<GreteaFunctionArgument>,
}

#[derive(Clone)]
pub struct GreteaFunctionArgument {
    pub __arg_name: String,
    pub __arg_type: String,
    pub __is_mutable: bool,
}

pub struct GreteaVariableList {
    pub variable_list: Vec<GreteaVariableData>,
}

/// The keyword table that `GreteaSyntax::default` builds.
pub open spec fn default_keyword_map() -> Map<Seq<char>, GreteaKeywords> {
    Map::<Seq<char>, GreteaKeywords>::empty()
        .insert("import"@, GreteaKeywords::Import)
        .insert("include"@, GreteaKeywords::Include)
        .insert("fn"@, GreteaKeywords::Fn)
        .insert("var"@, GreteaKeywords::Var)
        .insert("let"@, GreteaKeywords::Var)
        .insert("mut"@, GreteaKeywords::Mut)
        .insert("assembly"@, GreteaKeywords::Assembly)
        .insert("cpp"@, GreteaKeywords::Cpp)
        .insert("runtime"@, GreteaKeywords::Runtime)
        .insert("unsafe"@, GreteaKeywords::Unsafe)
        .insert("safe"@, GreteaKeywords::Safe)
        .insert("include_args"@, GreteaKeywords::IncludeArgs)
        .insert("alias"@, GreteaKeywords::Alias)
        .insert("type"@, GreteaKeywords::Type)
        .insert("if"@, GreteaKeywords::If)
        .insert("else"@, GreteaKeywords::Else)
        .insert("module"@, GreteaKeywords::Module)
        .insert("struct"@, GreteaKeywords::Struct)
        .insert("enum"@, GreteaKeywords::Enum)
        .insert("for"@, GreteaKeywords::For)
        .insert("while"@, GreteaKeywords::While)
        .insert("compile"@, GreteaKeywords::Compile)
        .insert("continue"@, GreteaKeywords::Continue)
        .insert("break"@, GreteaKeywords::Break)
        .insert("("@, GreteaKeywords::LeftParenthese)
        .insert(")"@, GreteaKeywords::RightParenthese)
        .insert("["@, GreteaKeywords::LeftSqBracket)
        .insert("]"@, GreteaKeywords::RightSqBracket)
        .insert("{"@, GreteaKeywords::LeftCurlyBracket)
        .insert("}"@, GreteaKeywords::RightCurlyBracket)
        .insert("`"@, GreteaKeywords::Preprocessor)
        .insert("set"@, GreteaKeywords::SetDirective)
        .insert("in"@, GreteaKeywords::In)
        .insert("[["@, GreteaKeywords::FlagLeft)
        .insert("]]"@, GreteaKeywords::FlagRight)
        .insert("[]"@, GreteaKeywords::Vector)
        .insert("@"@, GreteaKeywords::DirectiveEnd)
}

/// The text a token is looked up by: the token without one trailing line break.
pub open spec fn lookup_text(keyword: Seq<char>) -> Seq<char> {
    if ends_with_char(keyword, '\n') {
        keyword.drop_last()
    } else {
        keyword
    }
}

/// The keyword that `table` gives to a token, `Undefined` where it gives none.
#[verifier::opaque]
pub open spec fn keyword_in(table: Map<Seq<char>, GreteaKeywords>, keyword: Seq<char>) -> GreteaKeywords {
    if table.contains_key(lookup_text(keyword)) {
        table[lookup_text(keyword)]
    } else {
        GreteaKeywords::Undefined
    }
}

impl GreteaSyntax {
    pub open spec fn wf(&self) -> bool {
        self.syntax_list.wf()
    }

    /// The keyword that a token spells (a trailing line break is ignored), or `Undefined`.
    pub fn match_keyword(&self, keyword: &String) -> (res: GreteaKeywords)
        requires
            self.wf(),
        ensures
            res == keyword_in(self.syntax_list@, keyword@),
    {
        let keyword_type = if ends_with(keyword.as_str(), '\n') {
            let v = chars_of(keyword.as_str());
            let key = string_of_range(&v, 0, v.len() - 1);
            assert(key@ =~= keyword@.drop_last());
            self.syntax_list.get(key.as_str())
        } else {
            self.syntax_list.get(keyword.as_str())
        };
        proof {
            reveal(keyword_in);
        }
        match keyword_type {
            Some(k) => *k,
            None => GreteaKeywords::Undefined,
        }
    }

    /// Files `__data` as a spelling of `__type`.
    pub fn add(&mut self, __data: String, __type: GreteaKeywords)
        requires
            old(self).wf(),
        ensures
            final(self).wf(),
            final(self).syntax_list@ == old(self).syntax_list@.insert(__data@, __type),
            *final(self) == (GreteaSyntax { syntax_list: final(self).syntax_list, ..*old(self) }),
    {
        self.syntax_list.insert(__data, __type);
    }
}

impl Default for GreteaSyntax {
    fn default() -> (init: Self)
        ensures
            init.wf(),
            init.syntax_list@ == default_keyword_map(),
            init.ast_import@ == "import"@,
            init.ast_include@ == "include"@,
            init.ast_fn@ == "fn"@,
            init.ast_var@ == "var"@,
            init.ast_let@ == "let"@,
            init.ast_mut@ == "mut"@,
            init.ast_assembly@ == "assembly"@,
            init.ast_cpp@ == "cpp"@,
            init.ast_runtime@ == "runtime"@,
            init.ast_unsafe@ == "unsafe"@,
            init.ast_safe@ == "safe"@,
            init.ast_include_args@ == "include_args"@,
            init.ast_alias@ == "alias"@,
            init.ast_type@ == "type"@,
            init.ast_if@ == "if"@,
            init.ast_else@ == "else"@,
            init.ast_module@ == "module"@,
            init.ast_struct@ == "struct"@,
            init.ast_enum@ == "enum"@,
            init.ast_for@ == "for"@,
            init.ast_while@ == "while"@,
            init.ast_compile@ == "compile"@,
            init.ast_continue@ == "continue"@,
            init.ast_break@ == "break"@,
            init.ast_left_parenthese@ == "("@,
            init.ast_right_parenthese@ == ")"@,
            init.ast_square_left_bracket@ == "["@,
            init.ast_square_right_bracket@ == "]"@,
            init.ast_curly_left_bracket@ == "{"@,
            init.ast_curly_right_bracket@ == "}"@,
            init.ast_preprocessor@ == "`"@,
            init.ast_set@ == "set"@,
            init.ast_in@ == "in"@,
            init.ast_flag_left@ == "[["@,
            init.ast_flag_right@ == "]]"@,
            init.ast_vector@ == "[]"@,
            init.ast_directive_end@ == "@"@,
    {
        let mut init = GreteaSyntax {
            ast_import: ast_helpers::to("import"),
            ast_include: ast_helpers::to("include"),
            ast_fn: ast_helpers::to("fn"),
            ast_var: ast_helpers::to("var"),
            ast_let: ast_helpers::to("let"),
            ast_mut: ast_helpers::to("mut"),
            ast_assembly: ast_helpers::to("assembly"),
            ast_cpp: ast_helpers::to("cpp"),
            ast_runtime: ast_helpers::to("runtime"),
            ast_unsafe: ast_helpers::to("unsafe"),
            ast_safe: ast_helpers::to("safe"),
            ast_include_args: ast_helpers::to("include_args"),
            ast_alias: ast_helpers::to("alias"),
            ast_type: ast_helpers::to("type"),
            ast_if: ast_helpers::to("if"),
            ast_else: ast_helpers::to("else"),
            ast_module: ast_helpers::to("module"),
            ast_struct: ast_helpers::to("struct"),
            ast_enum: ast_helpers::to("enum"),
            ast_for: ast_helpers::to("for"),
            ast_while: ast_helpers::to("while"),
            ast_compile: ast_helpers::to("compile"),
            ast_continue: ast_helpers::to("continue"),
            ast_break: ast_helpers::to("break"),
            ast_left_parenthese: ast_helpers::to("("),
            ast_right_parenthese: ast_helpers::to(")"),
            ast_square_left_bracket: ast_helpers::to("["),
            ast_square_right_bracket: ast_helpers::to("]"),
            ast_curly_left_bracket: ast_helpers::to("{"),
            ast_curly_right_bracket: ast_helpers::to("}"),
            ast_preprocessor: ast_helpers::to("`"),
            ast_set: ast_helpers::to("set"),
            ast_in: ast_helpers::to("in"),
            ast_flag_left: ast_helpers::to("[["),
            ast_flag_right: ast_helpers::to("]]"),
            ast_vector: ast_helpers::to("[]"),
            ast_directive_end: ast_helpers::to("@"),
            syntax_list: StrMap::new(),
        };

        init.add(init.ast_import.clone(), GreteaKeywords::Import);
        init.add(init.ast_include.clone(), GreteaKeywords::Include);
        init.add(init.ast_fn.clone(), GreteaKeywords::Fn);
        init.add(init.ast_var.clone(), GreteaKeywords::Var);
        init.add(init.ast_let.clone(), GreteaKeywords::Var);
        init.add(init.ast_mut.clone(), GreteaKeywords::Mut);
        init.add(init.ast_assembly.clone(), GreteaKeywords::Assembly);
        init.add(init.ast_cpp.clone(), GreteaKeywords::Cpp);
        init.add(init.ast_runtime.clone(), GreteaKeywords::Runtime);
        init.add(init.ast_unsafe.clone(), GreteaKeywords::Unsafe);
        init.add(init.ast_safe.clone(), GreteaKeywords::Safe);
        init.add(init.ast_include_args.clone(), GreteaKeywords::IncludeArgs);
        init.add(init.ast_alias.clone(), GreteaKeywords::Alias);
        init.add(init.ast_type.clone(), GreteaKeywords::Type);
        init.add(init.ast_if.clone(), GreteaKeywords::If);
        init.add(init.ast_else.clone(), GreteaKeywords::Else);
        init.add(init.ast_module.clone(), GreteaKeywords::Module);
        init.add(init.ast_struct.clone(), GreteaKeywords::Struct);
        init.add(init.ast_enum.clone(), GreteaKeywords::Enum);
        init.add(init.ast_for.clone(), GreteaKeywords::For);
        init.add(init.ast_while.clone(), GreteaKeywords::While);
        init.add(init.ast_compile.clone(), GreteaKeywords::Compile);
        init.add(init.ast_continue.clone(), GreteaKeywords::Continue);
        init.add(init.ast_break.clone(), GreteaKeywords::Break);
        init.add(init.ast_left_parenthese.clone(), GreteaKeywords::LeftParenthese);
        init.add(init.ast_right_parenthese.clone(), GreteaKeywords::RightParenthese);
        init.add(init.ast_square_left_bracket.clone(), GreteaKeywords::LeftSqBracket);
        init.add(init.ast_square_right_bracket.clone(), GreteaKeywords::RightSqBracket);
        init.add(init.ast_curly_left_bracket.clone(), GreteaKeywords::LeftCurlyBracket);
        init.add(init.ast_curly_right_bracket.clone(), GreteaKeywords::RightCurlyBracket);
        init.add(init.ast_preprocessor.clone(), GreteaKeywords::Preprocessor);
        init.add(init.ast_set.clone(), GreteaKeywords::SetDirective);
        init.add(init.ast_in.clone(), GreteaKeywords::In);
        init.add(init.ast_flag_left.clone(), GreteaKeywords::FlagLeft);
        init.add(init.ast_flag_right.clone(), GreteaKeywords::FlagRight);
        init.add(init.ast_vector.clone(), GreteaKeywords::Vector);
        init.add(init.ast_directive_end.clone(), GreteaKeywords::DirectiveEnd);

        init
    }
}

impl Default for GreteaVariableList {
    fn default() -> (list: Self)
        ensures
            list.variable_list@.len() == 0,
    {
        GreteaVariableList { variable_list: Vec::new() }
    }
}

/// `s` with every `#` (module separator) written as `::`.
pub open spec fn cpp_scoped(s: Seq<char>) -> Seq<char> {
    replace_char(s, '#', "::"@)
}


/// A token is looked up without one trailing line break: `k` followed by a line break
/// has the keyword of `k` itself.
pub proof fn lemma_keyword_ignores_line_break(table: Map<Seq<char>, GreteaKeywords>, k: Seq<char>)
    requires
        !ends_with_char(k, '\n'),
    ensures
        keyword_in(table, k.push('\n')) == keyword_in(table, k),
{
    reveal(keyword_in);
    assert(k.push('\n').drop_last() =~= k);
}

/// After `add(k, t)` the token `k` has the keyword `t`, and every token looked up by
/// another text keeps its keyword.
pub proof fn lemma_add_then_match(
    table: Map<Seq<char>, GreteaKeywords>,
    k: Seq<char>,
    t: GreteaKeywords,
    other: Seq<char>,
)
    requires
        !ends_with_char(k, '\n'),
    ensures
        keyword_in(table.insert(k, t), k) == t,
        lookup_text(other) != k ==> keyword_in(table.insert(k, t), other) == keyword_in(table, other),
{
    reveal(keyword_in);
}

/// Text written the C++ way has no `#` left.
pub proof fn lemma_cpp_scoped_has_no_hash(s: Seq<char>)
    ensures
        !cpp_scoped(s).contains('#'),
    decreases s.len(),
{
    reveal_strlit("::");
    if s.len() > 0 {
        lemma_cpp_scoped_has_no_hash(s.drop_last());
        let prev = cpp_scoped(s.drop_last());
        let piece = if s.last() == '#' { "::"@ } else { seq![s.last()] };
        assert(cpp_scoped(s) == prev + piece);
        if cpp_scoped(s).contains('#') {
            let i = choose|i: int| 0 <= i < cpp_scoped(s).len() && cpp_scoped(s)[i] == '#';
            if i < prev.len() {
                assert(prev[i] == '#');
            } else {
                assert(piece[i - prev.len()] == '#');
            }
        }
    }
}

/// Text without `#` is written the C++ way as it is.
pub proof fn lemma_cpp_scoped_plain(s: Seq<char>)
    requires
        !s.contains('#'),
    ensures
        cpp_scoped(s) == s,
    decreases s.len(),
{
    if s.len() > 0 {
        assert(!s.drop_last().contains('#')) by {
            if s.drop_last().contains('#') {
                let i = choose|i: int| 0 <= i < s.drop_last().len() && s.drop_last()[i] == '#';
                assert(s[i] == '#');
            }
        }
        lemma_cpp_scoped_plain(s.drop_last());
        assert(s.last() != '#') by {
            assert(s[s.len() - 1] == s.last());
        }
        assert(s.drop_last().push(s.last()) =~= s);
    }
}

} // verus!
