//! The parser: walks the tokens once, keeping what it has seen in a state, and drives
//! the code generator.
//!
//! The parser performs no input or output: the messages it would print, and the
//! `runtime` blocks it would hand to the elite interpreter, are recorded in `events`
//! in the order in which they arise, for the caller to carry out.
pub mod model;

use vstd::prelude::*;
use crate::ast::{
    GreteaSyntax, GreteaVariableList, GreteaFunctionData, GreteaCompileData, GreteaKeywords,
    GreteaCompileType, GreteaVariableData, keyword_in,
};
use crate::ast::ast_helpers::{to, from_module, make_vector};
use crate::cg::{GreteaCodegen, text_pairs, definition_text, enumeration_text, assembly_text, set_text, import_header, import_path, import_is_stl, structure_text, argument_records, function_text, call_operator, is_call_operator, statement_text, directive_text, call_text};
use crate::log::LogTypes;
use crate::optimize::optimize_helpers::{is_eq_or_uneq, eq_or_uneq_text};
use crate::optimize::optimizer::optimize_undefined;
use crate::read::GreteaFileData;
use crate::strmap::{StrMap, insert_pair, text_less};
use crate::text::{
    views, trim_end, trim, after_last, has_char, starts_with_char, trimmed_ends_with, ends_with_char, before_first, str_eq, push_char, copy_str, starts_with,
    ends_with, trimmed_end, trimmed, split_on, contains_char, lemma_split_nonempty, chars_of,
    string_of_range, copy_strings,
};
use crate::tokenizer::gretea_tokenizer::{is_data, is_end_of_data};
use self::model::{alias_lookup, cond_next, CondStep, setter_next, SetterStep, detect_next, alias_next, AliasStep, file_setting, first_setting, lemma_first_setting, return_text, body_next, first_var, line_operator, compile_next, enum_next, var_next, struct_next, fn_next, FnStep, call_next, CallStep, PVar, PFn, PCall, PStruct, PEnum, PComp, PEvent};

verus! {

/// Something the parser asks its caller to do, in order.
pub enum GreteaParseEvent {
    /// Print a message about the token at a line and column.
    Log { log_type: LogTypes, message: String, token: String, line: u32, column: u32 },
    /// Run a `runtime` block with the elite interpreter.
    Runtime { script: String },
}

/// Why the parser stopped.
#[derive(PartialEq, Eq, Structural, Copy, Clone, Debug)]
pub enum GreteaParseErrorKind {
    /// A function head gives `=` but no return type before its body.
    MissingReturnType,
    /// `[` follows a call that has no argument yet.
    ElementWithoutArgument,
    /// `)` closes more parentheses than a call opened.
    UnbalancedCallParentheses,
    /// A call's argument list would begin with an operator.
    OperatorFirstArgument,
    /// A condition (`if`, `else if`, `#if`, ...) has nothing after its keyword.
    IncompleteCondition,
    /// A condition begins with two comparison characters and `false`.
    UnfoldableCondition,
    /// More tokens than the line and column counters can count.
    TooManyTokens,
}

pub struct GreteaParseError {
    pub kind: GreteaParseErrorKind,
    pub token: String,
    pub line: u32,
    pub column: u32,
}

pub struct GreteaParser {
    pub init_ast: GreteaSyntax,
    pub data_list: GreteaVariableList,
    pub func_data: Vec<GreteaFunctionData>,
    pub raw_data: GreteaFileData,
    pub func_list: Vec<String>,
    pub compile_list: Vec<GreteaCompileData>,
    pub events: Vec<GreteaParseEvent>,
}

/// `a` is a prefix of `b`.
pub open spec fn prefix_of<T>(a: Seq<T>, b: Seq<T>) -> bool {
    a.len() <= b.len() && forall|i: int| 0 <= i < a.len() ==> #[trigger] b[i] == a[i]
}

/// What a parse keeps of the parser it started from: the syntax table and the source
/// are untouched, and the variables, functions, function names and events recorded
/// before are still there, in the same places.
pub open spec fn keeps(p0: GreteaParser, p1: GreteaParser) -> bool {
    &&& p1.init_ast == p0.init_ast
    &&& p1.raw_data == p0.raw_data
    &&& prefix_of(p0.data_list.variable_list@, p1.data_list.variable_list@)
    &&& prefix_of(p0.func_data@, p1.func_data@)
    &&& prefix_of(p0.func_list@, p1.func_list@)
    &&& prefix_of(p0.events@, p1.events@)
}

/// What `elite::ast::ast_helpers::extract_argument` gives back for a token: for a token
/// that neither begins nor ends with `"`, the text before the first `"`; otherwise the
/// first line of the token without its opening `"`, and without the `"` that ends that line.
pub open spec fn extracted_argument(a: Seq<char>) -> Seq<char> {
    if !starts_with_char(a, '"') && !ends_with_char(a, '"') {
        before_first(a, '"')
    } else {
        let s1 = if starts_with_char(a, '"') {
            a.drop_first()
        } else {
            a
        };
        let s2 = before_first(s1, '\n');
        if ends_with_char(s2, '"') {
            s2.drop_last()
        } else {
            s2
        }
    }
}

/// `elite::ast::ast_helpers::extract_argument`: the contract restates, over the characters
/// of the token, what that function's source does (strip the quotes of a quoted argument
/// and keep its first line; keep what precedes a quote otherwise). It never panics: its
/// only `unwrap`s are on a non-empty string and on the first item of a split.
#[verifier::external_body]
fn extract_argument(argument: &String) -> (res: String)
    ensures
        res@ == extracted_argument(argument@),
{
    elite::ast::ast_helpers::extract_argument(argument)
}

/// The part of the parser state that its invariant speaks of.
struct Guarded {
    current_line: u32,
    current_column: u32,
    is_fn_data: bool,
    fn_args: StrMap<String>,
    alias_list: StrMap<String>,
    is_statement: bool,
    statement_data: Vec<String>,
    is_compile_data: bool,
    count_compile_parentheses: u32,
    is_return: bool,
    count_parentheses: u64,
}

/// A variable definition being read.
struct VarState {
    is_var: bool,
    is_mutable: bool,
    var_name: String,
    is_var_data: bool,
    var_data: String,
    is_var_type: bool,
    variable_type: String,
    is_var_data_vector: bool,
    is_var_struct: bool,
    var_struct_init_name: String,
    var_struct_init_data: String,
}

/// A function head being read.
struct FnState {
    is_fn: bool,
    is_fn_name: bool,
    fn_name: String,
    is_generic: bool,
    fn_generic: String,
    is_fn_argument: bool,
    is_fn_return_value: bool,
    is_void: bool,
    argument_name: String,
    argument_value: String,
}

/// A call being read.
struct CallState {
    is_fn_call: bool,
    function_name: String,
    function_args: Vec<String>,
    is_pretty_arg: bool,
    pretty_arg: String,
    is_element: bool,
}

/// A structure definition being read.
struct StructState {
    is_struct: bool,
    struct_name: String,
    is_struct_generic: bool,
    struct_generic: String,
    is_struct_member: bool,
    struct_list: Vec<String>,
    struct_member_name: String,
    struct_member_type: String,
    struct_member_default: String,
    is_default: bool,
    struct_member_immutable: bool,
}

/// An enumeration being read.
struct EnumState {
    is_enum: bool,
    is_enum_type: bool,
    is_enum_data: bool,
    enum_name: String,
    enum_type: String,
    enum_data: String,
}

/// A compile setting being read.
struct CompileState {
    is_compile: bool,
    compile_config: GreteaCompileType,
    compile_type: String,
    compile_data: String,
}

/// Inline assembly, C++ and `runtime` blocks being read.
struct BlockState {
    is_inline_asm: bool,
    asm_block: String,
    is_cpp_linker: bool,
    cpp_block: String,
    is_runtime: bool,
    runtime_block: String,
}

/// Everything the parser remembers between two tokens.
struct ParseState {
    g: Guarded,
    var: VarState,
    func: FnState,
    call: CallState,
    strct: StructState,
    en: EnumState,
    comp: CompileState,
    blk: BlockState,
    is_import: bool,
    is_expandable: bool,
    is_alias_replace: bool,
    is_alias: bool,
    alias_name: String,
    is_alias_name: bool,
    is_type: bool,
    is_preprocessor: bool,
    is_directive: bool,
    is_set: bool,
    is_module: bool,
    is_for: bool,
    is_for_variable: bool,
    is_for_in: bool,
    for_var: String,
    is_while: bool,
    return_val: String,
    is_library_setter: bool,
    is_unsafe: bool,
    is_safe: bool,
    is_vector: bool,
    set_name: String,
    is_line: bool,
    line: String,
    is_get_data: bool,
    get_data: String,
}

impl View for VarState {
    type V = PVar;

    closed spec fn view(&self) -> PVar {
        PVar {
            is_var: self.is_var,
            is_mutable: self.is_mutable,
            var_name: self.var_name@,
            is_var_data: self.is_var_data,
            var_data: self.var_data@,
            is_var_type: self.is_var_type,
            variable_type: self.variable_type@,
            is_var_data_vector: self.is_var_data_vector,
            is_var_struct: self.is_var_struct,
            var_struct_init_name: self.var_struct_init_name@,
            var_struct_init_data: self.var_struct_init_data@,
        }
    }
}

impl View for FnState {
    type V = PFn;

    closed spec fn view(&self) -> PFn {
        PFn {
            is_fn: self.is_fn,
            is_fn_name: self.is_fn_name,
            fn_name: self.fn_name@,
            is_generic: self.is_generic,
            fn_generic: self.fn_generic@,
            is_fn_argument: self.is_fn_argument,
            is_fn_return_value: self.is_fn_return_value,
            is_void: self.is_void,
            argument_name: self.argument_name@,
            argument_value: self.argument_value@,
        }
    }
}

impl View for CallState {
    type V = PCall;

    closed spec fn view(&self) -> PCall {
        PCall {
            is_fn_call: self.is_fn_call,
            function_name: self.function_name@,
            function_args: views(self.function_args@),
            is_pretty_arg: self.is_pretty_arg,
            pretty_arg: self.pretty_arg@,
            is_element: self.is_element,
        }
    }
}

impl View for StructState {
    type V = PStruct;

    closed spec fn view(&self) -> PStruct {
        PStruct {
            is_struct: self.is_struct,
            struct_name: self.struct_name@,
            is_struct_generic: self.is_struct_generic,
            struct_generic: self.struct_generic@,
            is_struct_member: self.is_struct_member,
            struct_list: views(self.struct_list@),
            struct_member_name: self.struct_member_name@,
            struct_member_type: self.struct_member_type@,
            struct_member_default: self.struct_member_default@,
            is_default: self.is_default,
            struct_member_immutable: self.struct_member_immutable,
        }
    }
}

impl View for EnumState {
    type V = PEnum;

    closed spec fn view(&self) -> PEnum {
        PEnum {
            is_enum: self.is_enum,
            is_enum_type: self.is_enum_type,
            is_enum_data: self.is_enum_data,
            enum_name: self.enum_name@,
            enum_type: self.enum_type@,
            enum_data: self.enum_data@,
        }
    }
}

impl View for CompileState {
    type V = PComp;

    closed spec fn view(&self) -> PComp {
        PComp {
            is_compile: self.is_compile,
            compile_config: self.compile_config,
            compile_type: self.compile_type@,
            compile_data: self.compile_data@,
        }
    }
}

/// What a keyword that only sets flags does to the parser state (`n` from `o`): `import`,
/// `fn`, `var`, `assembly`, `cpp`, `runtime`, `alias`, `type`, `compile`, `module`, the
/// preprocessor keyword, `[[`, `]]` and `[]` set (or, for `]]`, clear) their flag; `mut`
/// marks the variable being read as mutable (or else the structure member as not
/// immutable); `safe` turns an unsafe block safe; `struct` opens a structure, or inside a
/// variable's type or data is kept as text; `enum` opens an enumeration outside function
/// bodies; `for` opens a loop, or inside a `runtime` or C++ block is kept as text; `set`
/// after the preprocessor keyword opens a `#define`, or inside a `runtime` block is kept as
/// text; `in` marks the loop's range.
#[verifier::opaque]
spec fn flag_done(o: ParseState, n: ParseState, k: GreteaKeywords, t: Seq<char>) -> bool {
    &&& k == GreteaKeywords::Import ==> n.is_import
    &&& k == GreteaKeywords::Fn ==> n.func.is_fn
    &&& k == GreteaKeywords::Var ==> n.var.is_var
    &&& k == GreteaKeywords::Mut && o.var.is_var ==> n.var.is_mutable
    &&& k == GreteaKeywords::Mut && !o.var.is_var && o.strct.is_struct_member ==> !n.strct.struct_member_immutable
    &&& k == GreteaKeywords::Assembly ==> n.blk.is_inline_asm
    &&& k == GreteaKeywords::Cpp ==> n.blk.is_cpp_linker
    &&& k == GreteaKeywords::Runtime ==> n.blk.is_runtime
    &&& k == GreteaKeywords::Safe && o.is_unsafe ==> n.is_safe && !n.is_unsafe
    &&& k == GreteaKeywords::Safe && !o.is_unsafe ==> n.is_safe == o.is_safe && !n.is_unsafe
    &&& k == GreteaKeywords::Alias ==> n.is_alias
    &&& k == GreteaKeywords::Type ==> n.is_type
    &&& k == GreteaKeywords::Compile ==> n.comp.is_compile
    &&& k == GreteaKeywords::Module ==> n.is_module
    &&& k == GreteaKeywords::Struct && !o.var.is_var ==> n.strct.is_struct
    &&& k == GreteaKeywords::Struct && o.var.is_var ==> n.strct.is_struct == o.strct.is_struct
    &&& k == GreteaKeywords::Struct && o.var.is_var && o.var.is_var_type ==> n.var.variable_type@ == o.var.variable_type@ + t + seq![' '] && n.var.var_data@ == o.var.var_data@
    &&& k == GreteaKeywords::Struct && o.var.is_var && !o.var.is_var_type && o.var.is_var_data ==> n.var.var_data@ == o.var.var_data@ + t + seq![' '] && n.var.variable_type@ == o.var.variable_type@
    &&& k == GreteaKeywords::Struct && !(o.var.is_var && (o.var.is_var_type || o.var.is_var_data)) ==> n.var@ == o.var@
    &&& k == GreteaKeywords::Enum ==> n.en.is_enum == (o.en.is_enum || !o.g.is_fn_data)
    &&& k == GreteaKeywords::For ==> n.is_for == (o.is_for || !o.blk.is_runtime && !o.blk.is_cpp_linker && !o.comp.is_compile)
    &&& k == GreteaKeywords::For && !o.comp.is_compile && o.blk.is_runtime ==> n.blk.runtime_block@ == o.blk.runtime_block@ + "for "@ && n.blk.cpp_block@ == o.blk.cpp_block@
    &&& k == GreteaKeywords::For && !o.comp.is_compile && !o.blk.is_runtime && o.blk.is_cpp_linker ==> n.blk.cpp_block@ == o.blk.cpp_block@ + "for "@ && n.blk.runtime_block@ == o.blk.runtime_block@
    &&& k == GreteaKeywords::For && (o.comp.is_compile || !o.blk.is_runtime && !o.blk.is_cpp_linker) ==> n.blk == o.blk
    &&& k == GreteaKeywords::Preprocessor ==> n.is_preprocessor
    &&& k == GreteaKeywords::SetDirective ==> n.is_set == (o.is_set || (!o.blk.is_runtime || !o.blk.is_cpp_linker) && o.is_preprocessor)
    &&& k == GreteaKeywords::SetDirective && !((!o.blk.is_runtime || !o.blk.is_cpp_linker) && o.is_preprocessor) && o.blk.is_runtime ==> n.blk.runtime_block@ == o.blk.runtime_block@ + "set "@
    &&& k == GreteaKeywords::SetDirective && !(!((!o.blk.is_runtime || !o.blk.is_cpp_linker) && o.is_preprocessor) && o.blk.is_runtime) ==> n.blk == o.blk
    &&& k == GreteaKeywords::In ==> n.is_for_in == (o.is_for_in || o.is_for)
    &&& k == GreteaKeywords::FlagLeft ==> n.is_library_setter
    &&& k == GreteaKeywords::FlagRight ==> !n.is_library_setter
    &&& k == GreteaKeywords::Vector ==> n.is_vector
}

/// `flag_done`, taken keyword by keyword.
proof fn lemma_flag_done(o: ParseState, n: ParseState, k: GreteaKeywords, t: Seq<char>)
    requires
        match k {
            GreteaKeywords::Import => (n.is_import),
            GreteaKeywords::Fn => (n.func.is_fn),
            GreteaKeywords::Var => (n.var.is_var),
            GreteaKeywords::Mut => (o.var.is_var ==> n.var.is_mutable) && (!o.var.is_var && o.strct.is_struct_member ==> !n.strct.struct_member_immutable),
            GreteaKeywords::Assembly => (n.blk.is_inline_asm),
            GreteaKeywords::Cpp => (n.blk.is_cpp_linker),
            GreteaKeywords::Runtime => (n.blk.is_runtime),
            GreteaKeywords::Safe => (o.is_unsafe ==> n.is_safe && !n.is_unsafe) && (!o.is_unsafe ==> n.is_safe == o.is_safe && !n.is_unsafe),
            GreteaKeywords::Alias => (n.is_alias),
            GreteaKeywords::Type => (n.is_type),
            GreteaKeywords::Compile => (n.comp.is_compile),
            GreteaKeywords::Module => (n.is_module),
            GreteaKeywords::Struct => (!o.var.is_var ==> n.strct.is_struct) && (o.var.is_var ==> n.strct.is_struct == o.strct.is_struct) && (o.var.is_var && o.var.is_var_type ==> n.var.variable_type@ == o.var.variable_type@ + t + seq![' '] && n.var.var_data@ == o.var.var_data@) && (o.var.is_var && !o.var.is_var_type && o.var.is_var_data ==> n.var.var_data@ == o.var.var_data@ + t + seq![' '] && n.var.variable_type@ == o.var.variable_type@) && (!(o.var.is_var && (o.var.is_var_type || o.var.is_var_data)) ==> n.var@ == o.var@),
            GreteaKeywords::Enum => (n.en.is_enum == (o.en.is_enum || !o.g.is_fn_data)),
            GreteaKeywords::For => (n.is_for == (o.is_for || !o.blk.is_runtime && !o.blk.is_cpp_linker && !o.comp.is_compile)) && (!o.comp.is_compile && o.blk.is_runtime ==> n.blk.runtime_block@ == o.blk.runtime_block@ + "for "@ && n.blk.cpp_block@ == o.blk.cpp_block@) && (!o.comp.is_compile && !o.blk.is_runtime && o.blk.is_cpp_linker ==> n.blk.cpp_block@ == o.blk.cpp_block@ + "for "@ && n.blk.runtime_block@ == o.blk.runtime_block@) && ((o.comp.is_compile || !o.blk.is_runtime && !o.blk.is_cpp_linker) ==> n.blk == o.blk),
            GreteaKeywords::Preprocessor => (n.is_preprocessor),
            GreteaKeywords::SetDirective => (n.is_set == (o.is_set || (!o.blk.is_runtime || !o.blk.is_cpp_linker) && o.is_preprocessor)) && (!((!o.blk.is_runtime || !o.blk.is_cpp_linker) && o.is_preprocessor) && o.blk.is_runtime ==> n.blk.runtime_block@ == o.blk.runtime_block@ + "set "@) && (!(!((!o.blk.is_runtime || !o.blk.is_cpp_linker) && o.is_preprocessor) && o.blk.is_runtime) ==> n.blk == o.blk),
            GreteaKeywords::In => (n.is_for_in == (o.is_for_in || o.is_for)),
            GreteaKeywords::FlagLeft => (n.is_library_setter),
            GreteaKeywords::FlagRight => (!n.is_library_setter),
            GreteaKeywords::Vector => (n.is_vector),
            _ => true,
        },
    ensures
        flag_done(o, n, k, t),
{
    reveal(flag_done);
}

/// What `}` does (state `n` from `o`, parser `p1` from `p0`, generated code `c1` from
/// `c0`), innermost construct first: inside a directive nothing; in compile data it closes
/// one level, and the last files the setting; it ends a structure (writing and recording
/// its last member, if it has one, and `};`); it writes the inline assembly; it ends a
/// safe block (back to unsafe) or an unsafe block; it writes the enumeration; it ends a
/// structure or vector value, writing and recording the variable; outside C++ and
/// `runtime` blocks it writes `}`; it writes the C++ block; it hands the `runtime` block on
/// as an event. Variables are recorded, settings filed and events added nowhere else.
#[verifier::opaque]
spec fn curly_done(o: ParseState, n: ParseState, p0: GreteaParser, p1: GreteaParser, c0: Seq<char>, c1: Seq<char>) -> bool {
    let v0 = p0.data_list.variable_list@;
    let v1 = p1.data_list.variable_list@;
    let same_vars = v1 == v0;
    let same_events = p1.events@ == p0.events@;
    let same_settings = p1.compile_list@ == p0.compile_list@;
    if o.is_directive {
        c1 == c0 && same_vars && same_events && same_settings
    } else if o.g.is_compile_data {
        &&& c1 == c0 && same_vars && same_events
        &&& n.g.count_compile_parentheses == o.g.count_compile_parentheses - 1
        &&& o.g.count_compile_parentheses == 1 ==> !n.comp.is_compile && setting_views(p1.compile_list@) == file_setting(
            setting_views(p0.compile_list@),
            o.comp@.compile_config,
            trim_end(o.comp@.compile_type),
            o.comp@.compile_data,
        )
        &&& o.g.count_compile_parentheses != 1 ==> same_settings && n.comp@.compile_data == o.comp@.compile_data + seq!['}']
    } else if o.strct.is_struct && o.strct.is_struct_member {
        &&& same_events && same_settings
        &&& o.strct.struct_member_name@.len() > 0 ==> {
            &&& recorded(v0, v1, o.strct.struct_member_name@, o.strct.struct_member_type@, o.strct.struct_member_default@)
            &&& c1 == c0 + definition_text(o.strct.struct_member_default@, o.strct.struct_member_type@,
                o.strct.struct_member_name@, !o.strct.struct_member_immutable) + "};"@ + seq!['\n']
            &&& !n.strct.is_struct && !n.strct.is_struct_member
        }
        &&& o.strct.struct_member_name@.len() == 0 ==> same_vars && c1 == c0 + "};"@ + seq!['\n']
    } else if o.blk.is_inline_asm {
        &&& c1 == c0 + assembly_text(o.blk.asm_block@) && same_vars && same_events && same_settings
        &&& !n.blk.is_inline_asm && n.blk.asm_block@.len() == 0
    } else if o.is_safe {
        c1 == c0 && same_vars && same_events && same_settings && !n.is_safe && n.is_unsafe
    } else if o.is_unsafe {
        c1 == c0 && same_vars && same_events && same_settings && !n.is_unsafe
    } else if o.en.is_enum {
        &&& c1 == c0 + enumeration_text(o.en.enum_name@, o.en.enum_type@, o.en.enum_data@)
        &&& same_vars && same_events && same_settings && !n.en.is_enum
    } else if o.var.is_var_struct || o.var.is_var_data_vector {
        &&& c1 == c0 + definition_text(o.var.var_data@ + seq!['}'], o.var.variable_type@, o.var.var_name@, o.var.is_mutable)
        &&& recorded(v0, v1, o.var.var_name@, o.var.variable_type@, o.var.var_data@)
        &&& same_events && same_settings && !n.var.is_var
    } else if !o.blk.is_cpp_linker && !o.blk.is_runtime {
        c1 == c0 + p0.init_ast.ast_curly_right_bracket@ + seq!['\n'] && same_vars && same_events && same_settings
    } else if o.blk.is_cpp_linker {
        &&& c1 == c0 + o.blk.cpp_block@ + seq!['\n'] && same_vars && same_events && same_settings
        &&& !n.blk.is_cpp_linker && n.blk.cpp_block@.len() == 0
    } else {
        &&& c1 == c0 && same_vars && same_settings
        &&& event_views(p1.events@) == event_views(p0.events@).push(PEvent::Runtime { script: o.blk.runtime_block@ })
        &&& !n.blk.is_runtime && n.blk.runtime_block@.len() == 0
    }
}

/// What a token with its keyword `k` does (state `n` from `o`, parser `p1` from `p0`, code
/// generator `c1` from `c0`, result `res`): a keyword that only sets flags does what
/// `flag_done` says; `if`, `else`, `while`, `[` and `]` go to the condition or element being
/// read (see `cond_next`); `unsafe` ends a variable whose value is being read (writing and
/// recording it), or else opens an unsafe block; `continue` and `break` are written; `}`
/// does what `curly_done` says; the end of a directive writes `#endif` inside a directive.
/// Each of these succeeds but a condition or element that `cond_next` refuses. Any other
/// keyword goes to the construct being read (see `default_done`).
#[verifier::opaque]
spec fn keyword_done(
    o: ParseState,
    n: ParseState,
    p0: GreteaParser,
    p1: GreteaParser,
    c0: GreteaCodegen,
    c1: GreteaCodegen,
    k: GreteaKeywords,
    t: Seq<char>,
    res: Result<(), GreteaParseError>,
) -> bool {
    let g0 = c0.generated@;
    let g1 = c1.generated@;
    match k {
        GreteaKeywords::Import | GreteaKeywords::Fn | GreteaKeywords::Var | GreteaKeywords::Mut | GreteaKeywords::Assembly
        | GreteaKeywords::Cpp | GreteaKeywords::Runtime | GreteaKeywords::Safe | GreteaKeywords::Alias | GreteaKeywords::Type
        | GreteaKeywords::Compile | GreteaKeywords::Module | GreteaKeywords::Struct | GreteaKeywords::Enum | GreteaKeywords::For
        | GreteaKeywords::Preprocessor | GreteaKeywords::SetDirective | GreteaKeywords::In | GreteaKeywords::FlagLeft
        | GreteaKeywords::FlagRight | GreteaKeywords::Vector => {
            flag_done(o, n, k, t) && res is Ok && p1 == p0 && c1 == c0
        },
        GreteaKeywords::If | GreteaKeywords::Else | GreteaKeywords::While | GreteaKeywords::LeftSqBracket
        | GreteaKeywords::RightSqBracket => {
            let r = cond_next(k, o.g.is_statement, views(o.g.statement_data@), o.is_while, o.is_line, o.call@, t);
            &&& (res is Err) == r.fails
            &&& p1 == p0
            &&& res is Ok ==> {
                &&& n.g.is_statement == r.is_statement
                &&& views(n.g.statement_data@) == r.statement_data
                &&& n.is_while == r.is_while
                &&& n.call@ == r.call
                &&& g1 == g0 + r.text
            }
        },
        GreteaKeywords::Unsafe => res is Ok && if o.var.is_var && o.var.is_var_data {
            &&& g1 == g0 + definition_text(o.var.var_data@, o.var.variable_type@, o.var.var_name@, o.var.is_mutable)
            &&& recorded(p0.data_list.variable_list@, p1.data_list.variable_list@, o.var.var_name@, o.var.variable_type@, o.var.var_data@)
            &&& !n.var.is_var && !n.var.is_mutable && n.var.var_data@.len() == 0
        } else {
            n.is_unsafe && p1 == p0 && c1 == c0
        },
        GreteaKeywords::Continue => res is Ok && p1 == p0 && g1 == g0 + "continue;\n"@,
        GreteaKeywords::Break => res is Ok && p1 == p0 && g1 == g0 + "break;\n"@,
        GreteaKeywords::RightCurlyBracket => res is Ok && curly_done(o, n, p0, p1, g0, g1),
        GreteaKeywords::DirectiveEnd => res is Ok && p1 == p0 && if o.is_directive {
            g1 == g0 + seq!['#'] + "endif"@ + seq!['\n'] && !n.is_directive
        } else {
            c1 == c0
        },
        _ => default_done(o, n, p0, p1, c0, c1, t, res),
    }
}

/// A condition or element keyword, taken as `cond_next` says, is what `keyword_done` says.
proof fn lemma_keyword_cond(
    o: ParseState,
    n: ParseState,
    p: GreteaParser,
    c0: GreteaCodegen,
    c1: GreteaCodegen,
    k: GreteaKeywords,
    t: Seq<char>,
    res: Result<(), GreteaParseError>,
)
    requires
        k == GreteaKeywords::If || k == GreteaKeywords::Else || k == GreteaKeywords::While
            || k == GreteaKeywords::LeftSqBracket || k == GreteaKeywords::RightSqBracket,
        ({
            let r = cond_next(k, o.g.is_statement, views(o.g.statement_data@), o.is_while, o.is_line, o.call@, t);
            &&& (res is Err) == r.fails
            &&& res is Ok ==> {
                &&& n.g.is_statement == r.is_statement
                &&& views(n.g.statement_data@) == r.statement_data
                &&& n.is_while == r.is_while
                &&& n.call@ == r.call
                &&& c1.generated@ == c0.generated@ + r.text
            }
        }),
    ensures
        keyword_done(o, n, p, p, c0, c1, k, t, res),
{
    reveal(keyword_done);
}

/// The token that a construct is handed by `on_default`: after `[]` in a function's
/// arguments or a variable, the token made a vector type.
spec fn default_token(o: ParseState, t: Seq<char>) -> Seq<char> {
    if !o.is_line && !o.comp.is_compile && o.is_vector && (o.func.is_fn_argument || o.var.is_var) {
        "std::vector<"@ + t + "> "@
    } else {
        t
    }
}

/// What a token without a keyword of its own does (state `n` from `o`, parser `p1` from
/// `p0`, code generator `c1` from `c0`, result `res`): outside a line of a function body it
/// goes, in this order, to a compile setting, a vector type, a library setter, the `{` of
/// a safe or unsafe block (taken up), an enumeration, a condition, a structure, a module,
/// a `#define`, a call, an import, a function head, a `{` that opens a value or a block, a
/// variable, a loop head, a C++ block, inline assembly, an alias, a `runtime` block, and a
/// call or element that it starts; what none of these takes goes to the function body
/// being read. Only a condition, a call and a function head can fail.
#[verifier::opaque]
spec fn default_done(
    o: ParseState,
    n: ParseState,
    p0: GreteaParser,
    p1: GreteaParser,
    c0: GreteaCodegen,
    c1: GreteaCodegen,
    t: Seq<char>,
    res: Result<(), GreteaParseError>,
) -> bool {
    let g0 = c0.generated@;
    let g1 = c1.generated@;
    let v0 = p0.data_list.variable_list@;
    let v1 = p1.data_list.variable_list@;
    let tk = default_token(o, t);
    let d = detect_next(o.call@, o.is_unsafe, views(p0.func_list@), tk);
    let body = if o.g.is_fn_data {
        &&& res is Ok
        &&& body_read(o.g.is_return, o.return_val@, o.is_line, o.line@, o.is_unsafe, v0, tk, n.g.is_return,
            n.return_val@, n.is_line, n.line@, g0, g1)
    } else {
        res is Ok && g1 == g0
    };
    if o.is_line {
        body
    } else if o.comp.is_compile {
        &&& res is Ok && g1 == g0
        &&& (n.comp@, n.g.is_compile_data, n.g.count_compile_parentheses as int) == compile_next(o.comp@,
            o.g.is_compile_data, o.g.count_compile_parentheses as int, t)
    } else if o.is_vector && !(o.func.is_fn_argument || o.var.is_var) {
        res is Ok && !n.is_vector && g1 == g0 + "std::vector<"@ + t + seq!['>']
    } else if o.is_library_setter {
        let r = setter_next(o.strct.is_default, o.strct.struct_member_default@, c0.optimize, tk);
        &&& res is Ok
        &&& n.strct.is_default == r.is_default && n.strct.struct_member_default@ == r.member_default
        &&& c1.optimize == r.optimize && g1 == g0 + r.text
        &&& event_views(p1.events@) == event_views(p0.events@) + if r.unknown {
            unknown_flag_events(tk, o.g.current_line as int, o.g.current_column as int)
        } else {
            seq![]
        }
    } else if (o.is_unsafe || o.is_safe) && tk == "{"@ {
        res is Ok && g1 == g0
    } else if o.en.is_enum {
        res is Ok && g1 == g0 && n.en@ == enum_next(o.en@, tk)
    } else if o.g.is_statement {
        let sd = views(o.g.statement_data@);
        let short = sd.last() != "else"@ && sd.len() < 2;
        if tk != "{"@ {
            res is Ok && g1 == g0 && n.g.is_statement && views(n.g.statement_data@) == sd.push(tk)
        } else if o.is_preprocessor && short || !o.is_preprocessor && !o.is_while && short {
            res matches Err(e) && e.kind == GreteaParseErrorKind::IncompleteCondition
        } else if !o.is_preprocessor && c0.optimize && optimize_undefined(sd) {
            res matches Err(e) && e.kind == GreteaParseErrorKind::UnfoldableCondition
        } else {
            &&& res is Ok && !n.g.is_statement && n.g.statement_data@.len() == 0
            &&& g1 == g0 + if o.is_preprocessor {
                directive_text(sd)
            } else {
                statement_text(sd, o.is_while, c0.optimize)
            }
        }
    } else if o.strct.is_struct {
        res is Ok && struct_read(o.strct@, tk, n.strct@, g0, g1, v0, v1)
    } else if o.is_module {
        res is Ok && !n.is_module && g1 == g0 + "namespace "@ + tk
    } else if o.is_set {
        res is Ok && if tk == "="@ {
            g1 == g0
        } else if o.set_name@.len() > 0 {
            g1 == g0 + set_text(tk, o.set_name@) && !n.is_set && !n.is_preprocessor && n.set_name@.len() == 0
        } else {
            g1 == g0 && n.set_name@ == tk
        }
    } else if o.call.is_fn_call {
        call_read(o.call@, o.g.count_parentheses as int, o.is_expandable, views(p0.func_list@), tk, n.call@,
            n.g.count_parentheses as int, n.is_expandable, g0, g1, failure(res))
    } else if o.is_import {
        &&& res is Ok && !n.is_import
        &&& g1 == g0 + seq!['#'] + "include"@ + seq!['"'] + import_header(tk) + ".hpp"@ + seq!['"', '\n']
        &&& c1.sources@ == c0.sources@.insert(import_path(tk), import_is_stl(tk))
    } else if o.func.is_fn {
        &&& (res is Err) == (o.func.is_fn_name && o.func.is_fn_argument && !o.func.is_generic && o.func.is_fn_return_value
            && tk == "{"@)
        &&& fn_read(o.func@, text_pairs(&o.g.fn_args), o.g.is_fn_data, o.is_expandable, tk, n.func@,
            text_pairs(&n.g.fn_args), n.g.is_fn_data, n.is_expandable, g0, g1, p0.func_data@, p1.func_data@,
            views(p0.func_list@), views(p1.func_list@), res is Err)
    } else if tk == "{"@ {
        &&& res is Ok
        &&& o.var.is_var_struct ==> g1 == g0 && n.var.var_data@ == o.var.var_data@ + "{\n"@
        &&& !o.var.is_var_struct && o.var.is_var ==> g1 == g0 && n.var.is_var_data_vector
            && n.var.var_data@ == o.var.var_data@ + "{\n"@
        &&& !o.var.is_var_struct && !o.var.is_var && !o.blk.is_inline_asm && !o.blk.is_cpp_linker
            && !o.blk.is_runtime ==> g1 == g0 + p0.init_ast.ast_curly_left_bracket@ + seq!['\n']
    } else if o.var.is_var {
        res is Ok && var_read(o.var@, views(o.strct.struct_list@), tk, n.var@, g0, g1, v0, v1)
    } else if o.is_for {
        &&& res is Ok
        &&& tk == "_"@ ==> g1 == g0 + "while(1)"@ && !n.is_for
        &&& tk != "_"@ && o.is_for_variable && o.is_for_in ==> g1 == g0 + "for(auto "@ + o.for_var@ + " : "@ + tk
            + seq![')'] && !n.is_for && !n.is_for_variable && !n.is_for_in && n.for_var@.len() == 0
        &&& tk != "_"@ && !(o.is_for_variable && o.is_for_in) ==> g1 == g0 && n.for_var@ == tk && n.is_for_variable
    } else if o.blk.is_cpp_linker {
        &&& res is Ok && g1 == g0
        &&& n.blk.cpp_block@ == o.blk.cpp_block@ + if trim_end(tk) == "\\"@ {
            seq!['\n']
        } else {
            tk
        }
    } else if o.blk.is_inline_asm {
        &&& res is Ok && g1 == g0
        &&& n.blk.asm_block@ == o.blk.asm_block@ + if trim_end(tk) == "\\"@ {
            seq!['\n']
        } else if trim_end(tk) == "%"@ {
            seq!['%']
        } else {
            tk + seq![' ']
        }
    } else if o.is_alias {
        let r = alias_next(o.is_alias_name, o.alias_name@, o.is_preprocessor, alias_views(&o.g.alias_list), tk);
        &&& res is Ok && g1 == g0 + r.text
        &&& n.is_alias_name == r.is_alias_name && n.alias_name@ == r.alias_name
        &&& n.is_preprocessor == r.is_preprocessor && n.is_alias == !r.ends
        &&& alias_views(&n.g.alias_list) == r.aliases
    } else if o.blk.is_runtime {
        &&& res is Ok && g1 == g0
        &&& n.blk.runtime_block@ == o.blk.runtime_block@ + if trim_end(tk) == "\\"@ {
            seq!['\n']
        } else {
            tk + seq![' ']
        }
    } else if d.taken {
        res is Ok && g1 == g0 && n.call@ == d.call
    } else {
        n.call@ == d.call && body
    }
}

/// The keywords that `on_keyword` hands to the construct being read.
spec fn default_keyword(k: GreteaKeywords) -> bool {
    match k {
        GreteaKeywords::Import | GreteaKeywords::Fn | GreteaKeywords::Var | GreteaKeywords::Mut | GreteaKeywords::Assembly
        | GreteaKeywords::Cpp | GreteaKeywords::Runtime | GreteaKeywords::Safe | GreteaKeywords::Alias | GreteaKeywords::Type
        | GreteaKeywords::Compile | GreteaKeywords::Module | GreteaKeywords::Struct | GreteaKeywords::Enum | GreteaKeywords::For
        | GreteaKeywords::Preprocessor | GreteaKeywords::SetDirective | GreteaKeywords::In | GreteaKeywords::FlagLeft
        | GreteaKeywords::FlagRight | GreteaKeywords::Vector | GreteaKeywords::If | GreteaKeywords::Else | GreteaKeywords::While
        | GreteaKeywords::LeftSqBracket | GreteaKeywords::RightSqBracket | GreteaKeywords::Unsafe | GreteaKeywords::Continue
        | GreteaKeywords::Break | GreteaKeywords::RightCurlyBracket | GreteaKeywords::DirectiveEnd => false,
        _ => true,
    }
}

/// A keyword handed to the construct being read does what `default_done` says.
proof fn lemma_keyword_default(
    o: ParseState,
    n: ParseState,
    p0: GreteaParser,
    p1: GreteaParser,
    c0: GreteaCodegen,
    c1: GreteaCodegen,
    k: GreteaKeywords,
    t: Seq<char>,
    res: Result<(), GreteaParseError>,
)
    requires
        default_keyword(k),
        default_done(o, n, p0, p1, c0, c1, t, res),
    ensures
        keyword_done(o, n, p0, p1, c0, c1, k, t, res),
{
    reveal(keyword_done);
}

/// The tables the parser relies on: its keyword table and the imported sources.
pub open spec fn tables(p: &GreteaParser, cg: &GreteaCodegen) -> bool {
    &&& p.init_ast.wf()
    &&& cg.wf()
}

/// What an error says of the token it is reported at: a condition or a function head
/// fails at `{`, a call at `)`, an element access at a token that the keyword table
/// reads as `[`.
#[verifier::opaque]
pub open spec fn error_fits(e: GreteaParseError, table: Map<Seq<char>, GreteaKeywords>) -> bool {
    match e.kind {
        GreteaParseErrorKind::IncompleteCondition | GreteaParseErrorKind::UnfoldableCondition
        | GreteaParseErrorKind::MissingReturnType => e.token@ == "{"@,
        GreteaParseErrorKind::UnbalancedCallParentheses | GreteaParseErrorKind::OperatorFirstArgument => e.token@
            == ")"@,
        GreteaParseErrorKind::ElementWithoutArgument => keyword_in(table, e.token@) == GreteaKeywords::LeftSqBracket,
        GreteaParseErrorKind::TooManyTokens => false,
    }
}

/// The three shapes of an error that `error_fits` admits.
proof fn lemma_error_fits(r: Result<(), GreteaParseError>, table: Map<Seq<char>, GreteaKeywords>)
    requires
        r matches Err(e) ==> {
            ||| e.token@ == "{"@ && (e.kind == GreteaParseErrorKind::IncompleteCondition || e.kind
                == GreteaParseErrorKind::UnfoldableCondition || e.kind == GreteaParseErrorKind::MissingReturnType)
            ||| e.token@ == ")"@ && (e.kind == GreteaParseErrorKind::UnbalancedCallParentheses || e.kind
                == GreteaParseErrorKind::OperatorFirstArgument)
            ||| keyword_in(table, e.token@) == GreteaKeywords::LeftSqBracket && e.kind
                == GreteaParseErrorKind::ElementWithoutArgument
        },
    ensures
        r matches Err(e) ==> error_fits(e, table),
{
    reveal(error_fits);
}

/// The keyword table reads the token `t` as `k`, or `k` is `Undefined`.
#[verifier::opaque]
spec fn reads_as(table: Map<Seq<char>, GreteaKeywords>, t: Seq<char>, k: GreteaKeywords) -> bool {
    k == keyword_in(table, t) || k == GreteaKeywords::Undefined
}

/// The compile settings as (kind, name, text).
pub open spec fn setting_views(c: Seq<GreteaCompileData>) -> Seq<(GreteaCompileType, Seq<char>, Seq<char>)> {
    c.map_values(|x: GreteaCompileData| (x.__type, x.__name@, x.__data@))
}

/// The error names the line and column that the state has reached.
spec fn reported_at(e: GreteaParseError, g: Guarded) -> bool {
    e.line == g.current_line && e.column == g.current_column
}

/// Two states stand at the same line and column.
spec fn same_place(g0: Guarded, g1: Guarded) -> bool {
    g0.current_line == g1.current_line && g0.current_column == g1.current_column
}

impl Guarded {
    /// What holds of the guarded state after `n` tokens, while `fdl` functions are recorded.
    spec fn ok(&self, n: int, fdl: int) -> bool {
        &&& 0 <= n < u32::MAX
        &&& self.fn_args.wf()
        &&& self.alias_list.wf()
        &&& self.current_line <= n + 1
        &&& self.current_column <= n
        &&& self.count_compile_parentheses <= n
        &&& self.count_parentheses <= n
        &&& (self.is_compile_data <==> self.count_compile_parentheses >= 1)
        &&& (self.is_statement <==> self.statement_data@.len() >= 1)
        &&& (self.is_fn_data ==> fdl >= 1)
        &&& (self.is_return ==> self.is_fn_data)
    }
}

impl ParseState {
    /// What holds between any two tokens, after `n` tokens.
    spec fn inv(&self, p: &GreteaParser, cg: &GreteaCodegen, n: int) -> bool {
        &&& self.g.ok(n, p.func_data@.len() as int)
        &&& tables(p, cg)
    }

    fn new() -> (st: Self)
        ensures
            st.g.ok(0, 0),
            st.g.fn_args.wf(),
            st.g.alias_list.wf(),
            st.g.current_line == 1,
            st.g.current_column == 0,
            st.g.count_compile_parentheses == 0,
            st.g.count_parentheses == 0,
            !st.g.is_compile_data,
            !st.g.is_statement,
            st.g.statement_data@.len() == 0,
            !st.g.is_fn_data,
            !st.g.is_return,
    {
        ParseState {
            g: Guarded {
                current_line: 1,
                current_column: 0,
                is_fn_data: false,
                fn_args: StrMap::new(),
                alias_list: StrMap::new(),
                is_statement: false,
                statement_data: Vec::new(),
                is_compile_data: false,
                count_compile_parentheses: 0,
                is_return: false,
                count_parentheses: 0,
            },
            var: VarState {
                is_var: false,
                is_mutable: false,
                var_name: String::new(),
                is_var_data: false,
                var_data: String::new(),
                is_var_type: false,
                variable_type: String::new(),
                is_var_data_vector: false,
                is_var_struct: false,
                var_struct_init_name: String::new(),
                var_struct_init_data: String::new(),
            },
            func: FnState {
                is_fn: false,
                is_fn_name: false,
                fn_name: String::new(),
                is_generic: false,
                fn_generic: String::new(),
                is_fn_argument: false,
                is_fn_return_value: false,
                is_void: false,
                argument_name: String::new(),
                argument_value: String::new(),
            },
            call: CallState {
                is_fn_call: false,
                function_name: String::new(),
                function_args: Vec::new(),
                is_pretty_arg: false,
                pretty_arg: String::new(),
                is_element: false,
            },
            strct: StructState {
                is_struct: false,
                struct_name: String::new(),
                is_struct_generic: false,
                struct_generic: String::new(),
                is_struct_member: false,
                struct_list: Vec::new(),
                struct_member_name: String::new(),
                struct_member_type: String::new(),
                struct_member_default: String::new(),
                is_default: false,
                struct_member_immutable: true,
            },
            en: EnumState {
                is_enum: false,
                is_enum_type: false,
                is_enum_data: false,
                enum_name: String::new(),
                enum_type: String::new(),
                enum_data: String::new(),
            },
            comp: CompileState {
                is_compile: false,
                compile_config: GreteaCompileType::Undefined,
                compile_type: String::new(),
                compile_data: String::new(),
            },
            blk: BlockState {
                is_inline_asm: false,
                asm_block: String::new(),
                is_cpp_linker: false,
                cpp_block: String::new(),
                is_runtime: false,
                runtime_block: String::new(),
            },
            is_import: false,
            is_expandable: false,
            is_alias_replace: false,
            is_alias: false,
            alias_name: String::new(),
            is_alias_name: false,
            is_type: false,
            is_preprocessor: false,
            is_directive: false,
            is_set: false,
            is_module: false,
            is_for: false,
            is_for_variable: false,
            is_for_in: false,
            for_var: String::new(),
            is_while: false,
            return_val: String::new(),
            is_library_setter: false,
            is_unsafe: false,
            is_safe: false,
            is_vector: false,
            set_name: String::new(),
            is_line: false,
            line: String::new(),
            is_get_data: false,
            get_data: String::new(),
        }
    }

    fn error(&self, kind: GreteaParseErrorKind, token: &String) -> (e: GreteaParseError)
        ensures
            e.kind == kind,
            reported_at(e, self.g),
            e.token@ == token@,
    {
        GreteaParseError {
            kind,
            token: token.clone(),
            line: self.g.current_line,
            column: self.g.current_column,
        }
    }
}

fn parse_error(line: u32, column: u32, kind: GreteaParseErrorKind, token: &String) -> (e: GreteaParseError)
    ensures
        e.kind == kind,
        e.line == line,
        e.column == column,
        e.token@ == token@,
{
    GreteaParseError { kind, token: token.clone(), line, column }
}

/// `keeps` is transitive.
proof fn lemma_keeps_trans(p0: GreteaParser, p1: GreteaParser, p2: GreteaParser)
    requires
        keeps(p0, p1),
        keeps(p1, p2),
    ensures
        keeps(p0, p2),
{
    assert forall|i: int| 0 <= i < p0.func_list@.len() implies #[trigger] p2.func_list@[i] == p0.func_list@[i] by {
        assert(p1.func_list@[i] == p0.func_list@[i]);
    }
    assert forall|i: int| 0 <= i < p0.func_data@.len() implies #[trigger] p2.func_data@[i] == p0.func_data@[i] by {
        assert(p1.func_data@[i] == p0.func_data@[i]);
    }
    assert forall|i: int| 0 <= i < p0.events@.len() implies #[trigger] p2.events@[i] == p0.events@[i] by {
        assert(p1.events@[i] == p0.events@[i]);
    }
    assert forall|i: int| 0 <= i < p0.data_list.variable_list@.len() implies #[trigger] p2.data_list.variable_list@[i]
        == p0.data_list.variable_list@[i] by {
        assert(p1.data_list.variable_list@[i] == p0.data_list.variable_list@[i]);
    }
}

/// Is the token exactly `s`?
fn tok_is(t: &String, s: &str) -> (b: bool)
    ensures
        b == (t@ == s@),
{
    str_eq(t.as_str(), s)
}

/// `after` is `before` with the variable `(name, var_type, data)` recorded at its end.
pub open spec fn recorded(
    before: Seq<GreteaVariableData>,
    after: Seq<GreteaVariableData>,
    name: Seq<char>,
    var_type: Seq<char>,
    data: Seq<char>,
) -> bool {
    &&& after.len() == before.len() + 1
    &&& after.drop_last() == before
    &&& after.last().__keyword_type == GreteaKeywords::Var
    &&& after.last().__name@ == name
    &&& after.last().__type@ == var_type
    &&& after.last().__data@ == data
}

/// Records a variable.
fn push_var(vars: &mut Vec<GreteaVariableData>, name: &String, var_type: &String, data: &String)
    ensures
        prefix_of(old(vars)@, final(vars)@),
        recorded(old(vars)@, final(vars)@, name@, var_type@, data@),
{
    vars.push(
        GreteaVariableData {
            __keyword_type: GreteaKeywords::Var,
            __name: name.clone(),
            __type: var_type.clone(),
            __data: data.clone(),
        },
    );
    assert(vars@.drop_last() =~= old(vars)@);
}

impl ParseState {
    /// A token with its keyword: handed to the handler of that keyword (see `keyword_done`).
    #[verifier::spinoff_prover]
    #[verifier::rlimit(100)]
    fn on_keyword(
        &mut self,
        p: &mut GreteaParser,
        cg: &mut GreteaCodegen,
        matched_type: GreteaKeywords,
        token: String,
        Ghost(n): Ghost<int>,
    ) -> (res: Result<(), GreteaParseError>)
        requires
            old(self).inv(old(p), old(cg), n),
            old(self).g.count_compile_parentheses < n,
            old(self).g.count_parentheses < n,
            reads_as(old(p).init_ast.syntax_list@, token@, matched_type),
        ensures
            res is Ok ==> final(self).inv(final(p), final(cg), n),
            same_place(old(self).g, final(self).g),
            res matches Err(e) ==> reported_at(e, old(self).g),
            keeps(*old(p), *final(p)),
            res is Err ==> final(p).compile_list == old(p).compile_list,
            res matches Err(e) ==> error_fits(e, old(p).init_ast.syntax_list@),
            keyword_done(*old(self), *final(self), *old(p), *final(p), *old(cg), *final(cg), matched_type, token@, res),
    {
        match matched_type {
            GreteaKeywords::Import | GreteaKeywords::Fn | GreteaKeywords::Var | GreteaKeywords::Mut | GreteaKeywords::Assembly | GreteaKeywords::Cpp | GreteaKeywords::Runtime | GreteaKeywords::Safe | GreteaKeywords::Alias | GreteaKeywords::Type | GreteaKeywords::Compile | GreteaKeywords::Module | GreteaKeywords::Struct | GreteaKeywords::Enum | GreteaKeywords::For | GreteaKeywords::Preprocessor | GreteaKeywords::SetDirective | GreteaKeywords::In | GreteaKeywords::FlagLeft | GreteaKeywords::FlagRight | GreteaKeywords::Vector => {
                self.on_flag(matched_type, &token);
                proof {
                    reveal(keyword_done);
                }
            },
            GreteaKeywords::If | GreteaKeywords::Else | GreteaKeywords::While | GreteaKeywords::LeftSqBracket
            | GreteaKeywords::RightSqBracket => {
                return self.on_cond(p, cg, matched_type, token, Ghost(n));
            },
            GreteaKeywords::Unsafe => {
                if self.var.is_var && self.var.is_var_data {
                    cg.variable_definition(&self.var.var_data, &self.var.variable_type, &self.var.var_name, self.var.is_mutable);
                    push_var(&mut p.data_list.variable_list, &self.var.var_name, &self.var.variable_type, &self.var.var_data);
                    self.var.is_var = false;
                    self.var.is_var_type = false;
                    self.var.is_var_data = false;
                    self.var.is_mutable = false;
                    self.var.var_data = String::new();
                    self.var.variable_type = String::new();
                    self.var.var_name = String::new();
                    proof {
                        reveal(keyword_done);
                    }
                } else {
                    self.is_unsafe = true;
                    proof {
                        reveal(keyword_done);
                    }
                }
            },
            GreteaKeywords::Continue => {
                cg.for_continue();
                proof {
                    reveal(keyword_done);
                }
            },
            GreteaKeywords::Break => {
                cg.for_break();
                proof {
                    reveal(keyword_done);
                }
            },
            GreteaKeywords::RightCurlyBracket => {
                self.on_right_curly(p, cg, Ghost(n));
                proof {
                    reveal(keyword_done);
                }
            },
            GreteaKeywords::DirectiveEnd => {
                if self.is_directive {
                    cg.directive_end();
                    self.is_directive = false;
                }
                proof {
                    reveal(keyword_done);
                }
            },
            _ => {
                let ghost t = token@;
                let r = self.on_default(p, cg, token, Ghost(n));
                proof {
                    lemma_keyword_default(*old(self), *self, *old(p), *p, *old(cg), *cg, matched_type, t, r);
                }
                return r;
            },
        }
        Ok(())
    }

    /// A condition or element keyword: handed to the condition or element being read.
    #[verifier::spinoff_prover]
    fn on_cond(
        &mut self,
        p: &GreteaParser,
        cg: &mut GreteaCodegen,
        matched_type: GreteaKeywords,
        token: String,
        Ghost(n): Ghost<int>,
    ) -> (res: Result<(), GreteaParseError>)
        requires
            old(self).inv(p, old(cg), n),
            matched_type == GreteaKeywords::If || matched_type == GreteaKeywords::Else || matched_type == GreteaKeywords::While
                || matched_type == GreteaKeywords::LeftSqBracket || matched_type == GreteaKeywords::RightSqBracket,
            reads_as(p.init_ast.syntax_list@, token@, matched_type),
        ensures
            res is Ok ==> final(self).inv(p, final(cg), n),
            same_place(old(self).g, final(self).g),
            res matches Err(e) ==> reported_at(e, old(self).g),
            res matches Err(e) ==> error_fits(e, p.init_ast.syntax_list@),
            keyword_done(*old(self), *final(self), *p, *p, *old(cg), *final(cg), matched_type, token@, res),
    {
        let ghost t = token@;
        let r = on_condition_or_element(
            &mut self.g.is_statement,
            &mut self.g.statement_data,
            &mut self.is_while,
            self.is_line,
            &mut self.call,
            cg,
            matched_type,
            token,
            self.g.current_line,
            self.g.current_column,
        );
        proof {
            reveal(reads_as);
            lemma_error_fits(r, p.init_ast.syntax_list@);
            lemma_keyword_cond(*old(self), *self, *p, *old(cg), *cg, matched_type, t, r);
        }
        r
    }

    /// Keywords that only set the parser's flags (or add to an open text).
    #[verifier::spinoff_prover]
    fn on_flag(&mut self, matched_type: GreteaKeywords, token: &String)
        ensures
            flag_done(*old(self), *final(self), matched_type, token@),
            final(self).g == old(self).g,
    {
        match matched_type {
            GreteaKeywords::Import => {
                self.is_import = true;
                proof {
                    lemma_flag_done(*old(self), *self, matched_type, token@);
                }
            },
            GreteaKeywords::Fn => {
                self.func.is_fn = true;
                proof {
                    lemma_flag_done(*old(self), *self, matched_type, token@);
                }
            },
            GreteaKeywords::Var => {
                self.var.is_var = true;
                proof {
                    lemma_flag_done(*old(self), *self, matched_type, token@);
                }
            },
            GreteaKeywords::Mut => {
                if self.var.is_var {
                    self.var.is_mutable = true;
                } else if self.strct.is_struct_member {
                    self.strct.struct_member_immutable = false;
                }
                proof {
                    lemma_flag_done(*old(self), *self, matched_type, token@);
                }
            },
            GreteaKeywords::Assembly => {
                self.blk.is_inline_asm = true;
                proof {
                    lemma_flag_done(*old(self), *self, matched_type, token@);
                }
            },
            GreteaKeywords::Cpp => {
                self.blk.is_cpp_linker = true;
                proof {
                    lemma_flag_done(*old(self), *self, matched_type, token@);
                }
            },
            GreteaKeywords::Runtime => {
                self.blk.is_runtime = true;
                proof {
                    lemma_flag_done(*old(self), *self, matched_type, token@);
                }
            },
            GreteaKeywords::Safe => {
                if self.is_unsafe {
                    self.is_safe = true;
                    self.is_unsafe = false;
                }
                proof {
                    lemma_flag_done(*old(self), *self, matched_type, token@);
                }
            },
            GreteaKeywords::Alias => {
                self.is_alias = true;
                proof {
                    lemma_flag_done(*old(self), *self, matched_type, token@);
                }
            },
            GreteaKeywords::Type => {
                self.is_type = true;
                proof {
                    lemma_flag_done(*old(self), *self, matched_type, token@);
                }
            },
            GreteaKeywords::Compile => {
                self.comp.is_compile = true;
                proof {
                    lemma_flag_done(*old(self), *self, matched_type, token@);
                }
            },
            GreteaKeywords::Module => {
                self.is_module = true;
                proof {
                    lemma_flag_done(*old(self), *self, matched_type, token@);
                }
            },
            GreteaKeywords::Struct => {
                self.flag_struct_step(token);
                proof {
                    lemma_flag_done(*old(self), *self, matched_type, token@);
                }
            },
            GreteaKeywords::Enum => {
                if !self.g.is_fn_data {
                    self.en.is_enum = true;
                }
                proof {
                    lemma_flag_done(*old(self), *self, matched_type, token@);
                }
            },
            GreteaKeywords::For => {
                self.flag_for_step();
                proof {
                    lemma_flag_done(*old(self), *self, matched_type, token@);
                }
            },
            GreteaKeywords::Preprocessor => {
                self.is_preprocessor = true;
                proof {
                    lemma_flag_done(*old(self), *self, matched_type, token@);
                }
            },
            GreteaKeywords::SetDirective => {
                self.flag_set_step();
                proof {
                    lemma_flag_done(*old(self), *self, matched_type, token@);
                }
            },
            GreteaKeywords::In => {
                if self.is_for {
                    self.is_for_in = true;
                }
                proof {
                    lemma_flag_done(*old(self), *self, matched_type, token@);
                }
            },
            GreteaKeywords::FlagLeft => {
                self.is_library_setter = true;
                proof {
                    lemma_flag_done(*old(self), *self, matched_type, token@);
                }
            },
            GreteaKeywords::FlagRight => {
                if self.is_library_setter {
                    self.is_library_setter = false;
                }
                proof {
                    lemma_flag_done(*old(self), *self, matched_type, token@);
                }
            },
            GreteaKeywords::Vector => {
                self.is_vector = true;
                proof {
                    lemma_flag_done(*old(self), *self, matched_type, token@);
                }
            },
            _ => {
                proof {
                    lemma_flag_done(*old(self), *self, matched_type, token@);
                }
            },
        }
    }

    /// `struct`: see `flag_done`.
    fn flag_struct_step(&mut self, token: &String)
        ensures
            !old(self).var.is_var ==> final(self).strct.is_struct,
            old(self).var.is_var ==> final(self).strct.is_struct == old(self).strct.is_struct,
            old(self).var.is_var && old(self).var.is_var_type ==> final(self).var.variable_type@ == old(self).var.variable_type@ + token@ + seq![' '] && final(self).var.var_data@ == old(self).var.var_data@,
            old(self).var.is_var && !old(self).var.is_var_type && old(self).var.is_var_data ==> final(self).var.var_data@ == old(self).var.var_data@ + token@ + seq![' '] && final(self).var.variable_type@ == old(self).var.variable_type@,
            !(old(self).var.is_var && (old(self).var.is_var_type || old(self).var.is_var_data)) ==> final(self).var@ == old(self).var@,
            final(self).g == old(self).g,
    {
        if !self.var.is_var {
            self.strct.is_struct = true;
        } else if self.var.is_var_type {
            let ghost t0 = self.var.variable_type@;
            self.var.variable_type.append(token.as_str());
            push_char(&mut self.var.variable_type, ' ');
            assert(self.var.variable_type@ =~= t0 + token@ + seq![' ']);
        } else if self.var.is_var_data {
            let ghost d0 = self.var.var_data@;
            self.var.var_data.append(token.as_str());
            push_char(&mut self.var.var_data, ' ');
            assert(self.var.var_data@ =~= d0 + token@ + seq![' ']);
        }
    }

    /// `for`: see `flag_done`.
    fn flag_for_step(&mut self)
        ensures
            final(self).is_for == (old(self).is_for || !old(self).blk.is_runtime && !old(self).blk.is_cpp_linker && !old(self).comp.is_compile),
            !old(self).comp.is_compile && old(self).blk.is_runtime ==> final(self).blk.runtime_block@ == old(self).blk.runtime_block@ + "for "@ && final(self).blk.cpp_block@ == old(self).blk.cpp_block@,
            !old(self).comp.is_compile && !old(self).blk.is_runtime && old(self).blk.is_cpp_linker ==> final(self).blk.cpp_block@ == old(self).blk.cpp_block@ + "for "@ && final(self).blk.runtime_block@ == old(self).blk.runtime_block@,
            (old(self).comp.is_compile || !old(self).blk.is_runtime && !old(self).blk.is_cpp_linker) ==> final(self).blk == old(self).blk,
            final(self).g == old(self).g,
    {
        if !self.blk.is_runtime && !self.blk.is_cpp_linker && !self.comp.is_compile {
            self.is_for = true;
        } else if self.comp.is_compile {
        } else if self.blk.is_runtime {
            self.blk.runtime_block.append("for ");
        } else if self.blk.is_cpp_linker {
            self.blk.cpp_block.append("for ");
        }
    }

    /// `set`: see `flag_done`.
    fn flag_set_step(&mut self)
        ensures
            final(self).is_set == (old(self).is_set || (!old(self).blk.is_runtime || !old(self).blk.is_cpp_linker) && old(self).is_preprocessor),
            !((!old(self).blk.is_runtime || !old(self).blk.is_cpp_linker) && old(self).is_preprocessor) && old(self).blk.is_runtime ==> final(self).blk.runtime_block@ == old(self).blk.runtime_block@ + "set "@,
            !(!((!old(self).blk.is_runtime || !old(self).blk.is_cpp_linker) && old(self).is_preprocessor) && old(self).blk.is_runtime) ==> final(self).blk == old(self).blk,
            final(self).g == old(self).g,
    {
        if (!self.blk.is_runtime || !self.blk.is_cpp_linker) && self.is_preprocessor {
            self.is_set = true;
        } else if self.blk.is_runtime {
            self.blk.runtime_block.append("set ");
        }
    }

    /// `}`: closes what is open, innermost construct first (see `curly_done`).
    #[verifier::spinoff_prover]
    fn on_right_curly(
        &mut self,
        p: &mut GreteaParser,
        cg: &mut GreteaCodegen,
        Ghost(n): Ghost<int>,
    )
        requires
            old(self).inv(old(p), old(cg), n),
        ensures
            final(self).inv(final(p), final(cg), n),
            same_place(old(self).g, final(self).g),
            keeps(*old(p), *final(p)),
            curly_done(*old(self), *final(self), *old(p), *final(p), old(cg).generated@, final(cg).generated@),
    {
        if self.is_directive {
            proof {
                reveal(curly_done);
            }
            return ;
        }
        if self.g.is_compile_data {
            close_compile(&mut self.comp, &mut self.g.count_compile_parentheses, &mut self.g.is_compile_data, &mut p.compile_list);
            proof {
                reveal(curly_done);
            }
            return ;
        }
        if self.strct.is_struct && self.strct.is_struct_member {
            if self.strct.struct_member_name.as_str().unicode_len() > 0 {
                self.strct.is_struct = false;
                self.strct.is_struct_member = false;
                self.strct.is_struct_generic = false;
                cg.variable_definition(
                    &self.strct.struct_member_default,
                    &self.strct.struct_member_type,
                    &self.strct.struct_member_name,
                    !self.strct.struct_member_immutable,
                );
                push_var(&mut p.data_list.variable_list, &self.strct.struct_member_name, &self.strct.struct_member_type, &self.strct.struct_member_default);
                self.strct.struct_generic = String::new();
                self.strct.struct_member_name = String::new();
                self.strct.struct_member_type = String::new();
                self.strct.struct_member_default = String::new();
                self.strct.is_default = false;
            }
            let ghost g0 = cg.generated@;
            cg.character(&to("};"));
            proof {
                reveal_strlit("};");
                reveal(curly_done);
                assert(cg.generated@ == g0 + "};"@ + seq!['\n']);
            }
        } else if self.blk.is_inline_asm {
            cg.assembly(&self.blk.asm_block);
            self.blk.is_inline_asm = false;
            self.blk.asm_block = String::new();
            proof {
                reveal(curly_done);
            }
        } else if self.is_safe {
            self.is_safe = false;
            self.is_unsafe = true;
            proof {
                reveal(curly_done);
            }
        } else if self.is_unsafe {
            self.is_unsafe = false;
            proof {
                reveal(curly_done);
            }
        } else if self.en.is_enum {
            cg.enumeration(&self.en.enum_name, &self.en.enum_type, &self.en.enum_data);
            self.en.is_enum = false;
            self.en.is_enum_data = false;
            self.en.is_enum_type = false;
            self.en.enum_name = String::new();
            self.en.enum_type = String::new();
            self.en.enum_data = String::new();
            proof {
                reveal(curly_done);
            }
        } else if self.var.is_var_struct || self.var.is_var_data_vector {
            let mut data = self.var.var_data.clone();
            push_char(&mut data, '}');
            assert(data@ == old(self).var.var_data@ + seq!['}']);
            cg.variable_definition(&data, &self.var.variable_type, &self.var.var_name, self.var.is_mutable);
            push_var(&mut p.data_list.variable_list, &self.var.var_name, &self.var.variable_type, &self.var.var_data);
            self.var.is_var = false;
            self.var.is_var_type = false;
            self.var.is_var_data = false;
            self.var.is_mutable = false;
            self.var.is_var_data_vector = false;
            self.var.var_data = String::new();
            self.var.variable_type = String::new();
            self.var.var_name = String::new();
            self.var.is_var_struct = false;
            proof {
                reveal(curly_done);
            }
        } else if !self.blk.is_cpp_linker && !self.blk.is_runtime && !self.blk.is_inline_asm {
            cg.character(&p.init_ast.ast_curly_right_bracket);
            proof {
                reveal(curly_done);
            }
        } else if self.blk.is_cpp_linker {
            cg.character(&self.blk.cpp_block);
            self.blk.is_cpp_linker = false;
            self.blk.cpp_block = String::new();
            proof {
                reveal(curly_done);
            }
        } else if self.blk.is_runtime {
            let script = self.blk.runtime_block.clone();
            let ghost e0 = p.events@;
            p.events.push(GreteaParseEvent::Runtime { script });
            self.blk.is_runtime = false;
            self.blk.runtime_block = String::new();
            proof {
                assert(event_views(p.events@) =~= event_views(e0).push(PEvent::Runtime { script: old(self).blk.runtime_block@ }));
                reveal(curly_done);
            }
        }
    }

    /// A token without a keyword of its own: handed to the construct being read.
    #[verifier::spinoff_prover]
    #[verifier::rlimit(100)]
    fn on_default(
        &mut self,
        p: &mut GreteaParser,
        cg: &mut GreteaCodegen,
        token: String,
        Ghost(n): Ghost<int>,
    ) -> (res: Result<(), GreteaParseError>)
        requires
            old(self).inv(old(p), old(cg), n),
            old(self).g.count_compile_parentheses < n,
            old(self).g.count_parentheses < n,
        ensures
            res is Ok ==> final(self).inv(final(p), final(cg), n),
            same_place(old(self).g, final(self).g),
            res matches Err(e) ==> reported_at(e, old(self).g),
            keeps(*old(p), *final(p)),
            res is Err ==> final(p).compile_list == old(p).compile_list,
            res matches Err(e) ==> error_fits(e, old(p).init_ast.syntax_list@),
            default_done(*old(self), *final(self), *old(p), *final(p), *old(cg), *final(cg), token@, res),
    {
        let ghost t0 = token@;
        let mut token = token;
        if !self.is_line {
            if self.comp.is_compile {
                on_compile(&mut self.comp, &mut self.g.is_compile_data, &mut self.g.count_compile_parentheses, &token);
                proof {
                    reveal(default_done);
                }
                return Ok(());
            }
            if self.is_vector {
                let vector_type = token.clone();
                self.is_vector = false;
                if self.func.is_fn_argument || self.var.is_var {
                    token = make_vector(&token);
                } else {
                    cg.cpp_vector(&vector_type);
                    proof {
                        reveal(default_done);
                    }
                    return Ok(());
                }
            }
            if self.is_library_setter {
                on_library_setter(
                    &mut self.strct.is_default,
                    &mut self.strct.struct_member_default,
                    cg,
                    &mut p.events,
                    &token,
                    self.g.current_line,
                    self.g.current_column,
                );
                proof {
                    reveal(default_done);
                }
                return Ok(());
            }
            if self.is_unsafe || self.is_safe {
                if tok_is(&token, "{") {
                    proof {
                        reveal(default_done);
                    }
                    return Ok(());
                }
            }
            if self.en.is_enum {
                on_enum(&mut self.en, &token);
                proof {
                    reveal(default_done);
                }
                return Ok(());
            }
            if self.g.is_statement {
                let r = self.on_statement(Ghost(p.func_data@.len() as int), cg, &token, Ghost(n));
                proof {
                    lemma_error_fits(r, old(p).init_ast.syntax_list@);
                }
                proof {
                    reveal(default_done);
                }
                return r;
            }
            if self.strct.is_struct {
                on_struct(&mut self.strct, cg, &mut p.data_list.variable_list, &token);
                proof {
                    reveal(default_done);
                }
                return Ok(());
            }
            if self.is_module {
                cg.module(&token);
                self.is_module = false;
                proof {
                    reveal(default_done);
                }
                return Ok(());
            }
            if self.is_set {
                if tok_is(&token, "=") {
                    proof {
                        reveal(default_done);
                    }
                    return Ok(());
                }
                if self.set_name.as_str().unicode_len() > 0 {
                    cg.preprocess_set(&token, &self.set_name);
                    self.is_preprocessor = false;
                    self.is_set = false;
                    self.set_name = String::new();
                    proof {
                        reveal(default_done);
                    }
                    return Ok(());
                }
                self.set_name = token;
                proof {
                    assert(self.set_name@ == default_token(*old(self), t0));
                    reveal(default_done);
                }
                return Ok(());
            }
            if self.call.is_fn_call {
                let r = on_fn_call(&mut self.call, &mut self.g.count_parentheses, &mut self.is_expandable, self.g.current_line, self.g.current_column, cg, &p.func_list, &token, Ghost(n));
                proof {
                    lemma_error_fits(r, old(p).init_ast.syntax_list@);
                }
                proof {
                    reveal(default_done);
                }
                return r;
            }
            if self.is_import {
                cg.import(token, false);
                self.is_import = false;
                proof {
                    reveal(default_done);
                }
                return Ok(());
            }
            if self.func.is_fn {
                let r = on_fn(&mut self.func, &mut self.g.fn_args, &mut self.g.is_fn_data, &mut self.is_expandable, self.g.current_line, self.g.current_column, p, cg, &token);
                proof {
                    lemma_error_fits(r, old(p).init_ast.syntax_list@);
                }
                proof {
                    reveal(default_done);
                }
                return r;
            }
            if tok_is(&token, "{") {
                if self.var.is_var_struct {
                    self.var.var_data.append("{\n");
                } else if self.var.is_var {
                    self.var.is_var_data_vector = true;
                    self.var.var_data.append("{\n");
                } else if !self.blk.is_inline_asm && !self.blk.is_cpp_linker && !self.blk.is_runtime && !self.var.is_var_struct {
                    cg.character(&p.init_ast.ast_curly_left_bracket);
                }
                proof {
                    reveal(default_done);
                }
                return Ok(());
            }
            if self.var.is_var {
                on_var(&mut self.var, &self.strct.struct_list, cg, &mut p.data_list.variable_list, &token);
                proof {
                    reveal(default_done);
                }
                return Ok(());
            }
            if self.is_for {
                if tok_is(&token, "_") {
                    cg.for_loop();
                    self.is_for = false;
                    proof {
                        reveal(default_done);
                    }
                    return Ok(());
                }
                if self.is_for_variable {
                    if self.is_for_in {
                        cg.for_iter(&self.for_var, &token);
                        self.for_var = String::new();
                        self.is_for = false;
                        self.is_for_variable = false;
                        self.is_for_in = false;
                        proof {
                            reveal(default_done);
                        }
                        return Ok(());
                    }
                }
                self.for_var = token;
                self.is_for_variable = true;
                proof {
                    reveal(default_done);
                }
                return Ok(());
            }
            if self.blk.is_cpp_linker {
                if tok_is(&trimmed_end(token.as_str()), "\\") {
                    let ghost b0 = self.blk.cpp_block@;
                    push_char(&mut self.blk.cpp_block, '\n');
                    assert(self.blk.cpp_block@ =~= b0 + seq!['\n']);
                    proof {
                        reveal(default_done);
                    }
                    return Ok(());
                }
                self.blk.cpp_block.append(token.as_str());
                proof {
                    reveal(default_done);
                }
                return Ok(());
            }
            if self.blk.is_inline_asm {
                let tok = trimmed_end(token.as_str());
                if tok_is(&tok, "\\") {
                    let ghost b0 = self.blk.asm_block@;
                    push_char(&mut self.blk.asm_block, '\n');
                    assert(self.blk.asm_block@ =~= b0 + seq!['\n']);
                    proof {
                        reveal(default_done);
                    }
                    return Ok(());
                } else if tok_is(&tok, "%") {
                    let ghost b0 = self.blk.asm_block@;
                    push_char(&mut self.blk.asm_block, '%');
                    assert(self.blk.asm_block@ =~= b0 + seq!['%']);
                    proof {
                        reveal(default_done);
                    }
                    return Ok(());
                }
                let ghost b0 = self.blk.asm_block@;
                self.blk.asm_block.append(token.as_str());
                push_char(&mut self.blk.asm_block, ' ');
                assert(self.blk.asm_block@ =~= b0 + (token@ + seq![' ']));
                proof {
                    reveal(default_done);
                }
                return Ok(());
            }
            if self.is_alias {
                on_alias(
                    &mut self.is_alias_name,
                    &mut self.alias_name,
                    &mut self.is_preprocessor,
                    &mut self.is_alias,
                    &mut self.g.alias_list,
                    cg,
                    token,
                );
                proof {
                    reveal(default_done);
                }
                return Ok(());
            }
            if self.blk.is_runtime {
                if tok_is(&trimmed_end(token.as_str()), "\\") {
                    let ghost b0 = self.blk.runtime_block@;
                    push_char(&mut self.blk.runtime_block, '\n');
                    assert(self.blk.runtime_block@ =~= b0 + seq!['\n']);
                    proof {
                        reveal(default_done);
                    }
                    return Ok(());
                }
                let ghost b0 = self.blk.runtime_block@;
                self.blk.runtime_block.append(token.as_str());
                push_char(&mut self.blk.runtime_block, ' ');
                assert(self.blk.runtime_block@ =~= b0 + (token@ + seq![' ']));
                proof {
                    reveal(default_done);
                }
                return Ok(());
            }
            if on_detect(&mut self.call, self.is_unsafe, &p.func_list, token.clone()) {
                proof {
                    reveal(default_done);
                }
                return Ok(());
            }
        }
        if self.g.is_fn_data {
            on_fn_data(
                &mut self.g.is_return,
                &mut self.return_val,
                &mut self.is_line,
                &mut self.line,
                self.is_unsafe,
                cg,
                &p.data_list.variable_list,
                &token,
            );
            proof {
                reveal(default_done);
            }
            return Ok(());
        }
        proof {
            reveal(default_done);
        }
        Ok(())
    }

    /// A token of a condition: collected up to `{`, which writes the condition.
    fn on_statement(
        &mut self,
        Ghost(fdl): Ghost<int>,
        cg: &mut GreteaCodegen,
        token: &String,
        Ghost(n): Ghost<int>,
    ) -> (res: Result<(), GreteaParseError>)
        requires
            old(self).g.ok(n, fdl),
            old(self).g.is_statement,
        ensures
            res is Ok ==> final(self).g.ok(n, fdl),
            same_place(old(self).g, final(self).g),
            res matches Err(e) ==> reported_at(e, old(self).g) && e.token@ == token@,
            final(cg).sources == old(cg).sources,
            final(cg).optimize == old(cg).optimize,
            token@ != "{"@ ==> {
                &&& res is Ok
                &&& *final(cg) == *old(cg)
                &&& final(self).g.is_statement
                &&& views(final(self).g.statement_data@) == views(old(self).g.statement_data@).push(token@)
            },
            token@ == "{"@ ==> {
                let d = views(old(self).g.statement_data@);
                let short = d.last() != "else"@ && d.len() < 2;
                let opt = old(cg).optimize;
                if old(self).is_preprocessor && short || !old(self).is_preprocessor && !old(self).is_while && short {
                    res matches Err(e) && e.kind == GreteaParseErrorKind::IncompleteCondition
                } else if !old(self).is_preprocessor && opt && optimize_undefined(d) {
                    res matches Err(e) && e.kind == GreteaParseErrorKind::UnfoldableCondition
                } else {
                    &&& res is Ok
                    &&& !final(self).g.is_statement
                    &&& final(self).g.statement_data@.len() == 0
                    &&& final(cg).generated@ == old(cg).generated@ + if old(self).is_preprocessor {
                        directive_text(d)
                    } else {
                        statement_text(d, old(self).is_while, opt)
                    }
                }
            },
    {
        if tok_is(token, "{") {
            let len = self.g.statement_data.len();
            let last_is_else = tok_is(&self.g.statement_data[len - 1], "else");
            if self.is_preprocessor {
                if !last_is_else && len < 2 {
                    return Err(self.error(GreteaParseErrorKind::IncompleteCondition, token));
                }
                cg.statement_directive(&self.g.statement_data);
                self.is_directive = true;
            } else {
                if !self.is_while && !last_is_else && len < 2 {
                    return Err(self.error(GreteaParseErrorKind::IncompleteCondition, token));
                }
                if cg.optimize && condition_unfoldable(&self.g.statement_data) {
                    return Err(self.error(GreteaParseErrorKind::UnfoldableCondition, token));
                }
                cg.statement(&self.g.statement_data, self.is_while);
            }
            self.g.is_statement = false;
            self.is_preprocessor = false;
            self.is_while = false;
            self.g.statement_data = Vec::new();
            return Ok(());
        }
        self.g.statement_data.push(token.clone());
        Ok(())
    }

}

/// `}` inside a compile setting: closes one brace, and files the setting when its
/// outermost brace closes.
#[verifier::spinoff_prover]
fn close_compile(
    comp: &mut CompileState,
    count: &mut u32,
    is_compile_data: &mut bool,
    compile_list: &mut Vec<GreteaCompileData>,
)
    requires
        *old(is_compile_data),
        *old(count) >= 1,
    ensures
        *final(count) < *old(count),
        *final(is_compile_data) <==> *final(count) >= 1,
        *old(count) == 1 ==> {
            &&& final(comp)@ == PComp {
                is_compile: false,
                compile_config: GreteaCompileType::Undefined,
                compile_data: seq![],
                compile_type: seq![],
            }
            &&& *final(count) == 0
            &&& setting_views(final(compile_list)@) == file_setting(
                setting_views(old(compile_list)@),
                old(comp)@.compile_config,
                trim_end(old(comp)@.compile_type),
                old(comp)@.compile_data,
            )
        },
        *old(count) != 1 ==> {
            &&& final(comp)@ == PComp { compile_data: old(comp)@.compile_data + seq!['}'], ..old(comp)@ }
            &&& *final(count) == *old(count) - 1
            &&& final(compile_list)@ == old(compile_list)@
        },
{
    *count = *count - 1;
    if *count == 0 {
        let compile_type = trimmed_end(comp.compile_type.as_str());
        file_compile_setting(compile_list, comp.compile_config, compile_type, &comp.compile_data);
        comp.is_compile = false;
        *is_compile_data = false;
        comp.compile_config = GreteaCompileType::Undefined;
        comp.compile_data = String::new();
        comp.compile_type = String::new();
    } else {
        let ghost d0 = comp.compile_data@;
        push_char(&mut comp.compile_data, '}');
        assert(comp.compile_data@ =~= d0 + seq!['}']);
    }
}

/// `setting_or` finds the first setting filed under `name`.
proof fn lemma_setting_or_at(l: Seq<GreteaCompileData>, name: Seq<char>, other: Seq<char>, j: int)
    requires
        0 <= j < l.len(),
        l[j].__name@ == name,
        forall|i: int| 0 <= i < j ==> l[i].__name@ != name,
    ensures
        setting_or(l, name, other) == l[j].__data@,
    decreases j,
{
    if j > 0 {
        let r = l.drop_first();
        assert forall|i: int| 0 <= i < j - 1 implies r[i].__name@ != name by {
            assert(r[i] == l[i + 1]);
        }
        lemma_setting_or_at(r, name, other, j - 1);
    }
}

/// A compile setting reads back what was filed: after `(config, name, data)` is filed,
/// the setting looked up under `name` has the text `data`.
pub proof fn lemma_setting_read_back(
    before: Seq<GreteaCompileData>,
    after: Seq<GreteaCompileData>,
    config: GreteaCompileType,
    name: Seq<char>,
    data: Seq<char>,
    other: Seq<char>,
)
    requires
        setting_views(after) == file_setting(setting_views(before), config, name, data),
    ensures
        setting_or(after, name, other) == data,
{
    let v0 = setting_views(before);
    let v1 = setting_views(after);
    assert(v1.len() == after.len());
    if exists|j: int| 0 <= j < v0.len() && v0[j].1 == name {
        let j0 = choose|j: int| 0 <= j < v0.len() && v0[j].1 == name;
        lemma_first_setting(v0, name, j0);
    }
    match first_setting(v0, name) {
        Some(j) => {
            assert forall|i: int| 0 <= i < j implies after[i].__name@ != name by {
                assert(v1[i] == v0[i]);
                assert(v1[i].1 == after[i].__name@);
            }
            assert(v1[j].1 == after[j].__name@ && v1[j].2 == after[j].__data@);
            lemma_setting_or_at(after, name, other, j);
        },
        None => {
            let j = before.len() as int;
            assert forall|i: int| 0 <= i < j implies after[i].__name@ != name by {
                assert(v1[i] == v0[i]);
                assert(v1[i].1 == after[i].__name@);
                assert(v0[i].1 == before[i].__name@);
            }
            assert(v1[j].1 == after[j].__name@ && v1[j].2 == after[j].__data@);
            lemma_setting_or_at(after, name, other, j);
        },
    }
}

/// A token inside an enumeration.
fn on_enum(en: &mut EnumState, token: &String)
    ensures
        final(en)@ == enum_next(old(en)@, token@),
{
    proof {
        reveal_strlit(",");
        reveal_strlit("{");
        reveal_strlit("=");
    }
    if en.is_enum_data {
        en.enum_data.append(token.as_str());
        if tok_is(token, ",") {
            push_char(&mut en.enum_data, '\n');
            assert(en.enum_data@ =~= old(en).enum_data@ + token@ + seq!['\n']);
        } else {
            assert(en.enum_data@ =~= old(en).enum_data@ + token@ + seq![]);
        }
        return ;
    }
    if tok_is(token, "{") {
        en.is_enum_data = true;
        return ;
    }
    if en.enum_name.as_str().unicode_len() == 0 {
        en.enum_name = token.clone();
    } else if en.is_enum_type {
        en.enum_type = token.clone();
        en.is_enum_type = false;
    } else if tok_is(token, "=") {
        en.is_enum_type = true;
    }
}

/// A token of a compile setting.
#[verifier::spinoff_prover]
fn on_compile(comp: &mut CompileState, is_compile_data: &mut bool, count: &mut u32, token: &String)
    requires
        *old(count) < u32::MAX,
    ensures
        (final(comp)@, *final(is_compile_data), *final(count) as int) == compile_next(
            old(comp)@,
            *old(is_compile_data),
            *old(count) as int,
            token@,
        ),
{
    proof {
        reveal_strlit("{");
        reveal_strlit("default");
    }
    if *is_compile_data {
        if tok_is(&trimmed_end(token.as_str()), "{") {
            *count = *count + 1;
            if *count == 1 {
                return ;
            }
        }
        let ghost d0 = comp.compile_data@;
        comp.compile_data.append(from_module(token).as_str());
        push_char(&mut comp.compile_data, ' ');
        assert(comp.compile_data@ =~= d0 + crate::ast::cpp_scoped(token@) + seq![' ']);
        return ;
    }
    if comp.compile_config != GreteaCompileType::Undefined {
        if comp.compile_type.as_str().unicode_len() == 0 {
            comp.compile_type = token.clone();
        } else if tok_is(&trimmed_end(token.as_str()), "{") {
            *count = *count + 1;
            *is_compile_data = true;
        }
        return ;
    }
    comp.compile_config = if tok_is(&trimmed(token.as_str()), "default") {
        GreteaCompileType::Default
    } else {
        GreteaCompileType::Undefined
    };
}

/// The variables as (name, data).
pub open spec fn var_pairs(vars: Seq<GreteaVariableData>) -> Seq<(Seq<char>, Seq<char>)> {
    vars.map_values(|v: GreteaVariableData| (v.__name@, v.__data@))
}

/// What a token of a function body does (see `body_next`).
#[verifier::opaque]
pub open spec fn body_read(
    is_return0: bool,
    return_val0: Seq<char>,
    is_line0: bool,
    line0: Seq<char>,
    is_unsafe: bool,
    vars: Seq<GreteaVariableData>,
    token: Seq<char>,
    is_return1: bool,
    return_val1: Seq<char>,
    is_line1: bool,
    line1: Seq<char>,
    gen0: Seq<char>,
    gen1: Seq<char>,
) -> bool {
    let r = body_next(is_return0, return_val0, is_line0, line0, is_unsafe, var_pairs(vars), token);
    &&& is_return1 == r.0
    &&& return_val1 == r.1
    &&& is_line1 == r.2
    &&& line1 == r.3
    &&& gen1 == gen0 + r.4
}

/// A token of a function body that no other construct takes: returns and lines of code.
#[verifier::rlimit(60)]
#[verifier::spinoff_prover]
fn on_fn_data(
    is_return: &mut bool,
    return_val: &mut String,
    is_line: &mut bool,
    line: &mut String,
    is_unsafe: bool,
    cg: &mut GreteaCodegen,
    vars: &Vec<GreteaVariableData>,
    token: &String,
)
    ensures
        final(cg).sources == old(cg).sources,
        final(cg).optimize == old(cg).optimize,
        *final(is_return) ==> *old(is_return) || token@ == "."@ || token@ == "return"@,
        body_read(
            *old(is_return),
            old(return_val)@,
            *old(is_line),
            old(line)@,
            is_unsafe,
            vars@,
            token@,
            *final(is_return),
            final(return_val)@,
            *final(is_line),
            final(line)@,
            old(cg).generated@,
            final(cg).generated@,
        ),
{
    proof {
        reveal(body_read);
        reveal_strlit(".");
        reveal_strlit("return");
        reveal_strlit("_");
        reveal_strlit("");
        reveal_strlit("+");
        reveal_strlit("-");
        reveal_strlit("*");
        reveal_strlit("/");
        reveal_strlit("%");
        reveal_strlit("^");
        reveal_strlit("&");
        reveal_strlit(">");
        reveal_strlit("<");
    }
    let ghost gen0 = cg.generated@;
    if tok_is(token, ".") || tok_is(token, "return") {
        *is_return = true;
        assert(cg.generated@ =~= gen0 + seq![]);
        return ;
    }
    if *is_return {
        if is_data(&token.as_str()) {
            cg.return_variable(token);
            assert(cg.generated@ =~= gen0 + return_text(token@));
            *is_return = false;
            return ;
        }
        let ghost r0 = return_val@;
        return_val.append(token.as_str());
        push_char(return_val, ' ');
        assert(return_val@ =~= r0 + token@ + seq![' ']);
        if !(ends_with(token.as_str(), '\n') || ends_with(token.as_str(), ';')) {
            assert(cg.generated@ =~= gen0 + seq![]);
            return ;
        }
        *is_return = false;
        if is_unsafe {
            cg.return_variable(token);
            assert(cg.generated@ =~= gen0 + return_text(token@));
            return ;
        }
        let ghost named = match first_var(var_pairs(vars@), token@) {
            Some(k) => return_text(var_pairs(vars@)[k].1),
            None => seq![],
        };
        match first_var_named(vars, token) {
            Some(k) => {
                assert(var_pairs(vars@)[k as int].1 == vars@[k as int].__data@);
                cg.return_variable(&vars[k].__data);
            },
            None => {},
        }
        assert(cg.generated@ =~= gen0 + named);
        let ghost g1 = cg.generated@;
        let ghost last = if trim_end(token@) == "_"@ {
            return_text(seq![])
        } else {
            return_text(crate::ast::cpp_scoped(return_val@))
        };
        if tok_is(&trimmed_end(token.as_str()), "_") {
            cg.return_variable(&to(""));
        } else {
            cg.return_variable(&from_module(return_val));
        }
        assert(cg.generated@ =~= g1 + last);
        assert(cg.generated@ =~= gen0 + (named + last));
        *return_val = String::new();
        return ;
    }
    if *is_line {
        let ghost l0 = line@;
        line.append(from_module(token).as_str());
        if !(tok_is(token, "+") || tok_is(token, "-") || tok_is(token, "*") || tok_is(token, "/") || tok_is(token, "%")
            || tok_is(token, "^") || tok_is(token, "&") || tok_is(token, ">") || tok_is(token, "<")) {
            push_char(line, ' ');
        }
        let ghost l1 = line@;
        assert(l1 =~= l0 + crate::ast::cpp_scoped(token@) + if line_operator(token@) {
            seq![]
        } else {
            seq![' ']
        });
        if ends_with(token.as_str(), '\n') || ends_with(token.as_str(), ';') {
            let mut statement = line.clone();
            push_char(&mut statement, ';');
            cg.character(&statement);
            assert(cg.generated@ =~= gen0 + (l1 + seq![';'] + seq!['\n']));
            *line = String::new();
            *is_line = false;
        } else {
            assert(cg.generated@ =~= gen0 + seq![]);
        }
        return ;
    }
    assert(cg.generated@ =~= gen0 + seq![]);
    if names_a_variable(vars, token) {
        *is_line = true;
        line.append(token.as_str());
    }
}

/// The place of the first variable named `token`, if any.
fn first_var_named(vars: &Vec<GreteaVariableData>, token: &String) -> (res: Option<usize>)
    ensures
        res matches Some(k) ==> k < vars@.len() && first_var(var_pairs(vars@), token@) == Some(k as int),
        res is None ==> first_var(var_pairs(vars@), token@) is None,
{
    let ghost ps = var_pairs(vars@);
    let mut i: usize = 0;
    while i < vars.len()
        invariant
            i <= vars@.len(),
            ps == var_pairs(vars@),
            forall|j: int| 0 <= j < i ==> ps[j].0 != token@,
        decreases vars@.len() - i,
    {
        assert(ps[i as int].0 == vars@[i as int].__name@);
        if str_eq(token.as_str(), vars[i].__name.as_str()) {
            proof {
                let w = choose|w: int| 0 <= w < ps.len() && ps[w].0 == token@ && forall|j: int| 0 <= j < w ==> ps[j].0 != token@;
                assert(0 <= i < ps.len() && ps[i as int].0 == token@ && forall|j: int| 0 <= j < i ==> ps[j].0 != token@);
                if w < i {
                    assert(ps[w].0 != token@);
                } else if w > i {
                    assert(ps[i as int].0 != token@);
                }
                assert(first_var(ps, token@) == Some(i as int));
            }
            return Some(i);
        }
        i = i + 1;
    }
    None
}

/// Does `token` name a variable, or end in `.name` of one?
fn names_a_variable(vars: &Vec<GreteaVariableData>, token: &String) -> (b: bool)
    ensures
        b == exists|k: int| 0 <= k < vars@.len() && (var_pairs(vars@)[k].0 == token@ || var_pairs(vars@)[k].0 == after_last(token@, '.')),
{
    let ghost ps = var_pairs(vars@);
    let tail = last_piece(token, '.');
    let mut i: usize = 0;
    while i < vars.len()
        invariant
            i <= vars@.len(),
            ps == var_pairs(vars@),
            tail@ == after_last(token@, '.'),
            forall|j: int| 0 <= j < i ==> ps[j].0 != token@ && ps[j].0 != tail@,
        decreases vars@.len() - i,
    {
        assert(ps[i as int].0 == vars@[i as int].__name@);
        let name = vars[i].__name.as_str();
        if str_eq(token.as_str(), name) || str_eq(tail.as_str(), name) {
            return true;
        }
        i = i + 1;
    }
    proof {
        if exists|k: int| 0 <= k < vars@.len() && (ps[k].0 == token@ || ps[k].0 == after_last(token@, '.')) {
            let k = choose|k: int| 0 <= k < vars@.len() && (ps[k].0 == token@ || ps[k].0 == after_last(token@, '.'));
            assert(ps[k].0 != token@ && ps[k].0 != tail@);
        }
    }
    false
}

/// The aliases as plain values.
pub open spec fn alias_views(m: &StrMap<String>) -> Map<Seq<char>, Seq<char>> {
    m@.map_values(|v: String| v@)
}

/// A token of an alias (see `alias_next`).
#[verifier::spinoff_prover]
fn on_alias(
    is_alias_name: &mut bool,
    alias_name: &mut String,
    is_preprocessor: &mut bool,
    is_alias: &mut bool,
    aliases: &mut StrMap<String>,
    cg: &mut GreteaCodegen,
    token: String,
)
    requires
        old(aliases).wf(),
    ensures
        final(aliases).wf(),
        final(cg).sources == old(cg).sources,
        final(cg).optimize == old(cg).optimize,
        ({
            let r = alias_next(*old(is_alias_name), old(alias_name)@, *old(is_preprocessor), alias_views(old(aliases)), token@);
            &&& *final(is_alias_name) == r.is_alias_name
            &&& final(alias_name)@ == r.alias_name
            &&& *final(is_preprocessor) == r.is_preprocessor
            &&& *final(is_alias) == (*old(is_alias) && !r.ends)
            &&& alias_views(final(aliases)) == r.aliases
            &&& final(cg).generated@ == old(cg).generated@ + r.text
        }),
{
    proof {
        reveal_strlit("=");
    }
    let ghost gen0 = cg.generated@;
    if !*is_alias_name {
        *alias_name = token;
        *is_alias_name = true;
        assert(cg.generated@ =~= gen0 + seq![]);
        return ;
    }
    if tok_is(&token, "=") {
        assert(cg.generated@ =~= gen0 + seq![]);
        return ;
    }
    let alias_data = from_module(&trimmed_end(token.as_str()));
    if *is_preprocessor {
        cg.preprocess_set(&alias_data, alias_name);
        *is_preprocessor = false;
    } else {
        let ghost before = aliases@;
        let ghost d = alias_data@;
        aliases.insert(alias_name.clone(), alias_data);
        assert(alias_views(aliases) =~= before.map_values(|v: String| v@).insert(alias_name@, d));
        assert(cg.generated@ =~= gen0 + seq![]);
    }
    *is_alias = false;
    *alias_name = String::new();
    *is_alias_name = false;
}

/// A token that may start a call (see `detect_next`).
#[verifier::spinoff_prover]
fn on_detect(call: &mut CallState, is_unsafe: bool, func_list: &Vec<String>, token: String) -> (taken: bool)
    ensures
        final(call)@ == detect_next(old(call)@, is_unsafe, views(func_list@), token@).call,
        taken == detect_next(old(call)@, is_unsafe, views(func_list@), token@).taken,
{
    let function_token = last_piece(&token, '#');
    if is_unsafe {
        if contains_char(function_token.as_str(), '.') {
            let method = last_piece(&token, '.');
            if method.as_str().unicode_len() > 0 {
                call.is_fn_call = true;
                call.function_name = token;
            }
            return true;
        }
        return false;
    }
    let wanted = trimmed(function_token.as_str());
    let ghost funcs = views(func_list@);
    let mut i: usize = 0;
    while i < func_list.len()
        invariant
            i <= func_list@.len(),
            funcs == views(func_list@),
            wanted@ == trim(after_last(token@, '#')),
            !is_unsafe,
            *call == *old(call),
            forall|j: int| 0 <= j < i ==> trim(after_last(#[trigger] funcs[j], '#')) != wanted@,
        decreases func_list@.len() - i,
    {
        let name = trimmed(last_piece(&func_list[i], '#').as_str());
        assert(funcs[i as int] == func_list@[i as int]@);
        if str_eq(name.as_str(), wanted.as_str()) {
            assert(trim(after_last(funcs[i as int], '#')) == trim(after_last(token@, '#')));
            assert(exists|j: int| 0 <= j < funcs.len() && trim(after_last(funcs[j], '#')) == trim(after_last(token@, '#')));
            call.is_fn_call = true;
            call.function_name = from_module(&token);
            return false;
        }
        i = i + 1;
    }
    proof {
        if exists|j: int| 0 <= j < funcs.len() && trim(after_last(funcs[j], '#')) == trim(after_last(token@, '#')) {
            let j = choose|j: int| 0 <= j < funcs.len() && trim(after_last(funcs[j], '#')) == trim(after_last(token@, '#'));
            assert(trim(after_last(funcs[j], '#')) != wanted@);
        }
    }
    false
}

/// The events reported for an unknown flag: a warning and a hint.
pub open spec fn unknown_flag_events(token: Seq<char>, line: int, column: int) -> Seq<PEvent> {
    seq![
        PEvent::Log { log_type: LogTypes::Warning, message: "[[ ]] flag not found."@, token, line, column },
        PEvent::Log {
            log_type: LogTypes::Help,
            message: "you may have missed this: [[ \"..\" ]]"@,
            token,
            line,
            column,
        },
    ]
}

/// An event as plain values.
pub open spec fn event_view(e: GreteaParseEvent) -> PEvent {
    match e {
        GreteaParseEvent::Log { log_type, message, token, line, column } => PEvent::Log {
            log_type,
            message: message@,
            token: token@,
            line: line as int,
            column: column as int,
        },
        GreteaParseEvent::Runtime { script } => PEvent::Runtime { script: script@ },
    }
}

/// The events as plain values.
pub open spec fn event_views(e: Seq<GreteaParseEvent>) -> Seq<PEvent> {
    e.map_values(|x: GreteaParseEvent| event_view(x))
}

/// A token between `[[` and `]]` (see `setter_next`).
#[verifier::spinoff_prover]
fn on_library_setter(
    is_default: &mut bool,
    member_default: &mut String,
    cg: &mut GreteaCodegen,
    events: &mut Vec<GreteaParseEvent>,
    token: &String,
    line: u32,
    column: u32,
)
    ensures
        final(cg).sources == old(cg).sources,
        prefix_of(old(events)@, final(events)@),
        ({
            let r = setter_next(*old(is_default), old(member_default)@, old(cg).optimize, token@);
            &&& *final(is_default) == r.is_default
            &&& final(member_default)@ == r.member_default
            &&& final(cg).optimize == r.optimize
            &&& final(cg).generated@ == old(cg).generated@ + r.text
            &&& event_views(final(events)@) == event_views(old(events)@) + if r.unknown {
                unknown_flag_events(token@, line as int, column as int)
            } else {
                seq![]
            }
        }),
{
    proof {
        reveal_strlit("=");
        reveal_strlit("library");
        reveal_strlit("stl");
        reveal_strlit("no_optimize");
        reveal_strlit("optimize");
        reveal_strlit("default");
    }
    let ghost gen0 = cg.generated@;
    let ghost ev0 = event_views(events@);
    if *is_default {
        if !tok_is(token, "=") {
            *member_default = token.clone();
        }
        assert(cg.generated@ =~= gen0 + seq![]);
        assert(event_views(events@) =~= ev0 + seq![]);
        return ;
    }
    if tok_is(token, "library") || tok_is(token, "stl") {
        cg.header_guards();
        assert(cg.generated@ =~= gen0 + (seq!['#'] + "pragma"@ + seq![' '] + "once"@ + seq!['\n']));
    } else if tok_is(token, "no_optimize") {
        cg.optimize = false;
        assert(cg.generated@ =~= gen0 + seq![]);
    } else if tok_is(token, "optimize") {
        cg.optimize = true;
        assert(cg.generated@ =~= gen0 + seq![]);
    } else if tok_is(token, "default") {
        *is_default = true;
        assert(cg.generated@ =~= gen0 + seq![]);
    } else if starts_with(token.as_str(), '"') && ends_with(token.as_str(), '"') {
        cg.character(&extract_argument(token));
        assert(cg.generated@ =~= gen0 + (extracted_argument(token@) + seq!['\n']));
    } else {
        let ghost e0 = events@;
        events.push(
            GreteaParseEvent::Log {
                log_type: LogTypes::Warning,
                message: to("[[ ]] flag not found."),
                token: token.clone(),
                line,
                column,
            },
        );
        events.push(
            GreteaParseEvent::Log {
                log_type: LogTypes::Help,
                message: to("you may have missed this: [[ \"..\" ]]"),
                token: token.clone(),
                line,
                column,
            },
        );
        assert(event_views(events@) =~= event_views(e0) + unknown_flag_events(token@, line as int, column as int));
        assert(cg.generated@ =~= gen0 + seq![]);
        assert(prefix_of(e0, events@));
        return ;
    }
    assert(event_views(events@) =~= ev0 + seq![]);
}

/// Conditions and the brackets of element accesses (see `cond_next`).
#[verifier::spinoff_prover]
fn on_condition_or_element(
    is_statement: &mut bool,
    statement_data: &mut Vec<String>,
    is_while: &mut bool,
    is_line: bool,
    call: &mut CallState,
    cg: &mut GreteaCodegen,
    matched_type: GreteaKeywords,
    token: String,
    line: u32,
    column: u32,
) -> (res: Result<(), GreteaParseError>)
    requires
        *old(is_statement) <==> old(statement_data)@.len() >= 1,
    ensures
        res is Ok ==> (*final(is_statement) <==> final(statement_data)@.len() >= 1),
        final(cg).sources == old(cg).sources,
        final(cg).optimize == old(cg).optimize,
        res is Err <==> {
            &&& matched_type == GreteaKeywords::LeftSqBracket
            &&& !is_line && !*old(is_statement) && old(call).is_fn_call
            &&& old(call).function_args@.len() == 0
        },
        res matches Err(e) ==> {
            &&& e.kind == GreteaParseErrorKind::ElementWithoutArgument && e.token@ == token@
            &&& e.line == line && e.column == column
        },
        ({
            let r = cond_next(
                matched_type,
                *old(is_statement),
                views(old(statement_data)@),
                *old(is_while),
                is_line,
                old(call)@,
                token@,
            );
            &&& (res is Err) == r.fails
            &&& res is Ok ==> {
                &&& *final(is_statement) == r.is_statement
                &&& views(final(statement_data)@) == r.statement_data
                &&& *final(is_while) == r.is_while
                &&& final(call)@ == r.call
                &&& final(cg).generated@ == old(cg).generated@ + r.text
            }
        }),
{
    proof {
        reveal_strlit("[");
        reveal_strlit("]");
    }
    let ghost gen0 = cg.generated@;
    let ghost d0 = views(statement_data@);
    let ghost a0 = views(call.function_args@);
    if matched_type == GreteaKeywords::If || matched_type == GreteaKeywords::Else || matched_type == GreteaKeywords::While {
        *is_statement = true;
        if matched_type == GreteaKeywords::While {
            *is_while = true;
        }
        statement_data.push(token);
        assert(views(statement_data@) =~= d0.push(token@));
        assert(cg.generated@ =~= gen0 + seq![]);
        return Ok(());
    }
    if matched_type == GreteaKeywords::LeftSqBracket {
        if is_line {
            cg.character(&to("["));
            assert(cg.generated@ =~= gen0 + ("["@ + seq!['\n']));
        } else if *is_statement {
            statement_data.push(to("["));
            assert(views(statement_data@) =~= d0.push("["@));
            assert(cg.generated@ =~= gen0 + seq![]);
        } else if call.is_fn_call {
            if call.function_args.len() == 0 {
                return Err(parse_error(line, column, GreteaParseErrorKind::ElementWithoutArgument, &token));
            }
            let last = call.function_args.pop().unwrap();
            assert(views(call.function_args@) =~= a0.drop_last());
            assert(last@ == a0.last());
            let ghost p0 = call.pretty_arg@;
            call.pretty_arg.append(last.as_str());
            push_char(&mut call.pretty_arg, '[');
            assert(call.pretty_arg@ =~= p0 + a0.last() + seq!['[']);
            call.is_element = true;
            assert(cg.generated@ =~= gen0 + seq![]);
        } else {
            assert(cg.generated@ =~= gen0 + seq![]);
        }
        return Ok(());
    }
    if matched_type == GreteaKeywords::RightSqBracket {
        if is_line {
            cg.character(&to("]"));
            assert(cg.generated@ =~= gen0 + ("]"@ + seq!['\n']));
        } else if *is_statement {
            statement_data.push(to("]"));
            assert(views(statement_data@) =~= d0.push("]"@));
            assert(cg.generated@ =~= gen0 + seq![]);
        } else if call.is_fn_call {
            let ghost p0 = call.pretty_arg@;
            push_char(&mut call.pretty_arg, ']');
            assert(call.pretty_arg@ =~= p0 + seq![']']);
            call.function_args.push(call.pretty_arg.clone());
            assert(views(call.function_args@) =~= a0.push(call.pretty_arg@));
            call.pretty_arg = String::new();
            call.is_element = false;
            assert(cg.generated@ =~= gen0 + seq![]);
        } else {
            assert(cg.generated@ =~= gen0 + seq![]);
        }
        return Ok(());
    }
    assert(cg.generated@ =~= gen0 + seq![]);
    Ok(())
}

/// What a token inside a structure definition does (see `struct_next`).
#[verifier::opaque]
pub open spec fn struct_read(
    st0: PStruct,
    token: Seq<char>,
    st1: PStruct,
    gen0: Seq<char>,
    gen1: Seq<char>,
    vars0: Seq<GreteaVariableData>,
    vars1: Seq<GreteaVariableData>,
) -> bool {
    let r = struct_next(st0, token);
    &&& st1 == r.0
    &&& gen1 == gen0 + r.1
    &&& match r.2 {
        Some(d) => recorded(vars0, vars1, d.0, d.1, d.2),
        None => vars1 == vars0,
    }
}

/// A token inside a structure definition.
#[verifier::spinoff_prover]
fn on_struct(strct: &mut StructState, cg: &mut GreteaCodegen, vars: &mut Vec<GreteaVariableData>, token: &String)
    ensures
        final(cg).sources == old(cg).sources,
        final(cg).optimize == old(cg).optimize,
        prefix_of(old(vars)@, final(vars)@),
        struct_read(old(strct)@, token@, final(strct)@, old(cg).generated@, final(cg).generated@, old(vars)@, final(vars)@),
{
    proof {
        reveal(struct_read);
        reveal_strlit(">");
        reveal_strlit("<");
        reveal_strlit("{");
        reveal_strlit(":");
        reveal_strlit("{\npublic:");
    }
    let ghost g0 = cg.generated@;
    if !strct.is_struct_member {
        strct.struct_name = token.clone();
        strct.is_struct_member = true;
        assert(cg.generated@ =~= g0 + seq![]);
        return ;
    }
    if tok_is(token, ">") {
        strct.is_struct_generic = false;
        assert(cg.generated@ =~= g0 + seq![]);
        return ;
    }
    if strct.is_struct_generic {
        strct.struct_generic = token.clone();
        assert(cg.generated@ =~= g0 + seq![]);
        return ;
    }
    if tok_is(token, "<") {
        strct.is_struct_generic = true;
        assert(cg.generated@ =~= g0 + seq![]);
        return ;
    }
    if tok_is(token, "{") {
        cg.structure(&strct.struct_name, &strct.struct_generic);
        let ghost l0 = views(strct.struct_list@);
        strct.struct_list.push(strct.struct_name.clone());
        assert(views(strct.struct_list@) =~= l0.push(strct.struct_name@));
        cg.character(&to("{\npublic:"));
        assert(cg.generated@ =~= g0 + (structure_text(strct.struct_name@, strct.struct_generic@) + "{\npublic:"@
            + seq!['\n']));
        return ;
    }
    if strct.struct_member_name.as_str().unicode_len() == 0 {
        strct.struct_member_name = token.clone();
        assert(cg.generated@ =~= g0 + seq![]);
        return ;
    }
    if tok_is(token, ":") {
        assert(cg.generated@ =~= g0 + seq![]);
        return ;
    }
    if strct.struct_member_type.as_str().unicode_len() > 0 && (ends_with(token.as_str(), '\n') || ends_with(
        token.as_str(),
        ',',
    ) || ends_with(token.as_str(), '\\')) {
        cg.variable_definition(
            &strct.struct_member_default,
            &strct.struct_member_type,
            &strct.struct_member_name,
            !strct.struct_member_immutable,
        );
        push_var(vars, &strct.struct_member_name, &strct.struct_member_type, &strct.struct_member_default);
        strct.struct_member_name = String::new();
        strct.struct_member_type = String::new();
        strct.struct_member_default = String::new();
        strct.is_default = false;
        strct.struct_member_immutable = true;
        return ;
    }
    strct.struct_member_type = token.clone();
    assert(cg.generated@ =~= g0 + seq![]);
}

/// A token of a function head: name, generic parameter, arguments, return type.
fn on_fn(
    func: &mut FnState,
    fn_args: &mut StrMap<String>,
    is_fn_data: &mut bool,
    is_expandable: &mut bool,
    line: u32,
    column: u32,
    p: &mut GreteaParser,
    cg: &mut GreteaCodegen,
    token: &String,
) -> (res: Result<(), GreteaParseError>)
    requires
        old(fn_args).wf(),
        *old(is_fn_data) ==> old(p).func_data@.len() >= 1,
    ensures
        final(fn_args).wf(),
        *final(is_fn_data) ==> final(p).func_data@.len() >= 1,
        *old(is_fn_data) ==> *final(is_fn_data),
        final(cg).sources == old(cg).sources,
        final(cg).optimize == old(cg).optimize,
        keeps(*old(p), *final(p)),
        final(p).compile_list == old(p).compile_list,
        res matches Err(e) ==> {
            &&& e.line == line && e.column == column && e.token@ == token@
            &&& e.kind == GreteaParseErrorKind::MissingReturnType
        },
        res is Err <==> {
            &&& old(func).is_fn_name && old(func).is_fn_argument && !old(func).is_generic
            &&& old(func).is_fn_return_value
            &&& token@ == "{"@
        },
        fn_read(
            old(func)@,
            text_pairs(old(fn_args)),
            *old(is_fn_data),
            *old(is_expandable),
            token@,
            final(func)@,
            text_pairs(final(fn_args)),
            *final(is_fn_data),
            *final(is_expandable),
            old(cg).generated@,
            final(cg).generated@,
            old(p).func_data@,
            final(p).func_data@,
            views(old(p).func_list@),
            views(final(p).func_list@),
            res is Err,
        ),
{
    if func.is_fn_name && func.is_fn_argument && !func.is_generic && !tok_is(token, "(") {
        fn_argument(func, fn_args, is_fn_data, is_expandable, line, column, p, cg, token)
    } else {
        fn_head(func, fn_args, is_fn_data, is_expandable, line, column, p, cg, token)
    }
}

/// A token among the arguments of a function head (after `(`).
#[verifier::spinoff_prover]
fn fn_argument(
    func: &mut FnState,
    fn_args: &mut StrMap<String>,
    is_fn_data: &mut bool,
    is_expandable: &mut bool,
    line: u32,
    column: u32,
    p: &mut GreteaParser,
    cg: &mut GreteaCodegen,
    token: &String,
) -> (res: Result<(), GreteaParseError>)
    requires
        old(fn_args).wf(),
        *old(is_fn_data) ==> old(p).func_data@.len() >= 1,
        old(func).is_fn_name && old(func).is_fn_argument && !old(func).is_generic && token@ != "("@,
    ensures
        final(fn_args).wf(),
        *final(is_fn_data) ==> final(p).func_data@.len() >= 1,
        *old(is_fn_data) ==> *final(is_fn_data),
        final(cg).sources == old(cg).sources,
        final(cg).optimize == old(cg).optimize,
        keeps(*old(p), *final(p)),
        final(p).compile_list == old(p).compile_list,
        res matches Err(e) ==> {
            &&& e.line == line && e.column == column && e.token@ == token@
            &&& e.kind == GreteaParseErrorKind::MissingReturnType
        },
        res is Err <==> {
            &&& old(func).is_fn_name && old(func).is_fn_argument && !old(func).is_generic
            &&& old(func).is_fn_return_value
            &&& token@ == "{"@
        },
        fn_read(
            old(func)@,
            text_pairs(old(fn_args)),
            *old(is_fn_data),
            *old(is_expandable),
            token@,
            final(func)@,
            text_pairs(final(fn_args)),
            *final(is_fn_data),
            *final(is_expandable),
            old(cg).generated@,
            final(cg).generated@,
            old(p).func_data@,
            final(p).func_data@,
            views(old(p).func_list@),
            views(final(p).func_list@),
            res is Err,
        ),
{
    proof {
        reveal(fn_read);
        reveal_strlit("{");
        reveal_strlit("<");
        reveal_strlit("(");
        reveal_strlit(":");
        reveal_strlit("=");
        reveal_strlit(">");
        reveal_strlit("'");
        reveal_strlit(")");
        reveal_strlit(",");
        reveal_strlit("void");
        reveal_strlit("...");
        assert("{"@[0] != "<"@[0] && "{"@[0] != "("@[0] && "{"@[0] != ":"@[0] && "{"@[0] != "="@[0]);
    }
    let ghost gen0 = cg.generated@;
    if tok_is(token, ":") {
        return Ok(());
    }
    if tok_is(token, "=") {
        func.is_fn_return_value = true;
        func.is_void = false;
        return Ok(());
    }
    if tok_is(token, "{") {
        if func.is_fn_return_value {
            return Err(parse_error(line, column, GreteaParseErrorKind::MissingReturnType, token));
        }
        func.is_void = true;
    }
    if func.is_fn_return_value || func.is_void {
        let fn_val = if func.is_fn_return_value {
            token.clone()
        } else {
            to("void")
        };
        cg.function(p, fn_args, &func.fn_name, &fn_val, &func.fn_generic, *is_expandable, func.is_void);
        assert(p.func_data@.drop_last() =~= old(p).func_data@);
        *fn_args = StrMap::new();
        assert(text_pairs(fn_args) =~= Seq::<(Seq<char>, Seq<char>)>::empty());
        *is_fn_data = true;
        func.is_fn = false;
        func.is_fn_name = false;
        func.is_generic = false;
        *is_expandable = false;
        func.is_fn_argument = false;
        func.is_fn_return_value = false;
        func.is_void = false;
        func.fn_generic = String::new();
        return Ok(());
    }
    if func.argument_name.as_str().unicode_len() == 0 {
        if !tok_is(token, ")") {
            func.argument_name = token.clone();
        } else {
            func.argument_name = String::new();
            func.argument_value = String::new();
        }
        return Ok(());
    }
    if func.argument_value.as_str().unicode_len() == 0 {
        if !tok_is(token, ")") {
            func.argument_value = token.clone();
        }
        return Ok(());
    } else {
        let t = trimmed(token.as_str());
        if tok_is(&t, ",") || tok_is(&t, ")") {
            if *is_expandable {
                if str_eq(func.argument_value.as_str(), func.fn_generic.as_str()) {
                    let ghost v0 = func.argument_value@;
                    func.argument_value.append("...");
                    assert(func.argument_value@ =~= v0 + "..."@);
                }
            }
            file_argument(fn_args, func.argument_name.clone(), func.argument_value.clone());
            func.argument_name = String::new();
            func.argument_value = String::new();
        } else {
            let ghost v0 = func.argument_value@;
            func.argument_value.append(token.as_str());
            push_char(&mut func.argument_value, ' ');
            assert(func.argument_value@ =~= v0 + token@ + seq![' ']);
        }
        return Ok(());
    }
}

/// A token of a function head other than its arguments.
#[verifier::spinoff_prover]
fn fn_head(
    func: &mut FnState,
    fn_args: &mut StrMap<String>,
    is_fn_data: &mut bool,
    is_expandable: &mut bool,
    line: u32,
    column: u32,
    p: &mut GreteaParser,
    cg: &mut GreteaCodegen,
    token: &String,
) -> (res: Result<(), GreteaParseError>)
    requires
        old(fn_args).wf(),
        *old(is_fn_data) ==> old(p).func_data@.len() >= 1,
        !(old(func).is_fn_name && old(func).is_fn_argument && !old(func).is_generic && token@ != "("@),
    ensures
        final(fn_args).wf(),
        *final(is_fn_data) ==> final(p).func_data@.len() >= 1,
        *old(is_fn_data) ==> *final(is_fn_data),
        final(cg).sources == old(cg).sources,
        final(cg).optimize == old(cg).optimize,
        keeps(*old(p), *final(p)),
        final(p).compile_list == old(p).compile_list,
        res matches Err(e) ==> {
            &&& e.line == line && e.column == column && e.token@ == token@
            &&& e.kind == GreteaParseErrorKind::MissingReturnType
        },
        res is Err <==> {
            &&& old(func).is_fn_name && old(func).is_fn_argument && !old(func).is_generic
            &&& old(func).is_fn_return_value
            &&& token@ == "{"@
        },
        fn_read(
            old(func)@,
            text_pairs(old(fn_args)),
            *old(is_fn_data),
            *old(is_expandable),
            token@,
            final(func)@,
            text_pairs(final(fn_args)),
            *final(is_fn_data),
            *final(is_expandable),
            old(cg).generated@,
            final(cg).generated@,
            old(p).func_data@,
            final(p).func_data@,
            views(old(p).func_list@),
            views(final(p).func_list@),
            res is Err,
        ),
{
    proof {
        reveal(fn_read);
        reveal_strlit("{");
        reveal_strlit("<");
        reveal_strlit("(");
        reveal_strlit(":");
        reveal_strlit("=");
        reveal_strlit(">");
        reveal_strlit("'");
        reveal_strlit(")");
        reveal_strlit(",");
        reveal_strlit("void");
        reveal_strlit("...");
        assert("{"@[0] != "<"@[0] && "{"@[0] != "("@[0] && "{"@[0] != ":"@[0] && "{"@[0] != "="@[0]);
    }
    let ghost gen0 = cg.generated@;
    if func.is_fn_name {
        if tok_is(token, "<") && !func.is_fn_argument {
            func.is_generic = true;
            return Ok(());
        }
        if func.is_generic {
            if tok_is(token, ">") {
                func.is_generic = false;
                return Ok(());
            }
            if tok_is(token, "'") {
                *is_expandable = true;
                return Ok(());
            }
            func.fn_generic = token.clone();
            return Ok(());
        }
        if tok_is(token, "(") {
            func.is_fn_argument = true;
            return Ok(());
        }
        if tok_is(token, ")") {
            func.is_void = true;
            return Ok(());
        }
        func.is_fn = false;
        func.is_fn_name = false;
        return Ok(());
    }
    func.fn_name = last_piece(token, '#');
    func.is_fn_name = true;
    let ghost names0 = views(p.func_list@);
    p.func_list.push(func.fn_name.clone());
    assert(views(p.func_list@) =~= names0.push(func.fn_name@));
    Ok(())
}

/// `after` is `before` with the function `(name, return type, arguments)` recorded at its end.
pub open spec fn function_recorded(
    before: Seq<GreteaFunctionData>,
    after: Seq<GreteaFunctionData>,
    name: Seq<char>,
    ret: Seq<char>,
    args: Seq<(Seq<char>, Seq<char>)>,
) -> bool {
    &&& after.len() == before.len() + 1
    &&& after.drop_last() == before
    &&& after.last().__function_name@ == name
    &&& after.last().__function_return_type@ == ret
    &&& argument_records(after.last().__function_arguments@, args)
}

/// What a token of a function head does (see `fn_next`): unless it fails, the new state,
/// the C++ appended, the function recorded and the name added, as `fn_next` says.
#[verifier::opaque]
pub open spec fn fn_read(
    f0: PFn,
    args0: Seq<(Seq<char>, Seq<char>)>,
    fd0: bool,
    ex0: bool,
    token: Seq<char>,
    f1: PFn,
    args1: Seq<(Seq<char>, Seq<char>)>,
    fd1: bool,
    ex1: bool,
    gen0: Seq<char>,
    gen1: Seq<char>,
    funcs0: Seq<GreteaFunctionData>,
    funcs1: Seq<GreteaFunctionData>,
    names0: Seq<Seq<char>>,
    names1: Seq<Seq<char>>,
    failed: bool,
) -> bool {
    let r = fn_next(f0, args0, fd0, ex0, token);
    &&& failed == r.fails
    &&& !r.fails ==> {
        &&& f1 == r.f
        &&& args1 == r.args
        &&& fd1 == r.is_fn_data
        &&& ex1 == r.is_expandable
        &&& gen1 == gen0 + r.text
        &&& match r.record {
            Some(x) => function_recorded(funcs0, funcs1, x.0, x.1, x.2),
            None => funcs1 == funcs0,
        }
        &&& match r.named {
            Some(n) => names1 == names0.push(n),
            None => names1 == names0,
        }
    }
}

/// Adds the argument `name: value` to the function head's arguments.
fn file_argument(fn_args: &mut StrMap<String>, name: String, value: String)
    requires
        old(fn_args).wf(),
    ensures
        final(fn_args).wf(),
        text_pairs(final(fn_args)) == insert_pair(text_pairs(old(fn_args)), name@, value@),
{
    let ghost n = name@;
    let ghost v = value;
    fn_args.insert(name, value);
    proof {
        lemma_text_pairs_insert(old(fn_args).pairs(), n, v);
        assert(text_pairs(old(fn_args)) =~= text_values(old(fn_args).pairs()));
        assert(text_pairs(fn_args) =~= text_values(fn_args.pairs()));
    }
}

/// The pairs with their values as texts.
spec fn text_values(ps: Seq<(Seq<char>, String)>) -> Seq<(Seq<char>, Seq<char>)> {
    ps.map_values(|e: (Seq<char>, String)| (e.0, e.1@))
}

proof fn lemma_text_pairs_insert(ps: Seq<(Seq<char>, String)>, k: Seq<char>, v: String)
    ensures
        text_values(insert_pair(ps, k, v)) == insert_pair(text_values(ps), k, v@),
    decreases ps.len(),
{
    let t = text_values(ps);
    if ps.len() == 0 {
        assert(text_values(insert_pair(ps, k, v)) =~= seq![(k, v@)]);
    } else {
        assert(t[0] == (ps[0].0, ps[0].1@));
        assert(text_values(ps.drop_first()) =~= t.drop_first());
        if ps[0].0 == k {
            assert(text_values(insert_pair(ps, k, v)) =~= seq![(k, v@)] + t.drop_first());
        } else if text_less(k, ps[0].0) {
            assert(text_values(insert_pair(ps, k, v)) =~= seq![(k, v@)] + t);
        } else {
            lemma_text_pairs_insert(ps.drop_first(), k, v);
            assert(text_values(insert_pair(ps, k, v)) =~= seq![t[0]] + insert_pair(t.drop_first(), k, v@));
        }
    }
}

/// What a token of a variable definition does (see `var_next`): the new state, and, when
/// the definition is complete, its C++ appended and the variable recorded; nothing else
/// otherwise.
#[verifier::opaque]
pub open spec fn var_read(
    v0: PVar,
    structs: Seq<Seq<char>>,
    token: Seq<char>,
    v1: PVar,
    gen0: Seq<char>,
    gen1: Seq<char>,
    vars0: Seq<GreteaVariableData>,
    vars1: Seq<GreteaVariableData>,
) -> bool {
    &&& v1 == var_next(v0, structs, token).0
    &&& match var_next(v0, structs, token).1 {
        Some(d) => gen1 == gen0 + definition_text(d.0, d.1, d.2, d.3) && recorded(vars0, vars1, d.2, d.1, d.0),
        None => gen1 == gen0 && vars1 == vars0,
    }
}

/// A token of a variable definition.
#[verifier::spinoff_prover]
fn on_var(
    var: &mut VarState,
    struct_list: &Vec<String>,
    cg: &mut GreteaCodegen,
    vars: &mut Vec<GreteaVariableData>,
    token: &String,
)
    ensures
        final(cg).sources == old(cg).sources,
        final(cg).optimize == old(cg).optimize,
        prefix_of(old(vars)@, final(vars)@),
        var_read(old(var)@, views(struct_list@), token@, final(var)@, old(cg).generated@, final(cg).generated@, old(vars)@,
            final(vars)@),
{
    proof {
        reveal(var_read);
        reveal_strlit("=");
        reveal_strlit("{");
        reveal_strlit(":");
        reveal_strlit(",");
        reveal_strlit("\\");
        reveal_strlit("_");
        reveal_strlit("{\n");
        reveal_strlit(",\n");
    }
    if var.var_name.as_str().unicode_len() == 0 {
        var.var_name = token.clone();
        return ;
    }
    if var.is_var_type {
        if tok_is(token, "=") {
            var.is_var_type = false;
        } else {
            let ghost t0 = var.variable_type@;
            var.variable_type.append(token.as_str());
            push_char(&mut var.variable_type, ' ');
            assert(var.variable_type@ =~= t0 + token@ + seq![' ']);
            return ;
        }
    }
    if var.is_var_data {
        if var.is_var_struct {
            if tok_is(token, "{") {
                var.var_data.append("{\n");
                return ;
            }
            if var.var_struct_init_name.as_str().unicode_len() == 0 {
                var.var_struct_init_name = token.clone();
                return ;
            }
            if tok_is(token, ":") {
                return ;
            }
            if var.var_struct_init_data.as_str().unicode_len() > 0 && (tok_is(token, ",") || ends_with(
                token.as_str(),
                '\n',
            )) {
                let ghost d0 = var.var_data@;
                push_char(&mut var.var_data, '.');
                var.var_data.append(var.var_struct_init_name.as_str());
                push_char(&mut var.var_data, '=');
                var.var_data.append(var.var_struct_init_data.as_str());
                push_char(&mut var.var_data, ',');
                assert(var.var_data@ =~= d0 + seq!['.'] + var.var_struct_init_name@ + seq!['='] + var.var_struct_init_data@
                    + seq![',']);
                var.var_struct_init_name = String::new();
                var.var_struct_init_data = String::new();
                return ;
            }
            var.var_struct_init_data = token.clone();
            return ;
        }
        if var.is_var_data_vector {
            if tok_is(&trimmed_end(token.as_str()), "\\") {
                var.var_data.append(",\n");
                return ;
            }
            var.var_data.append(token.as_str());
            return ;
        }
        if contains_text(struct_list, token) {
            var.var_data = token.clone();
            var.is_var_struct = true;
            return ;
        }
        var.var_data = token.clone();
        if tok_is(&trimmed(var.variable_type.as_str()), "_") {
            var.variable_type = String::new();
        }
        cg.variable_definition(&var.var_data, &var.variable_type, &var.var_name, var.is_mutable);
        push_var(vars, &var.var_name, &var.variable_type, &var.var_data);
        var.is_var = false;
        var.is_var_type = false;
        var.is_var_data = false;
        var.is_mutable = false;
        var.var_data = String::new();
        var.variable_type = String::new();
        var.var_name = String::new();
        return ;
    }
    if tok_is(token, "=") {
        var.is_var_data = true;
        return ;
    }
    if tok_is(token, ":") {
        var.is_var_type = true;
        return ;
    }
    var.var_name = token.clone();
}

/// Is `token` one of the texts of the list?
fn contains_text(struct_list: &Vec<String>, token: &String) -> (b: bool)
    ensures
        b == views(struct_list@).contains(token@),
{
    let mut i: usize = 0;
    while i < struct_list.len()
        invariant
            i <= struct_list@.len(),
            forall|j: int| 0 <= j < i ==> struct_list@[j]@ != token@,
        decreases struct_list@.len() - i,
    {
        if str_eq(struct_list[i].as_str(), token.as_str()) {
            assert(views(struct_list@)[i as int] == token@);
            return true;
        }
        i = i + 1;
    }
    proof {
        if views(struct_list@).contains(token@) {
            let k = choose|k: int| 0 <= k < views(struct_list@).len() && views(struct_list@)[k] == token@;
            assert(struct_list@[k]@ == token@);
        }
    }
    false
}

/// Files a compile setting: the setting already filed under `name` gets `data` as its
/// text; otherwise a new setting `(config, name, data)` is added at the end.
pub fn file_compile_setting(
    compile_list: &mut Vec<GreteaCompileData>,
    config: GreteaCompileType,
    name: String,
    data: &String,
)
    ensures
        setting_views(final(compile_list)@) == file_setting(setting_views(old(compile_list)@), config, name@, data@),
{
    let ghost l0 = compile_list@;
    let ghost v0 = setting_views(l0);
    let mut i: usize = 0;
    while i < compile_list.len()
        invariant
            i <= compile_list@.len() == l0.len(),
            compile_list@ == l0,
            l0 == old(compile_list)@,
            v0 == setting_views(l0),
            forall|j: int| 0 <= j < i ==> (#[trigger] v0[j]).1 != name@,
        decreases compile_list@.len() - i,
    {
        if str_eq(compile_list[i].__name.as_str(), name.as_str()) {
            let entry = GreteaCompileData {
                __type: compile_list[i].__type,
                __name: compile_list[i].__name.clone(),
                __data: data.clone(),
            };
            compile_list.set(i, entry);
            proof {
                let k = i as int;
                assert(v0[k].1 == name@);
                let j = choose|j: int| 0 <= j < v0.len() && v0[j].1 == name@ && forall|x: int| 0 <= x < j ==> v0[x].1 != name@;
                assert(j == k) by {
                    if j < k {
                        assert(v0[j].1 != name@);
                    } else if k < j {
                        assert(v0[k].1 != name@);
                    }
                }
                assert(setting_views(compile_list@) =~= v0.update(k, (v0[k].0, name@, data@)));
            }
            return ;
        }
        i = i + 1;
    }
    compile_list.push(GreteaCompileData { __type: config, __name: name, __data: data.clone() });
    proof {
        assert(setting_views(compile_list@) =~= v0.push((config, name@, data@)));
    }
}

/// What a token inside a call does (see `call_next`): the error, if any; otherwise the
/// new state and the C++ appended.
#[verifier::opaque]
pub open spec fn call_read(
    c0: PCall,
    count0: int,
    ex0: bool,
    funcs: Seq<Seq<char>>,
    token: Seq<char>,
    c1: PCall,
    count1: int,
    ex1: bool,
    gen0: Seq<char>,
    gen1: Seq<char>,
    failed: Option<GreteaParseErrorKind>,
) -> bool {
    let r = call_next(c0, count0, ex0, funcs, token);
    &&& failed == r.fails
    &&& r.fails is None ==> c1 == r.call && count1 == r.count && ex1 == r.is_expandable && gen1 == gen0 + r.text
}

/// The kind of error in a result, if any.
pub open spec fn failure(res: Result<(), GreteaParseError>) -> Option<GreteaParseErrorKind> {
    match res {
        Ok(_) => None,
        Err(e) => Some(e.kind),
    }
}

/// A token inside a call: collects the arguments, and emits the call at its closing `)`.
#[verifier::spinoff_prover]
fn on_fn_call(
    call: &mut CallState,
    count: &mut u64,
    is_expandable: &mut bool,
    line: u32,
    column: u32,
    cg: &mut GreteaCodegen,
    func_list: &Vec<String>,
    token: &String,
    Ghost(n): Ghost<int>,
) -> (res: Result<(), GreteaParseError>)
    requires
        *old(count) < n < u32::MAX,
    ensures
        res is Ok ==> *final(count) <= n,
        final(cg).sources == old(cg).sources,
        final(cg).optimize == old(cg).optimize,
        res matches Err(e) ==> e.line == line && e.column == column && e.token@ == token@,
        res matches Err(e) ==> token@ == ")"@ && (e.kind == GreteaParseErrorKind::UnbalancedCallParentheses || e.kind
            == GreteaParseErrorKind::OperatorFirstArgument),
        call_read(
            old(call)@,
            *old(count) as int,
            *old(is_expandable),
            views(func_list@),
            token@,
            final(call)@,
            *final(count) as int,
            *final(is_expandable),
            old(cg).generated@,
            final(cg).generated@,
            failure(res),
        ),
{
    proof {
        reveal(call_read);
        reveal_strlit("(");
        reveal_strlit(")");
        reveal_strlit(",");
        reveal_strlit("+_");
        assert("("@[0] != ")"@[0]);
        assert(","@[0] != ")"@[0]);
        assert(","@[0] != "("@[0]);
        assert("+_"@.len() != ")"@.len());
        assert("+_"@.len() != "("@.len());
        assert("+_"@.len() != ","@.len());
    }
    let ghost gen0 = cg.generated@;
    if tok_is(token, "(") {
        if call.is_pretty_arg {
            call.pretty_arg.append(token.as_str());
        } else if *count >= 1 {
            let ghost a0 = views(call.function_args@);
            call.function_args.push(token.clone());
            assert(views(call.function_args@) =~= a0.push(token@));
        }
        *count = *count + 1;
        assert(cg.generated@ =~= gen0 + seq![]);
        return Ok(());
    }
    if tok_is(token, ")") {
        if *count == 0 {
            return Err(parse_error(line, column, GreteaParseErrorKind::UnbalancedCallParentheses, token));
        }
        if *count > 1 {
            if call.is_pretty_arg {
                call.pretty_arg.append(token.as_str());
                if *count == 2 {
                    call.is_pretty_arg = false;
                    let ghost a0 = views(call.function_args@);
                    call.function_args.push(call.pretty_arg.clone());
                    assert(views(call.function_args@) =~= a0.push(call.pretty_arg@));
                    call.pretty_arg = String::new();
                }
            } else {
                let ghost a0 = views(call.function_args@);
                call.function_args.push(token.clone());
                assert(views(call.function_args@) =~= a0.push(token@));
            }
            *count = *count - 1;
            assert(cg.generated@ =~= gen0 + seq![]);
            return Ok(());
        }
        if !tok_is(&call.function_name, "main") && call.function_args.len() > 0 && is_call_operator(
            call.function_args[0].as_str(),
        ) {
            assert(views(call.function_args@)[0] == call.function_args@[0]@);
            return Err(parse_error(line, column, GreteaParseErrorKind::OperatorFirstArgument, token));
        }
        proof {
            if call.function_args@.len() > 0 {
                assert(views(call.function_args@)[0] == call.function_args@[0]@);
            }
        }
        cg.function_call(&call.function_args, &call.function_name, *is_expandable);
        call.is_fn_call = false;
        *is_expandable = false;
        *count = 0;
        call.function_name = String::new();
        call.function_args = Vec::new();
        assert(views(call.function_args@) =~= Seq::<Seq<char>>::empty());
        return Ok(());
    }
    if tok_is(token, ",") {
        if *count != 0 && call.is_pretty_arg {
            call.pretty_arg.append(token.as_str());
        }
        assert(cg.generated@ =~= gen0 + seq![]);
        return Ok(());
    }
    assert(cg.generated@ =~= gen0 + seq![]);
    if tok_is(token, "+_") {
        *is_expandable = true;
        return Ok(());
    }
    if call.is_pretty_arg {
        call.pretty_arg.append(from_module(token).as_str());
        return Ok(());
    }
    let wanted = trimmed(last_piece(token, '#').as_str());
    if contains_text(func_list, &wanted) {
        call.pretty_arg = from_module(token);
        call.is_pretty_arg = true;
        return Ok(());
    }
    let ghost a0 = views(call.function_args@);
    call.function_args.push(token.clone());
    assert(views(call.function_args@) =~= a0.push(token@));
    Ok(())
}

/// A token that the parser passes over without a trace: empty, a space, or a line break.
pub open spec fn blank_token(t: Seq<char>) -> bool {
    t.len() == 0 || t == " "@ || t == "\n"@
}

/// How many of the tokens end a line (end with a line break).
pub open spec fn line_breaks(ts: Seq<Seq<char>>) -> nat
    decreases ts.len(),
{
    if ts.len() == 0 {
        0
    } else {
        line_breaks(ts.drop_last()) + if ends_with_char(ts.last(), '\n') {
            1nat
        } else {
            0nat
        }
    }
}

/// All tokens are blank.
pub open spec fn all_blank(ts: Seq<Seq<char>>) -> bool {
    forall|k: int| 0 <= k < ts.len() ==> blank_token(#[trigger] ts[k])
}

impl ParseState {
    /// One token.
    #[verifier::rlimit(50)]
    #[verifier::spinoff_prover]
    fn step(
        &mut self,
        p: &mut GreteaParser,
        cg: &mut GreteaCodegen,
        token: String,
        Ghost(i): Ghost<int>,
    ) -> (res: Result<(), GreteaParseError>)
        requires
            old(self).inv(old(p), old(cg), i),
            i + 1 < u32::MAX,
        ensures
            res is Ok ==> final(self).inv(final(p), final(cg), i + 1),
            keeps(*old(p), *final(p)),
            blank_token(token@) ==> res is Ok && *final(p) == *old(p) && *final(cg) == *old(cg),
            final(self).g.current_column == old(self).g.current_column + 1,
            final(self).g.current_line == old(self).g.current_line + if ends_with_char(token@, '\n') {
                1int
            } else {
                0int
            },
            res matches Err(e) ==> reported_at(e, final(self).g) && !blank_token(token@),
            res matches Err(e) ==> error_fits(e, old(p).init_ast.syntax_list@),
    {
        let ghost n = i + 1;
        proof {
            reveal_strlit(" ");
            reveal_strlit("\n");
        }
        self.g.current_column = self.g.current_column + 1;
        if token.as_str().unicode_len() == 0 || tok_is(&token, " ") || tok_is(&token, "\n") {
            if tok_is(&token, "\n") {
                self.g.current_line = self.g.current_line + 1;
            }
            return Ok(());
        }
        if ends_with(token.as_str(), '\n') {
            self.g.current_line = self.g.current_line + 1;
        }
        self.take(p, cg, token, Ghost(n))
    }

    /// A token that is not blank: waits for the rest of a quoted datum, then routes it.
    fn take(
        &mut self,
        p: &mut GreteaParser,
        cg: &mut GreteaCodegen,
        token: String,
        Ghost(n): Ghost<int>,
    ) -> (res: Result<(), GreteaParseError>)
        requires
            old(self).inv(old(p), old(cg), n),
            old(self).g.count_compile_parentheses < n,
            old(self).g.count_parentheses < n,
        ensures
            res is Ok ==> final(self).inv(final(p), final(cg), n),
            keeps(*old(p), *final(p)),
            res is Err ==> final(p).compile_list == old(p).compile_list,
            res matches Err(e) ==> error_fits(e, old(p).init_ast.syntax_list@),
            same_place(old(self).g, final(self).g),
            res matches Err(e) ==> reported_at(e, old(self).g),
    {
        let token = match gather(&mut self.is_get_data, &mut self.get_data, token) {
            Some(t) => t,
            None => {
                return Ok(());
            },
        };
        self.route(p, cg, token, Ghost(n))
    }

    /// A token, once it is whole: resolves aliases and settings, finds its keyword,
    /// and hands it to the handler of that keyword.
    fn route(
        &mut self,
        p: &mut GreteaParser,
        cg: &mut GreteaCodegen,
        token: String,
        Ghost(n): Ghost<int>,
    ) -> (res: Result<(), GreteaParseError>)
        requires
            old(self).inv(old(p), old(cg), n),
            old(self).g.count_compile_parentheses < n,
            old(self).g.count_parentheses < n,
        ensures
            res is Ok ==> final(self).inv(final(p), final(cg), n),
            same_place(old(self).g, final(self).g),
            res matches Err(e) ==> reported_at(e, old(self).g),
            keeps(*old(p), *final(p)),
            res is Err ==> final(p).compile_list == old(p).compile_list,
            res matches Err(e) ==> error_fits(e, old(p).init_ast.syntax_list@),
    {
        let last_return = if p.func_data.len() > 0 {
            p.func_data[p.func_data.len() - 1].__function_return_type.clone()
        } else {
            String::new()
        };
        let routed = resolve(
            &mut self.is_alias_replace,
            &mut self.is_type,
            &mut self.is_library_setter,
            &mut self.strct.is_default,
            &mut self.call.pretty_arg,
            ResolveCtx {
                is_cpp_linker: self.blk.is_cpp_linker,
                is_fn_call: self.call.is_fn_call,
                is_element: self.call.is_element,
                is_fn_name: self.func.is_fn_name,
                is_fn_argument: self.func.is_fn_argument,
                is_var_data: self.var.is_var_data,
                is_return: self.g.is_return,
            },
            &self.var.variable_type,
            &self.g.alias_list,
            p,
            &last_return,
            token,
        );
        match routed {
            Some((token, matched_type)) => self.on_keyword(p, cg, matched_type, token, Ghost(n)),
            None => Ok(()),
        }
    }

}

impl GreteaParser {
    /// Walks the tokens and generates their C++.
    ///
    /// The parser keeps what it held before (see `keeps`): it only adds variables,
    /// functions, function names and events.
    /// Blank tokens (empty, a space, a line break) generate nothing.
    /// An error names the token at which it arose: its column is that token's place
    /// (counted from 1), its line one more than the tokens up to it that end a line, and
    /// the token fits the error (see `error_fits`); a blank token never fails.
    pub fn parse(&mut self, tokens: &Vec<String>) -> (res: Result<GreteaCodegen, GreteaParseError>)
        requires
            old(self).init_ast.wf(),
            tokens@.len() + 2 < u32::MAX,
        ensures
            keeps(*old(self), *final(self)),
            res matches Ok(cg) ==> cg.wf(),
            all_blank(views(tokens@)) ==> (res matches Ok(cg) && cg.generated@.len() == 0
                && cg.sources@ == Map::<Seq<char>, bool>::empty() && cg.optimize && *final(self) == *old(self)),
            res matches Err(e) ==> {
                &&& 1 <= e.column <= tokens@.len()
                &&& !blank_token(tokens@[e.column - 1]@)
                &&& e.line == 1 + line_breaks(views(tokens@).take(e.column as int))
                &&& error_fits(e, old(self).init_ast.syntax_list@)
            },
    {
        let mut codegen = GreteaCodegen { generated: to(""), sources: StrMap::new(), optimize: true };
        proof {
            reveal_strlit("");
        }
        let mut st = ParseState::new();
        let ghost cg0 = codegen;
        let mut i: usize = 0;
        while i < tokens.len()
            invariant
                i <= tokens@.len(),
                tokens@.len() + 2 < u32::MAX,
                st.inv(self, &codegen, i as int),
                keeps(*old(self), *self),
                all_blank(views(tokens@).take(i as int)) ==> codegen == cg0 && *self == *old(self),
                cg0.generated@.len() == 0,
                cg0.sources@ == Map::<Seq<char>, bool>::empty(),
                cg0.optimize,
                st.g.current_column == i,
                st.g.current_line == 1 + line_breaks(views(tokens@).take(i as int)),
            decreases tokens@.len() - i,
        {
            let token = tokens[i].clone();
            let ghost before = *self;
            proof {
                let t = views(tokens@).take(i + 1);
                assert(t.drop_last() =~= views(tokens@).take(i as int));
                assert(t.last() == tokens@[i as int]@);
            }
            let r = st.step(self, &mut codegen, token, Ghost(i as int));
            proof {
                lemma_keeps_trans(*old(self), before, *self);
                if all_blank(views(tokens@).take(i + 1)) {
                    assert(views(tokens@).take(i + 1)[i as int] == tokens@[i as int]@);
                    assert forall|k: int| 0 <= k < i implies blank_token(#[trigger] views(tokens@).take(i as int)[k]) by {
                        assert(views(tokens@).take(i as int)[k] == views(tokens@).take(i + 1)[k]);
                    }
                }
            }
            match r {
                Ok(()) => {},
                Err(e) => {
                    return Err(e);
                },
            }
            i = i + 1;
        }
        proof {
            assert(views(tokens@).take(tokens@.len() as int) =~= views(tokens@));
        }
        Ok(codegen)
    }
}

/// The place of the first variable named `name`, if any.
pub open spec fn first_named(vars: Seq<GreteaVariableData>, name: Seq<char>) -> Option<int> {
    if exists|k: int| 0 <= k < vars.len() && vars[k].__name@ == name {
        Some(choose|k: int| 0 <= k < vars.len() && vars[k].__name@ == name && forall|j: int| 0 <= j < k ==> vars[j].__name@ != name)
    } else {
        None
    }
}

/// The text of the first compile setting filed under `name`, or `otherwise` when none is.
pub open spec fn setting_or(settings: Seq<GreteaCompileData>, name: Seq<char>, otherwise: Seq<char>) -> Seq<char>
    decreases settings.len(),
{
    if settings.len() == 0 {
        otherwise
    } else if settings[0].__name@ == name {
        settings[0].__data@
    } else {
        setting_or(settings.drop_first(), name, otherwise)
    }
}

/// What a token's resolution reads of the state.
pub struct ResolveCtx {
    pub is_cpp_linker: bool,
    pub is_fn_call: bool,
    pub is_element: bool,
    pub is_fn_name: bool,
    pub is_fn_argument: bool,
    pub is_var_data: bool,
    pub is_return: bool,
}

/// The outcome of a token's resolution.
pub struct ResolveStep {
    pub is_alias_replace: bool,
    pub is_type: bool,
    pub is_library_setter: bool,
    pub is_default: bool,
    pub pretty_arg: Seq<char>,
    /// The token as it is routed, and its keyword; `None` when it is taken up here.
    pub routed: Option<(Seq<char>, GreteaKeywords)>,
}

/// What a whole token stands for before its keyword is handled: after `#` it is replaced
/// by the alias it names (a lone `#` outside C++ blocks, calls and function heads marks
/// the next token so); after `type` a variable's name becomes its quoted type; inside an
/// element access it is added to the element; `type` counts as a keyword only in a call
/// or a variable's data; and `]]` after `[[ default` becomes the compile setting filed
/// under the variable's type (or the return type of the function being defined).
pub open spec fn resolve_next(
    is_alias_replace: bool,
    is_type: bool,
    is_library_setter: bool,
    is_default: bool,
    pretty_arg: Seq<char>,
    c: ResolveCtx,
    variable_type: Seq<char>,
    aliases: Map<Seq<char>, Seq<char>>,
    vars: Seq<GreteaVariableData>,
    compile: Seq<GreteaCompileData>,
    last_return: Seq<char>,
    table: Map<Seq<char>, GreteaKeywords>,
    token: Seq<char>,
) -> ResolveStep {
    let t1 = if is_alias_replace {
        alias_lookup(aliases, token)
    } else {
        token
    };
    let same = ResolveStep {
        is_alias_replace: false,
        is_type,
        is_library_setter,
        is_default,
        pretty_arg,
        routed: None,
    };
    if t1 == "#"@ && !c.is_cpp_linker && !c.is_fn_call && !c.is_fn_name && !c.is_fn_argument {
        ResolveStep { is_alias_replace: true, ..same }
    } else {
        let named = if is_type {
            first_named(vars, t1)
        } else {
            None
        };
        let t2 = match named {
            Some(k) => seq!['"'] + vars[k].__type@ + seq!['"'],
            None => t1,
        };
        let ty = is_type && named is None;
        let k = keyword_in(table, t2);
        if c.is_element && k != GreteaKeywords::RightSqBracket {
            ResolveStep { is_type: ty, pretty_arg: pretty_arg + t2, ..same }
        } else {
            let k2 = if k == GreteaKeywords::Type && !c.is_fn_call && !c.is_var_data {
                GreteaKeywords::Undefined
            } else {
                k
            };
            if k2 == GreteaKeywords::FlagRight && is_default {
                let t3 = if c.is_var_data {
                    setting_or(compile, trim_end(variable_type), t2)
                } else if c.is_return {
                    setting_or(compile, last_return, t2)
                } else {
                    t2
                };
                ResolveStep {
                    is_type: ty,
                    is_library_setter: false,
                    is_default: false,
                    routed: Some((t3, keyword_in(table, t3))),
                    ..same
                }
            } else {
                ResolveStep { is_type: ty, routed: Some((t2, k2)), ..same }
            }
        }
    }
}

/// Resolves a whole token (see `resolve_next`).
#[verifier::spinoff_prover]
fn resolve(
    is_alias_replace: &mut bool,
    is_type: &mut bool,
    is_library_setter: &mut bool,
    is_default: &mut bool,
    pretty_arg: &mut String,
    c: ResolveCtx,
    variable_type: &String,
    aliases: &StrMap<String>,
    p: &GreteaParser,
    last_return: &String,
    token: String,
) -> (res: Option<(String, GreteaKeywords)>)
    requires
        p.init_ast.wf(),
        aliases.wf(),
    ensures
        res matches Some((t, k)) ==> reads_as(p.init_ast.syntax_list@, t@, k),
        ({
            let r = resolve_next(
                *old(is_alias_replace),
                *old(is_type),
                *old(is_library_setter),
                *old(is_default),
                old(pretty_arg)@,
                c,
                variable_type@,
                alias_views(aliases),
                p.data_list.variable_list@,
                p.compile_list@,
                last_return@,
                p.init_ast.syntax_list@,
                token@,
            );
            &&& *final(is_alias_replace) == r.is_alias_replace
            &&& *final(is_type) == r.is_type
            &&& *final(is_library_setter) == r.is_library_setter
            &&& *final(is_default) == r.is_default
            &&& final(pretty_arg)@ == r.pretty_arg
            &&& match res {
                Some((t, k)) => r.routed == Some((t@, k)),
                None => r.routed is None,
            }
        }),
{
    proof {
        reveal(reads_as);
        reveal_strlit("#");
    }
    let mut token = token;
    if *is_alias_replace {
        token = alias_token(aliases, token);
        *is_alias_replace = false;
    }
    if tok_is(&token, "#") && !c.is_cpp_linker && !c.is_fn_call && !c.is_fn_name && !c.is_fn_argument {
        *is_alias_replace = true;
        return None;
    }
    if *is_type {
        token = typed_token(&p.data_list.variable_list, token, is_type);
    }
    let mut matched_type = p.init_ast.match_keyword(&token);
    if c.is_element && matched_type != GreteaKeywords::RightSqBracket {
        pretty_arg.append(token.as_str());
        return None;
    }
    if matched_type == GreteaKeywords::Type && !c.is_fn_call && !c.is_var_data {
        matched_type = GreteaKeywords::Undefined;
    }
    if matched_type == GreteaKeywords::FlagRight && *is_default {
        token = if c.is_var_data {
            let ty = trimmed_end(variable_type.as_str());
            setting_token(&p.compile_list, ty.as_str(), token)
        } else if c.is_return {
            setting_token(&p.compile_list, last_return.as_str(), token)
        } else {
            token
        };
        *is_library_setter = false;
        *is_default = false;
        matched_type = p.init_ast.match_keyword(&token);
    }
    Some((token, matched_type))
}

/// A quoted datum may span several tokens: collects them, and gives back the whole
/// datum once its closing quote arrives (`None` while it is still open).
fn gather(is_get_data: &mut bool, get_data: &mut String, token: String) -> (res: Option<String>)
    ensures
        ({
            let closes = ends_with_char(trim_end(token@), '"');
            if *old(is_get_data) {
                if closes {
                    &&& res matches Some(t) && t@ == old(get_data)@ + token@
                    &&& !*final(is_get_data) && final(get_data)@.len() == 0
                } else {
                    &&& res is None
                    &&& *final(is_get_data) && final(get_data)@ == old(get_data)@ + token@
                }
            } else if starts_with_char(token@, '"') && !closes {
                &&& res is None
                &&& *final(is_get_data) && final(get_data)@ == old(get_data)@ + token@
            } else {
                &&& res matches Some(t) && t@ == token@
                &&& !*final(is_get_data) && final(get_data)@ == old(get_data)@
            }
        }),
{
    if *is_get_data {
        get_data.append(token.as_str());
        if trimmed_ends_with(token.as_str(), '"') {
            *is_get_data = false;
            let t = get_data.clone();
            *get_data = String::new();
            Some(t)
        } else {
            None
        }
    } else if starts_with(token.as_str(), '"') {
        if !trimmed_ends_with(token.as_str(), '"') {
            *is_get_data = true;
            get_data.append(token.as_str());
            None
        } else {
            Some(token)
        }
    } else {
        Some(token)
    }
}

/// The token an alias stands for (the token itself when it is no alias).
fn alias_token(alias_list: &StrMap<String>, token: String) -> (res: String)
    requires
        alias_list.wf(),
    ensures
        res@ == alias_lookup(alias_views(alias_list), token@),
{
    match alias_list.get(token.as_str()) {
        Some(v) => v.clone(),
        None => token,
    }
}

/// After `type`: the quoted type of the first variable named by the token.
fn typed_token(vars: &Vec<GreteaVariableData>, token: String, is_type: &mut bool) -> (res: String)
    ensures
        match first_named(vars@, token@) {
            Some(k) => res@ == seq!['"'] + vars@[k].__type@ + seq!['"'] && !*final(is_type),
            None => res == token && *final(is_type) == *old(is_type),
        },
{
    let mut k: usize = 0;
    while k < vars.len()
        invariant
            k <= vars@.len(),
            *is_type == *old(is_type),
            forall|j: int| 0 <= j < k ==> vars@[j].__name@ != token@,
        decreases vars@.len() - k,
    {
        if str_eq(vars[k].__name.as_str(), token.as_str()) {
            proof {
                let w = choose|w: int| 0 <= w < vars@.len() && vars@[w].__name@ == token@ && forall|j: int|
                    0 <= j < w ==> vars@[j].__name@ != token@;
                assert(0 <= k < vars@.len() && vars@[k as int].__name@ == token@ && forall|j: int| 0 <= j < k
                    ==> vars@[j].__name@ != token@);
                if w < k {
                    assert(vars@[w].__name@ != token@);
                } else if w > k {
                    assert(vars@[k as int].__name@ != token@);
                }
                assert(first_named(vars@, token@) == Some(k as int));
            }
            let mut quoted = String::new();
            push_char(&mut quoted, '"');
            quoted.append(vars[k].__type.as_str());
            push_char(&mut quoted, '"');
            *is_type = false;
            return quoted;
        }
        k = k + 1;
    }
    token
}

/// The text of the first compile setting filed under `name` (the token itself when none is).
fn setting_token(compile_list: &Vec<GreteaCompileData>, name: &str, token: String) -> (res: String)
    ensures
        res@ == setting_or(compile_list@, name@, token@),
{
    let mut k: usize = 0;
    proof {
        assert(compile_list@.skip(0) =~= compile_list@);
    }
    while k < compile_list.len()
        invariant
            k <= compile_list@.len(),
            setting_or(compile_list@, name@, token@) == setting_or(compile_list@.skip(k as int), name@, token@),
        decreases compile_list@.len() - k,
    {
        proof {
            assert(compile_list@.skip(k as int).drop_first() =~= compile_list@.skip(k + 1));
        }
        if str_eq(compile_list[k].__name.as_str(), name) {
            return compile_list[k].__data.clone();
        }
        k = k + 1;
    }
    proof {
        assert(compile_list@.skip(k as int) =~= Seq::<GreteaCompileData>::empty());
    }
    token
}

/// The last of the pieces of `s` between occurrences of `c`.
fn last_piece(s: &String, c: char) -> (res: String)
    ensures
        res@ == crate::text::after_last(s@, c),
{
    let mut parts = split_on(s.as_str(), c);
    proof {
        lemma_split_nonempty(s@, c);
    }
    let last = parts.pop().unwrap();
    last
}

/// `optimize_undefined` on the tokens of a condition, computed.
fn condition_unfoldable(tokens: &Vec<String>) -> (b: bool)
    ensures
        b == optimize_undefined(views(tokens@)),
{
    tokens.len() >= 3 && is_eq_or_uneq(&tokens[0]) && is_eq_or_uneq(&tokens[1]) && tok_is(&tokens[2], "false")
}

} // verus!
