//! The steps of the parser over plain values: for each construct it reads (a variable,
//! a structure, a function head, a call, a return, an alias, ...), the state it keeps
//! for it, and what one token does to that state and to the C++ generated.
use vstd::prelude::*;
use crate::ast::{GreteaCompileType, GreteaKeywords};
use crate::parser::{GreteaParseErrorKind, extracted_argument};
use crate::log::LogTypes;
use crate::ast::cpp_scoped;
use crate::cg::{call_operator, set_text, definition_text, structure_text, function_text, call_text, enumeration_text};
use crate::text::{trim_end, trim, ends_with_char, starts_with_char, after_last, has_char};
use crate::strmap::insert_pair;
use crate::tokenizer::gretea_tokenizer::data_piece;

verus! {

/// A variable definition being read.
pub struct PVar {
    pub is_var: bool,
    pub is_mutable: bool,
    pub var_name: Seq<char>,
    pub is_var_data: bool,
    pub var_data: Seq<char>,
    pub is_var_type: bool,
    pub variable_type: Seq<char>,
    pub is_var_data_vector: bool,
    pub is_var_struct: bool,
    pub var_struct_init_name: Seq<char>,
    pub var_struct_init_data: Seq<char>,
}

/// A function head being read.
pub struct PFn {
    pub is_fn: bool,
    pub is_fn_name: bool,
    pub fn_name: Seq<char>,
    pub is_generic: bool,
    pub fn_generic: Seq<char>,
    pub is_fn_argument: bool,
    pub is_fn_return_value: bool,
    pub is_void: bool,
    pub argument_name: Seq<char>,
    pub argument_value: Seq<char>,
}

/// A call being read.
pub struct PCall {
    pub is_fn_call: bool,
    pub function_name: Seq<char>,
    pub function_args: Seq<Seq<char>>,
    pub is_pretty_arg: bool,
    pub pretty_arg: Seq<char>,
    pub is_element: bool,
}

/// A structure definition being read.
pub struct PStruct {
    pub is_struct: bool,
    pub struct_name: Seq<char>,
    pub is_struct_generic: bool,
    pub struct_generic: Seq<char>,
    pub is_struct_member: bool,
    pub struct_list: Seq<Seq<char>>,
    pub struct_member_name: Seq<char>,
    pub struct_member_type: Seq<char>,
    pub struct_member_default: Seq<char>,
    pub is_default: bool,
    pub struct_member_immutable: bool,
}

/// An enumeration being read.
pub struct PEnum {
    pub is_enum: bool,
    pub is_enum_type: bool,
    pub is_enum_data: bool,
    pub enum_name: Seq<char>,
    pub enum_type: Seq<char>,
    pub enum_data: Seq<char>,
}

/// A compile setting being read.
pub struct PComp {
    pub is_compile: bool,
    pub compile_config: GreteaCompileType,
    pub compile_type: Seq<char>,
    pub compile_data: Seq<char>,
}

/// A message or a `runtime` block, as plain values.
pub enum PEvent {
    Log { log_type: LogTypes, message: Seq<char>, token: Seq<char>, line: int, column: int },
    Runtime { script: Seq<char> },
}

/// A token inside an enumeration: its name, `=` and its type, then `{` and its items
/// (a line break follows each `,`).
pub open spec fn enum_next(en: PEnum, token: Seq<char>) -> PEnum {
    if en.is_enum_data {
        PEnum {
            enum_data: en.enum_data + token + if token == ","@ {
                seq!['\n']
            } else {
                seq![]
            },
            ..en
        }
    } else if token == "{"@ {
        PEnum { is_enum_data: true, ..en }
    } else if en.enum_name.len() == 0 {
        PEnum { enum_name: token, ..en }
    } else if en.is_enum_type {
        PEnum { enum_type: token, is_enum_type: false, ..en }
    } else if token == "="@ {
        PEnum { is_enum_type: true, ..en }
    } else {
        en
    }
}



/// A token of a variable definition: its name, `:` and its type, `=` and its data. The
/// data of a structure type is read up to its closing brace, the data of a list up to
/// its closing brace too; other data completes the definition, which is given back as
/// (data, type, name, mutable): a type `_` counts as none.
pub open spec fn var_next(v: PVar, structs: Seq<Seq<char>>, token: Seq<char>) -> (
    PVar,
    Option<(Seq<char>, Seq<char>, Seq<char>, bool)>,
) {
    if v.var_name.len() == 0 {
        (PVar { var_name: token, ..v }, None)
    } else if v.is_var_type && token != "="@ {
        (PVar { variable_type: v.variable_type + token + seq![' '], ..v }, None)
    } else {
        let v = PVar { is_var_type: false, ..v };
        if v.is_var_data {
            if v.is_var_struct {
                if token == "{"@ {
                    (PVar { var_data: v.var_data + "{\n"@, ..v }, None)
                } else if v.var_struct_init_name.len() == 0 {
                    (PVar { var_struct_init_name: token, ..v }, None)
                } else if token == ":"@ {
                    (v, None)
                } else if v.var_struct_init_data.len() > 0 && (token == ","@ || ends_with_char(token, '\n')) {
                    (
                        PVar {
                            var_data: v.var_data + seq!['.'] + v.var_struct_init_name + seq!['='] + v.var_struct_init_data
                                + seq![','],
                            var_struct_init_name: seq![],
                            var_struct_init_data: seq![],
                            ..v
                        },
                        None,
                    )
                } else {
                    (PVar { var_struct_init_data: token, ..v }, None)
                }
            } else if v.is_var_data_vector {
                if trim_end(token) == "\\"@ {
                    (PVar { var_data: v.var_data + ",\n"@, ..v }, None)
                } else {
                    (PVar { var_data: v.var_data + token, ..v }, None)
                }
            } else if structs.contains(token) {
                (PVar { var_data: token, is_var_struct: true, ..v }, None)
            } else {
                let ty = if trim(v.variable_type) == "_"@ {
                    seq![]
                } else {
                    v.variable_type
                };
                (
                    PVar {
                        is_var: false,
                        is_var_type: false,
                        is_var_data: false,
                        is_mutable: false,
                        var_data: seq![],
                        variable_type: seq![],
                        var_name: seq![],
                        ..v
                    },
                    Some((token, ty, v.var_name, v.is_mutable)),
                )
            }
        } else if token == "="@ {
            (PVar { is_var_data: true, ..v }, None)
        } else if token == ":"@ {
            (PVar { is_var_type: true, ..v }, None)
        } else {
            (PVar { var_name: token, ..v }, None)
        }
    }
}

/// A token inside a structure definition: its name, an optional `<generic>`, `{`
/// (which opens the class), then its members, each a name, `:`, a type, and a token that
/// ends with a line break, `,` or `\\`. Gives back the new state, the C++ to append,
/// and the member to record as a variable (name, type, default), if any. A member is
/// written `const` (immutable) unless `mut` cleared its flag.
pub open spec fn struct_next(st: PStruct, token: Seq<char>) -> (
    PStruct,
    Seq<char>,
    Option<(Seq<char>, Seq<char>, Seq<char>)>,
) {
    if !st.is_struct_member {
        (PStruct { struct_name: token, is_struct_member: true, ..st }, seq![], None)
    } else if token == ">"@ {
        (PStruct { is_struct_generic: false, ..st }, seq![], None)
    } else if st.is_struct_generic {
        (PStruct { struct_generic: token, ..st }, seq![], None)
    } else if token == "<"@ {
        (PStruct { is_struct_generic: true, ..st }, seq![], None)
    } else if token == "{"@ {
        (
            PStruct { struct_list: st.struct_list.push(st.struct_name), ..st },
            structure_text(st.struct_name, st.struct_generic) + "{\npublic:"@ + seq!['\n'],
            None,
        )
    } else if st.struct_member_name.len() == 0 {
        (PStruct { struct_member_name: token, ..st }, seq![], None)
    } else if token == ":"@ {
        (st, seq![], None)
    } else if st.struct_member_type.len() > 0 && (ends_with_char(token, '\n') || ends_with_char(token, ',')
        || ends_with_char(token, '\\')) {
        (
            PStruct {
                struct_member_name: seq![],
                struct_member_type: seq![],
                struct_member_default: seq![],
                is_default: false,
                struct_member_immutable: true,
                ..st
            },
            definition_text(
                st.struct_member_default,
                st.struct_member_type,
                st.struct_member_name,
                !st.struct_member_immutable,
            ),
            Some((st.struct_member_name, st.struct_member_type, st.struct_member_default)),
        )
    } else {
        (PStruct { struct_member_type: token, ..st }, seq![], None)
    }
}

/// The outcome of a token of a function head.
pub struct FnStep {
    pub f: PFn,
    /// The arguments read so far, in key order.
    pub args: Seq<(Seq<char>, Seq<char>)>,
    pub is_fn_data: bool,
    pub is_expandable: bool,
    /// The C++ to append.
    pub text: Seq<char>,
    /// The function to record: name, return type, arguments.
    pub record: Option<(Seq<char>, Seq<char>, Seq<(Seq<char>, Seq<char>)>)>,
    /// The name to add to the known functions.
    pub named: Option<Seq<char>>,
    /// The head gives `=` but no return type before `{`.
    pub fails: bool,
}

/// A token of a function head: the name (after its last `#`), an optional `<generic>`
/// (with `'` for a variadic one), `(`, arguments `name : type` separated by `,`, `)`, and
/// either `= type` or `{`. The head is written, and the function recorded, at the return
/// type or at `{`.
pub open spec fn fn_next(
    f: PFn,
    args: Seq<(Seq<char>, Seq<char>)>,
    is_fn_data: bool,
    is_expandable: bool,
    token: Seq<char>,
) -> FnStep {
    let same = FnStep {
        f,
        args,
        is_fn_data,
        is_expandable,
        text: seq![],
        record: None,
        named: None,
        fails: false,
    };
    if !f.is_fn_name {
        let name = after_last(token, '#');
        FnStep { f: PFn { fn_name: name, is_fn_name: true, ..f }, named: Some(name), ..same }
    } else if token == "<"@ && !f.is_fn_argument {
        FnStep { f: PFn { is_generic: true, ..f }, ..same }
    } else if f.is_generic {
        if token == ">"@ {
            FnStep { f: PFn { is_generic: false, ..f }, ..same }
        } else if token == "'"@ {
            FnStep { is_expandable: true, ..same }
        } else {
            FnStep { f: PFn { fn_generic: token, ..f }, ..same }
        }
    } else if token == "("@ {
        FnStep { f: PFn { is_fn_argument: true, ..f }, ..same }
    } else if f.is_fn_argument {
        if token == ":"@ {
            same
        } else if token == "="@ {
            FnStep { f: PFn { is_fn_return_value: true, is_void: false, ..f }, ..same }
        } else if token == "{"@ && f.is_fn_return_value {
            FnStep { fails: true, ..same }
        } else if f.is_fn_return_value || f.is_void || token == "{"@ {
            let is_void = f.is_void || token == "{"@;
            let ret = if f.is_fn_return_value {
                token
            } else {
                "void"@
            };
            FnStep {
                f: PFn {
                    is_fn: false,
                    is_fn_name: false,
                    is_generic: false,
                    is_fn_argument: false,
                    is_fn_return_value: false,
                    is_void: false,
                    fn_generic: seq![],
                    ..f
                },
                args: seq![],
                is_fn_data: true,
                is_expandable: false,
                text: function_text(args, f.fn_name, ret, f.fn_generic, is_expandable, is_void),
                record: Some((f.fn_name, ret, args)),
                ..same
            }
        } else if f.argument_name.len() == 0 {
            if token != ")"@ {
                FnStep { f: PFn { argument_name: token, ..f }, ..same }
            } else {
                FnStep { f: PFn { argument_name: seq![], argument_value: seq![], ..f }, ..same }
            }
        } else if f.argument_value.len() == 0 {
            if token != ")"@ {
                FnStep { f: PFn { argument_value: token, ..f }, ..same }
            } else {
                same
            }
        } else if trim(token) == ","@ || trim(token) == ")"@ {
            let value = if is_expandable && f.argument_value == f.fn_generic {
                f.argument_value + "..."@
            } else {
                f.argument_value
            };
            FnStep {
                f: PFn { argument_name: seq![], argument_value: seq![], ..f },
                args: insert_pair(args, f.argument_name, value),
                ..same
            }
        } else {
            FnStep { f: PFn { argument_value: f.argument_value + token + seq![' '], ..f }, ..same }
        }
    } else if token == ")"@ {
        FnStep { f: PFn { is_void: true, ..f }, ..same }
    } else {
        FnStep { f: PFn { is_fn: false, is_fn_name: false, ..f }, ..same }
    }
}

/// The outcome of a token inside a call.
pub struct CallStep {
    pub call: PCall,
    /// Open parentheses.
    pub count: int,
    pub is_expandable: bool,
    /// The C++ to append.
    pub text: Seq<char>,
    pub fails: Option<GreteaParseErrorKind>,
}

/// A token inside a call: parentheses are counted (the outer pair delimits the
/// arguments), an argument that names a known function gathers the tokens up to its own
/// closing parenthesis, `+_` unpacks the call, and the closing parenthesis of the call
/// writes it.
pub open spec fn call_next(c: PCall, count: int, ex: bool, funcs: Seq<Seq<char>>, token: Seq<char>) -> CallStep {
    let same = CallStep { call: c, count, is_expandable: ex, text: seq![], fails: None };
    if token == "("@ {
        if c.is_pretty_arg {
            CallStep { call: PCall { pretty_arg: c.pretty_arg + token, ..c }, count: count + 1, ..same }
        } else if count >= 1 {
            CallStep { call: PCall { function_args: c.function_args.push(token), ..c }, count: count + 1, ..same }
        } else {
            CallStep { count: count + 1, ..same }
        }
    } else if token == ")"@ {
        if count == 0 {
            CallStep { fails: Some(GreteaParseErrorKind::UnbalancedCallParentheses), ..same }
        } else if count > 1 {
            let c1 = if c.is_pretty_arg {
                let pa = c.pretty_arg + token;
                if count == 2 {
                    PCall { is_pretty_arg: false, function_args: c.function_args.push(pa), pretty_arg: seq![], ..c }
                } else {
                    PCall { pretty_arg: pa, ..c }
                }
            } else {
                PCall { function_args: c.function_args.push(token), ..c }
            };
            CallStep { call: c1, count: count - 1, ..same }
        } else if c.function_name != "main"@ && c.function_args.len() > 0 && call_operator(c.function_args[0]) {
            CallStep { fails: Some(GreteaParseErrorKind::OperatorFirstArgument), ..same }
        } else {
            CallStep {
                call: PCall { is_fn_call: false, function_name: seq![], function_args: seq![], ..c },
                count: 0,
                is_expandable: false,
                text: call_text(c.function_args, c.function_name, ex),
                fails: None,
            }
        }
    } else if token == ","@ {
        if count != 0 && c.is_pretty_arg {
            CallStep { call: PCall { pretty_arg: c.pretty_arg + token, ..c }, ..same }
        } else {
            same
        }
    } else if token == "+_"@ {
        CallStep { is_expandable: true, ..same }
    } else if c.is_pretty_arg {
        CallStep { call: PCall { pretty_arg: c.pretty_arg + cpp_scoped(token), ..c }, ..same }
    } else if funcs.contains(trim(after_last(token, '#'))) {
        CallStep { call: PCall { pretty_arg: cpp_scoped(token), is_pretty_arg: true, ..c }, ..same }
    } else {
        CallStep { call: PCall { function_args: c.function_args.push(token), ..c }, ..same }
    }
}

/// A token of a compile setting: `default`, the name it is filed under, then its text
/// between braces (nested braces are kept). Gives back the new state, whether the text
/// is being read, and the open braces.
pub open spec fn compile_next(c: PComp, is_data: bool, count: int, token: Seq<char>) -> (PComp, bool, int) {
    let brace = trim_end(token) == "{"@;
    if is_data {
        if brace && count + 1 == 1 {
            (c, is_data, count + 1)
        } else {
            (
                PComp { compile_data: c.compile_data + cpp_scoped(token) + seq![' '], ..c },
                is_data,
                if brace {
                    count + 1
                } else {
                    count
                },
            )
        }
    } else if c.compile_config != GreteaCompileType::Undefined {
        if c.compile_type.len() == 0 {
            (PComp { compile_type: token, ..c }, is_data, count)
        } else if brace {
            (c, true, count + 1)
        } else {
            (c, is_data, count)
        }
    } else {
        (
            PComp {
                compile_config: if trim(token) == "default"@ {
                    GreteaCompileType::Default
                } else {
                    GreteaCompileType::Undefined
                },
                ..c
            },
            is_data,
            count,
        )
    }
}

/// `return value;`
pub open spec fn return_text(value: Seq<char>) -> Seq<char> {
    "return "@ + value + seq![';']
}

/// Tokens that a line of code keeps without a space after them.
pub open spec fn line_operator(t: Seq<char>) -> bool {
    t == "+"@ || t == "-"@ || t == "*"@ || t == "/"@ || t == "%"@ || t == "^"@ || t == "&"@ || t == ">"@ || t == "<"@
}

/// A token of a function body that no other construct takes: `.` or `return` opens a
/// return, which a quoted datum, or a token that ends with a line break or `;`, closes; a
/// token that names a variable (or ends in `.name`) opens a line of code, which a token
/// ending with a line break or `;` closes. `vars` are the variables as (name, data).
/// Gives back (is_return, return value, is_line, line, C++ to append).
pub open spec fn body_next(
    is_return: bool,
    return_val: Seq<char>,
    is_line: bool,
    line: Seq<char>,
    is_unsafe: bool,
    vars: Seq<(Seq<char>, Seq<char>)>,
    token: Seq<char>,
) -> (bool, Seq<char>, bool, Seq<char>, Seq<char>) {
    let ends = ends_with_char(token, '\n') || ends_with_char(token, ';');
    if token == "."@ || token == "return"@ {
        (true, return_val, is_line, line, seq![])
    } else if is_return {
        if data_piece(token) {
            (false, return_val, is_line, line, return_text(token))
        } else {
            let rv = return_val + token + seq![' '];
            if !ends {
                (true, rv, is_line, line, seq![])
            } else if is_unsafe {
                (false, rv, is_line, line, return_text(token))
            } else {
                let named = match first_var(vars, token) {
                    Some(k) => return_text(vars[k].1),
                    None => seq![],
                };
                let last = if trim_end(token) == "_"@ {
                    return_text(seq![])
                } else {
                    return_text(cpp_scoped(rv))
                };
                (false, seq![], is_line, line, named + last)
            }
        }
    } else if is_line {
        let l = line + cpp_scoped(token) + if line_operator(token) {
            seq![]
        } else {
            seq![' ']
        };
        if ends {
            (is_return, return_val, false, seq![], l + seq![';'] + seq!['\n'])
        } else {
            (is_return, return_val, true, l, seq![])
        }
    } else if exists|k: int| 0 <= k < vars.len() && (vars[k].0 == token || vars[k].0 == after_last(token, '.')) {
        (is_return, return_val, true, line + token, seq![])
    } else {
        (is_return, return_val, is_line, line, seq![])
    }
}

/// The place of the first of `vars` named `name`, if any.
pub open spec fn first_var(vars: Seq<(Seq<char>, Seq<char>)>, name: Seq<char>) -> Option<int> {
    if exists|k: int| 0 <= k < vars.len() && vars[k].0 == name {
        Some(choose|k: int| 0 <= k < vars.len() && vars[k].0 == name && forall|j: int| 0 <= j < k ==> vars[j].0 != name)
    } else {
        None
    }
}

/// The place of the first setting named `name`, if there is one.
pub open spec fn first_setting(settings: Seq<(GreteaCompileType, Seq<char>, Seq<char>)>, name: Seq<char>) -> Option<int> {
    if exists|j: int| 0 <= j < settings.len() && settings[j].1 == name {
        Some(choose|j: int| 0 <= j < settings.len() && settings[j].1 == name && forall|i: int| 0 <= i < j ==> settings[i].1 != name)
    } else {
        None
    }
}

/// Where a setting is named `name`, a first such setting exists.
pub proof fn lemma_first_setting(settings: Seq<(GreteaCompileType, Seq<char>, Seq<char>)>, name: Seq<char>, j: int)
    requires
        0 <= j < settings.len(),
        settings[j].1 == name,
    ensures
        first_setting(settings, name) matches Some(k) && 0 <= k < settings.len() && settings[k].1 == name
            && forall|i: int| 0 <= i < k ==> settings[i].1 != name,
    decreases j,
{
    if exists|i: int| 0 <= i < j && settings[i].1 == name {
        let i = choose|i: int| 0 <= i < j && settings[i].1 == name;
        lemma_first_setting(settings, name, i);
    } else {
        assert(0 <= j < settings.len() && settings[j].1 == name && forall|i: int| 0 <= i < j ==> settings[i].1 != name);
    }
}

/// The settings with `(config, name, data)` filed: the first setting of that name gets
/// the text `data`, otherwise the setting is added at the end.
pub open spec fn file_setting(
    settings: Seq<(GreteaCompileType, Seq<char>, Seq<char>)>,
    config: GreteaCompileType,
    name: Seq<char>,
    data: Seq<char>,
) -> Seq<(GreteaCompileType, Seq<char>, Seq<char>)> {
    match first_setting(settings, name) {
        Some(j) => settings.update(j, (settings[j].0, name, data)),
        None => settings.push((config, name, data)),
    }
}

/// The outcome of a token of an alias.
pub struct AliasStep {
    pub is_alias_name: bool,
    pub alias_name: Seq<char>,
    pub is_preprocessor: bool,
    /// The alias is complete.
    pub ends: bool,
    pub aliases: Map<Seq<char>, Seq<char>>,
    /// The C++ to append.
    pub text: Seq<char>,
}

/// A token of an alias: its name, `=`, then the text it stands for (without trailing
/// whitespace, `#` written as `::`). After the preprocessor keyword the alias becomes a
/// `#define`; otherwise it is filed, and `#` before a token later stands for it.
pub open spec fn alias_next(
    is_alias_name: bool,
    alias_name: Seq<char>,
    is_preprocessor: bool,
    aliases: Map<Seq<char>, Seq<char>>,
    token: Seq<char>,
) -> AliasStep {
    let same = AliasStep { is_alias_name, alias_name, is_preprocessor, ends: false, aliases, text: seq![] };
    if !is_alias_name {
        AliasStep { is_alias_name: true, alias_name: token, ..same }
    } else if token == "="@ {
        same
    } else {
        let data = cpp_scoped(trim_end(token));
        let done = AliasStep { is_alias_name: false, alias_name: seq![], ends: true, ..same };
        if is_preprocessor {
            AliasStep { is_preprocessor: false, text: set_text(data, alias_name), ..done }
        } else {
            AliasStep { aliases: aliases.insert(alias_name, data), ..done }
        }
    }
}

/// A token that may start a call: inside an unsafe block, a token whose last `#` piece
/// holds a `.` (a method) is taken up here, and starts a call when something follows
/// its last `.`; elsewhere, a token whose last `#` piece names a known function (both
/// trimmed) starts a call of it.
pub open spec fn detect_next(c: PCall, is_unsafe: bool, funcs: Seq<Seq<char>>, token: Seq<char>) -> DetectStep {
    let piece = after_last(token, '#');
    if is_unsafe {
        if has_char(piece, '.') {
            if after_last(token, '.').len() > 0 {
                DetectStep { call: PCall { is_fn_call: true, function_name: token, ..c }, taken: true }
            } else {
                DetectStep { call: c, taken: true }
            }
        } else {
            DetectStep { call: c, taken: false }
        }
    } else if exists|i: int| 0 <= i < funcs.len() && trim(after_last(funcs[i], '#')) == trim(piece) {
        DetectStep { call: PCall { is_fn_call: true, function_name: cpp_scoped(token), ..c }, taken: false }
    } else {
        DetectStep { call: c, taken: false }
    }
}

/// The outcome of a token that may start a call.
pub struct DetectStep {
    pub call: PCall,
    /// The token was taken up.
    pub taken: bool,
}

/// The outcome of a token between `[[` and `]]`.
pub struct SetterStep {
    pub is_default: bool,
    pub member_default: Seq<char>,
    pub optimize: bool,
    /// The C++ to append.
    pub text: Seq<char>,
    /// The flag is unknown: a warning and a hint are reported.
    pub unknown: bool,
}

/// A token between `[[` and `]]`: after `default` (and an optional `=`), the default of
/// the structure member; `library` or `stl` writes `#pragma once`; `no_optimize` and
/// `optimize` switch the folding of conditions; a quoted text is written out (see
/// `extracted_argument`); any other flag is unknown.
pub open spec fn setter_next(is_default: bool, member_default: Seq<char>, optimize: bool, token: Seq<char>) -> SetterStep {
    let same = SetterStep { is_default, member_default, optimize, text: seq![], unknown: false };
    if is_default {
        if token == "="@ {
            same
        } else {
            SetterStep { member_default: token, ..same }
        }
    } else if token == "library"@ || token == "stl"@ {
        SetterStep { text: seq!['#'] + "pragma"@ + seq![' '] + "once"@ + seq!['\n'], ..same }
    } else if token == "no_optimize"@ {
        SetterStep { optimize: false, ..same }
    } else if token == "optimize"@ {
        SetterStep { optimize: true, ..same }
    } else if token == "default"@ {
        SetterStep { is_default: true, ..same }
    } else if starts_with_char(token, '"') && ends_with_char(token, '"') {
        SetterStep { text: extracted_argument(token) + seq!['\n'], ..same }
    } else {
        SetterStep { unknown: true, ..same }
    }
}

/// The outcome of a condition keyword or an element bracket.
pub struct CondStep {
    pub is_statement: bool,
    pub statement_data: Seq<Seq<char>>,
    pub is_while: bool,
    pub call: PCall,
    /// The C++ to append.
    pub text: Seq<char>,
    /// `[` follows a call that has no argument yet.
    pub fails: bool,
}

/// `if`, `else` and `while` open a condition (its tokens are collected up to `{`); `[`
/// and `]` go into a line of code or a condition as they are, and inside a call they
/// turn the last argument into an element access.
pub open spec fn cond_next(
    k: GreteaKeywords,
    is_statement: bool,
    statement_data: Seq<Seq<char>>,
    is_while: bool,
    is_line: bool,
    call: PCall,
    token: Seq<char>,
) -> CondStep {
    let same = CondStep { is_statement, statement_data, is_while, call, text: seq![], fails: false };
    if k == GreteaKeywords::If || k == GreteaKeywords::Else || k == GreteaKeywords::While {
        CondStep {
            is_statement: true,
            statement_data: statement_data.push(token),
            is_while: is_while || k == GreteaKeywords::While,
            ..same
        }
    } else if k == GreteaKeywords::LeftSqBracket {
        if is_line {
            CondStep { text: "["@ + seq!['\n'], ..same }
        } else if is_statement {
            CondStep { statement_data: statement_data.push("["@), ..same }
        } else if call.is_fn_call {
            if call.function_args.len() == 0 {
                CondStep { fails: true, ..same }
            } else {
                CondStep {
                    call: PCall {
                        function_args: call.function_args.drop_last(),
                        pretty_arg: call.pretty_arg + call.function_args.last() + seq!['['],
                        is_element: true,
                        ..call
                    },
                    ..same
                }
            }
        } else {
            same
        }
    } else if k == GreteaKeywords::RightSqBracket {
        if is_line {
            CondStep { text: "]"@ + seq!['\n'], ..same }
        } else if is_statement {
            CondStep { statement_data: statement_data.push("]"@), ..same }
        } else if call.is_fn_call {
            CondStep {
                call: PCall {
                    function_args: call.function_args.push(call.pretty_arg + seq![']']),
                    pretty_arg: seq![],
                    is_element: false,
                    ..call
                },
                ..same
            }
        } else {
            same
        }
    } else {
        same
    }
}

/// Variables are immutable by default: reading a definition never makes it mutable, the
/// definition it completes keeps the mutability it was declared with, and one declared
/// without `mut` is written `const`.
pub proof fn lemma_variables_immutable_by_default(v: PVar, structs: Seq<Seq<char>>, token: Seq<char>)
    ensures
        var_next(v, structs, token).0.is_mutable ==> v.is_mutable,
        var_next(v, structs, token).1 matches Some(d) ==> {
            &&& d.3 == v.is_mutable
            &&& !v.is_mutable ==> definition_text(d.0, d.1, d.2, d.3).take(5) == "const"@
        },
{
    reveal_strlit("const");
    if let Some(d) = var_next(v, structs, token).1 {
        if !v.is_mutable {
            let t = definition_text(d.0, d.1, d.2, d.3);
            assert(t.take(5) =~= "const"@);
        }
    }
}

/// What `# token` stands for: the text of the alias named `token`, or the token itself.
pub open spec fn alias_lookup(aliases: Map<Seq<char>, Seq<char>>, token: Seq<char>) -> Seq<char> {
    if aliases.contains_key(token) {
        aliases[token]
    } else {
        token
    }
}

/// An alias reads back what it was given: once its text arrives it is filed, and its
/// name then stands for that text (without trailing whitespace, `#` written as `::`).
pub proof fn lemma_alias_read_back(alias_name: Seq<char>, aliases: Map<Seq<char>, Seq<char>>, token: Seq<char>)
    requires
        token != "="@,
    ensures
        alias_next(true, alias_name, false, aliases, token).ends,
        alias_lookup(alias_next(true, alias_name, false, aliases, token).aliases, alias_name) == cpp_scoped(
            trim_end(token),
        ),
{
}

/// The state of an enumeration after the tokens `ts`, one by one.
pub open spec fn enum_run(en: PEnum, ts: Seq<Seq<char>>) -> PEnum
    decreases ts.len(),
{
    if ts.len() == 0 {
        en
    } else {
        enum_next(enum_run(en, ts.drop_last()), ts.last())
    }
}

/// An enumeration that has just been opened by its keyword.
pub open spec fn enum_opened() -> PEnum {
    PEnum {
        is_enum: true,
        is_enum_type: false,
        is_enum_data: false,
        enum_name: seq![],
        enum_type: seq![],
        enum_data: seq![],
    }
}

proof fn lemma_enum_run_append(en: PEnum, a: Seq<Seq<char>>, b: Seq<Seq<char>>)
    ensures
        enum_run(en, a + b) == enum_run(enum_run(en, a), b),
    decreases b.len(),
{
    if b.len() == 0 {
        assert(a + b =~= a);
    } else {
        lemma_enum_run_append(en, a, b.drop_last());
        assert((a + b).drop_last() =~= a + b.drop_last());
        assert((a + b).last() == b.last());
    }
}

proof fn lemma_enum_items_keep_head(en: PEnum, items: Seq<Seq<char>>)
    requires
        en.is_enum_data,
    ensures
        enum_run(en, items).enum_name == en.enum_name,
        enum_run(en, items).enum_type == en.enum_type,
        enum_run(en, items).is_enum_data,
    decreases items.len(),
{
    if items.len() > 0 {
        lemma_enum_items_keep_head(en, items.drop_last());
    }
}

/// `enum N = T { items }`: `N` is the enumeration's name and `T`, the token after `=`,
/// its type, whatever the items are; the C++ written for it opens with `enum N : T {`.
pub proof fn lemma_enum_head(n: Seq<char>, t: Seq<char>, items: Seq<Seq<char>>)
    requires
        n.len() > 0,
        t.len() > 0,
        n != "{"@,
        t != "{"@,
    ensures
        ({
            let r = enum_run(enum_opened(), seq![n, "="@, t, "{"@] + items);
            let open = "enum "@ + n + " : "@ + t + " {\n"@;
            &&& r.enum_name == n
            &&& r.enum_type == t
            &&& enumeration_text(r.enum_name, r.enum_type, r.enum_data).take(open.len() as int) == open
        }),
{
    reveal_strlit("=");
    reveal_strlit("{");
    reveal_strlit(",");
    reveal(enumeration_text);
    let head = seq![n, "="@, t, "{"@];
    let e0 = enum_opened();
    assert(head.drop_last() =~= seq![n, "="@, t]);
    assert(seq![n, "="@, t].drop_last() =~= seq![n, "="@]);
    assert(seq![n, "="@].drop_last() =~= seq![n]);
    assert(seq![n].drop_last() =~= Seq::<Seq<char>>::empty());
    assert(n != "="@ || n == "="@);
    assert(enum_run(e0, Seq::<Seq<char>>::empty()) == e0);
    assert(seq![n].last() == n);
    assert(seq![n, "="@].last() == "="@);
    assert(seq![n, "="@, t].last() == t);
    assert(head.last() == "{"@);
    let e1 = enum_run(e0, seq![n]);
    assert(e1 == enum_next(e0, n));
    assert(e1 == PEnum { enum_name: n, ..e0 });
    let e2 = enum_run(e0, seq![n, "="@]);
    assert("="@[0] != "{"@[0]);
    assert("="@ != "{"@);
    assert(e2 == PEnum { is_enum_type: true, ..e1 });
    let e3 = enum_run(e0, seq![n, "="@, t]);
    assert(e3 == PEnum { enum_type: t, is_enum_type: false, ..e2 });
    let e4 = enum_run(e0, head);
    assert(e4 == PEnum { is_enum_data: true, ..e3 });
    lemma_enum_run_append(e0, head, items);
    lemma_enum_items_keep_head(e4, items);
    let r = enum_run(e0, head + items);
    let open = "enum "@ + n + " : "@ + t + " {\n"@;
    assert(t.len() > 0);
    let text = enumeration_text(r.enum_name, r.enum_type, r.enum_data);
    assert(text == "enum "@ + n + seq![' '] + (": "@ + t) + " {\n"@ + r.enum_data + "\n};"@);
    reveal_strlit(" : ");
    reveal_strlit(": ");
    reveal_strlit("enum ");
    reveal_strlit(" {\n");
    assert(open =~= "enum "@ + n + seq![' '] + (": "@ + t) + " {\n"@);
    assert(text.take(open.len() as int) =~= open);
}

} // verus!
