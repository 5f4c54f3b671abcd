//! The C++ code generator: each method appends the C++ for one construct to `generated`.
use vstd::prelude::*;
use vstd::utf8::encode_utf8;
use crate::ast::{cpp_scoped, GreteaFunctionData, GreteaFunctionArgument};
use crate::ast::ast_helpers::from_module;
use crate::optimize::OptimizeBlocks;
use crate::optimize::optimizer::{optimize, optimized, optimize_undefined};
use crate::parser::GreteaParser;
use crate::strmap::StrMap;
use crate::text::{
    views, trim, split, replace_char, remove_char, after_last, ends_with_char, push_char, str_eq,
    copy_str, split_on, replace_char_with, trimmed, lemma_split_nonempty, copy_strings, chars_of,
    string_of_range, is_ws, trim_start, trim_end, lemma_trim_start_skip, lemma_trim_end_take, lemma_split_without,
    lemma_split_then,
};

verus! {

pub struct GreteaCodegen {
    pub generated: String,
    /// Imported sources: path to whether it belongs to the standard library.
    pub sources: StrMap<bool>,
    pub optimize: bool,
}

/// The path an import names: its dotted components joined by `/`, trimmed.
pub open spec fn import_path(subdirectory: Seq<char>) -> Seq<char> {
    trim(replace_char(subdirectory, '.', seq!['/']))
}

/// An import names the standard library when one of its components is `tea`.
pub open spec fn import_is_stl(subdirectory: Seq<char>) -> bool {
    split(subdirectory, '.').contains("tea"@)
}

/// The header an import includes: the last component of its path, without line breaks.
pub open spec fn import_header(subdirectory: Seq<char>) -> Seq<char> {
    after_last(remove_char(import_path(subdirectory), '\n'), '/')
}

/// `type name,` for each argument, in key order, without the last comma.
pub open spec fn parameter_text(pairs: Seq<(Seq<char>, Seq<char>)>) -> Seq<char> {
    let all = parameter_list(pairs);
    if all.len() > 0 {
        all.drop_last()
    } else {
        all
    }
}

pub open spec fn parameter_list(pairs: Seq<(Seq<char>, Seq<char>)>) -> Seq<char>
    decreases pairs.len(),
{
    if pairs.len() == 0 {
        seq![]
    } else {
        parameter_list(pairs.drop_last()) + pairs.last().1 + seq![' '] + pairs.last().0 + seq![',']
    }
}

/// The statement that calls `name` with the arguments `args` (each argument unpacked with
/// `...` when `is_unpack`); `main` is called with no arguments.
pub open spec fn call_text(args: Seq<Seq<char>>, name: Seq<char>, is_unpack: bool) -> Seq<char> {
    (if is_unpack {
        "("@
    } else {
        ""@
    }) + name + seq!['('] + (if name == "main"@ {
        seq![]
    } else {
        call_argument_text(args)
    }) + seq![')'] + (if is_unpack {
        ", ...)"@
    } else {
        ""@
    }) + seq![';', '\n']
}

/// Tokens that glue to their neighbours in a call's argument list.
pub open spec fn call_operator(s: Seq<char>) -> bool {
    s == "+"@ || s == "-"@ || s == "/"@ || s == "*"@ || s == "%"@ || s == "("@ || s == ")"@
        || s == "["@ || s == "]"@
}

/// The argument list after the arguments `args`: arguments are separated by commas,
/// and an operator takes the place of the comma before it and after it.
pub open spec fn call_arguments(args: Seq<Seq<char>>) -> Seq<char>
    decreases args.len(),
{
    if args.len() == 0 {
        seq![]
    } else {
        let acc = call_arguments(args.drop_last());
        let a = args.last();
        if call_operator(a) {
            (if ends_with_char(acc, ',') {
                acc.drop_last()
            } else {
                acc
            }) + a
        } else {
            acc + a + seq![',']
        }
    }
}

/// The whole argument list of a call: no trailing comma.
pub open spec fn call_argument_text(args: Seq<Seq<char>>) -> Seq<char> {
    let acc = call_arguments(args);
    if ends_with_char(acc, ',') {
        acc.drop_last()
    } else {
        acc
    }
}

/// The concatenation of the texts, each with `#` written as `::`.
pub open spec fn scoped_concat(q: Seq<Seq<char>>) -> Seq<char>
    decreases q.len(),
{
    if q.len() == 0 {
        seq![]
    } else {
        scoped_concat(q.drop_last()) + cpp_scoped(q.last())
    }
}

/// The concatenation of the texts.
pub open spec fn concat(q: Seq<Seq<char>>) -> Seq<char>
    decreases q.len(),
{
    if q.len() == 0 {
        seq![]
    } else {
        concat(q.drop_last()) + q.last()
    }
}

/// The C++ for a condition: `else {` for a bare `else`; otherwise the keyword, `if(`
/// for `else if` or `(`, the rest of the tokens (optimized when asked), and `) {`.
pub open spec fn statement_text(tokens: Seq<Seq<char>>, is_while: bool, opt: bool) -> Seq<char> {
    if !is_while && tokens.last() == "else"@ {
        "else"@ + " {\n"@
    } else {
        let is_else_if = !is_while && tokens[1] == "if"@;
        let body = if opt {
            optimized(tokens)
        } else {
            tokens
        };
        tokens[0] + seq![' '] + (if is_else_if {
            "if("@
        } else {
            "("@
        }) + scoped_concat(body.skip(if is_else_if {
            2
        } else {
            1
        })) + ") {\n"@
    }
}

/// The preprocessor line for a condition: `#else`, `#elif ...` or `#if ...`.
pub open spec fn directive_text(tokens: Seq<Seq<char>>) -> Seq<char> {
    if tokens.last() == "else"@ {
        seq!['#'] + "else"@ + seq!['\n']
    } else {
        let is_else_if = tokens[1] == "if"@;
        seq!['#'] + (if is_else_if {
            "elif"@
        } else {
            "if"@
        }) + seq![' '] + concat(tokens.skip(if is_else_if {
            2
        } else {
            1
        })) + seq!['\n']
    }
}

/// The body of an `asm(...)` block: lines between `?_` and `_?` go through as they are,
/// other lines of at least two bytes are quoted; the markers themselves are dropped.
pub open spec fn assembly_lines(lines: Seq<Seq<char>>) -> (Seq<char>, bool)
    decreases lines.len(),
{
    if lines.len() == 0 {
        (seq![], false)
    } else {
        let (acc, direct) = assembly_lines(lines.drop_last());
        let line = lines.last();
        if direct {
            if trim(line) == "_?"@ {
                (acc, false)
            } else {
                (acc + line + seq!['\n'], true)
            }
        } else if trim(line) == "?_"@ {
            (acc, true)
        } else if (encode_utf8(line).len() as usize) >= 2 {
            (acc + seq!['"'] + line + seq!['"', '\n'], false)
        } else {
            (acc, false)
        }
    }
}

/// A variable definition: `const` unless mutable, `auto` when no type is given,
/// `= data;` or a bare `;`.
pub open spec fn definition_text(data: Seq<char>, var_type: Seq<char>, name: Seq<char>, is_mut: bool) -> Seq<char> {
    (if !is_mut {
        "const"@
    } else {
        ""@
    }) + seq![' '] + (if var_type.len() == 0 {
        "auto"@
    } else {
        var_type
    }) + seq![' '] + name + seq![' '] + (if data.len() == 0 {
        ";"@
    } else {
        "= "@ + data + ";"@
    }) + seq!['\n']
}

/// `#define name data` (`0` when there is no data).
pub open spec fn set_text(data: Seq<char>, name: Seq<char>) -> Seq<char> {
    "#define "@ + name + seq![' '] + (if data.len() > 0 {
        data
    } else {
        "0"@
    }) + seq!['\n']
}

/// The head of a class, with its template line when it is generic.
pub open spec fn structure_text(name: Seq<char>, generic: Seq<char>) -> Seq<char> {
    (if generic.len() > 0 {
        "template<typename "@ + generic + ">\n"@
    } else {
        seq![]
    }) + "class "@ + name + seq!['\n']
}

/// `enum name : type { data };`
#[verifier::opaque]
pub open spec fn enumeration_text(name: Seq<char>, ty: Seq<char>, data: Seq<char>) -> Seq<char> {
    "enum "@ + name + seq![' '] + (if ty.len() > 0 {
        ": "@ + ty
    } else {
        seq![]
    }) + " {\n"@ + data + "\n};"@
}

/// An inline assembly block.
#[verifier::opaque]
pub open spec fn assembly_text(data: Seq<char>) -> Seq<char> {
    "asm(\n"@ + assembly_lines(split(data, '\n')).0 + ");\n"@
}

/// The head of a function definition: its template line when it is generic, the return
/// type, the name, the parameters (those of `main` are fixed), and `{` for a body
/// that follows at once.
pub open spec fn function_text(
    pairs: Seq<(Seq<char>, Seq<char>)>,
    name: Seq<char>,
    return_val: Seq<char>,
    generic: Seq<char>,
    is_expand: bool,
    is_void: bool,
) -> Seq<char> {
    (if generic.len() > 0 {
        "template<typename"@ + (if is_expand {
            "..."@
        } else {
            ""@
        }) + seq![' '] + generic + ">\n"@
    } else {
        seq![]
    }) + return_val + seq![' '] + name + seq!['('] + (if name == "main"@ {
        "int argc, char** argv"@
    } else {
        parameter_text(pairs)
    }) + seq![')', ' '] + (if is_void {
        "{"@
    } else {
        ""@
    }) + seq!['\n']
}

/// The entries of a map from texts to texts, as pairs of texts, in key order.
pub open spec fn text_pairs(m: &StrMap<String>) -> Seq<(Seq<char>, Seq<char>)> {
    m.entries@.map_values(|e: (String, String)| (e.0@, e.1@))
}

/// The argument records of a declared function, in key order.
pub open spec fn argument_records(args: Seq<GreteaFunctionArgument>, pairs: Seq<(Seq<char>, Seq<char>)>) -> bool {
    &&& args.len() == pairs.len()
    &&& forall|i: int|
        0 <= i < args.len() ==> (#[trigger] args[i]).__arg_name@ == pairs[i].0 && args[i].__arg_type@
            == pairs[i].1 && !args[i].__is_mutable
}

impl GreteaCodegen {
    pub open spec fn wf(&self) -> bool {
        self.sources.wf()
    }

    /// `#include` of a C++ header, or the import of a Gretea module (whose path is recorded
    /// in `sources`).
    pub fn import(&mut self, subdirectory: String, is_include: bool)
        requires
            old(self).wf(),
        ensures
            final(self).wf(),
            final(self).optimize == old(self).optimize,
            is_include ==> final(self).generated@ == old(self).generated@ + seq!['#'] + "include"@
                + seq![' '] + subdirectory@ + seq!['\n'] && final(self).sources == old(self).sources,
            !is_include ==> final(self).generated@ == old(self).generated@ + seq!['#'] + "include"@
                + seq!['"'] + import_header(subdirectory@) + ".hpp"@ + seq!['"', '\n']
                && final(self).sources@ == old(self).sources@.insert(
                import_path(subdirectory@),
                import_is_stl(subdirectory@),
            ),
    {
        if is_include {
            push_char(&mut self.generated, '#');
            self.generated.append("include");
            push_char(&mut self.generated, ' ');
            self.generated.append(subdirectory.as_str());
            push_char(&mut self.generated, '\n');
            return ;
        }
        let subdirectories = split_on(subdirectory.as_str(), '.');
        let mut is_stl = false;
        let mut i: usize = 0;
        while i < subdirectories.len()
            invariant
                i <= subdirectories@.len(),
                views(subdirectories@) == split(subdirectory@, '.'),
                is_stl == views(subdirectories@).take(i as int).contains("tea"@),
            decreases subdirectories@.len() - i,
        {
            let ghost prefix = views(subdirectories@).take(i as int);
            assert(views(subdirectories@).take(i + 1) =~= prefix.push(subdirectories@[i as int]@));
            if str_eq(subdirectories[i].as_str(), "tea") {
                is_stl = true;
                assert(views(subdirectories@).take(i + 1)[i as int] == "tea"@);
            } else {
                assert forall|j: int| 0 <= j < i + 1 && #[trigger] views(subdirectories@).take(i + 1)[j] == "tea"@ implies prefix.contains("tea"@) by {
                    assert(prefix[j] == "tea"@);
                }
            }
            i = i + 1;
        }
        assert(views(subdirectories@).take(i as int) =~= views(subdirectories@));
        let joined = replace_char_with(subdirectory.as_str(), '.', "/");
        proof {
            reveal_strlit("/");
            assert("/"@ =~= seq!['/']);
        }
        assert(joined@ == replace_char(subdirectory@, '.', seq!['/']));
        let dir = trimmed(joined.as_str());
        assert(dir@ == import_path(subdirectory@));
        let flat = replace_char_with(dir.as_str(), '\n', "");
        proof {
            reveal_strlit("");
            assert(""@ =~= Seq::<char>::empty());
        }
        assert(flat@ == remove_char(dir@, '\n'));
        let parts = split_on(flat.as_str(), '/');
        proof {
            lemma_split_nonempty(flat@, '/');
        }
        let last = &parts[parts.len() - 1];
        assert(last@ == views(parts@).last());
        assert(last@ == import_header(subdirectory@));
        self.sources.insert(dir, is_stl);
        push_char(&mut self.generated, '#');
        self.generated.append("include");
        push_char(&mut self.generated, '"');
        self.generated.append(last.as_str());
        self.generated.append(".hpp");
        push_char(&mut self.generated, '"');
        push_char(&mut self.generated, '\n');
    }

    /// The head of a function definition; the function is recorded in `parser.func_data`.
    #[verifier::rlimit(40)]
    pub fn function(
        &mut self,
        parser: &mut GreteaParser,
        args: &StrMap<String>,
        name: &String,
        return_val: &String,
        generic: &String,
        is_expand: bool,
        is_void: bool,
    )
        requires
            args.wf(),
        ensures
            *final(self) == (GreteaCodegen { generated: final(self).generated, ..*old(self) }),
            *final(parser) == (GreteaParser { func_data: final(parser).func_data, ..*old(parser) }),
            final(parser).func_data@.len() == old(parser).func_data@.len() + 1,
            forall|i: int| 0 <= i < old(parser).func_data@.len() ==> final(parser).func_data@[i] == old(parser).func_data@[i],
            final(parser).func_data@.last().__function_name@ == name@,
            final(parser).func_data@.last().__function_return_type@ == return_val@,
            argument_records(final(parser).func_data@.last().__function_arguments@, text_pairs(args)),
            final(self).generated@ == old(self).generated@ + function_text(
                text_pairs(args),
                name@,
                return_val@,
                generic@,
                is_expand,
                is_void,
            ),
    {
        let head = template_text(generic, is_expand);
        let (records, arguments) = parameters(args);
        parser.func_data.push(
            GreteaFunctionData {
                __function_name: name.clone(),
                __function_return_type: return_val.clone(),
                __function_arguments: records,
            },
        );
        let arguments = if str_eq(name.as_str(), "main") {
            copy_str("int argc, char** argv")
        } else {
            drop_last_char(arguments)
        };
        let ghost before = self.generated@;
        self.generated.append(head.as_str());
        self.generated.append(return_val.as_str());
        push_char(&mut self.generated, ' ');
        self.generated.append(name.as_str());
        push_char(&mut self.generated, '(');
        self.generated.append(arguments.as_str());
        push_char(&mut self.generated, ')');
        push_char(&mut self.generated, ' ');
        if is_void {
            self.generated.append("{");
        } else {
            self.generated.append("");
        }
        push_char(&mut self.generated, '\n');
    }

    /// A call statement `name(args);`, or the fold `(name(args), ...);` when unpacking.
    #[verifier::rlimit(40)]
    pub fn function_call(&mut self, args: &Vec<String>, name: &String, is_unpack: bool)
        requires
            name@ != "main"@ && args@.len() > 0 ==> !call_operator(args@[0]@),
        ensures
            *final(self) == (GreteaCodegen { generated: final(self).generated, ..*old(self) }),
            final(self).generated@ == old(self).generated@ + call_text(views(args@), name@, is_unpack),
    {
        let mut arguments: Vec<char> = Vec::new();
        if !str_eq(name.as_str(), "main") {
            let ghost a = views(args@);
            let mut i: usize = 0;
            while i < args.len()
                invariant
                    i <= args@.len(),
                    a == views(args@),
                    a.len() > 0 ==> !call_operator(a[0]),
                    arguments@ == call_arguments(a.take(i as int)),
                    i > 0 ==> arguments@.len() > 0,
                decreases args@.len() - i,
            {
                let arg = args[i].as_str();
                assert(a[i as int] == arg@);
                assert(a.take(i + 1).drop_last() =~= a.take(i as int));
                let op = is_call_operator(arg);
                if op {
                    if arguments[arguments.len() - 1] == ',' {
                        arguments.pop();
                    }
                }
                let chars = chars_of(arg);
                let mut k: usize = 0;
                let ghost base = arguments@;
                while k < chars.len()
                    invariant
                        k <= chars@.len(),
                        arguments@ == base + chars@.take(k as int),
                    decreases chars@.len() - k,
                {
                    arguments.push(chars[k]);
                    k = k + 1;
                    assert(arguments@ =~= base + chars@.take(k as int));
                }
                assert(chars@.take(k as int) =~= chars@);
                arguments.push(',');
                if op {
                    arguments.pop();
                    assert(arguments@ =~= base + arg@);
                    proof {
                        lemma_call_operator_nonempty(arg@);
                    }
                }
                i = i + 1;
            }
            assert(a.take(args@.len() as int) =~= a);
            if arguments.len() > 0 && arguments[arguments.len() - 1] == ',' {
                arguments.pop();
            }
        }
        if is_unpack {
            self.generated.append("(");
        } else {
            self.generated.append("");
        }
        self.generated.append(name.as_str());
        push_char(&mut self.generated, '(');
        crate::text::push_chars(&mut self.generated, &arguments);
        push_char(&mut self.generated, ')');
        if is_unpack {
            self.generated.append(", ...)");
        } else {
            self.generated.append("");
        }
        push_char(&mut self.generated, ';');
        push_char(&mut self.generated, '\n');
    }

    /// A variable definition: `const` unless mutable, `auto` when no type is given,
    /// `= data;` or a bare `;`.
    pub fn variable_definition(&mut self, data: &String, var_type: &String, name: &String, is_mut: bool)
        ensures
            *final(self) == (GreteaCodegen { generated: final(self).generated, ..*old(self) }),
            final(self).generated@ == old(self).generated@ + definition_text(data@, var_type@, name@, is_mut),
    {
        let mut text = if !is_mut {
            copy_str("const")
        } else {
            String::new()
        };
        let ghost head = text@;
        push_char(&mut text, ' ');
        if var_type.as_str().unicode_len() == 0 {
            text.append("auto");
        } else {
            text.append(var_type.as_str());
        }
        let ghost with_type = text@;
        push_char(&mut text, ' ');
        text.append(name.as_str());
        push_char(&mut text, ' ');
        let ghost with_name = text@;
        if data.as_str().unicode_len() == 0 {
            text.append(";");
        } else {
            text.append("= ");
            text.append(data.as_str());
            text.append(";");
            assert(text@ =~= with_name + ("= "@ + data@ + ";"@));
        }
        push_char(&mut text, '\n');
        proof {
            reveal_strlit("");
            assert(text@ =~= definition_text(data@, var_type@, name@, is_mut));
        }
        self.generated.append(text.as_str());
    }

    /// `#define name data` (`0` when there is no data).
    pub fn preprocess_set(&mut self, data: &String, name: &String)
        ensures
            *final(self) == (GreteaCodegen { generated: final(self).generated, ..*old(self) }),
            final(self).generated@ == old(self).generated@ + set_text(data@, name@),
    {
        self.generated.append("#define ");
        self.generated.append(name.as_str());
        push_char(&mut self.generated, ' ');
        if data.as_str().unicode_len() > 0 {
            self.generated.append(data.as_str());
        } else {
            self.generated.append("0");
        }
        push_char(&mut self.generated, '\n');
    }

    /// The head of an `if`, `else if`, `else` or `while` block.
    pub fn statement(&mut self, tokens: &Vec<String>, is_while: bool)
        requires
            tokens@.len() >= 1,
            !is_while && tokens@.last()@ != "else"@ ==> tokens@.len() >= 2,
            old(self).optimize ==> !optimize_undefined(views(tokens@)),
        ensures
            *final(self) == (GreteaCodegen { generated: final(self).generated, ..*old(self) }),
            final(self).generated@ == old(self).generated@ + statement_text(views(tokens@), is_while, old(self).optimize),
    {
        let ghost t = views(tokens@);
        assert(t.last() == tokens@.last()@);
        if !is_while && str_eq(tokens[tokens.len() - 1].as_str(), "else") {
            self.generated.append("else");
            self.generated.append(" {\n");
        } else {
            let is_else_if = !is_while && str_eq(tokens[1].as_str(), "if");
            assert(is_else_if == (!is_while && t[1] == "if"@));
            self.generated.append(tokens[0].as_str());
            push_char(&mut self.generated, ' ');
            if is_else_if {
                self.generated.append("if(");
            } else {
                self.generated.append("(");
            }
            let body = if self.optimize {
                optimize(tokens, OptimizeBlocks::StatementBool)
            } else {
                copy_strings(tokens)
            };
            let ghost b = views(body@);
            let start: usize = if is_else_if { 2 } else { 1 };
            let mut k: usize = start;
            let ghost head = self.generated@;
            assert(b.len() == t.len());
            while k < body.len()
                invariant
                    start <= k <= body@.len(),
                    b == views(body@),
                    start <= b.len(),
                    self.generated@ == head + scoped_concat(b.subrange(start as int, k as int)),
                    self.sources == old(self).sources,
                    self.optimize == old(self).optimize,
                decreases body@.len() - k,
            {
                let piece = from_module(&body[k]);
                assert(b[k as int] == body@[k as int]@);
                self.generated.append(piece.as_str());
                assert(b.subrange(start as int, k + 1).drop_last() =~= b.subrange(start as int, k as int));
                k = k + 1;
            }
            assert(b.subrange(start as int, b.len() as int) =~= b.skip(start as int));
            self.generated.append(") {\n");
        }
    }

    /// The preprocessor line for a compile-time condition.
    pub fn statement_directive(&mut self, tokens: &Vec<String>)
        requires
            tokens@.len() >= 1,
            tokens@.last()@ != "else"@ ==> tokens@.len() >= 2,
        ensures
            *final(self) == (GreteaCodegen { generated: final(self).generated, ..*old(self) }),
            final(self).generated@ == old(self).generated@ + directive_text(views(tokens@)),
    {
        let ghost t = views(tokens@);
        assert(t.last() == tokens@.last()@);
        if str_eq(tokens[tokens.len() - 1].as_str(), "else") {
            push_char(&mut self.generated, '#');
            self.generated.append("else");
            push_char(&mut self.generated, '\n');
        } else {
            let is_else_if = str_eq(tokens[1].as_str(), "if");
            assert(is_else_if == (t[1] == "if"@));
            push_char(&mut self.generated, '#');
            if is_else_if {
                self.generated.append("elif");
            } else {
                self.generated.append("if");
            }
            push_char(&mut self.generated, ' ');
            let start: usize = if is_else_if { 2 } else { 1 };
            let mut k: usize = start;
            let ghost head = self.generated@;
            while k < tokens.len()
                invariant
                    start <= k <= tokens@.len(),
                    t == views(tokens@),
                    start <= t.len(),
                    self.generated@ == head + concat(t.subrange(start as int, k as int)),
                    self.sources == old(self).sources,
                    self.optimize == old(self).optimize,
                decreases tokens@.len() - k,
            {
                assert(t[k as int] == tokens@[k as int]@);
                self.generated.append(tokens[k].as_str());
                assert(t.subrange(start as int, k + 1).drop_last() =~= t.subrange(start as int, k as int));
                k = k + 1;
            }
            assert(t.subrange(start as int, t.len() as int) =~= t.skip(start as int));
            push_char(&mut self.generated, '\n');
        }
    }

    /// `#endif`
    pub fn directive_end(&mut self)
        ensures
            *final(self) == (GreteaCodegen { generated: final(self).generated, ..*old(self) }),
            final(self).generated@ == old(self).generated@ + seq!['#'] + "endif"@ + seq!['\n'],
    {
        push_char(&mut self.generated, '#');
        self.generated.append("endif");
        push_char(&mut self.generated, '\n');
    }

    /// `namespace name`
    pub fn module(&mut self, module_name: &String)
        ensures
            *final(self) == (GreteaCodegen { generated: final(self).generated, ..*old(self) }),
            final(self).generated@ == old(self).generated@ + "namespace "@ + module_name@,
    {
        self.generated.append("namespace ");
        self.generated.append(module_name.as_str());
    }

    /// The head of a class, with its template line when it is generic.
    pub fn structure(&mut self, struct_name: &String, struct_generic: &String)
        ensures
            *final(self) == (GreteaCodegen { generated: final(self).generated, ..*old(self) }),
            final(self).generated@ == old(self).generated@ + structure_text(struct_name@, struct_generic@),
    {
        if struct_generic.as_str().unicode_len() > 0 {
            let ghost before = self.generated@;
            self.generated.append("template<typename ");
            self.generated.append(struct_generic.as_str());
            self.generated.append(">\n");
            assert(self.generated@ =~= before + ("template<typename "@ + struct_generic@ + ">\n"@));
        } else {
            assert(self.generated@ =~= old(self).generated@ + Seq::<char>::empty());
        }
        self.generated.append("class ");
        self.generated.append(struct_name.as_str());
        push_char(&mut self.generated, '\n');
    }

    /// `enum name : type { data };`
    pub fn enumeration(&mut self, name: &String, _type: &String, data: &String)
        ensures
            *final(self) == (GreteaCodegen { generated: final(self).generated, ..*old(self) }),
            final(self).generated@ == old(self).generated@ + enumeration_text(name@, _type@, data@),
    {
        proof {
            reveal(enumeration_text);
        }
        self.generated.append("enum ");
        self.generated.append(name.as_str());
        push_char(&mut self.generated, ' ');
        if _type.as_str().unicode_len() > 0 {
            let ghost before = self.generated@;
            self.generated.append(": ");
            self.generated.append(_type.as_str());
            assert(self.generated@ =~= before + (": "@ + _type@));
        } else {
            assert(self.generated@ =~= self.generated@ + Seq::<char>::empty());
        }
        self.generated.append(" {\n");
        self.generated.append(data.as_str());
        self.generated.append("\n};");
    }

    /// The head of an endless loop.
    pub fn for_loop(&mut self)
        ensures
            *final(self) == (GreteaCodegen { generated: final(self).generated, ..*old(self) }),
            final(self).generated@ == old(self).generated@ + "while(1)"@,
    {
        self.generated.append("while(1)");
    }

    /// The head of a range loop.
    pub fn for_iter(&mut self, var_name: &String, var_iter: &String)
        ensures
            *final(self) == (GreteaCodegen { generated: final(self).generated, ..*old(self) }),
            final(self).generated@ == old(self).generated@ + "for(auto "@ + var_name@ + " : "@ + var_iter@
                + seq![')'],
    {
        self.generated.append("for(auto ");
        self.generated.append(var_name.as_str());
        self.generated.append(" : ");
        self.generated.append(var_iter.as_str());
        push_char(&mut self.generated, ')');
    }

    pub fn for_continue(&mut self)
        ensures
            *final(self) == (GreteaCodegen { generated: final(self).generated, ..*old(self) }),
            final(self).generated@ == old(self).generated@ + "continue;\n"@,
    {
        self.generated.append("continue;\n");
    }

    pub fn for_break(&mut self)
        ensures
            *final(self) == (GreteaCodegen { generated: final(self).generated, ..*old(self) }),
            final(self).generated@ == old(self).generated@ + "break;\n"@,
    {
        self.generated.append("break;\n");
    }

    /// `return value;`
    pub fn return_variable(&mut self, return_variable: &String)
        ensures
            *final(self) == (GreteaCodegen { generated: final(self).generated, ..*old(self) }),
            final(self).generated@ == old(self).generated@ + "return "@ + return_variable@ + seq![';'],
    {
        self.generated.append("return ");
        self.generated.append(return_variable.as_str());
        push_char(&mut self.generated, ';');
    }

    /// `#pragma once`
    pub fn header_guards(&mut self)
        ensures
            *final(self) == (GreteaCodegen { generated: final(self).generated, ..*old(self) }),
            final(self).generated@ == old(self).generated@ + seq!['#'] + "pragma"@ + seq![' '] + "once"@
                + seq!['\n'],
    {
        push_char(&mut self.generated, '#');
        self.generated.append("pragma");
        push_char(&mut self.generated, ' ');
        self.generated.append("once");
        push_char(&mut self.generated, '\n');
    }

    /// An inline assembly block.
    pub fn assembly(&mut self, data: &String)
        ensures
            *final(self) == (GreteaCodegen { generated: final(self).generated, ..*old(self) }),
            final(self).generated@ == old(self).generated@ + assembly_text(data@),
    {
        proof {
            reveal(assembly_text);
        }
        self.generated.append("asm(\n");
        let lines = split_on(data.as_str(), '\n');
        let ghost ls = views(lines@);
        let ghost head = self.generated@;
        let mut is_direct = false;
        let mut i: usize = 0;
        while i < lines.len()
            invariant
                i <= lines@.len(),
                ls == views(lines@),
                ls == split(data@, '\n'),
                self.generated@ == head + assembly_lines(ls.take(i as int)).0,
                is_direct == assembly_lines(ls.take(i as int)).1,
                self.sources == old(self).sources,
                self.optimize == old(self).optimize,
            decreases lines@.len() - i,
        {
            let line = lines[i].as_str();
            assert(ls[i as int] == line@);
            assert(ls.take(i + 1).drop_last() =~= ls.take(i as int));
            let ghost acc = self.generated@;
            if is_direct {
                let t = trimmed(line);
                if str_eq(t.as_str(), "_?") {
                    is_direct = false;
                } else {
                    self.generated.append(line);
                    push_char(&mut self.generated, '\n');
                    assert(self.generated@ =~= acc + line@ + seq!['\n']);
                }
            } else {
                let t = trimmed(line);
                if str_eq(t.as_str(), "?_") {
                    is_direct = true;
                } else if line.len() >= 2 {
                    push_char(&mut self.generated, '"');
                    self.generated.append(line);
                    push_char(&mut self.generated, '"');
                    push_char(&mut self.generated, '\n');
                    assert(self.generated@ =~= acc + seq!['"'] + line@ + seq!['"', '\n']);
                }
            }
            i = i + 1;
        }
        assert(ls.take(lines@.len() as int) =~= ls);
        self.generated.append(");\n");
    }

    /// `std::vector<type>`
    pub fn cpp_vector(&mut self, __type: &String)
        ensures
            *final(self) == (GreteaCodegen { generated: final(self).generated, ..*old(self) }),
            final(self).generated@ == old(self).generated@ + "std::vector<"@ + __type@ + seq!['>'],
    {
        self.generated.append("std::vector<");
        self.generated.append(__type.as_str());
        push_char(&mut self.generated, '>');
    }

    /// The declaration that gives `main` its command-line arguments.
    pub fn cpp_args(&mut self)
        ensures
            *final(self) == (GreteaCodegen { generated: final(self).generated, ..*old(self) }),
            final(self).generated@ == old(self).generated@ + "std::vector<string> arguments(argv, argv + argc);\n"@,
    {
        self.generated.append("std::vector<string> arguments(argv, argv + argc);\n");
    }

    /// Some text on a line of its own.
    pub fn character(&mut self, character: &String)
        ensures
            *final(self) == (GreteaCodegen { generated: final(self).generated, ..*old(self) }),
            final(self).generated@ == old(self).generated@ + character@ + seq!['\n'],
    {
        self.generated.append(character.as_str());
        push_char(&mut self.generated, '\n');
    }
}

/// The argument records of a function and its parameter list (with a comma after each).
fn parameters(args: &StrMap<String>) -> (res: (Vec<GreteaFunctionArgument>, String))
    ensures
        argument_records(res.0@, text_pairs(args)),
        res.1@ == parameter_list(text_pairs(args)),
{
    let mut records: Vec<GreteaFunctionArgument> = Vec::new();
    let mut arguments = String::new();
    let mut i: usize = 0;
    while i < args.len()
        invariant
            i <= args.entries@.len(),
            argument_records(records@, text_pairs(args).take(i as int)),
            arguments@ == parameter_list(text_pairs(args).take(i as int)),
        decreases args.entries@.len() - i,
    {
        let entry = &args.entries[i];
        assert(text_pairs(args)[i as int] == (entry.0@, entry.1@));
        let ghost before = arguments@;
        arguments.append(entry.1.as_str());
        push_char(&mut arguments, ' ');
        arguments.append(entry.0.as_str());
        push_char(&mut arguments, ',');
        assert(text_pairs(args).take(i + 1).drop_last() =~= text_pairs(args).take(i as int));
        assert(arguments@ =~= before + entry.1@ + seq![' '] + entry.0@ + seq![',']);
        records.push(
            GreteaFunctionArgument {
                __arg_name: entry.0.clone(),
                __arg_type: entry.1.clone(),
                __is_mutable: false,
            },
        );
        i = i + 1;
    }
    assert(text_pairs(args).take(args.entries@.len() as int) =~= text_pairs(args));
    (records, arguments)
}

/// The template line of a generic function.
fn template_text(generic: &String, is_expand: bool) -> (res: String)
    ensures
        res@ == (if generic@.len() > 0 {
            "template<typename"@ + (if is_expand {
                "..."@
            } else {
                ""@
            }) + seq![' '] + generic@ + ">\n"@
        } else {
            seq![]
        }),
{
    let mut res = String::new();
    if generic.as_str().unicode_len() > 0 {
        res.append("template<typename");
        if is_expand {
            res.append("...");
        } else {
            res.append("");
        }
        push_char(&mut res, ' ');
        res.append(generic.as_str());
        res.append(">\n");
    }
    res
}

/// `s` without its last character (`String::pop`).
fn drop_last_char(s: String) -> (res: String)
    ensures
        res@ == (if s@.len() > 0 {
            s@.drop_last()
        } else {
            s@
        }),
{
    let v = chars_of(s.as_str());
    if v.len() > 0 {
        string_of_range(&v, 0, v.len() - 1)
    } else {
        s
    }
}

/// `call_operator`, computed.
pub fn is_call_operator(s: &str) -> (b: bool)
    ensures
        b == call_operator(s@),
{
    str_eq(s, "+") || str_eq(s, "-") || str_eq(s, "/") || str_eq(s, "*") || str_eq(s, "%") || str_eq(s, "(")
        || str_eq(s, ")") || str_eq(s, "[") || str_eq(s, "]")
}

proof fn lemma_call_operator_nonempty(s: Seq<char>)
    requires
        call_operator(s),
    ensures
        s.len() > 0,
{
    reveal_strlit("+");
    reveal_strlit("-");
    reveal_strlit("/");
    reveal_strlit("*");
    reveal_strlit("%");
    reveal_strlit("(");
    reveal_strlit(")");
    reveal_strlit("[");
    reveal_strlit("]");
}

/// The head of a generic function opens with its template line: `template<typename G>`
/// for a generic `G`, and the variadic `template<typename... G>` exactly when the generic
/// is expanded. A function that is not generic starts with its return type and name.
pub proof fn lemma_function_template_line(
    pairs: Seq<(Seq<char>, Seq<char>)>,
    name: Seq<char>,
    return_val: Seq<char>,
    generic: Seq<char>,
    is_expand: bool,
    is_void: bool,
)
    ensures
        generic.len() > 0 && !is_expand ==> ({
            let line = "template<typename "@ + generic + ">\n"@;
            &&& function_text(pairs, name, return_val, generic, is_expand, is_void).len() > line.len()
            &&& function_text(pairs, name, return_val, generic, is_expand, is_void).take(line.len() as int) == line
        }),
        generic.len() > 0 && is_expand ==> ({
            let line = "template<typename... "@ + generic + ">\n"@;
            &&& function_text(pairs, name, return_val, generic, is_expand, is_void).len() > line.len()
            &&& function_text(pairs, name, return_val, generic, is_expand, is_void).take(line.len() as int) == line
        }),
        generic.len() == 0 ==> ({
            let head = return_val + seq![' '] + name + seq!['('];
            &&& function_text(pairs, name, return_val, generic, is_expand, is_void).len() > head.len()
            &&& function_text(pairs, name, return_val, generic, is_expand, is_void).take(head.len() as int) == head
        }),
{
    let tail = if name == "main"@ {
        "int argc, char** argv"@
    } else {
        parameter_text(pairs)
    };
    let close = if is_void {
        "{"@
    } else {
        ""@
    };
    let rest = return_val + seq![' '] + name + seq!['('] + tail + seq![')', ' '] + close + seq!['\n'];
    let text = function_text(pairs, name, return_val, generic, is_expand, is_void);
    if generic.len() > 0 {
        reveal_strlit("template<typename");
        reveal_strlit(">\n");
        if is_expand {
            reveal_strlit("template<typename... ");
            reveal_strlit("...");
            let line = "template<typename... "@ + generic + ">\n"@;
            assert(line =~= "template<typename"@ + "..."@ + seq![' '] + generic + ">\n"@);
            assert(text == line + rest);
            assert((line + rest).take(line.len() as int) =~= line);
        } else {
            reveal_strlit("template<typename ");
            reveal_strlit("");
            let line = "template<typename "@ + generic + ">\n"@;
            assert(line =~= "template<typename"@ + ""@ + seq![' '] + generic + ">\n"@);
            assert(text == line + rest);
            assert((line + rest).take(line.len() as int) =~= line);
        }
    } else {
        assert(text == seq![] + rest);
        let head = return_val + seq![' '] + name + seq!['('];
        assert(seq![] + rest =~= rest);
        assert(rest.take(head.len() as int) =~= head);
    }
}

/// An operator token between two arguments of a call stands in place of the comma on
/// either side of it: the call of `name` with the arguments `a`, `op`, `b` is
/// `name(a op b);` for each of `+ - / * % ( ) [ ]`; plain arguments are separated by a
/// comma.
pub proof fn lemma_call_operator_glues(name: Seq<char>, a: Seq<char>, op: Seq<char>, b: Seq<char>)
    requires
        name != "main"@,
        op == "+"@ || op == "-"@ || op == "/"@ || op == "*"@ || op == "%"@ || op == "("@ || op == ")"@ || op
            == "["@ || op == "]"@,
        !(a == "+"@ || a == "-"@ || a == "/"@ || a == "*"@ || a == "%"@ || a == "("@ || a == ")"@ || a == "["@
            || a == "]"@),
        !(b == "+"@ || b == "-"@ || b == "/"@ || b == "*"@ || b == "%"@ || b == "("@ || b == ")"@ || b == "["@
            || b == "]"@),
    ensures
        call_text(seq![a, op, b], name, false) == name + "("@ + a + op + b + ");\n"@,
        call_text(seq![a, b], name, false) == name + "("@ + a + ","@ + b + ");\n"@,
{
    reveal_strlit("(");
    reveal_strlit(");\n");
    reveal_strlit(",");
    reveal_strlit("");
    let one = seq![a];
    let two = seq![a, op];
    let three = seq![a, op, b];
    assert(one.drop_last() =~= Seq::<Seq<char>>::empty());
    assert(two.drop_last() =~= one);
    assert(three.drop_last() =~= two);
    assert(call_arguments(Seq::<Seq<char>>::empty()) == Seq::<char>::empty());
    assert(one.last() == a && two.last() == op && three.last() == b);
    assert(!call_operator(a) && call_operator(op) && !call_operator(b));
    assert(call_arguments(one) == call_arguments(Seq::<Seq<char>>::empty()) + a + seq![',']);
    assert(call_arguments(one) =~= a + seq![',']);
    assert(ends_with_char(a + seq![','], ','));
    assert((a + seq![',']).drop_last() =~= a);
    assert(call_arguments(two) =~= a + op);
    assert(call_arguments(three) =~= a + op + b + seq![',']);
    assert((a + op + b + seq![',']).drop_last() =~= a + op + b);
    assert(call_argument_text(three) =~= a + op + b);
    assert(call_text(three, name, false) =~= name + "("@ + a + op + b + ");\n"@);
    let pair = seq![a, b];
    assert(pair.drop_last() =~= one);
    assert(call_arguments(pair) =~= a + seq![','] + b + seq![',']);
    assert((a + seq![','] + b + seq![',']).drop_last() =~= a + seq![','] + b);
    assert(call_argument_text(pair) =~= a + seq![','] + b);
    assert(call_text(pair, name, false) =~= name + "("@ + a + ","@ + b + ");\n"@);
}

/// `trim` of a text with white space (no line break) around a core whose ends are not
/// white space is that core.
proof fn lemma_trim_padded(w1: Seq<char>, core: Seq<char>, w2: Seq<char>)
    requires
        core.len() > 0,
        !is_ws(core[0]),
        !is_ws(core.last()),
        forall|i: int| 0 <= i < w1.len() ==> is_ws(#[trigger] w1[i]),
        forall|i: int| 0 <= i < w2.len() ==> is_ws(#[trigger] w2[i]),
    ensures
        trim(w1 + core + w2) == core,
{
    let s = w1 + core + w2;
    let k = w1.len() as int;
    assert forall|j: int| 0 <= j < k implies is_ws(#[trigger] s[j]) by {
        assert(s[j] == w1[j]);
    }
    lemma_trim_start_skip(s, k);
    let t = s.skip(k);
    assert(t =~= core + w2);
    assert(t[0] == core[0]);
    assert(trim_start(t) == t);
    let m = core.len() as int;
    assert forall|j: int| m <= j < t.len() implies is_ws(#[trigger] t[j]) by {
        assert(t[j] == w2[j - m]);
    }
    lemma_trim_end_take(t, m);
    assert(t.take(m) =~= core);
    assert(core.last() == core[m - 1]);
    assert(trim_end(core) == core);
}

/// Lines between a `?_` line and a `_?` line (each marker possibly padded with white
/// space) go into the `asm` block as they are, without quotes, and the marker lines are
/// dropped: `?_`, a line `l`, `_?` give `asm(` with `l` alone in it.
pub proof fn lemma_assembly_direct_line(w1: Seq<char>, w2: Seq<char>, l: Seq<char>)
    requires
        forall|i: int| 0 <= i < w1.len() ==> is_ws(#[trigger] w1[i]) && w1[i] != '\n',
        forall|i: int| 0 <= i < w2.len() ==> is_ws(#[trigger] w2[i]) && w2[i] != '\n',
        !l.contains('\n'),
        trim(l) != "_?"@,
    ensures
        assembly_text(w1 + "?_"@ + w2 + seq!['\n'] + l + "\n_?"@) == "asm(\n"@ + l + "\n);\n"@,
{
    reveal(assembly_text);
    reveal_strlit("?_");
    reveal_strlit("_?");
    reveal_strlit("\n_?");
    reveal_strlit("asm(\n");
    reveal_strlit("\n);\n");
    reveal_strlit(");\n");
    let start = seq!['?', '_'];
    let end = seq!['_', '?'];
    let a = w1 + start + w2;
    assert(!a.contains('\n')) by {
        if a.contains('\n') {
            let i = choose|i: int| 0 <= i < a.len() && a[i] == '\n';
            if i < w1.len() {
                assert(a[i] == w1[i]);
            } else if i < w1.len() + 2 {
                assert(a[i] == start[i - w1.len()]);
            } else {
                assert(a[i] == w2[i - w1.len() - 2]);
            }
        }
    }
    assert(!end.contains('\n')) by {
        if end.contains('\n') {
            let i = choose|i: int| 0 <= i < end.len() && end[i] == '\n';
        }
    }
    let data = w1 + "?_"@ + w2 + seq!['\n'] + l + "\n_?"@;
    assert(data =~= (a + seq!['\n'] + l) + seq!['\n'] + end);
    lemma_split_without(a, '\n');
    lemma_split_then(a, '\n', l);
    lemma_split_then(a + seq!['\n'] + l, '\n', end);
    let lines = seq![a, l, end];
    assert(split(data, '\n') =~= lines);
    lemma_trim_padded(w1, start, w2);
    let nothing: Seq<char> = seq![];
    lemma_trim_padded(nothing, end, nothing);
    assert(nothing + end + nothing =~= end);
    assert(lines.drop_last() =~= seq![a, l]);
    assert(seq![a, l].drop_last() =~= seq![a]);
    assert(seq![a].drop_last() =~= Seq::<Seq<char>>::empty());
    assert(start =~= "?_"@);
    assert(end =~= "_?"@);
    assert(assembly_lines(Seq::<Seq<char>>::empty()) == (nothing, false));
    assert(seq![a].last() == a);
    assert(seq![a, l].last() == l);
    assert(lines.last() == end);
    assert(trim(a) == "?_"@);
    assert(assembly_lines(seq![a]) == (nothing, true));
    assert(assembly_lines(seq![a, l]) == (nothing + l + seq!['\n'], true));
    assert(assembly_lines(lines) == (nothing + l + seq!['\n'], false));
    assert(assembly_text(data) =~= "asm(\n"@ + l + "\n);\n"@);
}

/// Outside the `?_` ... `_?` markers, a line of at least two bytes goes into the `asm`
/// block in quotes.
pub proof fn lemma_assembly_quoted_line(l: Seq<char>)
    requires
        !l.contains('\n'),
        trim(l) != "?_"@,
        2 <= encode_utf8(l).len() <= usize::MAX,
    ensures
        assembly_text(l) == "asm(\n"@ + seq!['"'] + l + seq!['"', '\n'] + ");\n"@,
{
    reveal(assembly_text);
    lemma_split_without(l, '\n');
    let nothing: Seq<char> = seq![];
    assert(seq![l].drop_last() =~= Seq::<Seq<char>>::empty());
    assert(assembly_lines(Seq::<Seq<char>>::empty()) == (nothing, false));
    assert(seq![l].last() == l);
    assert((encode_utf8(l).len() as usize) >= 2);
    assert(assembly_lines(seq![l]) == (nothing + seq!['"'] + l + seq!['"', '\n'], false));
    assert(nothing + seq!['"'] + l + seq!['"', '\n'] =~= seq!['"'] + l + seq!['"', '\n']);
}

/// Definitions are immutable by default: a definition that is not mutable opens with
/// `const `, a mutable one with a bare space; without a type it is `auto`, and the name
/// follows the type.
pub proof fn lemma_definition_const_unless_mutable(data: Seq<char>, var_type: Seq<char>, name: Seq<char>)
    ensures
        definition_text(data, var_type, name, false).take(6) == "const "@,
        definition_text(data, var_type, name, true)[0] == ' ',
        var_type.len() == 0 ==> definition_text(data, var_type, name, false).take(12 + name.len() as int) == "const auto "@
            + name + seq![' '],
{
    reveal_strlit("const ");
    reveal_strlit("const");
    reveal_strlit("const auto ");
    reveal_strlit("auto");
    reveal_strlit("");
    let tail = (if data.len() == 0 {
        ";"@
    } else {
        "= "@ + data + ";"@
    }) + seq!['\n'];
    let ty = if var_type.len() == 0 {
        "auto"@
    } else {
        var_type
    };
    let c = definition_text(data, var_type, name, false);
    assert(c == "const"@ + seq![' '] + ty + seq![' '] + name + seq![' '] + tail);
    assert(c.take(6) =~= "const "@);
    let m = definition_text(data, var_type, name, true);
    assert(m == ""@ + seq![' '] + ty + seq![' '] + name + seq![' '] + tail);
    assert(m[0] == ' ');
    if var_type.len() == 0 {
        assert(c.take(12 + name.len() as int) =~= "const auto "@ + name + seq![' ']);
    }
}

} // verus!
