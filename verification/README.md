# gretea

A compiler from the Gretea language to C++, written in Verus.

What is proved: the text helpers, the keyword table, the tokenizer (its output is given
exactly by `tokens_of`), the condition optimizer, the C++ code generator (each method's
output exactly), and, for the parser, each construct's step over plain values
(`src/parser/model.rs`) and each keyword handler against those steps. What `parse` as a
whole states is less: it keeps what the parser held, places every error at its token,
and generates nothing for blank tokens; the C++ it generates for a whole token stream is
not stated as a function of the tokens.

Gretea in short: variables are immutable by default, aliases (`alias name = text`,
used as `# name`), compile-time settings (`compile default type { ... }`), `runtime`
blocks handed to the elite interpreter, variadic generics, and C++ as the back end.

## Layout

- `src/text.rs`, `src/strmap.rs`: text helpers over `Seq<char>`, and a map with text
  keys kept in increasing key order.
- `src/read.rs`: a source file and the removal of its comment lines.
- `src/tokenizer`: splitting a source into tokens (quoted data stays whole, the
  token characters such as `(` `{` `=` `,` are padded with spaces).
- `src/ast.rs`: the keyword table and the records of variables, functions and settings.
- `src/optimize`: folding of `== true` / `== false` in conditions.
- `src/cg.rs`: the C++ code generator; each method appends the C++ of one construct.
- `src/parser.rs`, `src/parser/model.rs`: the parser, a state machine driven by the
  tokens, and the steps of its constructs over plain values.
- `src/lexer`: tokenizing and parsing one file.
- `src/files.rs`: the file names of sources, outputs and headers.
- `app/main.rs`: the command line, file input and output, messages, and the running
  of `runtime` blocks.
