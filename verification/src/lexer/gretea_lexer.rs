use vstd::prelude::*;
use crate::ast::{GreteaSyntax, GreteaVariableList, default_keyword_map};
use crate::parser::{
    GreteaParser, GreteaParseError, GreteaParseErrorKind, GreteaParseEvent, all_blank, prefix_of, blank_token,
    line_breaks, error_fits,
};
use crate::read::GreteaFileData;
use crate::strmap::StrMap;
use crate::text::{views, copy_strings};
use crate::tokenizer::gretea_tokenizer::{tokenize, tokens_of};

verus! {

/// What compiling one source file gives: the C++ text, the modules it imports (path to
/// whether it is of the standard library), the functions known after it, and what the
/// parser asks its caller to do (messages, `runtime` blocks), in order.
pub struct GreteaLexed {
    pub generated: String,
    pub sources: StrMap<bool>,
    pub func_list: Vec<String>,
    pub events: Vec<GreteaParseEvent>,
}

/// Tokenizes and parses a source file. The functions already known (`init.func_list`)
/// stay known, first and in order.
pub fn init_lexer(init: &GreteaFileData) -> (res: Result<GreteaLexed, (GreteaParseError, Vec<GreteaParseEvent>)>)
    ensures
        res matches Ok(out) ==> out.sources.wf() && prefix_of(views(init.func_list@), views(out.func_list@)),
        tokens_of(init.raw_data@).len() + 2 >= u32::MAX ==> (res matches Err(e) && e.0.kind == GreteaParseErrorKind::TooManyTokens),
        tokens_of(init.raw_data@).len() + 2 < u32::MAX && all_blank(tokens_of(init.raw_data@)) ==> (res matches Ok(out)
            && out.generated@.len() == 0 && out.sources@ == Map::<Seq<char>, bool>::empty()
            && views(out.func_list@) == views(init.func_list@) && out.events@.len() == 0),
        res matches Err(r) ==> (r.0.kind == GreteaParseErrorKind::TooManyTokens <==> tokens_of(init.raw_data@).len()
            + 2 >= u32::MAX),
        res matches Err(r) ==> r.0.kind != GreteaParseErrorKind::TooManyTokens ==> {
            let ts = tokens_of(init.raw_data@);
            &&& 1 <= r.0.column <= ts.len()
            &&& !blank_token(ts[r.0.column - 1])
            &&& r.0.line == 1 + line_breaks(ts.take(r.0.column as int))
            &&& error_fits(r.0, default_keyword_map())
        },
{
    let tokens = tokenize(init);
    let ast = GreteaSyntax::default();
    let func_list = copy_strings(&init.func_list);
    let mut parser = GreteaParser {
        init_ast: ast,
        data_list: GreteaVariableList::default(),
        func_data: Vec::new(),
        raw_data: init.clone(),
        func_list,
        compile_list: Vec::new(),
        events: Vec::new(),
    };
    if tokens.len() >= 4294967293 {
        let e = GreteaParseError {
            kind: GreteaParseErrorKind::TooManyTokens,
            token: String::new(),
            line: 0,
            column: 0,
        };
        return Err((e, parser.events));
    }
    let ghost p0 = parser;
    match parser.parse(&tokens) {
        Ok(data) => {
            proof {
                assert forall|i: int| 0 <= i < views(init.func_list@).len() implies #[trigger] views(parser.func_list@)[i]
                    == views(init.func_list@)[i] by {
                    assert(parser.func_list@[i] == p0.func_list@[i]);
                }
                if all_blank(views(tokens@)) {
                    assert(views(parser.func_list@) == views(p0.func_list@));
                }
            }
            Ok(GreteaLexed {
                generated: data.generated,
                sources: data.sources,
                func_list: parser.func_list,
                events: parser.events,
            })
        },
        Err(e) => {
            proof {
                reveal(error_fits);
            }
            Err((e, parser.events))
        },
    }
}

} // verus!
