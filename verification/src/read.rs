//! The contents of a source file, as the compiler keeps them.
use vstd::prelude::*;
use crate::tokenizer::gretea_tokenizer::{is_comment, comment_line, comment_line_panics};
use crate::text::push_char;

verus! {

#[derive(Clone)]
pub struct GreteaFileData {
    pub raw_data: String,
    pub unparsed: Vec<String>,
    pub lines: Vec<String>,
    pub func_list: Vec<String>,
}

/// The lines of `ls` that are not comments.
pub open spec fn code_lines(ls: Seq<Seq<char>>) -> Seq<Seq<char>>
    decreases ls.len(),
{
    if ls.len() == 0 {
        seq![]
    } else if comment_line(ls.last()) {
        code_lines(ls.drop_last())
    } else {
        code_lines(ls.drop_last()).push(ls.last())
    }
}

/// The text the tokenizer reads: each line that is not a comment, with a space
/// before it and a line break after it.
pub open spec fn raw_text(ls: Seq<Seq<char>>) -> Seq<char>
    decreases ls.len(),
{
    if ls.len() == 0 {
        seq![]
    } else if comment_line(ls.last()) {
        raw_text(ls.drop_last())
    } else {
        raw_text(ls.drop_last()) + seq![' '] + ls.last() + seq!['\n']
    }
}

impl GreteaFileData {
    /// Takes in the lines of a source file: keeps the text of those that are not
    /// comments in `raw_data` (replacing what was there) and appends them to `lines`.
    pub fn read_raw_file(&mut self, file_lines: &Vec<String>)
        requires
            forall|i: int| 0 <= i < file_lines@.len() ==> !comment_line_panics(#[trigger] file_lines@[i]@),
        ensures
            final(self).raw_data@ == raw_text(file_lines@.map_values(|l: String| l@)),
            final(self).lines@.map_values(|l: String| l@) == old(self).lines@.map_values(|l: String| l@)
                + code_lines(file_lines@.map_values(|l: String| l@)),
            final(self).unparsed == old(self).unparsed,
            final(self).func_list == old(self).func_list,
    {
        let ghost ls = file_lines@.map_values(|l: String| l@);
        let mut raw_data = String::new();
        let mut i: usize = 0;
        while i < file_lines.len()
            invariant
                i <= file_lines@.len(),
                ls == file_lines@.map_values(|l: String| l@),
                forall|j: int| 0 <= j < file_lines@.len() ==> !comment_line_panics(#[trigger] file_lines@[j]@),
                raw_data@ == raw_text(ls.take(i as int)),
                self.lines@.map_values(|l: String| l@) == old(self).lines@.map_values(|l: String| l@)
                    + code_lines(ls.take(i as int)),
                self.unparsed == old(self).unparsed,
                self.func_list == old(self).func_list,
            decreases file_lines@.len() - i,
        {
            assert(ls.take(i + 1).drop_last() =~= ls.take(i as int));
            let ip = &file_lines[i];
            let line: &str = ip.as_str();
            if !is_comment(&line) {
                push_char(&mut raw_data, ' ');
                raw_data.append(line);
                push_char(&mut raw_data, '\n');
                let ghost before = self.lines@;
                self.lines.push(ip.clone());
                assert(self.lines@.map_values(|l: String| l@) =~= before.map_values(|l: String| l@).push(ip@));
            }
            i = i + 1;
        }
        assert(ls.take(file_lines@.len() as int) =~= ls);
        self.raw_data = raw_data;
    }
}

} // verus!
