use vstd::prelude::*;
use crate::read::GreteaFileData;
use crate::text::{
    views, trim, trim_start, trim_end, starts_with_char, ends_with_char, replace_char, split,
    chars_of, skip_ws, is_ws, lemma_split_nonempty, lemma_split_then, drop_ws_end, trimmed_starts_with, trimmed_ends_with, push_char, copy_str,
    split_on, replace_char_with,
};

verus! {

/// The characters that always stand as tokens of their own.
pub open spec fn is_token_char(c: char) -> bool {
    c == '`' || c == '(' || c == ')' || c == '[' || c == ']' || c == '#' || c == '{' || c == '}'
        || c == ':' || c == '=' || c == ','
}

/// `s` with a space put on both sides of every token character.
pub open spec fn pad_tokens(s: Seq<char>) -> Seq<char>
    decreases s.len(),
{
    if s.len() == 0 {
        seq![]
    } else {
        pad_tokens(s.drop_last()) + (if is_token_char(s.last()) {
            seq![' ', s.last(), ' ']
        } else {
            seq![s.last()]
        })
    }
}

/// Does the piece open a quoted datum?
pub open spec fn starts_data(s: Seq<char>) -> bool {
    starts_with_char(trim_start(s), '"')
}

/// Does the piece close a quoted datum?
pub open spec fn ends_data(s: Seq<char>) -> bool {
    ends_with_char(trim_end(s), '"')
}

/// Is the piece (part of) a quoted datum?
pub open spec fn data_piece(s: Seq<char>) -> bool {
    starts_data(s) || ends_data(s)
}

/// A line comment: the line, trimmed, begins with `//`.
pub open spec fn comment_line(s: Seq<char>) -> bool {
    let t = trim(s);
    t.len() >= 2 && t[0] == '/' && t[1] == '/'
}

/// The lines on which the comment test fails: at least two characters, and
/// nothing but one `/` once trimmed.
pub open spec fn comment_line_panics(s: Seq<char>) -> bool {
    s.len() >= 2 && trim(s) == seq!['/']
}

/// The tokenizer's state between two space-separated pieces: whether a quoted datum is
/// open, the text of the open datum, and the tokens so far.
pub open spec fn tokenize_step(st: (bool, Seq<char>, Seq<Seq<char>>), piece: Seq<char>) -> (
    bool,
    Seq<char>,
    Seq<Seq<char>>,
) {
    let (found, pending, out) = st;
    if found {
        let p = pending + piece + seq![' '];
        if ends_data(piece) {
            (false, seq![], out.push(p))
        } else {
            (true, p, out)
        }
    } else if starts_data(piece) {
        if !ends_data(piece) {
            (true, pending + piece + seq![' '], out)
        } else {
            (false, pending, out.push(piece))
        }
    } else {
        (false, pending, out + split(pad_tokens(piece), ' '))
    }
}

pub open spec fn tokenize_pieces(pieces: Seq<Seq<char>>) -> (bool, Seq<char>, Seq<Seq<char>>)
    decreases pieces.len(),
{
    if pieces.len() == 0 {
        (false, seq![], seq![])
    } else {
        tokenize_step(tokenize_pieces(pieces.drop_last()), pieces.last())
    }
}

/// The tokens of a source text: its space-separated pieces, where a piece that is not
/// part of a quoted datum is cut around token characters, and the pieces from one that
/// opens a datum to the one that closes it are joined, each followed by a space
/// (a datum left open at the end gives no token).
pub open spec fn tokens_of(raw: Seq<char>) -> Seq<Seq<char>> {
    tokenize_pieces(split(raw, ' ')).2
}

pub open spec fn get_data_from(tokens: Seq<Seq<char>>, k: int, acc: Seq<char>, last: int) -> (
    Seq<char>,
    int,
)
    decreases tokens.len() - k,
{
    if k < 0 || k >= tokens.len() {
        (acc, last)
    } else if tokens[k].len() == 0 {
        get_data_from(tokens, k + 1, acc, k)
    } else if data_piece(tokens[k]) {
        (acc + tokens[k] + seq![' '], k)
    } else {
        get_data_from(tokens, k + 1, acc + tokens[k] + seq![' '], k)
    }
}

/// From token `n` on: the non-empty tokens up to and including the first one that is
/// part of a quoted datum, each followed by a space, and the index of the last token looked at.
pub open spec fn data_from(tokens: Seq<Seq<char>>, n: int) -> (Seq<char>, int) {
    get_data_from(tokens, n, seq![], 0)
}

/// Cuts the source text into tokens.
pub fn tokenize(raw_data: &GreteaFileData) -> (res: Vec<String>)
    ensures
        views(res@) == tokens_of(raw_data.raw_data@),
{
    let temporary_tokens = split_on(raw_data.raw_data.as_str(), ' ');
    let ghost pieces = views(temporary_tokens@);
    let mut tokenized_data: Vec<String> = Vec::new();
    let mut variable_data = String::new();
    let mut found_data = false;
    let mut i: usize = 0;
    while i < temporary_tokens.len()
        invariant
            i <= temporary_tokens@.len(),
            pieces == views(temporary_tokens@),
            pieces == split(raw_data.raw_data@, ' '),
            tokenize_pieces(pieces.take(i as int)) == (found_data, variable_data@, views(
                tokenized_data@,
            )),
        decreases temporary_tokens@.len() - i,
    {
        assert(pieces.take(i + 1).drop_last() =~= pieces.take(i as int));
        let piece: &str = temporary_tokens[i].as_str();
        assert(pieces[i as int] == piece@);
        if found_data {
            let ghost pending = variable_data@;
            variable_data.append(piece);
            push_char(&mut variable_data, ' ');
            assert(variable_data@ =~= pending + piece@ + seq![' ']);
            if is_end_of_data(&piece) {
                found_data = false;
                let ghost before = tokenized_data@;
                tokenized_data.push(variable_data);
                variable_data = String::new();
                assert(views(tokenized_data@) =~= views(before).push(
                    tokenized_data@[tokenized_data@.len() - 1]@,
                ));
            }
            i = i + 1;
            continue;
        }
        if is_start_of_data(&piece) {
            if !is_end_of_data(&piece) {
                found_data = true;
                let ghost pending = variable_data@;
                variable_data.append(piece);
                push_char(&mut variable_data, ' ');
                assert(variable_data@ =~= pending + piece@ + seq![' ']);
            } else {
                let ghost before = tokenized_data@;
                tokenized_data.push(copy_str(piece));
                assert(views(tokenized_data@) =~= views(before).push(piece@));
            }
            i = i + 1;
            continue;
        }
        let token = replace(&copy_str(piece));
        let retokenize = split_on(token.as_str(), ' ');
        i = i + 1;
        let ghost before = tokenized_data@;
        let mut j: usize = 0;
        while j < retokenize.len()
            invariant
                j <= retokenize@.len(),
                views(tokenized_data@) == views(before) + views(retokenize@).take(j as int),
            decreases retokenize@.len() - j,
        {
            let t = retokenize[j].clone();
            assert(t@ == views(retokenize@)[j as int]);
            let ghost before_push = tokenized_data@;
            tokenized_data.push(t);
            assert(views(tokenized_data@) =~= views(before_push).push(t@));
            assert(views(retokenize@).take(j + 1) =~= views(retokenize@).take(j as int).push(t@));
            j = j + 1;
            assert(views(tokenized_data@) =~= views(before) + views(retokenize@).take(j as int));
        }
        assert(views(retokenize@).take(j as int) =~= views(retokenize@));
    }
    assert(pieces.take(temporary_tokens@.len() as int) =~= pieces);
    tokenized_data
}

/// Collects, from token `n` on, the text up to the end of the next quoted datum.
pub fn get_data(tokens: &Vec<&str>, n: usize) -> (res: (String, usize))
    ensures
        (res.0@, res.1 as int) == data_from(tokens@.map_values(|t: &str| t@), n as int),
{
    let ghost ts = tokens@.map_values(|t: &str| t@);
    let mut temporary = String::new();
    let mut i: usize = 0;
    let mut k: usize = n;
    while k < tokens.len()
        invariant_except_break
            data_from(ts, n as int) == get_data_from(ts, k as int, temporary@, i as int),
        invariant
            n <= k,
            ts == tokens@.map_values(|t: &str| t@),
        ensures
            data_from(ts, n as int) == (temporary@, i as int),
        decreases tokens@.len() - k,
    {
        let token: &str = tokens[k];
        assert(ts[k as int] == token@);
        i = k;
        if token.is_empty() {
            k = k + 1;
            continue;
        }
        let ghost acc = temporary@;
        temporary.append(token);
        push_char(&mut temporary, ' ');
        assert(temporary@ =~= acc + token@ + seq![' ']);
        if !is_data(&token) {
            k = k + 1;
            continue;
        }
        break;
    }
    (temporary, i)
}

/// Puts a space on both sides of every token character of `token`.
pub fn replace(token: &String) -> (res: String)
    ensures
        res@ == pad_tokens(token@),
{
    let v = chars_of(token.as_str());
    let mut res = String::new();
    let mut i: usize = 0;
    while i < v.len()
        invariant
            i <= v.len(),
            v@ == token@,
            res@ == pad_tokens(v@.take(i as int)),
        decreases v.len() - i,
    {
        assert(v@.take(i + 1).drop_last() =~= v@.take(i as int));
        let c = v[i];
        if is_token_character(c) {
            push_char(&mut res, ' ');
            push_char(&mut res, c);
            push_char(&mut res, ' ');
            assert(res@ =~= pad_tokens(v@.take(i as int)) + seq![' ', c, ' ']);
        } else {
            push_char(&mut res, c);
        }
        i = i + 1;
    }
    assert(v@.take(v.len() as int) =~= v@);
    res
}

/// `is_token_char`, computed.
pub fn is_token_character(c: char) -> (b: bool)
    ensures
        b == is_token_char(c),
{
    c == '`' || c == '(' || c == ')' || c == '[' || c == ']' || c == '#' || c == '{' || c == '}'
        || c == ':' || c == '=' || c == ','
}

pub fn is_data(token: &&str) -> (b: bool)
    ensures
        b == data_piece(token@),
{
    is_start_of_data(token) || is_end_of_data(token)
}

pub fn is_start_of_data(token: &&str) -> (b: bool)
    ensures
        b == starts_data(token@),
{
    trimmed_starts_with(*token, '"')
}

pub fn is_end_of_data(token: &&str) -> (b: bool)
    ensures
        b == ends_data(token@),
{
    trimmed_ends_with(*token, '"')
}

/// Is the line a `//` comment?
pub fn is_comment(token: &&str) -> (b: bool)
    requires
        !comment_line_panics(token@),
    ensures
        b == comment_line(token@),
{
    let v = chars_of(*token);
    if v.len() < 2 {
        proof {
            lemma_trim_len(token@);
        }
        return false;
    }
    let i = skip_ws(&v, 0);
    let j = drop_ws_end(&v, i, v.len());
    proof {
        assert(v@.subrange(0, v@.len() as int) =~= v@);
    }
    assert(v@.subrange(i as int, j as int) == trim(token@));
    if i < j && v[i] == '/' {
        if j - i < 2 {
            assert(trim(token@) =~= seq!['/']);
            return false;
        }
        v[i + 1] == '/'
    } else {
        false
    }
}

proof fn lemma_trim_start_len(s: Seq<char>)
    ensures
        trim_start(s).len() <= s.len(),
    decreases s.len(),
{
    if s.len() > 0 && crate::text::is_ws(s[0]) {
        lemma_trim_start_len(s.drop_first());
    }
}

proof fn lemma_trim_end_len(s: Seq<char>)
    ensures
        trim_end(s).len() <= s.len(),
    decreases s.len(),
{
    if s.len() > 0 && crate::text::is_ws(s.last()) {
        lemma_trim_end_len(s.drop_last());
    }
}

proof fn lemma_trim_len(s: Seq<char>)
    ensures
        trim(s).len() <= s.len(),
{
    lemma_trim_start_len(s);
    lemma_trim_end_len(trim_start(s));
}

/// Puts a space on both sides of every `character` in `token`.
pub fn replace_with(token: &String, character: char) -> (res: String)
    ensures
        res@ == replace_char(token@, character, seq![' ', character, ' ']),
{
    let mut pad = String::new();
    push_char(&mut pad, ' ');
    push_char(&mut pad, character);
    push_char(&mut pad, ' ');
    assert(pad@ =~= seq![' ', character, ' ']);
    replace_char_with(token.as_str(), character, pad.as_str())
}

/// The token characters, in the order in which the tokenizer's table lists them.
pub open spec fn token_list() -> Seq<char> {
    seq!['`', '(', ')', '[', ']', '#', '{', '}', ':', '=', ',']
}

/// `replace_with` applied for each character of `list`, in order.
pub open spec fn replace_each(s: Seq<char>, list: Seq<char>) -> Seq<char>
    decreases list.len(),
{
    if list.len() == 0 {
        s
    } else {
        replace_each(replace_char(s, list[0], seq![' ', list[0], ' ']), list.drop_first())
    }
}

/// `s` with a space put on both sides of every character of `p`.
pub open spec fn pad_with(s: Seq<char>, p: Seq<char>) -> Seq<char>
    decreases s.len(),
{
    if s.len() == 0 {
        seq![]
    } else {
        pad_with(s.drop_last(), p) + (if p.contains(s.last()) {
            seq![' ', s.last(), ' ']
        } else {
            seq![s.last()]
        })
    }
}

proof fn lemma_replace_char_concat(a: Seq<char>, b: Seq<char>, c: char, r: Seq<char>)
    ensures
        replace_char(a + b, c, r) == replace_char(a, c, r) + replace_char(b, c, r),
    decreases b.len(),
{
    if b.len() == 0 {
        assert(a + b =~= a);
        assert(replace_char(a, c, r) + replace_char(b, c, r) =~= replace_char(a, c, r));
    } else {
        lemma_replace_char_concat(a, b.drop_last(), c, r);
        assert((a + b).drop_last() =~= a + b.drop_last());
        assert((a + b).last() == b.last());
    }
}

proof fn lemma_replace_char_single(x: char, c: char, r: Seq<char>)
    ensures
        replace_char(seq![x], c, r) == (if x == c {
            r
        } else {
            seq![x]
        }),
{
    assert(seq![x].drop_last() =~= Seq::<char>::empty());
    assert(seq![x].last() == x);
    assert(replace_char(Seq::<char>::empty(), c, r) == Seq::<char>::empty());
    if x == c {
        assert(Seq::<char>::empty() + r =~= r);
    } else {
        assert(Seq::<char>::empty() + seq![x] =~= seq![x]);
    }
}

proof fn lemma_pad_with_step(s: Seq<char>, p: Seq<char>, c: char)
    requires
        c != ' ',
        !p.contains(c),
    ensures
        replace_char(pad_with(s, p), c, seq![' ', c, ' ']) == pad_with(s, p.push(c)),
    decreases s.len(),
{
    if s.len() > 0 {
        let x = s.last();
        let r = seq![' ', c, ' '];
        let piece = if p.contains(x) { seq![' ', x, ' '] } else { seq![x] };
        let piece2 = if p.push(c).contains(x) { seq![' ', x, ' '] } else { seq![x] };
        lemma_pad_with_step(s.drop_last(), p, c);
        lemma_replace_char_concat(pad_with(s.drop_last(), p), piece, c, r);
        assert(p.push(c).contains(x) == (p.contains(x) || x == c)) by {
            if p.push(c).contains(x) {
                let i = choose|i: int| 0 <= i < p.push(c).len() && p.push(c)[i] == x;
                if i < p.len() {
                    assert(p[i] == x);
                }
            }
            if p.contains(x) {
                let i = choose|i: int| 0 <= i < p.len() && p[i] == x;
                assert(p.push(c)[i] == x);
            }
            if x == c {
                assert(p.push(c)[p.len() as int] == c);
            }
        }
        assert(replace_char(piece, c, r) == piece2) by {
            if p.contains(x) {
                assert(x != c);
                lemma_replace_char_single(' ', c, r);
                lemma_replace_char_single(x, c, r);
                assert(piece =~= seq![' '] + seq![x] + seq![' ']);
                lemma_replace_char_concat(seq![' '] + seq![x], seq![' '], c, r);
                lemma_replace_char_concat(seq![' '], seq![x], c, r);
                assert(replace_char(piece, c, r) =~= seq![' '] + seq![x] + seq![' ']);
            } else {
                lemma_replace_char_single(x, c, r);
            }
        }
        assert(pad_with(s, p) == pad_with(s.drop_last(), p) + piece);
        assert(pad_with(s, p.push(c)) == pad_with(s.drop_last(), p.push(c)) + piece2);
    }
}

proof fn lemma_replace_each_pad(s: Seq<char>, p: Seq<char>, l: Seq<char>)
    requires
        !l.contains(' '),
        forall|i: int, j: int| 0 <= i < j < l.len() ==> l[i] != l[j],
        forall|i: int| 0 <= i < l.len() ==> !p.contains(#[trigger] l[i]),
    ensures
        replace_each(pad_with(s, p), l) == pad_with(s, p + l),
    decreases l.len(),
{
    if l.len() == 0 {
        assert(p + l =~= p);
    } else {
        let c = l[0];
        assert(c != ' ') by {
            if c == ' ' {
                assert(l.contains(' '));
            }
        }
        lemma_pad_with_step(s, p, c);
        let l2 = l.drop_first();
        assert(!l2.contains(' ')) by {
            if l2.contains(' ') {
                let i = choose|i: int| 0 <= i < l2.len() && l2[i] == ' ';
                assert(l[i + 1] == ' ');
            }
        }
        assert forall|i: int| 0 <= i < l2.len() implies !p.push(c).contains(#[trigger] l2[i]) by {
            assert(l2[i] == l[i + 1]);
            assert(l[0] != l[i + 1]);
            if p.push(c).contains(l2[i]) {
                let k = choose|k: int| 0 <= k < p.push(c).len() && p.push(c)[k] == l2[i];
                if k < p.len() {
                    assert(p.contains(l[i + 1]));
                }
            }
        }
        assert forall|i: int, j: int| 0 <= i < j < l2.len() implies l2[i] != l2[j] by {
            assert(l2[i] == l[i + 1] && l2[j] == l[j + 1]);
        }
        lemma_replace_each_pad(s, p.push(c), l2);
        assert(p.push(c) + l2 =~= p + l);
    }
}

proof fn lemma_pad_with_nothing(s: Seq<char>)
    ensures
        pad_with(s, seq![]) == s,
    decreases s.len(),
{
    if s.len() > 0 {
        lemma_pad_with_nothing(s.drop_last());
        assert(s.drop_last().push(s.last()) =~= s);
    }
}

proof fn lemma_pad_with_token_list(s: Seq<char>)
    ensures
        pad_with(s, token_list()) == pad_tokens(s),
    decreases s.len(),
{
    if s.len() > 0 {
        lemma_pad_with_token_list(s.drop_last());
        let x = s.last();
        let l = token_list();
        assert(l.contains(x) == is_token_char(x)) by {
            if is_token_char(x) {
                if x == '`' { assert(l[0] == x); }
                else if x == '(' { assert(l[1] == x); }
                else if x == ')' { assert(l[2] == x); }
                else if x == '[' { assert(l[3] == x); }
                else if x == ']' { assert(l[4] == x); }
                else if x == '#' { assert(l[5] == x); }
                else if x == '{' { assert(l[6] == x); }
                else if x == '}' { assert(l[7] == x); }
                else if x == ':' { assert(l[8] == x); }
                else if x == '=' { assert(l[9] == x); }
                else { assert(l[10] == x); }
            }
        }
    }
}

/// `replace` puts spaces around the token characters in one pass; this is the same as
/// applying `replace_with` for each character of the token table, in the table's order.
pub proof fn lemma_replace_is_successive_replace_with(s: Seq<char>)
    ensures
        replace_each(s, token_list()) == pad_tokens(s),
{
    let l = token_list();
    assert(!l.contains(' ')) by {
        if l.contains(' ') {
            let i = choose|i: int| 0 <= i < l.len() && l[i] == ' ';
        }
    }
    assert forall|i: int, j: int| 0 <= i < j < l.len() implies l[i] != l[j] by {}
    let empty: Seq<char> = seq![];
    assert forall|i: int| 0 <= i < l.len() implies !empty.contains(#[trigger] l[i]) by {}
    lemma_pad_with_nothing(s);
    lemma_replace_each_pad(s, empty, l);
    assert(empty + l =~= l);
    lemma_pad_with_token_list(s);
}

/// The tokens of the pieces, each piece cut around its token characters, in order.
pub open spec fn cut_pieces(pieces: Seq<Seq<char>>) -> Seq<Seq<char>>
    decreases pieces.len(),
{
    if pieces.len() == 0 {
        seq![]
    } else {
        cut_pieces(pieces.drop_last()) + split(pad_tokens(pieces.last()), ' ')
    }
}

/// No quote in the text.
pub open spec fn quote_free(s: Seq<char>) -> bool {
    forall|i: int| 0 <= i < s.len() ==> s[i] != '"'
}

proof fn lemma_quote_free_not_data(s: Seq<char>)
    requires
        quote_free(s),
    ensures
        !starts_data(s),
        !ends_data(s),
{
    lemma_quote_free_trim_start(s);
    lemma_quote_free_trim_end(s);
}

proof fn lemma_quote_free_trim_start(s: Seq<char>)
    requires
        quote_free(s),
    ensures
        quote_free(trim_start(s)),
    decreases s.len(),
{
    if s.len() > 0 && is_ws(s[0]) {
        assert forall|i: int| 0 <= i < s.drop_first().len() implies s.drop_first()[i] != '"' by {
            assert(s.drop_first()[i] == s[i + 1]);
        }
        lemma_quote_free_trim_start(s.drop_first());
    }
}

proof fn lemma_quote_free_trim_end(s: Seq<char>)
    requires
        quote_free(s),
    ensures
        quote_free(trim_end(s)),
    decreases s.len(),
{
    if s.len() > 0 && is_ws(s.last()) {
        assert forall|i: int| 0 <= i < s.drop_last().len() implies s.drop_last()[i] != '"' by {
            assert(s.drop_last()[i] == s[i]);
        }
        lemma_quote_free_trim_end(s.drop_last());
    }
}

/// The pieces of a text without quotes have no quotes either.
proof fn lemma_quote_free_split(s: Seq<char>)
    requires
        quote_free(s),
    ensures
        forall|k: int| 0 <= k < split(s, ' ').len() ==> quote_free(#[trigger] split(s, ' ')[k]),
    decreases s.len(),
{
    if s.len() > 0 {
        let t = s.drop_last();
        assert forall|i: int| 0 <= i < t.len() implies t[i] != '"' by {
            assert(t[i] == s[i]);
        }
        lemma_quote_free_split(t);
        lemma_split_nonempty(t, ' ');
        let r = split(t, ' ');
        assert forall|k: int| 0 <= k < split(s, ' ').len() implies quote_free(#[trigger] split(s, ' ')[k]) by {
            if s.last() != ' ' && k == r.len() - 1 {
                let w = r.last().push(s.last());
                assert(split(s, ' ')[k] == w);
                assert forall|i: int| 0 <= i < w.len() implies w[i] != '"' by {
                    if i < r.last().len() {
                        assert(quote_free(r[r.len() - 1]));
                    }
                }
            }
        }
    }
}

/// Without quoted data, the tokenizer cuts each piece around its token characters.
proof fn lemma_tokenize_pieces_plain(pieces: Seq<Seq<char>>)
    requires
        forall|k: int| 0 <= k < pieces.len() ==> quote_free(#[trigger] pieces[k]),
    ensures
        tokenize_pieces(pieces) == (false, Seq::<char>::empty(), cut_pieces(pieces)),
    decreases pieces.len(),
{
    if pieces.len() > 0 {
        let q = pieces.drop_last();
        assert forall|k: int| 0 <= k < q.len() implies quote_free(#[trigger] q[k]) by {
            assert(q[k] == pieces[k]);
        }
        lemma_tokenize_pieces_plain(q);
        assert(quote_free(pieces[pieces.len() - 1]));
        lemma_quote_free_not_data(pieces.last());
    }
}

/// Cutting the text `s` followed by one more character.
proof fn lemma_split_pad_push(s: Seq<char>, x: char)
    requires
        x != ' ',
    ensures
        ({
            let l = split(pad_tokens(s), ' ');
            split(pad_tokens(s.push(x)), ' ') == if is_token_char(x) {
                l.push(seq![x]).push(seq![])
            } else {
                l.update(l.len() - 1, l.last().push(x))
            }
        }),
{
    let a = pad_tokens(s);
    assert(s.push(x).drop_last() =~= s);
    lemma_split_nonempty(a, ' ');
    if is_token_char(x) {
        let b1 = a.push(' ');
        let b2 = b1.push(x);
        let b3 = b2.push(' ');
        assert(pad_tokens(s.push(x)) =~= b3);
        assert(b3.drop_last() =~= b2);
        assert(b2.drop_last() =~= b1);
        assert(b1.drop_last() =~= a);
        let l1 = split(b1, ' ');
        assert(l1 == split(a, ' ').push(seq![]));
        assert(split(b2, ' ') == l1.update(l1.len() - 1, l1.last().push(x)));
        assert(split(b2, ' ') =~= split(a, ' ').push(seq![x]));
    } else {
        assert(pad_tokens(s.push(x)) =~= a.push(x));
        assert(a.push(x).drop_last() =~= a);
    }
}

/// The pieces of a text, each cut around its token characters, are the pieces of the
/// text with its token characters set apart.
proof fn lemma_cut_pieces_split(s: Seq<char>)
    ensures
        cut_pieces(split(s, ' ')) == split(pad_tokens(s), ' '),
    decreases s.len(),
{
    if s.len() == 0 {
        let e: Seq<Seq<char>> = seq![seq![]];
        let nothing: Seq<char> = seq![];
        assert(e.drop_last() =~= Seq::<Seq<char>>::empty());
        assert(e.last() == nothing);
        assert(s =~= nothing);
        assert(pad_tokens(nothing) == nothing);
        assert(split(s, ' ') == e);
        assert(cut_pieces(e) == cut_pieces(e.drop_last()) + split(pad_tokens(e.last()), ' '));
        assert(cut_pieces(e) =~= e);
    } else {
        let t = s.drop_last();
        let x = s.last();
        assert(t.push(x) =~= s);
        lemma_cut_pieces_split(t);
        lemma_split_nonempty(t, ' ');
        let r = split(t, ' ');
        if x == ' ' {
            assert(pad_tokens(s) =~= pad_tokens(t).push(' '));
            assert(pad_tokens(t).push(' ').drop_last() =~= pad_tokens(t));
            let r2 = r.push(seq![]);
            assert(r2.drop_last() =~= r);
            assert(pad_tokens(seq![]) =~= Seq::<char>::empty());
            assert(cut_pieces(r2) == cut_pieces(r) + split(pad_tokens(seq![]), ' '));
            assert(cut_pieces(r2) =~= cut_pieces(r).push(seq![]));
        } else {
            let w = r.last();
            let r2 = r.update(r.len() - 1, w.push(x));
            assert(r2.drop_last() =~= r.drop_last());
            lemma_split_pad_push(t, x);
            lemma_split_pad_push(w, x);
            let a = cut_pieces(r.drop_last());
            let b = split(pad_tokens(w), ' ');
            lemma_split_nonempty(pad_tokens(w), ' ');
            assert(cut_pieces(r) == a + b);
            assert(cut_pieces(r2) == a + split(pad_tokens(w.push(x)), ' '));
            if is_token_char(x) {
                assert((a + b).push(seq![x]).push(seq![]) =~= a + b.push(seq![x]).push(seq![]));
            } else {
                assert((a + b).update((a + b).len() - 1, (a + b).last().push(x)) =~= a + b.update(
                    b.len() - 1,
                    b.last().push(x),
                ));
            }
        }
    }
}

/// Without quotes, the tokens of a text are its space-separated pieces once a space is
/// put on both sides of every token character (empty pieces are kept).
pub proof fn lemma_tokens_without_quotes(raw: Seq<char>)
    requires
        quote_free(raw),
    ensures
        tokens_of(raw) == split(pad_tokens(raw), ' '),
{
    lemma_quote_free_split(raw);
    lemma_tokenize_pieces_plain(split(raw, ' '));
    lemma_cut_pieces_split(raw);
}

/// After text that leaves no quoted datum open (here: text without quotes), a further
/// space-separated piece that does not open a datum (trimmed, it does not begin with `"`)
/// is cut around its token characters, whether or not a quote stands elsewhere in it: its
/// tokens are the pieces of it with a space on both sides of each token character.
pub proof fn lemma_plain_piece_is_cut(r: Seq<char>, piece: Seq<char>)
    requires
        quote_free(r),
        !piece.contains(' '),
        !(trim_start(piece).len() > 0 && trim_start(piece)[0] == '"'),
    ensures
        tokens_of(r + seq![' '] + piece) == tokens_of(r) + split(pad_tokens(piece), ' '),
{
    lemma_split_then(r, ' ', piece);
    let ps = split(r, ' ');
    lemma_quote_free_split(r);
    lemma_tokenize_pieces_plain(ps);
    assert(ps.push(piece).drop_last() =~= ps);
    assert(ps.push(piece).last() == piece);
    assert(!starts_data(piece));
}

/// After text without quotes, a space-separated piece that both opens and closes a quoted
/// datum (trimmed, it begins and ends with `"`) stays one token, as it is.
pub proof fn lemma_quoted_piece_is_whole(r: Seq<char>, piece: Seq<char>)
    requires
        quote_free(r),
        !piece.contains(' '),
        trim_start(piece).len() > 0 && trim_start(piece)[0] == '"',
        trim_end(piece).len() > 0 && trim_end(piece).last() == '"',
    ensures
        tokens_of(r + seq![' '] + piece) == tokens_of(r).push(piece),
{
    lemma_split_then(r, ' ', piece);
    let ps = split(r, ' ');
    lemma_quote_free_split(r);
    lemma_tokenize_pieces_plain(ps);
    assert(ps.push(piece).drop_last() =~= ps);
    assert(ps.push(piece).last() == piece);
    assert(starts_data(piece) && ends_data(piece));
}

} // verus!
