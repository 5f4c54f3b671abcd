//! Character-level helpers shared by the tokenizer, the code generator and the parser.
//!
//! Every text is modelled by its sequence of characters (`Seq<char>`); the spec functions
//! here give the meaning of the few `str` operations the compiler relies on
//! (trimming, splitting, replacing, prefix and suffix tests).
use vstd::prelude::*;

verus! {

/// The views of a sequence of strings.
pub open spec fn views(v: Seq<String>) -> Seq<Seq<char>> {
    v.map_values(|s: String| s@)
}

/// Unicode `White_Space`, the property that `char::is_whitespace` tests.
pub open spec fn is_ws(c: char) -> bool {
    let x = c as u32;
    ||| 9 <= x <= 13
    ||| x == 32
    ||| x == 0x85
    ||| x == 0xA0
    ||| x == 0x1680
    ||| 0x2000 <= x <= 0x200A
    ||| x == 0x2028
    ||| x == 0x2029
    ||| x == 0x202F
    ||| x == 0x205F
    ||| x == 0x3000
}

/// `s` without its leading white space.
pub open spec fn trim_start(s: Seq<char>) -> Seq<char>
    decreases s.len(),
{
    if s.len() > 0 && is_ws(s[0]) {
        trim_start(s.drop_first())
    } else {
        s
    }
}

/// `s` without its trailing white space.
pub open spec fn trim_end(s: Seq<char>) -> Seq<char>
    decreases s.len(),
{
    if s.len() > 0 && is_ws(s.last()) {
        trim_end(s.drop_last())
    } else {
        s
    }
}

/// `s` without white space at either end.
pub open spec fn trim(s: Seq<char>) -> Seq<char> {
    trim_end(trim_start(s))
}

pub open spec fn starts_with_char(s: Seq<char>, c: char) -> bool {
    s.len() > 0 && s[0] == c
}

pub open spec fn ends_with_char(s: Seq<char>, c: char) -> bool {
    s.len() > 0 && s.last() == c
}

/// `s` with every occurrence of `c` replaced by `r`.
pub open spec fn replace_char(s: Seq<char>, c: char, r: Seq<char>) -> Seq<char>
    decreases s.len(),
{
    if s.len() == 0 {
        seq![]
    } else {
        replace_char(s.drop_last(), c, r) + (if s.last() == c {
            r
        } else {
            seq![s.last()]
        })
    }
}

/// The pieces of `s` between the occurrences of `c` (what `str::split` yields):
/// never empty, and one piece more than there are occurrences of `c`.
pub open spec fn split(s: Seq<char>, c: char) -> Seq<Seq<char>>
    decreases s.len(),
{
    if s.len() == 0 {
        seq![seq![]]
    } else {
        let r = split(s.drop_last(), c);
        if s.last() == c {
            r.push(seq![])
        } else {
            r.update(r.len() - 1, r.last().push(s.last()))
        }
    }
}

/// The piece of `s` after the last `c` (the last item of `str::split`).
pub open spec fn after_last(s: Seq<char>, c: char) -> Seq<char> {
    split(s, c).last()
}

/// The piece of `s` before the first `c` (the first item of `str::split`).
pub open spec fn before_first(s: Seq<char>, c: char) -> Seq<char> {
    split(s, c)[0]
}

/// `s` with every `c` removed.
pub open spec fn remove_char(s: Seq<char>, c: char) -> Seq<char> {
    replace_char(s, c, seq![])
}

/// Does `c` occur in `s`?
pub open spec fn has_char(s: Seq<char>, c: char) -> bool {
    s.contains(c)
}

pub proof fn lemma_split_nonempty(s: Seq<char>, c: char)
    ensures
        split(s, c).len() >= 1,
    decreases s.len(),
{
    if s.len() > 0 {
        lemma_split_nonempty(s.drop_last(), c);
    }
}

/// `char::is_whitespace`.
pub fn is_whitespace(c: char) -> (b: bool)
    ensures
        b == is_ws(c),
{
    let x: u32 = c as u32;
    (9 <= x && x <= 13) || x == 32 || x == 0x85 || x == 0xA0 || x == 0x1680 || (0x2000 <= x && x
        <= 0x200A) || x == 0x2028 || x == 0x2029 || x == 0x202F || x == 0x205F || x == 0x3000
}

/// Appends one character to a `String` (`String::push`).
#[verifier::external_body]
pub fn push_char(s: &mut String, c: char)
    ensures
        final(s)@ == old(s)@.push(c),
{
    s.push(c);
}

/// Text equality of two string slices, character by character.
pub fn str_eq(a: &str, b: &str) -> (r: bool)
    ensures
        r == (a@ == b@),
{
    let x = chars_of(a);
    let y = chars_of(b);
    if x.len() != y.len() {
        return false;
    }
    let mut i: usize = 0;
    while i < x.len()
        invariant
            x@ == a@,
            y@ == b@,
            x@.len() == y@.len(),
            i <= x@.len(),
            forall|j: int| 0 <= j < i ==> x@[j] == y@[j],
        decreases x@.len() - i,
    {
        if x[i] != y[i] {
            return false;
        }
        i = i + 1;
    }
    assert(a@ =~= b@);
    true
}

/// The characters of `s`, one by one.
pub fn chars_of(s: &str) -> (res: Vec<char>)
    ensures
        res@ == s@,
{
    let mut res: Vec<char> = Vec::new();
    for c in it: s.chars()
        invariant
            res@ == it.seq().take(it.index() as int),
    {
        res.push(c);
    }
    res
}

/// The string made of the characters `v[from..to]`.
pub fn string_of_range(v: &Vec<char>, from: usize, to: usize) -> (res: String)
    requires
        from <= to <= v.len(),
    ensures
        res@ == v@.subrange(from as int, to as int),
{
    let mut res = String::new();
    let mut i = from;
    while i < to
        invariant
            from <= i <= to <= v.len(),
            res@ == v@.subrange(from as int, i as int),
        decreases to - i,
    {
        push_char(&mut res, v[i]);
        i = i + 1;
        assert(res@ =~= v@.subrange(from as int, i as int));
    }
    res
}

/// Appends the characters `v` to `s`.
pub fn push_chars(s: &mut String, v: &Vec<char>)
    ensures
        final(s)@ == old(s)@ + v@,
{
    let mut i: usize = 0;
    while i < v.len()
        invariant
            i <= v.len(),
            s@ == old(s)@ + v@.take(i as int),
        decreases v.len() - i,
    {
        push_char(s, v[i]);
        i = i + 1;
        assert(s@ =~= old(s)@ + v@.take(i as int));
    }
    assert(v@.take(v.len() as int) =~= v@);
}

/// A fresh copy of `s`.
pub fn copy_str(s: &str) -> (res: String)
    ensures
        res@ == s@,
{
    String::from_str(s)
}

pub proof fn lemma_trim_start_skip(s: Seq<char>, i: int)
    requires
        0 <= i < s.len(),
        forall|j: int| 0 <= j < i ==> is_ws(#[trigger] s[j]),
    ensures
        trim_start(s) == trim_start(s.skip(i)),
    decreases i,
{
    if i > 0 {
        assert(s.skip(1) =~= s.drop_first());
        lemma_trim_start_skip(s.drop_first(), i - 1);
        assert(s.drop_first().skip(i - 1) =~= s.skip(i));
    } else {
        assert(s.skip(0) =~= s);
    }
}

proof fn lemma_trim_start_all_ws(s: Seq<char>)
    requires
        forall|j: int| 0 <= j < s.len() ==> is_ws(#[trigger] s[j]),
    ensures
        trim_start(s) =~= Seq::<char>::empty(),
    decreases s.len(),
{
    if s.len() > 0 {
        lemma_trim_start_all_ws(s.drop_first());
    }
}

pub proof fn lemma_trim_end_take(s: Seq<char>, k: int)
    requires
        0 <= k <= s.len(),
        forall|j: int| k <= j < s.len() ==> is_ws(#[trigger] s[j]),
    ensures
        trim_end(s) == trim_end(s.take(k)),
    decreases s.len() - k,
{
    if k < s.len() {
        assert(s.drop_last() =~= s.take(s.len() - 1));
        lemma_trim_end_take(s.drop_last(), k);
        assert(s.drop_last().take(k) =~= s.take(k));
    } else {
        assert(s.take(k) =~= s);
    }
}

/// Index of the first character of `v[from..]` that is not white space (`v.len()` if none),
/// so that `v[result..]` is `trim_start(v[from..])`.
pub fn skip_ws(v: &Vec<char>, from: usize) -> (i: usize)
    requires
        from <= v.len(),
    ensures
        from <= i <= v.len(),
        v@.subrange(i as int, v.len() as int) == trim_start(v@.subrange(from as int, v.len() as int)),
{
    let mut i = from;
    while i < v.len() && is_whitespace(v[i])
        invariant
            from <= i <= v.len(),
            forall|j: int| from <= j < i ==> is_ws(#[trigger] v@[j]),
        decreases v.len() - i,
    {
        i = i + 1;
    }
    proof {
        let s = v@.subrange(from as int, v.len() as int);
        assert forall|j: int| 0 <= j < i - from implies is_ws(#[trigger] s[j]) by {
            assert(s[j] == v@[from + j]);
        }
        if i < v.len() {
            lemma_trim_start_skip(s, i - from);
            assert(s.skip(i - from) =~= v@.subrange(i as int, v.len() as int));
        } else {
            lemma_trim_start_all_ws(s);
            assert(v@.subrange(i as int, v.len() as int) =~= Seq::<char>::empty());
        }
    }
    i
}

/// End of `v[from..to]` once trailing white space is dropped,
/// so that `v[from..result]` is `trim_end(v[from..to])`.
pub fn drop_ws_end(v: &Vec<char>, from: usize, to: usize) -> (j: usize)
    requires
        from <= to <= v.len(),
    ensures
        from <= j <= to,
        v@.subrange(from as int, j as int) == trim_end(v@.subrange(from as int, to as int)),
{
    let mut j = to;
    while j > from && is_whitespace(v[j - 1])
        invariant
            from <= j <= to <= v.len(),
            forall|k: int| j <= k < to ==> is_ws(#[trigger] v@[k]),
        decreases j,
    {
        j = j - 1;
    }
    proof {
        let s = v@.subrange(from as int, to as int);
        assert forall|k: int| j - from <= k < s.len() implies is_ws(#[trigger] s[k]) by {
            assert(s[k] == v@[from + k]);
        }
        lemma_trim_end_take(s, j - from);
        let t = s.take(j - from);
        assert(t =~= v@.subrange(from as int, j as int));
        if t.len() > 0 {
            assert(t.last() == v@[j - 1]);
        }
    }
    j
}

/// `str::trim_start` followed by `str::starts_with(c)`.
pub fn trimmed_starts_with(s: &str, c: char) -> (b: bool)
    ensures
        b == starts_with_char(trim_start(s@), c),
{
    let v = chars_of(s);
    let i = skip_ws(&v, 0);
    proof {
        assert(v@.subrange(0, v@.len() as int) =~= v@);
    }
    i < v.len() && v[i] == c
}

/// `str::trim_end` followed by `str::ends_with(c)`.
pub fn trimmed_ends_with(s: &str, c: char) -> (b: bool)
    ensures
        b == ends_with_char(trim_end(s@), c),
{
    let v = chars_of(s);
    let j = drop_ws_end(&v, 0, v.len());
    proof {
        assert(v@.subrange(0, v@.len() as int) =~= v@);
    }
    j > 0 && v[j - 1] == c
}

/// `str::trim`, as a fresh string.
pub fn trimmed(s: &str) -> (res: String)
    ensures
        res@ == trim(s@),
{
    let v = chars_of(s);
    let i = skip_ws(&v, 0);
    let j = drop_ws_end(&v, i, v.len());
    proof {
        assert(v@.subrange(0, v@.len() as int) =~= v@);
    }
    string_of_range(&v, i, j)
}

/// `str::trim_end`, as a fresh string.
pub fn trimmed_end(s: &str) -> (res: String)
    ensures
        res@ == trim_end(s@),
{
    let v = chars_of(s);
    let j = drop_ws_end(&v, 0, v.len());
    proof {
        assert(v@.subrange(0, v@.len() as int) =~= v@);
    }
    string_of_range(&v, 0, j)
}

/// `str::starts_with(c)`.
pub fn starts_with(s: &str, c: char) -> (b: bool)
    ensures
        b == starts_with_char(s@, c),
{
    let v = chars_of(s);
    v.len() > 0 && v[0] == c
}

/// `str::ends_with(c)`.
pub fn ends_with(s: &str, c: char) -> (b: bool)
    ensures
        b == ends_with_char(s@, c),
{
    let v = chars_of(s);
    v.len() > 0 && v[v.len() - 1] == c
}

/// `str::contains(c)`.
pub fn contains_char(s: &str, c: char) -> (b: bool)
    ensures
        b == has_char(s@, c),
{
    let v = chars_of(s);
    let mut i: usize = 0;
    while i < v.len()
        invariant
            i <= v.len(),
            v@ == s@,
            forall|j: int| 0 <= j < i ==> v@[j] != c,
        decreases v.len() - i,
    {
        if v[i] == c {
            return true;
        }
        i = i + 1;
    }
    false
}

/// `str::replace(c, r)` for a single character `c`.
pub fn replace_char_with(s: &str, c: char, r: &str) -> (res: String)
    ensures
        res@ == replace_char(s@, c, r@),
{
    let v = chars_of(s);
    let mut res = String::new();
    let mut i: usize = 0;
    while i < v.len()
        invariant
            i <= v.len(),
            v@ == s@,
            res@ == replace_char(v@.take(i as int), c, r@),
        decreases v.len() - i,
    {
        assert(v@.take(i + 1).drop_last() =~= v@.take(i as int));
        if v[i] == c {
            res.append(r);
        } else {
            push_char(&mut res, v[i]);
        }
        i = i + 1;
    }
    assert(v@.take(v.len() as int) =~= v@);
    res
}

/// `str::split(c)`, each piece as a fresh string.
pub fn split_on(s: &str, c: char) -> (res: Vec<String>)
    ensures
        views(res@) == split(s@, c),
{
    let v = chars_of(s);
    let mut res: Vec<String> = Vec::new();
    let mut cur = String::new();
    let mut i: usize = 0;
    while i < v.len()
        invariant
            i <= v.len(),
            v@ == s@,
            views(res@).push(cur@) == split(v@.take(i as int), c),
        decreases v.len() - i,
    {
        let ghost prev = split(v@.take(i as int), c);
        assert(v@.take(i + 1).drop_last() =~= v@.take(i as int));
        if v[i] == c {
            res.push(cur);
            cur = String::new();
            assert(views(res@).push(cur@) =~= prev.push(seq![]));
        } else {
            push_char(&mut cur, v[i]);
            assert(views(res@).push(cur@) =~= prev.update(prev.len() - 1, prev.last().push(v@[i as int])));
        }
        i = i + 1;
    }
    assert(v@.take(v.len() as int) =~= v@);
    res.push(cur);
    assert(views(res@) =~= split(s@, c));
    res
}

/// A copy of a list of strings.
pub fn copy_strings(v: &Vec<String>) -> (res: Vec<String>)
    ensures
        views(res@) == views(v@),
{
    let mut res: Vec<String> = Vec::new();
    let mut i: usize = 0;
    while i < v.len()
        invariant
            i <= v.len(),
            views(res@) == views(v@).take(i as int),
        decreases v.len() - i,
    {
        let ghost before = res@;
        res.push(v[i].clone());
        assert(views(res@) =~= views(before).push(v@[i as int]@));
        i = i + 1;
        assert(views(res@) =~= views(v@).take(i as int));
    }
    assert(views(v@).take(v.len() as int) =~= views(v@));
    res
}

/// A text without `c` is one piece.
pub proof fn lemma_split_without(s: Seq<char>, c: char)
    requires
        !s.contains(c),
    ensures
        split(s, c) == seq![s],
    decreases s.len(),
{
    if s.len() > 0 {
        let t = s.drop_last();
        assert(!t.contains(c)) by {
            if t.contains(c) {
                let i = choose|i: int| 0 <= i < t.len() && t[i] == c;
                assert(s[i] == c);
            }
        }
        lemma_split_without(t, c);
        assert(s.last() != c) by {
            assert(s[s.len() - 1] == s.last());
        }
        assert(t.push(s.last()) =~= s);
        assert(split(s, c) == seq![t].update(0, t.push(s.last())));
        assert(seq![t].update(0, t.push(s.last())) =~= seq![s]);
    } else {
        assert(s =~= Seq::<char>::empty());
        assert(split(s, c) =~= seq![s]);
    }
}

/// After `c`, a piece without `c` adds one piece.
pub proof fn lemma_split_then(r: Seq<char>, c: char, piece: Seq<char>)
    requires
        !piece.contains(c),
    ensures
        split(r + seq![c] + piece, c) == split(r, c).push(piece),
    decreases piece.len(),
{
    if piece.len() == 0 {
        assert(r + seq![c] + piece =~= r.push(c));
        assert((r.push(c)).drop_last() =~= r);
        assert((r.push(c)).last() == c);
        assert(piece =~= Seq::<char>::empty());
        assert(split(r.push(c), c) == split(r, c).push(seq![]));
    } else {
        let q = piece.drop_last();
        let x = piece.last();
        assert(!q.contains(c)) by {
            if q.contains(c) {
                let i = choose|i: int| 0 <= i < q.len() && q[i] == c;
                assert(piece[i] == c);
            }
        }
        assert(x != c) by {
            assert(piece[piece.len() - 1] == x);
        }
        lemma_split_then(r, c, q);
        let w = r + seq![c] + q;
        assert(r + seq![c] + piece =~= w.push(x));
        assert(w.push(x).drop_last() =~= w);
        lemma_split_nonempty(w, c);
        assert(w.push(x).last() == x);
        assert(split(w.push(x), c) == split(w, c).update(split(w, c).len() - 1, split(w, c).last().push(x)));
        assert(q.push(x) =~= piece);
        assert(split(r, c).push(q).update(split(r, c).len() as int, q.push(x)) =~= split(r, c).push(piece));
    }
}

} // verus!
