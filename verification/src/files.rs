//! The names of the files the compiler reads and writes.
use vstd::prelude::*;
use crate::text::{chars_of, push_char, copy_str};

verus! {

/// `s` with every occurrence of `pat` (found left to right, not overlapping) replaced by `rep`.
pub open spec fn replace_text(s: Seq<char>, pat: Seq<char>, rep: Seq<char>) -> Seq<char>
    recommends
        pat.len() > 0,
    decreases s.len(),
{
    if s.len() == 0 || pat.len() == 0 {
        s
    } else if pat.len() <= s.len() && s.take(pat.len() as int) == pat {
        rep + replace_text(s.skip(pat.len() as int), pat, rep)
    } else {
        seq![s[0]] + replace_text(s.drop_first(), pat, rep)
    }
}

/// The source file of a module: `name.tea`.
pub fn to_gretea(filename: String) -> (res: String)
    ensures
        res@ == filename@ + ".tea"@,
{
    let mut res = filename;
    res.append(".tea");
    res
}

/// The module name of a source file: every `.tea` taken out.
pub fn normalize(filename: String) -> (res: String)
    ensures
        res@ == replace_text(filename@, ".tea"@, Seq::<char>::empty()),
{
    proof {
        reveal_strlit(".tea");
    }
    let pat = chars_of(".tea");
    let v = chars_of(filename.as_str());
    let mut res = String::new();
    let mut i: usize = 0;
    assert(v@.skip(0) =~= v@);
    assert(res@ + replace_text(v@, pat@, Seq::<char>::empty()) =~= replace_text(v@, pat@, Seq::<char>::empty()));
    while i < v.len()
        invariant
            i <= v.len(),
            v@ == filename@,
            pat@ == ".tea"@,
            pat@.len() == 4,
            res@ + replace_text(v@.skip(i as int), pat@, Seq::<char>::empty()) == replace_text(
                v@,
                pat@,
                Seq::<char>::empty(),
            ),
        decreases v.len() - i,
    {
        let ghost rest = v@.skip(i as int);
        if 4 <= v.len() - i && v[i] == pat[0] && v[i + 1] == pat[1] && v[i + 2] == pat[2] && v[i + 3] == pat[3] {
            assert(rest.take(4) =~= pat@);
            assert(rest.skip(4) =~= v@.skip(i + 4));
            i = i + 4;
        } else {
            assert(!(rest.take(4) =~= pat@) || rest.len() < 4) by {
                if rest.len() >= 4 && rest.take(4) =~= pat@ {
                    assert(rest[0] == v@[i as int]);
                    assert(rest.take(4)[0] == pat@[0]);
                    assert(rest.take(4)[1] == pat@[1]);
                    assert(rest.take(4)[2] == pat@[2]);
                    assert(rest.take(4)[3] == pat@[3]);
                }
            }
            assert(rest.drop_first() =~= v@.skip(i + 1));
            let ghost before = res@;
            push_char(&mut res, v[i]);
            assert(res@ + replace_text(v@.skip(i + 1), pat@, Seq::<char>::empty()) =~= before + (seq![v@[i as int]] + replace_text(rest.drop_first(), pat@, Seq::<char>::empty())));
            i = i + 1;
        }
    }
    assert(v@.skip(i as int) =~= Seq::<char>::empty());
    assert(res@ =~= res@ + Seq::<char>::empty());
    res
}

/// The generated C++ source of a module: `name.cpp`.
pub fn add(filename: String) -> (res: String)
    ensures
        res@ == filename@ + ".cpp"@,
{
    let mut res = filename;
    res.append(".cpp");
    res
}

/// The generated C++ header of a module: `name.hpp`.
pub fn header(filename: String) -> (res: String)
    ensures
        res@ == filename@ + ".hpp"@,
{
    let mut res = filename;
    res.append(".hpp");
    res
}

/// The module name of a module's source file is the module's own name with `.tea`
/// taken out: appending `.tea` and normalizing gives what normalizing gives.
pub proof fn lemma_normalize_source_name(x: Seq<char>)
    ensures
        replace_text(x + ".tea"@, ".tea"@, Seq::<char>::empty()) == replace_text(x, ".tea"@, Seq::<char>::empty()),
    decreases x.len(),
{
    reveal_strlit(".tea");
    let t = ".tea"@;
    let e = Seq::<char>::empty();
    if x.len() == 0 {
        assert(x + t =~= t);
        assert(t.take(4) =~= t);
        assert(t.skip(4) =~= e);
        assert(replace_text(e, t, e) == e);
        assert(e + e =~= e);
    } else if 4 <= x.len() && x.take(4) == t {
        assert((x + t).take(4) =~= x.take(4));
        assert((x + t).skip(4) =~= x.skip(4) + t);
        lemma_normalize_source_name(x.skip(4));
    } else {
        assert(!((x + t).take(4) =~= t)) by {
            if (x + t).take(4) =~= t {
                assert(t[0] == '.' && t[1] == 't' && t[2] == 'e' && t[3] == 'a');
                if x.len() >= 4 {
                    assert((x + t).take(4) =~= x.take(4));
                } else if x.len() == 1 {
                    assert((x + t)[1] == t[0]);
                    assert((x + t).take(4)[1] == t[1]);
                } else if x.len() == 2 {
                    assert((x + t)[2] == t[0]);
                    assert((x + t).take(4)[2] == t[2]);
                } else {
                    assert((x + t)[3] == t[0]);
                    assert((x + t).take(4)[3] == t[3]);
                }
            }
        }
        assert((x + t).drop_first() =~= x.drop_first() + t);
        assert((x + t)[0] == x[0]);
        lemma_normalize_source_name(x.drop_first());
    }
}

} // verus!
