use vstd::prelude::*;
use crate::optimize::OptimizeBlocks;
use crate::optimize::optimize_helpers::{is_eq_or_uneq, is_boolean, eq_or_uneq_text, boolean_text};
use crate::text::{views, copy_strings, str_eq, copy_str};

verus! {

/// One step of the condition rewriting, at index `i`. The state is the tokens so far,
/// whether a `!` or `=` has been seen, and whether a comparison operator is open.
/// A comparison with `true` is dropped (`x == true` becomes `x`); one with `false`
/// is dropped and the operand three tokens back is negated (`x == false` becomes `!x`).
pub open spec fn optimize_step(st: (Seq<Seq<char>>, bool, bool), i: int) -> (
    Seq<Seq<char>>,
    bool,
    bool,
) {
    let (d, seen, open) = st;
    if seen && open {
        if boolean_text(d[i]) {
            if d[i] == "true"@ {
                (d.update(i - 2, seq![]).update(i - 1, seq![]).update(i, seq![]), seen, false)
            } else {
                (
                    d.update(i - 3, seq!['!'] + d[i - 3]).update(i - 2, seq![]).update(
                        i - 1,
                        seq![],
                    ).update(i, seq![]),
                    seen,
                    false,
                )
            }
        } else {
            st
        }
    } else if eq_or_uneq_text(d[i]) {
        if seen {
            (d, seen, true)
        } else {
            (d, true, open)
        }
    } else {
        st
    }
}

pub open spec fn optimize_upto(d: Seq<Seq<char>>, n: int) -> (Seq<Seq<char>>, bool, bool)
    decreases n,
{
    if n <= 0 {
        (d, false, false)
    } else {
        optimize_step(optimize_upto(d, n - 1), n - 1)
    }
}

/// The tokens of a condition once comparisons with `true` and `false` are folded away.
pub open spec fn optimized(d: Seq<Seq<char>>) -> Seq<Seq<char>> {
    optimize_upto(d, d.len() as int).0
}

/// The inputs on which the rewriting would negate a token before the first one:
/// they open with two comparison characters followed by `false`.
pub open spec fn optimize_undefined(d: Seq<Seq<char>>) -> bool {
    d.len() >= 3 && eq_or_uneq_text(d[0]) && eq_or_uneq_text(d[1]) && d[2] == "false"@
}

/// Folds comparisons with boolean literals in the tokens of a condition.
pub fn optimize(data: &Vec<String>, optimize_type: OptimizeBlocks) -> (res: Vec<String>)
    requires
        !optimize_undefined(views(data@)),
    ensures
        views(res@) == optimized(views(data@)),
        res@.len() == data@.len(),
{
    let ghost d0 = views(data@);
    let mut data = copy_strings(data);
    match optimize_type {
        OptimizeBlocks::StatementBool => {
            let mut seen = false;
            let mut is_op = false;
            let n = data.len();
            let mut i: usize = 0;
            while i < n
                invariant
                    n == data@.len() == d0.len(),
                    i <= n,
                    !optimize_undefined(d0),
                    optimize_upto(d0, i as int) == (views(data@), seen, is_op),
                    forall|j: int| i <= j < n ==> (#[trigger] data@[j])@ == d0[j],
                    seen ==> i >= 1,
                    is_op ==> seen && i >= 2,
                    seen && i == 1 ==> eq_or_uneq_text(d0[0]),
                    is_op && i == 2 ==> eq_or_uneq_text(d0[0]) && eq_or_uneq_text(d0[1]),
                decreases n - i,
            {
                let ghost st = (views(data@), seen, is_op);
                assert(views(data@)[i as int] == data@[i as int]@);
                if seen && is_op {
                    if is_boolean(&data[i]) {
                        if str_eq(data[i].as_str(), "true") {
                            data.set(i - 2, String::new());
                            data.set(i - 1, String::new());
                            data.set(i, String::new());
                            assert(views(data@) =~= st.0.update(i - 2, seq![]).update(i - 1, seq![]).update(i as int, seq![]));
                        } else {
                            let mut negated = copy_str("!");
                            proof {
                                reveal_strlit("!");
                            }
                            negated.append(data[i - 3].as_str());
                            assert(negated@ =~= seq!['!'] + st.0[i - 3]);
                            data.set(i - 3, negated);
                            data.set(i - 2, String::new());
                            data.set(i - 1, String::new());
                            data.set(i, String::new());
                            assert(views(data@) =~= st.0.update(i - 3, seq!['!'] + st.0[i - 3]).update(i - 2, seq![]).update(i - 1, seq![]).update(i as int, seq![]));
                        }
                        is_op = false;
                    }
                } else if is_eq_or_uneq(&data[i]) {
                    if seen {
                        is_op = true;
                    } else {
                        seen = true;
                    }
                }
                i = i + 1;
            }
        },
    }
    data
}

/// A condition without `!` or `=` tokens is left as it is.
pub proof fn lemma_optimize_without_comparison(d: Seq<Seq<char>>)
    requires
        forall|i: int| 0 <= i < d.len() ==> !eq_or_uneq_text(#[trigger] d[i]),
    ensures
        optimized(d) == d,
{
    lemma_optimize_upto_without_comparison(d, d.len() as int);
}

proof fn lemma_optimize_upto_without_comparison(d: Seq<Seq<char>>, n: int)
    requires
        0 <= n <= d.len(),
        forall|i: int| 0 <= i < d.len() ==> !eq_or_uneq_text(#[trigger] d[i]),
    ensures
        optimize_upto(d, n) == (d, false, false),
    decreases n,
{
    if n > 0 {
        lemma_optimize_upto_without_comparison(d, n - 1);
        assert(!eq_or_uneq_text(d[n - 1]));
    }
}

/// Steps over tokens that are not `!` or `=` change nothing while no comparison is open.
proof fn lemma_optimize_upto_plain(d: Seq<Seq<char>>, k: int, n: int)
    requires
        0 <= k <= n <= d.len(),
        !optimize_upto(d, k).2,
        forall|i: int| k <= i < n ==> !eq_or_uneq_text(#[trigger] optimize_upto(d, k).0[i]),
    ensures
        optimize_upto(d, n) == optimize_upto(d, k),
    decreases n - k,
{
    if n > k {
        lemma_optimize_upto_plain(d, k, n - 1);
        assert(!eq_or_uneq_text(optimize_upto(d, k).0[n - 1]));
    }
}

/// A comparison with a boolean literal, `x == true` (or `!=`), becomes `x`, and one with
/// `false` becomes `!x`; the comparison's other tokens become empty. The tokens around it
/// hold no `!` or `=` and stay as they are.
pub proof fn lemma_optimize_comparison_with_boolean(
    p: Seq<Seq<char>>,
    x: Seq<char>,
    a: Seq<char>,
    b: Seq<char>,
    v: Seq<char>,
    s: Seq<Seq<char>>,
)
    requires
        forall|i: int| 0 <= i < p.len() ==> !eq_or_uneq_text(#[trigger] p[i]),
        forall|i: int| 0 <= i < s.len() ==> !eq_or_uneq_text(#[trigger] s[i]),
        !eq_or_uneq_text(x),
        eq_or_uneq_text(a),
        eq_or_uneq_text(b),
        boolean_text(v),
    ensures
        optimized(p + seq![x, a, b, v] + s) == p + seq![
            if v == "true"@ {
                x
            } else {
                seq!['!'] + x
            },
            seq![],
            seq![],
            seq![],
        ] + s,
{
    let d = p + seq![x, a, b, v] + s;
    let k = p.len() as int;
    assert(d[k] == x && d[k + 1] == a && d[k + 2] == b && d[k + 3] == v);
    assert forall|i: int| 0 <= i < k implies d[i] == p[i] by {}
    assert forall|i: int| k + 4 <= i < d.len() implies d[i] == s[i - k - 4] by {}
    assert(optimize_upto(d, 0) == (d, false, false));
    assert forall|i: int| 0 <= i < k + 1 implies !eq_or_uneq_text(#[trigger] optimize_upto(d, 0).0[i]) by {
        if i < k {
            assert(d[i] == p[i]);
        }
    }
    lemma_optimize_upto_plain(d, 0, k + 1);
    assert(optimize_upto(d, k + 2) == (d, true, false));
    assert(optimize_upto(d, k + 3) == (d, true, true));
    let e = if v == "true"@ {
        d.update(k + 1, seq![]).update(k + 2, seq![]).update(k + 3, seq![])
    } else {
        d.update(k, seq!['!'] + d[k]).update(k + 1, seq![]).update(k + 2, seq![]).update(k + 3, seq![])
    };
    assert(optimize_upto(d, k + 4) == (e, true, false));
    assert forall|i: int| k + 4 <= i < d.len() implies !eq_or_uneq_text(#[trigger] optimize_upto(d, k + 4).0[i]) by {
        assert(e[i] == d[i]);
        assert(d[i] == s[i - k - 4]);
    }
    lemma_optimize_upto_plain(d, k + 4, d.len() as int);
    assert(optimized(d) == e);
    let want = p + seq![
        if v == "true"@ {
            x
        } else {
            seq!['!'] + x
        },
        seq![],
        seq![],
        seq![],
    ] + s;
    assert(e =~= want);
}

} // verus!
