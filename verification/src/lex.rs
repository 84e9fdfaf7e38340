//! Lexicographic order on text, as `str`'s `Ord` compares it (by code
//! point, a shorter prefix first), and sorting by it.

use vstd::prelude::*;
use crate::skill::strings_view;
use crate::text::{chars_of, strs_view};

verus! {

broadcast use vstd::seq_lib::group_to_multiset_ensures;

/// `a` sorts strictly before `b`.
pub open spec fn lex_lt(a: Seq<char>, b: Seq<char>) -> bool
    decreases a.len(),
{
    if a.len() == 0 {
        b.len() > 0
    } else if b.len() == 0 {
        false
    } else if a[0] != b[0] {
        (a[0] as int) < (b[0] as int)
    } else {
        lex_lt(a.drop_first(), b.drop_first())
    }
}

/// Nothing sorts before itself.
pub proof fn lemma_lex_irreflexive(a: Seq<char>)
    ensures
        !lex_lt(a, a),
    decreases a.len(),
{
    if a.len() > 0 {
        lemma_lex_irreflexive(a.drop_first());
    }
}

/// The order is a strict total order: of two different texts exactly
/// one sorts first.
pub proof fn lemma_lex_total(a: Seq<char>, b: Seq<char>)
    ensures
        a =~= b || lex_lt(a, b) || lex_lt(b, a),
        !(lex_lt(a, b) && lex_lt(b, a)),
    decreases a.len(),
{
    if a.len() > 0 && b.len() > 0 {
        if a[0] == b[0] {
            lemma_lex_total(a.drop_first(), b.drop_first());
            if a.drop_first() =~= b.drop_first() {
                assert(a =~= seq![a[0]] + a.drop_first());
                assert(b =~= seq![b[0]] + b.drop_first());
            }
        } else {
            assert((a[0] as int) != (b[0] as int));
        }
    }
}

/// The order is transitive.
pub proof fn lemma_lex_trans(a: Seq<char>, b: Seq<char>, c: Seq<char>)
    requires
        lex_lt(a, b),
        lex_lt(b, c),
    ensures
        lex_lt(a, c),
    decreases a.len(),
{
    if a.len() > 0 && b.len() > 0 && c.len() > 0 {
        if a[0] == b[0] && b[0] == c[0] {
            lemma_lex_trans(a.drop_first(), b.drop_first(), c.drop_first());
        }
    }
}

/// Whether `a` sorts strictly before `b`.
pub fn lex_less(a: &str, b: &str) -> (r: bool)
    ensures
        r == lex_lt(a@, b@),
{
    let x = chars_of(a);
    let y = chars_of(b);
    let mut i: usize = 0;
    proof {
        assert(x@.skip(0) =~= x@);
        assert(y@.skip(0) =~= y@);
    }
    while i < x.len() && i < y.len()
        invariant
            i <= x@.len(),
            i <= y@.len(),
            x@ == a@,
            y@ == b@,
            lex_lt(a@, b@) == lex_lt(x@.skip(i as int), y@.skip(i as int)),
        decreases x@.len() - i,
    {
        if x[i] != y[i] {
            proof {
                assert(x@.skip(i as int)[0] == x@[i as int]);
                assert(y@.skip(i as int)[0] == y@[i as int]);
            }
            return x[i] < y[i];
        }
        proof {
            assert(x@.skip(i as int)[0] == x@[i as int]);
            assert(y@.skip(i as int)[0] == y@[i as int]);
            assert(x@.skip(i as int).drop_first() =~= x@.skip(i + 1));
            assert(y@.skip(i as int).drop_first() =~= y@.skip(i + 1));
        }
        i = i + 1;
    }
    proof {
        assert(x@.skip(i as int).len() == x@.len() - i);
        assert(y@.skip(i as int).len() == y@.len() - i);
    }
    i == x.len() && i < y.len()
}

/// Every text sorts no earlier than the one before it.
pub open spec fn sorted_texts(s: Seq<Seq<char>>) -> bool {
    forall|i: int, j: int| 0 <= i < j < s.len() ==> !lex_lt(s[j], s[i])
}

/// Every text sorts strictly after the one before it (so none repeats).
pub open spec fn strictly_sorted_texts(s: Seq<Seq<char>>) -> bool {
    forall|i: int, j: int| 0 <= i < j < s.len() ==> lex_lt(s[i], s[j])
}

/// The texts of `v` in sorted order, repeats kept (an unstable sort
/// can only differ from this in the order of equal texts, which are
/// indistinguishable).
pub fn sort_strs<'a>(v: &Vec<&'a str>) -> (r: Vec<&'a str>)
    ensures
        sorted_texts(strs_view(r@)),
        strs_view(r@).to_multiset() == strs_view(v@).to_multiset(),
{
    let mut out: Vec<&'a str> = Vec::new();
    let mut i: usize = 0;
    while i < v.len()
        invariant
            i <= v@.len(),
            sorted_texts(strs_view(out@)),
            strs_view(out@).to_multiset() == strs_view(v@).take(i as int).to_multiset(),
        decreases v@.len() - i,
    {
        let x = v[i];
        // first position whose text sorts strictly after `x`
        let mut p: usize = 0;
        while p < out.len() && !lex_less(x, out[p])
            invariant
                p <= out@.len(),
                forall|k: int| 0 <= k < p ==> !lex_lt(x@, #[trigger] strs_view(out@)[k]),
            decreases out@.len() - p,
        {
            p = p + 1;
        }
        let ghost before = strs_view(out@);
        out.insert(p, x);
        proof {
            let after = strs_view(out@);
            assert(after =~= before.insert(p as int, x@));
            assert forall|a: int, b: int| 0 <= a < b < after.len() implies !lex_lt(after[b], after[a]) by {
                if b < p {
                    assert(after[a] == before[a] && after[b] == before[b]);
                } else if b == p {
                    assert(after[a] == before[a]);
                    assert(after[b] == x@);
                    assert(!lex_lt(x@, before[a]));
                    lemma_lex_total(x@, before[a]);
                } else if a == p {
                    assert(after[a] == x@);
                    assert(after[b] == before[b - 1]);
                    // x sorts strictly before before[p] <= before[b - 1]
                    assert(lex_lt(x@, before[p as int]));
                    if b - 1 > p {
                        assert(!lex_lt(before[b - 1], before[p as int]));
                        lemma_lex_total(before[b - 1], before[p as int]);
                        if lex_lt(before[b - 1], x@) {
                            lemma_lex_trans(before[b - 1], x@, before[p as int]);
                        }
                    }
                    lemma_lex_total(x@, before[b - 1]);
                } else if a < p {
                    assert(after[a] == before[a]);
                    assert(after[b] == before[b - 1]);
                } else {
                    assert(after[a] == before[a - 1]);
                    assert(after[b] == before[b - 1]);
                }
            }
            assert(strs_view(v@).take(i + 1) =~= strs_view(v@).take(i as int).push(x@));
            vstd::seq_lib::to_multiset_insert(before, p as int, x@);
        }
        i = i + 1;
    }
    proof {
        assert(strs_view(v@).take(v@.len() as int) =~= strs_view(v@));
    }
    out
}

/// The texts of `v` sorted, each once.
pub fn sort_unique(v: &Vec<String>) -> (r: Vec<String>)
    ensures
        strictly_sorted_texts(strings_view(r@)),
        strings_view(r@).to_set() == strings_view(v@).to_set(),
{
    let mut out: Vec<String> = Vec::new();
    let mut i: usize = 0;
    while i < v.len()
        invariant
            i <= v@.len(),
            strictly_sorted_texts(strings_view(out@)),
            strings_view(out@).to_set() == strings_view(v@).take(i as int).to_set(),
        decreases v@.len() - i,
    {
        let x = &v[i];
        // first position whose text does not sort before `x`
        let mut p: usize = 0;
        while p < out.len() && lex_less(out[p].as_str(), x.as_str())
            invariant
                p <= out@.len(),
                forall|k: int| 0 <= k < p ==> lex_lt(#[trigger] strings_view(out@)[k], x@),
            decreases out@.len() - p,
        {
            p = p + 1;
        }
        let ghost before = strings_view(out@);
        let dup = p < out.len() && !lex_less(x.as_str(), out[p].as_str());
        proof {
            assert(strings_view(v@).take(i + 1) =~= strings_view(v@).take(i as int).push(x@));
            strings_view(v@).take(i as int).lemma_push_to_set_commute(x@);
        }
        if dup {
            proof {
                lemma_lex_total(before[p as int], x@);
                assert(before[p as int] =~= x@);
                assert(before.contains(x@));
                assert(before.to_set().insert(x@) =~= before.to_set());
            }
        } else {
            out.insert(p, x.clone());
            proof {
                let after = strings_view(out@);
                assert(after =~= before.insert(p as int, x@));
                assert forall|a: int, b: int| 0 <= a < b < after.len() implies lex_lt(after[a], after[b]) by {
                    if b < p {
                        assert(after[a] == before[a] && after[b] == before[b]);
                    } else if b == p {
                        assert(after[a] == before[a]);
                        assert(after[b] == x@);
                    } else if a == p {
                        assert(after[a] == x@);
                        assert(after[b] == before[b - 1]);
                        assert(!lex_lt(before[p as int], x@));
                        lemma_lex_total(before[p as int], x@);
                        assert(lex_lt(x@, before[p as int]));
                        if b - 1 > p {
                            lemma_lex_trans(x@, before[p as int], before[b - 1]);
                        }
                    } else if a < p {
                        assert(after[a] == before[a]);
                        assert(after[b] == before[b - 1]);
                        lemma_lex_trans(after[a], x@, before[p as int]);
                        assert(!lex_lt(before[p as int], x@));
                        lemma_lex_total(before[p as int], x@);
                        if b - 1 > p {
                            lemma_lex_trans(after[a], before[p as int], before[b - 1]);
                        }
                    } else {
                        assert(after[a] == before[a - 1]);
                        assert(after[b] == before[b - 1]);
                    }
                }
                assert(after.to_set() =~= before.to_set().insert(x@)) by {
                    assert forall|t: Seq<char>| after.to_set().contains(t) <==> before.to_set().insert(x@).contains(t) by {
                        if after.to_set().contains(t) {
                            let k = choose|k: int| 0 <= k < after.len() && after[k] == t;
                            if k < p {
                                assert(before[k] == t);
                            } else if k > p {
                                assert(before[k - 1] == t);
                            }
                        }
                        if before.to_set().contains(t) {
                            let k = choose|k: int| 0 <= k < before.len() && before[k] == t;
                            if k < p {
                                assert(after[k] == t);
                            } else {
                                assert(after[k + 1] == t);
                            }
                        }
                        if t == x@ {
                            assert(after[p as int] == t);
                        }
                    }
                }
            }
        }
        i = i + 1;
    }
    proof {
        assert(strings_view(v@).take(v@.len() as int) =~= strings_view(v@));
    }
    out
}

} // verus!
