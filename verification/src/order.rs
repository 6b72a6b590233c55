//! The order of strings: code-point order, which is the byte order of their
//! UTF-8 forms and so the order of `String`'s `Ord`. Sorting with duplicates
//! removed (`sort` then `dedup`) is characterised as the strictly increasing
//! sequence with the same elements.

use vstd::prelude::*;

use crate::text::{clone_chars, seqs_of_vecs};

verus! {

/// `a` sorts before `b`, comparing from position `i` on.
pub open spec fn lex_lt_from(a: Seq<char>, b: Seq<char>, i: int) -> bool
    decreases a.len() - i,
{
    if i < 0 || i >= a.len() {
        0 <= i < b.len()
    } else if i >= b.len() {
        false
    } else if a[i] != b[i] {
        a[i] < b[i]
    } else {
        lex_lt_from(a, b, i + 1)
    }
}

/// `a` sorts strictly before `b`.
pub open spec fn lex_lt(a: Seq<char>, b: Seq<char>) -> bool {
    lex_lt_from(a, b, 0)
}

/// Strictly increasing, hence free of duplicates.
pub open spec fn strictly_sorted(r: Seq<Seq<char>>) -> bool {
    forall|i: int| 0 <= i < r.len() - 1 ==> #[trigger] lex_lt(r[i], r[i + 1])
}

/// `r` is what sorting `s` and removing duplicates gives.
pub open spec fn sorted_set_of(r: Seq<Seq<char>>, s: Seq<Seq<char>>) -> bool {
    &&& strictly_sorted(r)
    &&& forall|x: Seq<char>| r.contains(x) <==> s.contains(x)
}

proof fn lemma_lex_total_from(a: Seq<char>, b: Seq<char>, i: int)
    requires
        0 <= i <= a.len(),
        i <= b.len(),
        a.subrange(0, i) == b.subrange(0, i),
        !lex_lt_from(a, b, i),
        !lex_lt_from(b, a, i),
    ensures
        a == b,
    decreases a.len() - i,
{
    if i >= a.len() {
        assert(a =~= a.subrange(0, i));
        assert(b =~= b.subrange(0, i));
    } else if i >= b.len() {
    } else {
        assert(a.subrange(0, i + 1) =~= a.subrange(0, i).push(a[i]));
        assert(b.subrange(0, i + 1) =~= b.subrange(0, i).push(b[i]));
        lemma_lex_total_from(a, b, i + 1);
    }
}

/// Two strings that are distinct are ordered one way or the other.
pub proof fn lemma_lex_total(a: Seq<char>, b: Seq<char>)
    requires
        a != b,
        !lex_lt(a, b),
    ensures
        lex_lt(b, a),
{
    if !lex_lt(b, a) {
        assert(a.subrange(0, 0) =~= b.subrange(0, 0));
        lemma_lex_total_from(a, b, 0);
    }
}

/// Whether `a` sorts strictly before `b`.
pub fn lex_less(a: &[char], b: &[char]) -> (r: bool)
    ensures
        r == lex_lt(a@, b@),
{
    let mut i: usize = 0;
    while i < a.len() && i < b.len()
        invariant
            i <= a@.len(),
            i <= b@.len(),
            lex_lt_from(a@, b@, 0) == lex_lt_from(a@, b@, i as int),
        decreases a@.len() - i,
    {
        if a[i] != b[i] {
            return a[i] < b[i];
        }
        i += 1;
    }
    i < b.len() && i >= a.len()
}

fn same_chars(a: &[char], b: &[char]) -> (r: bool)
    ensures
        r == (a@ == b@),
{
    if a.len() != b.len() {
        return false;
    }
    let mut i: usize = 0;
    while i < a.len()
        invariant
            a@.len() == b@.len(),
            i <= a@.len(),
            a@.take(i as int) == b@.take(i as int),
        decreases a@.len() - i,
    {
        if a[i] != b[i] {
            assert(a@[i as int] != b@[i as int]);
            return false;
        }
        assert(a@.take(i + 1) =~= a@.take(i as int).push(a@[i as int]));
        assert(b@.take(i + 1) =~= b@.take(i as int).push(b@[i as int]));
        i += 1;
    }
    assert(a@ =~= a@.take(i as int));
    assert(b@ =~= b@.take(i as int));
    true
}

/// Puts `x` in its place in a strictly sorted vector, unless it is there.
pub fn insert_sorted(r: &mut Vec<Vec<char>>, x: Vec<char>)
    requires
        strictly_sorted(seqs_of_vecs(old(r)@)),
    ensures
        strictly_sorted(seqs_of_vecs(final(r)@)),
        forall|y: Seq<char>| #[trigger]
            seqs_of_vecs(final(r)@).contains(y) <==> (seqs_of_vecs(old(r)@).contains(y) || y
                == x@),
{
    let ghost s0 = seqs_of_vecs(r@);
    let mut j: usize = 0;
    while j < r.len()
        invariant
            s0 == seqs_of_vecs(r@),
            j <= r@.len(),
            forall|k: int| 0 <= k < j ==> lex_lt(#[trigger] s0[k], x@),
        ensures
            s0 == seqs_of_vecs(r@),
            j <= r@.len(),
            forall|k: int| 0 <= k < j ==> lex_lt(#[trigger] s0[k], x@),
            j < r@.len() ==> !lex_lt(s0[j as int], x@),
        decreases r@.len() - j,
    {
        proof {
            assert(s0[j as int] == r@[j as int]@);
        }
        if !lex_less(r[j].as_slice(), x.as_slice()) {
            break;
        }
        j += 1;
    }
    if j < r.len() && same_chars(r[j].as_slice(), x.as_slice()) {
        assert(s0[j as int] == x@);
        return;
    }
    proof {
        if j < s0.len() {
            assert(s0[j as int] == r@[j as int]@);
            lemma_lex_total(s0[j as int], x@);
        }
    }
    r.insert(j, x);
    proof {
        let s1 = seqs_of_vecs(r@);
        assert(s1 =~= s0.insert(j as int, x@));
        assert forall|i: int| 0 <= i < s1.len() - 1 implies #[trigger] lex_lt(s1[i], s1[i + 1]) by {
            if i < j - 1 {
                assert(s1[i] == s0[i] && s1[i + 1] == s0[i + 1]);
                assert(lex_lt(s0[i], s0[i + 1]));
            } else if i == j - 1 {
                assert(s1[i] == s0[i]);
            } else if i == j {
            } else {
                assert(s1[i] == s0[i - 1] && s1[i + 1] == s0[i]);
                assert(lex_lt(s0[i - 1], s0[i - 1 + 1]));
            }
        }
        assert forall|y: Seq<char>| #[trigger]
            s1.contains(y) <==> (s0.contains(y) || y == x@) by {
            if s1.contains(y) {
                let k = choose|k: int| 0 <= k < s1.len() && #[trigger] s1[k] == y;
                if k < j {
                    assert(s0[k] == y);
                } else if k > j {
                    assert(s0[k - 1] == y);
                }
            }
            if s0.contains(y) {
                let k = choose|k: int| 0 <= k < s0.len() && #[trigger] s0[k] == y;
                if k < j {
                    assert(s1[k] == y);
                } else {
                    assert(s1[k + 1] == y);
                }
            }
            if y == x@ {
                assert(s1[j as int] == y);
            }
        }
    }
}

/// `sort` followed by `dedup`.
pub fn sorted_dedup(v: Vec<Vec<char>>) -> (r: Vec<Vec<char>>)
    ensures
        sorted_set_of(seqs_of_vecs(r@), seqs_of_vecs(v@)),
{
    let ghost s = seqs_of_vecs(v@);
    let mut r: Vec<Vec<char>> = Vec::new();
    let n = v.len();
    let mut i: usize = 0;
    while i < n
        invariant
            n == v@.len(),
            s == seqs_of_vecs(v@),
            i <= n,
            strictly_sorted(seqs_of_vecs(r@)),
            forall|y: Seq<char>| #[trigger]
                seqs_of_vecs(r@).contains(y) <==> s.take(i as int).contains(y),
        decreases n - i,
    {
        let x = clone_chars(&v[i]);
        proof {
            assert(s.take(i + 1) =~= s.take(i as int).push(s[i as int]));
            assert(s[i as int] == v@[i as int]@);
        }
        insert_sorted(&mut r, x);
        proof {
            assert forall|y: Seq<char>| #[trigger]
                seqs_of_vecs(r@).contains(y) <==> s.take(i + 1).contains(y) by {
                if s.take(i + 1).contains(y) && !s.take(i as int).contains(y) {
                    let k = choose|k: int| 0 <= k < i + 1 && #[trigger] s.take(i + 1)[k] == y;
                    if k < i {
                        assert(s.take(i as int)[k] == y);
                    }
                }
                if s.take(i as int).contains(y) {
                    let k = choose|k: int| 0 <= k < i && #[trigger] s.take(i as int)[k] == y;
                    assert(s.take(i + 1)[k] == y);
                }
                if y == s[i as int] {
                    assert(s.take(i + 1)[i as int] == y);
                }
            }
        }
        i += 1;
    }
    assert(s.take(n as int) =~= s);
    r
}

proof fn lemma_lex_asym_from(a: Seq<char>, b: Seq<char>, i: int)
    requires
        0 <= i,
        lex_lt_from(a, b, i),
    ensures
        !lex_lt_from(b, a, i),
    decreases a.len() - i,
{
    if i < a.len() && i < b.len() && a[i] == b[i] {
        lemma_lex_asym_from(a, b, i + 1);
    }
}

/// A string never sorts both before and after another.
pub proof fn lemma_lex_asym(a: Seq<char>, b: Seq<char>)
    requires
        lex_lt(a, b),
    ensures
        !lex_lt(b, a),
{
    lemma_lex_asym_from(a, b, 0);
}

} // verus!
