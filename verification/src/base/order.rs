//! The alphabetical order of texts, character by character.
use crate::base::text::chars_of;
use vstd::prelude::*;
use vstd::relations::{sorted_by, total_ordering};

verus! {

/// Whether `a` comes before `b` or is `b`.
pub open spec fn alphabetical(a: Seq<char>, b: Seq<char>) -> bool
    decreases a.len(),
{
    if a.len() == 0 {
        true
    } else if b.len() == 0 {
        false
    } else if a[0] != b[0] {
        a[0] < b[0]
    } else {
        alphabetical(a.skip(1), b.skip(1))
    }
}

/// The order as a relation.
pub open spec fn by_alphabet() -> spec_fn(Seq<char>, Seq<char>) -> bool {
    |a: Seq<char>, b: Seq<char>| alphabetical(a, b)
}

proof fn lemma_reflexive(a: Seq<char>)
    ensures
        alphabetical(a, a),
    decreases a.len(),
{
    if a.len() > 0 {
        lemma_reflexive(a.skip(1));
    }
}

proof fn lemma_antisymmetric(a: Seq<char>, b: Seq<char>)
    requires
        alphabetical(a, b),
        alphabetical(b, a),
    ensures
        a == b,
    decreases a.len(),
{
    if a.len() > 0 && b.len() > 0 {
        lemma_antisymmetric(a.skip(1), b.skip(1));
        assert(a =~= seq![a[0]] + a.skip(1));
        assert(b =~= seq![b[0]] + b.skip(1));
    } else {
        assert(a =~= b);
    }
}

proof fn lemma_transitive(a: Seq<char>, b: Seq<char>, c: Seq<char>)
    requires
        alphabetical(a, b),
        alphabetical(b, c),
    ensures
        alphabetical(a, c),
    decreases a.len(),
{
    if a.len() > 0 && b.len() > 0 && c.len() > 0 {
        if a[0] == b[0] && b[0] == c[0] {
            lemma_transitive(a.skip(1), b.skip(1), c.skip(1));
        }
    }
}

proof fn lemma_connected(a: Seq<char>, b: Seq<char>)
    ensures
        alphabetical(a, b) || alphabetical(b, a),
    decreases a.len(),
{
    if a.len() > 0 && b.len() > 0 && a[0] == b[0] {
        lemma_connected(a.skip(1), b.skip(1));
    }
}

/// The alphabetical order is total.
pub proof fn lemma_alphabet_is_total()
    ensures
        total_ordering(by_alphabet()),
{
    let r = by_alphabet();
    assert forall|a: Seq<char>| #[trigger] r(a, a) by {
        lemma_reflexive(a);
    }
    assert forall|a: Seq<char>, b: Seq<char>| #[trigger] r(a, b) && #[trigger] r(b, a) implies a
        == b by {
        lemma_antisymmetric(a, b);
    }
    assert forall|a: Seq<char>, b: Seq<char>, c: Seq<char>| #[trigger]
        r(a, b) && #[trigger] r(b, c) implies r(a, c) by {
        lemma_transitive(a, b, c);
    }
    assert forall|a: Seq<char>, b: Seq<char>| #[trigger] r(a, b) || #[trigger] r(b, a) by {
        lemma_connected(a, b);
    }
}

/// Whether one text comes before another or is the same.
pub fn text_le(a: &str, b: &str) -> (le: bool)
    ensures
        le == alphabetical(a@, b@),
{
    let x = chars_of(a);
    let y = chars_of(b);
    let mut i: usize = 0;
    assert(a@.skip(0) =~= a@);
    assert(b@.skip(0) =~= b@);
    while i < x.len() && i < y.len() && x[i] == y[i]
        invariant
            i <= x@.len(),
            i <= y@.len(),
            x@ == a@,
            y@ == b@,
            alphabetical(a@, b@) == alphabetical(a@.skip(i as int), b@.skip(i as int)),
        decreases x@.len() - i,
    {
        assert(a@.skip(i as int).skip(1) =~= a@.skip(i + 1));
        assert(b@.skip(i as int).skip(1) =~= b@.skip(i + 1));
        i = i + 1;
    }
    if i >= x.len() {
        true
    } else if i >= y.len() {
        false
    } else {
        x[i] < y[i]
    }
}

/// What texts say.
pub open spec fn texts(list: Seq<String>) -> Seq<Seq<char>> {
    list.map_values(|s: String| s@)
}

/// Sort texts alphabetically.
pub fn sort_texts(list: Vec<String>) -> (sorted: Vec<String>)
    ensures
        texts(sorted@) == texts(list@).sort_by(by_alphabet()),
{
    let ghost all = texts(list@);
    let ghost leq = by_alphabet();
    let mut rest: Vec<String> = list;
    let mut out: Vec<String> = Vec::new();
    proof {
        lemma_alphabet_is_total();
        assert(all.take(all.len() as int) =~= all);
        assert(texts(rest@) =~= all);
        assert(all.skip(all.len() as int) =~= texts(out@));
    }
    while rest.len() > 0
        invariant
            leq == by_alphabet(),
            total_ordering(leq),
            rest@.len() <= all.len(),
            texts(rest@) == all.take(rest@.len() as int),
            sorted_by(texts(out@), leq),
            texts(out@).to_multiset() == all.skip(rest@.len() as int).to_multiset(),
        decreases rest@.len(),
    {
        let ghost n = rest@.len();
        let ghost gone = texts(rest@);
        let x: String = match rest.pop() {
            Some(x) => x,
            None => {
                return out;
            },
        };
        assert(gone[n - 1] == x@);
        assert(texts(rest@) =~= all.take(n - 1));
        let mut k: usize = out.len();
        while k > 0 && !text_le(out[k - 1].as_str(), x.as_str())
            invariant
                k <= out@.len(),
                leq == by_alphabet(),
                total_ordering(leq),
                forall|j: int|
                    k <= j < out@.len() ==> !alphabetical(#[trigger] texts(out@)[j], x@),
            decreases k,
        {
            k = k - 1;
        }
        let ghost before = texts(out@);
        proof {
            assert forall|j: int| 0 <= j < k implies #[trigger] leq(before[j], x@) by {
                assert(leq(before[k - 1], x@));
                if j < k - 1 {
                    assert(leq(before[j], before[k - 1]));
                    lemma_transitive(before[j], before[k - 1], x@);
                }
            }
            assert forall|j: int| k <= j < before.len() implies #[trigger] leq(x@, before[j]) by {
                assert(!alphabetical(texts(out@)[j], x@));
                lemma_connected(x@, before[j]);
            }
        }
        let ghost word = x@;
        out.insert(k, x);
        proof {
            let after = texts(out@);
            assert(after =~= before.insert(k as int, word));
            vstd::seq_lib::to_multiset_insert(before, k as int, word);
            let tail = all.skip(n as int);
            assert(all.skip(n - 1) =~= tail.insert(0, word));
            vstd::seq_lib::to_multiset_insert(tail, 0, word);
            assert forall|a: int, b: int| 0 <= a < b < after.len() implies #[trigger] leq(
                after[a],
                after[b],
            ) by {
                let a0 = if a < k {
                    a
                } else {
                    a - 1
                };
                let b0 = if b < k {
                    b
                } else {
                    b - 1
                };
                if a != k && b != k {
                    assert(leq(before[a0], before[b0]));
                } else if a == k {
                    assert(leq(word, before[b0]));
                } else {
                    assert(leq(before[a0], word));
                }
            }
        }
    }
    proof {
        assert(all.skip(0) =~= all);
        all.lemma_sort_by_ensures(leq);
        vstd::seq_lib::lemma_sorted_unique(texts(out@), all.sort_by(leq), leq);
    }
    out
}

} // verus!
