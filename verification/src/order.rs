//! Lexicographic order on texts, by code point, and sorted sets of texts.
//!
//! Code-point order on characters is the order of their UTF-8 encodings, so
//! this is the order in which `String`s sort.

use vstd::prelude::*;

use crate::text;

verus! {

/// `a` sorts strictly before `b`.
pub open spec fn text_lt(a: Seq<char>, b: Seq<char>) -> bool
    decreases a.len(),
{
    if a.len() == 0 {
        b.len() > 0
    } else if b.len() == 0 {
        false
    } else if a[0] != b[0] {
        (a[0] as u32) < (b[0] as u32)
    } else {
        text_lt(a.drop_first(), b.drop_first())
    }
}

/// The characters of each string.
pub open spec fn texts(v: Seq<String>) -> Seq<Seq<char>> {
    v.map_values(|s: String| s@)
}

/// Strictly increasing, hence free of duplicates.
pub open spec fn strictly_sorted(v: Seq<Seq<char>>) -> bool {
    forall|i: int, j: int| 0 <= i < j < v.len() ==> text_lt(#[trigger] v[i], #[trigger] v[j])
}

pub proof fn lemma_text_lt_irreflexive(a: Seq<char>)
    ensures
        !text_lt(a, a),
    decreases a.len(),
{
    if a.len() > 0 {
        lemma_text_lt_irreflexive(a.drop_first());
    }
}

pub proof fn lemma_text_lt_total(a: Seq<char>, b: Seq<char>)
    ensures
        a == b || text_lt(a, b) || text_lt(b, a),
    decreases a.len(),
{
    if a.len() > 0 && b.len() > 0 && a[0] == b[0] {
        lemma_text_lt_total(a.drop_first(), b.drop_first());
        if a.drop_first() == b.drop_first() {
            assert(a =~= seq![a[0]] + a.drop_first());
            assert(b =~= seq![b[0]] + b.drop_first());
        }
    } else if a.len() > 0 && b.len() > 0 {
        vstd::utf8::char_u32_cast(a[0], a[0] as u32);
        vstd::utf8::char_u32_cast(b[0], b[0] as u32);
    } else if a.len() == 0 && b.len() == 0 {
        assert(a =~= b);
    }
}

pub proof fn lemma_text_lt_asymmetric(a: Seq<char>, b: Seq<char>)
    ensures
        !(text_lt(a, b) && text_lt(b, a)),
    decreases a.len(),
{
    if a.len() > 0 && b.len() > 0 && a[0] == b[0] {
        lemma_text_lt_asymmetric(a.drop_first(), b.drop_first());
    }
}

pub proof fn lemma_text_lt_transitive(a: Seq<char>, b: Seq<char>, c: Seq<char>)
    requires
        text_lt(a, b),
        text_lt(b, c),
    ensures
        text_lt(a, c),
    decreases a.len(),
{
    if a.len() > 0 && b.len() > 0 && c.len() > 0 && a[0] == b[0] && b[0] == c[0] {
        lemma_text_lt_transitive(a.drop_first(), b.drop_first(), c.drop_first());
    }
}

/// How two texts relate in [`text_lt`] order.
#[derive(Clone, Copy, Debug, PartialEq, Eq, Structural)]
pub enum Rank {
    Before,
    Same,
    After,
}

/// Where `a` stands relative to `b`.
pub fn rank_texts(a: &Vec<char>, b: &Vec<char>) -> (r: Rank)
    ensures
        r == Rank::Before <==> text_lt(a@, b@),
        r == Rank::Same <==> a@ == b@,
        r == Rank::After <==> text_lt(b@, a@),
{
    let n = a.len();
    let m = b.len();
    let mut i: usize = 0;
    assert(a@.skip(0) =~= a@);
    assert(b@.skip(0) =~= b@);
    while i < n && i < m && a[i] == b[i]
        invariant
            n == a@.len(),
            m == b@.len(),
            i <= n,
            i <= m,
            a@.subrange(0, i as int) == b@.subrange(0, i as int),
            text_lt(a@, b@) == text_lt(a@.skip(i as int), b@.skip(i as int)),
            text_lt(b@, a@) == text_lt(b@.skip(i as int), a@.skip(i as int)),
        decreases n - i,
    {
        assert(a@.skip(i as int).drop_first() =~= a@.skip(i + 1));
        assert(b@.skip(i as int).drop_first() =~= b@.skip(i + 1));
        assert(a@.subrange(0, i + 1) =~= a@.subrange(0, i as int).push(a@[i as int]));
        assert(b@.subrange(0, i + 1) =~= b@.subrange(0, i as int).push(b@[i as int]));
        i = i + 1;
    }
    let ghost sa = a@.skip(i as int);
    let ghost sb = b@.skip(i as int);
    proof {
        lemma_text_lt_irreflexive(a@);
        lemma_text_lt_asymmetric(a@, b@);
        lemma_text_lt_total(a@, b@);
    }
    if i == n && i == m {
        assert(a@ =~= a@.subrange(0, i as int));
        assert(b@ =~= b@.subrange(0, i as int));
        Rank::Same
    } else if i == n {
        assert(sa.len() == 0 && sb.len() > 0);
        assert(a@ != b@);
        Rank::Before
    } else if i == m {
        assert(sb.len() == 0 && sa.len() > 0);
        assert(a@ != b@);
        Rank::After
    } else {
        assert(sa[0] == a@[i as int] && sb[0] == b@[i as int]);
        assert(a@[i as int] != b@[i as int]);
        assert(a@ != b@);
        proof {
            vstd::utf8::char_u32_cast(a@[i as int], a@[i as int] as u32);
            vstd::utf8::char_u32_cast(b@[i as int], b@[i as int] as u32);
        }
        if (a[i] as u32) < (b[i] as u32) {
            Rank::Before
        } else {
            Rank::After
        }
    }
}

/// Insert `s` into the strictly sorted `v` unless it is already there.
pub fn insert_sorted(v: &mut Vec<String>, s: String)
    requires
        strictly_sorted(texts(old(v)@)),
    ensures
        strictly_sorted(texts(final(v)@)),
        texts(final(v)@).to_set() == texts(old(v)@).to_set().insert(s@),
{
    let sc = text::chars_of(s.as_str());
    let n = v.len();
    let mut i: usize = 0;
    let mut found = false;
    while i < n
        invariant_except_break
            !found,
        invariant
            n == v@.len(),
            i <= n,
            sc@ == s@,
            strictly_sorted(texts(v@)),
            forall|j: int| 0 <= j < i ==> text_lt(#[trigger] texts(v@)[j], s@),
        ensures
            i <= n,
            forall|j: int| 0 <= j < i ==> text_lt(#[trigger] texts(v@)[j], s@),
            found ==> i < n && texts(v@)[i as int] == s@,
            !found ==> i == n || text_lt(s@, texts(v@)[i as int]),
        decreases n - i,
    {
        let vc = text::chars_of(v[i].as_str());
        assert(vc@ == texts(v@)[i as int]);
        match rank_texts(&vc, &sc) {
            Rank::Before => {
                i = i + 1;
            },
            Rank::Same => {
                assert(texts(v@)[i as int] == s@);
                found = true;
                break;
            },
            Rank::After => {
                break;
            },
        }
    }
    let ghost before = texts(v@);
    if found {
        assert(before[i as int] == s@);
        assert(before.to_set() =~= before.to_set().insert(s@));
        return;
    }
    proof {
        if i < n {
            assert(text_lt(s@, before[i as int]));
            assert forall|j: int| i <= j < n implies text_lt(s@, #[trigger] before[j]) by {
                if j > i {
                    lemma_text_lt_transitive(s@, before[i as int], before[j]);
                }
            }
        }
    }
    v.insert(i, s);
    let ghost after = texts(v@);
    assert(after =~= before.insert(i as int, s@));
    assert forall|a: int, b: int| 0 <= a < b < after.len() implies text_lt(
        #[trigger] after[a],
        #[trigger] after[b],
    ) by {
        if b < i {
        } else if a < i && b == i {
        } else if a < i {
            assert(after[b] == before[b - 1]);
            assert(text_lt(before[a], s@));
            if b - 1 < i {
            } else {
                lemma_text_lt_transitive(before[a], s@, before[b - 1]);
            }
        } else if a == i {
            assert(after[b] == before[b - 1]);
        } else {
            assert(after[a] == before[a - 1] && after[b] == before[b - 1]);
        }
    }
    assert forall|x: Seq<char>| after.to_set().contains(x) <==> before.to_set().insert(
        s@,
    ).contains(x) by {
        if after.to_set().contains(x) {
            let k = choose|k: int| 0 <= k < after.len() && after[k] == x;
            if k < i {
                assert(before[k] == x);
            } else if k > i {
                assert(before[k - 1] == x);
            }
        }
        if before.to_set().contains(x) {
            let k = choose|k: int| 0 <= k < before.len() && before[k] == x;
            if k < i {
                assert(after[k] == x);
            } else {
                assert(after[k + 1] == x);
            }
        }
        if x == s@ {
            assert(after[i as int] == x);
        }
    }
    assert(after.to_set() =~= before.to_set().insert(s@));
}

} // verus!
