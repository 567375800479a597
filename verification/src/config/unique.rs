//! Finding the first repeated item of a list.
use vstd::prelude::*;

verus! {

/// No two of the first `n` items are equal.
pub open spec fn distinct_prefix<A>(s: Seq<A>, n: int) -> bool {
    forall|i: int, j: int| 0 <= i < j < n ==> s[i] != s[j]
}

/// No two items are equal.
pub open spec fn distinct<A>(s: Seq<A>) -> bool {
    distinct_prefix(s, s.len() as int)
}

/// `j` is the first position whose item already occurred earlier.
pub open spec fn first_repeat<A>(s: Seq<A>, j: int) -> bool {
    &&& 0 <= j < s.len()
    &&& distinct_prefix(s, j)
    &&& exists|i: int| 0 <= i < j && s[i] == s[j]
}

/// The position of the first repeated item, if any.
pub open spec fn first_repeat_index<A>(s: Seq<A>) -> Option<int> {
    if distinct(s) {
        None
    } else {
        Some(choose|j: int| first_repeat(s, j))
    }
}

/// There is at most one first repeated position.
pub proof fn lemma_first_repeat_unique<A>(s: Seq<A>, j1: int, j2: int)
    requires
        first_repeat(s, j1),
        first_repeat(s, j2),
    ensures
        j1 == j2,
{
    if j1 < j2 {
        let i = choose|i: int| 0 <= i < j1 && s[i] == s[j1];
        assert(s[i] == s[j1]);
    } else if j2 < j1 {
        let i = choose|i: int| 0 <= i < j2 && s[i] == s[j2];
        assert(s[i] == s[j2]);
    }
}

/// Once a first repeated position is known, it is the one the spec names.
pub proof fn lemma_first_repeat_index<A>(s: Seq<A>, j: int)
    requires
        first_repeat(s, j),
    ensures
        first_repeat_index(s) == Some(j),
{
    let i = choose|i: int| 0 <= i < j && s[i] == s[j];
    assert(!distinct(s)) by {
        assert(s[i] == s[j]);
    }
    let k = choose|k: int| first_repeat(s, k);
    lemma_first_repeat_unique(s, j, k);
}

/// The position of the first text that equals an earlier one.
pub fn first_duplicate_text(items: &Vec<String>) -> (r: Option<usize>)
    ensures
        r is None <==> distinct(items@.map_values(|t: String| t@)),
        r matches Some(j) ==> first_repeat(items@.map_values(|t: String| t@), j as int),
{
    let ghost v = items@.map_values(|t: String| t@);
    let mut j: usize = 0;
    while j < items.len()
        invariant
            j <= items.len(),
            v.len() == items.len(),
            v == items@.map_values(|t: String| t@),
            distinct_prefix(v, j as int),
        decreases items.len() - j,
    {
        let mut i: usize = 0;
        while i < j
            invariant
                i <= j < items.len(),
                v.len() == items.len(),
                v == items@.map_values(|t: String| t@),
                distinct_prefix(v, j as int),
                forall|k: int| 0 <= k < i ==> v[k] != v[j as int],
            decreases j - i,
        {
            if items[i] == items[j] {
                assert(v[i as int] == v[j as int]);
                return Some(j);
            }
            i += 1;
        }
        assert(distinct_prefix(v, j + 1)) by {
            assert forall|a: int, b: int| 0 <= a < b < j + 1 implies v[a] != v[b] by {
                if b == j {
                    assert(v[a] != v[j as int]);
                }
            }
        }
        j += 1;
    }
    None
}

/// The position of the first key that equals an earlier one.
pub fn first_duplicate_key(items: &Vec<u8>) -> (r: Option<usize>)
    ensures
        r is None <==> distinct(items@),
        r matches Some(j) ==> first_repeat(items@, j as int),
{
    let mut j: usize = 0;
    while j < items.len()
        invariant
            j <= items.len(),
            distinct_prefix(items@, j as int),
        decreases items.len() - j,
    {
        let mut i: usize = 0;
        while i < j
            invariant
                i <= j < items.len(),
                distinct_prefix(items@, j as int),
                forall|k: int| 0 <= k < i ==> items@[k] != items@[j as int],
            decreases j - i,
        {
            if items[i] == items[j] {
                return Some(j);
            }
            i += 1;
        }
        assert(distinct_prefix(items@, j + 1)) by {
            assert forall|a: int, b: int| 0 <= a < b < j + 1 implies items@[a] != items@[b] by {
                if b == j {
                    assert(items@[a] != items@[j as int]);
                }
            }
        }
        j += 1;
    }
    None
}

/// Two equal items make a repeat: a first repeated position exists, no later
/// than the second of the two, and the item there equals an earlier one.
pub proof fn lemma_repeat_found<A>(s: Seq<A>, a: int, b: int)
    requires
        0 <= a < b < s.len(),
        s[a] == s[b],
    ensures
        first_repeat_index(s) matches Some(j) && first_repeat(s, j) && j <= b,
    decreases b,
{
    if distinct_prefix(s, b) {
        assert(first_repeat(s, b));
        lemma_first_repeat_index(s, b);
    } else {
        let (a2, b2) = choose|a2: int, b2: int| 0 <= a2 < b2 < b && s[a2] == s[b2];
        lemma_repeat_found(s, a2, b2);
    }
}

/// No repeat is found exactly when no two items are equal.
pub proof fn lemma_no_repeat_iff_distinct<A>(s: Seq<A>)
    ensures
        first_repeat_index(s) is None <==> forall|i: int, j: int| 0 <= i < j < s.len() ==> s[i] != s[j],
{
    if first_repeat_index(s) is Some {
        if forall|i: int, j: int| 0 <= i < j < s.len() ==> s[i] != s[j] {
            assert(distinct(s));
        }
    }
}

} // verus!
