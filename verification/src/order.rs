//! Lexicographic order of character sequences (the order of `String`'s `Ord`:
//! UTF-8 preserves code-point order, so comparing bytes and comparing
//! characters agree) and a stable sort of indices by such keys.
use vstd::prelude::*;

verus! {

/// `a` comes before `b`, or equals it, in lexicographic code-point order.
pub open spec fn lex_le(a: Seq<char>, b: Seq<char>) -> bool
    decreases a.len(),
{
    if a.len() == 0 {
        true
    } else if b.len() == 0 {
        false
    } else if a[0] != b[0] {
        a[0] < b[0]
    } else {
        lex_le(a.drop_first(), b.drop_first())
    }
}

/// Any two sequences are ordered one way or the other.
pub proof fn lemma_lex_total(a: Seq<char>, b: Seq<char>)
    ensures
        lex_le(a, b) || lex_le(b, a),
    decreases a.len(),
{
    if a.len() > 0 && b.len() > 0 {
        if a[0] == b[0] {
            lemma_lex_total(a.drop_first(), b.drop_first());
        } else {

        }
    }
}

/// Every sequence comes before or equals itself.
pub proof fn lemma_lex_refl(a: Seq<char>)
    ensures
        lex_le(a, a),
    decreases a.len(),
{
    if a.len() > 0 {
        lemma_lex_refl(a.drop_first());
    }
}

/// The order is transitive.
pub proof fn lemma_lex_trans(a: Seq<char>, b: Seq<char>, c: Seq<char>)
    requires
        lex_le(a, b),
        lex_le(b, c),
    ensures
        lex_le(a, c),
    decreases a.len(),
{
    if a.len() > 0 && b.len() > 0 && c.len() > 0 && a[0] == b[0] && b[0] == c[0] {
        lemma_lex_trans(a.drop_first(), b.drop_first(), c.drop_first());
    }
}

/// The order is antisymmetric.
pub proof fn lemma_lex_antisym(a: Seq<char>, b: Seq<char>)
    requires
        lex_le(a, b),
        lex_le(b, a),
    ensures
        a == b,
    decreases a.len(),
{
    if a.len() > 0 && b.len() > 0 {
        lemma_lex_antisym(a.drop_first(), b.drop_first());
        assert(a == seq![a[0]] + a.drop_first());
        assert(b == seq![b[0]] + b.drop_first());
    }
}

/// Lexicographic comparison of two character sequences.
pub fn lex_le_chars(a: &[char], b: &[char]) -> (r: bool)
    ensures
        r == lex_le(a@, b@),
{
    let n = a.len();
    let m = b.len();
    let mut i: usize = 0;
    assert(a@.skip(0) == a@);
    assert(b@.skip(0) == b@);
    loop
        invariant
            n == a@.len(),
            m == b@.len(),
            i <= n,
            i <= m,
            lex_le(a@, b@) == lex_le(a@.skip(i as int), b@.skip(i as int)),
        decreases n - i,
    {
        if i == n {
            return true;
        }
        if i == m {
            return false;
        }
        if a[i] != b[i] {
            return a[i] < b[i];
        }
        assert(a@.skip(i as int).drop_first() == a@.skip(i + 1));
        assert(b@.skip(i as int).drop_first() == b@.skip(i + 1));
        i = i + 1;
    }
}

/// `order` lists each index of `0..n` exactly once.
pub open spec fn is_index_permutation(order: Seq<usize>, n: nat) -> bool {
    &&& order.len() == n
    &&& forall|k: int| 0 <= k < order.len() ==> #[trigger] order[k] < n
    &&& forall|a: int, b: int| 0 <= a < b < order.len() ==> order[a] != order[b]
}

/// Following `order`, the keys never decrease.
pub open spec fn sorted_by_keys(order: Seq<usize>, keys: Seq<Seq<char>>) -> bool {
    forall|a: int, b: int|
        0 <= a < b < order.len() ==> lex_le(keys[order[a] as int], keys[order[b] as int])
}

/// The views of a list of character vectors.
pub open spec fn char_vec_views(v: Seq<Vec<char>>) -> Seq<Seq<char>> {
    v.map_values(|x: Vec<char>| x@)
}

/// Indices with equal keys keep their relative order.
pub open spec fn stable_by_keys(order: Seq<usize>, keys: Seq<Seq<char>>) -> bool {
    forall|a: int, b: int|
        0 <= a < b < order.len() && keys[order[a] as int] == keys[order[b] as int] ==> order[a] < order[b]
}

/// The indices of `keys`, ordered so that the keys are in lexicographic
/// order (insertion sort; equal keys keep their relative order).
pub fn sort_indices_by_keys(keys: &[Vec<char>]) -> (order: Vec<usize>)
    ensures
        is_index_permutation(order@, keys@.len()),
        sorted_by_keys(order@, char_vec_views(keys@)),
        stable_by_keys(order@, char_vec_views(keys@)),
{
    let ghost kv = char_vec_views(keys@);
    let n = keys.len();
    let mut order: Vec<usize> = Vec::new();
    for i in 0..n
        invariant
            n == keys@.len(),
            order@.len() == i,
            forall|k: int| 0 <= k < i ==> order@[k] == k,
    {
        order.push(i);
    }
    assert(forall|k: int| 0 <= k < n ==> order@[k] == k);
    let mut i: usize = 1;
    while i < n
        invariant
            n == keys@.len(),
            kv == char_vec_views(keys@),
            1 <= i || n == 0,
            i <= n || n == 0,
            is_index_permutation(order@, n as nat),
            forall|k: int| i <= k < n ==> order@[k] == k,
            forall|a: int, b: int|
                0 <= a < b < i && b < n ==> lex_le(kv[order@[a] as int], kv[order@[b] as int]),
            forall|a: int, b: int|
                0 <= a < b < i && b < n && kv[order@[a] as int] == kv[order@[b] as int] ==> order@[a] < order@[b],
        decreases n - i,
    {
        let mut j: usize = i;
        while j > 0 && !lex_le_chars(keys[order[j - 1]].as_slice(), keys[order[j]].as_slice())
            invariant
                n == keys@.len(),
                kv == char_vec_views(keys@),
                0 <= j <= i < n,
                is_index_permutation(order@, n as nat),
                order@[j as int] == i,
                forall|k: int| i < k < n ==> order@[k] == k,
                forall|a: int, b: int|
                    0 <= a < b <= i && a != j && b != j ==> lex_le(
                        kv[order@[a] as int],
                        kv[order@[b] as int],
                    ),
                forall|a: int, b: int|
                    0 <= a < b <= i && a != j && b != j && kv[order@[a] as int] == kv[order@[b] as int]
                        ==> order@[a] < order@[b],
                forall|b: int| j < b <= i ==> lex_le(kv[order@[j as int] as int], kv[order@[b] as int]),
                forall|b: int| j < b <= i ==> kv[order@[b] as int] != kv[i as int],
            decreases j,
        {
            let x = order[j - 1];
            let y = order[j];
            proof {
                lemma_lex_total(kv[y as int], kv[x as int]);
                if kv[x as int] == kv[y as int] {
                    lemma_lex_refl(kv[x as int]);
                }
            }
            order.set(j - 1, y);
            order.set(j, x);
            j = j - 1;
        }
        proof {
            if j > 0 {
                assert forall|a: int| 0 <= a < j implies lex_le(kv[order@[a] as int], kv[order@[j as int] as int]) by {
                    if a < j - 1 {
                        lemma_lex_trans(kv[order@[a] as int], kv[order@[j - 1] as int], kv[order@[j as int] as int]);
                    }
                }
            }
            assert forall|a: int, b: int| 0 <= a < b < i + 1 && b < n implies lex_le(kv[order@[a] as int], kv[order@[b] as int]) by {
                if b == j {
                } else if a == j {
                }
            }
            assert forall|a: int| 0 <= a <= i && a != j implies order@[a] < i by {
                if order@[a] > i {
                    let k = order@[a] as int;
                    assert(order@[k] == k);
                }
            }
            assert forall|a: int, b: int|
                0 <= a < b < i + 1 && b < n && kv[order@[a] as int] == kv[order@[b] as int] implies order@[a] < order@[b] by {
                if b == j {
                    assert(order@[a] < i);
                } else if a == j {
                    assert(kv[order@[b] as int] != kv[i as int]);
                }
            }
        }
        i = i + 1;
    }
    order
}

} // verus!
