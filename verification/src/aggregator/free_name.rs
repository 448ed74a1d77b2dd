//! Free names: a name with `" #2"`, `" #3"`, … appended until no name in use holds it.
use vstd::prelude::*;

use crate::text::{
    chars_of, concat, decimal, decimal_of, lemma_decimal_injective, lemma_decimal_len, same_text,
    texts_view, to_vec,
};

verus! {

// ------------------------------------------------------------------

/// The `k`-th name tried for a renamed node: `base` itself, then `"{base} #2"`,
/// `"{base} #3"`, and so on.
pub open spec fn candidate_name(base: Seq<char>, k: nat) -> Seq<char> {
    if k < 2 {
        base
    } else {
        base + " #"@ + decimal(k)
    }
}

/// `k` is the first try (counting from one) whose name is not in `used`.
pub open spec fn first_free_at(base: Seq<char>, used: Set<Seq<char>>, k: nat) -> bool {
    &&& k >= 1
    &&& !used.contains(candidate_name(base, k))
    &&& forall|j: nat| 1 <= j < k ==> used.contains(#[trigger] candidate_name(base, j))
}

/// The first name tried that is not in `used`.
pub open spec fn free_name(base: Seq<char>, used: Set<Seq<char>>) -> Seq<char> {
    candidate_name(base, choose|k: nat| first_free_at(base, used, k))
}

/// Different tries give different names.
pub proof fn lemma_candidate_injective(base: Seq<char>, j: nat, k: nat)
    requires
        1 <= j,
        1 <= k,
        candidate_name(base, j) == candidate_name(base, k),
    ensures
        j == k,
{
    reveal_strlit(" #");
    if j >= 2 && k >= 2 {
        let a = candidate_name(base, j);
        let b = candidate_name(base, k);
        assert(decimal(j) =~= a.skip(base.len() + 2int));
        assert(decimal(k) =~= b.skip(base.len() + 2int));
        lemma_decimal_injective(j, k);
    } else if j >= 2 {
        lemma_decimal_len(j);
        assert(candidate_name(base, j).len() > base.len());
    } else if k >= 2 {
        lemma_decimal_len(k);
        assert(candidate_name(base, k).len() > base.len());
    }
}

/// The first free try is the name [`free_name`] picks.
pub proof fn lemma_free_name(base: Seq<char>, used: Set<Seq<char>>, k: nat)
    requires
        first_free_at(base, used, k),
    ensures
        free_name(base, used) == candidate_name(base, k),
{
    let c = choose|c: nat| first_free_at(base, used, c);
    assert(first_free_at(base, used, c));
    if c < k {
        assert(used.contains(candidate_name(base, c)));
    } else if k < c {
        assert(used.contains(candidate_name(base, k)));
    }
}

/// Whether `list` holds the text `c`.
pub(crate) fn text_in(list: &Vec<Vec<char>>, c: &[char]) -> (r: bool)
    ensures
        r == texts_view(list@).contains(c@),
{
    let mut i: usize = 0;
    while i < list.len()
        invariant
            i <= list@.len(),
            forall|k: int| 0 <= k < i ==> texts_view(list@)[k] != c@,
        decreases list@.len() - i,
    {
        if same_text(list[i].as_slice(), c) {
            assert(texts_view(list@)[i as int] == c@);
            return true;
        }
        i += 1;
    }
    false
}

/// The first name tried for `base` that `used` does not hold (see [`free_name`]).
pub fn pick_free_name(used: &Vec<Vec<char>>, base: &[char]) -> (r: Vec<char>)
    ensures
        r@ == free_name(base@, texts_view(used@).to_set()),
{
    let ghost u = texts_view(used@).to_set();
    proof {
        texts_view(used@).lemma_cardinality_of_set();
        vstd::seq_lib::seq_to_set_is_finite(texts_view(used@));
    }
    let used_len = used.len();
    let mut candidate = to_vec(base);
    let mut suffix: u128 = 2;
    let ghost mut seen: Set<Seq<char>> = Set::empty();
    while text_in(used, candidate.as_slice())
        invariant
            u == texts_view(used@).to_set(),
            u.finite(),
            u.len() <= used@.len(),
            used@.len() == used_len,
            2 <= suffix,
            seen.finite(),
            seen.len() == suffix - 2,
            seen.subset_of(u),
            candidate@ == candidate_name(base@, (suffix - 1) as nat),
            forall|j: nat| 1 <= j < suffix - 1 ==> u.contains(#[trigger] candidate_name(base@, j)),
            forall|c: Seq<char>|
                seen.contains(c) ==> exists|j: nat|
                    1 <= j < suffix - 1 && c == #[trigger] candidate_name(base@, j),
        decreases u.len() - seen.len(),
    {
        proof {
            let k = (suffix - 1) as nat;
            if seen.contains(candidate@) {
                let j = choose|j: nat| 1 <= j < suffix - 1 && candidate@ == #[trigger] candidate_name(base@, j);
                lemma_candidate_injective(base@, j, k);
            }
            let grown = seen.insert(candidate@);
            assert(texts_view(used@).contains(candidate@));
            assert(u.contains(candidate@));
            assert(!seen.contains(candidate@));
            assert(grown.len() == seen.len() + 1);
            vstd::set_lib::lemma_len_subset(grown, u);
            assert(grown.len() <= used@.len());
            assert forall|c: Seq<char>| grown.contains(c) implies exists|j: nat|
                1 <= j < suffix && c == #[trigger] candidate_name(base@, j) by {
                if c == candidate@ {
                    assert(c == candidate_name(base@, k));
                } else {
                    let j = choose|j: nat| 1 <= j < suffix - 1 && c == #[trigger] candidate_name(base@, j);
                    assert(c == candidate_name(base@, j));
                }
            }
            assert forall|j: nat| 1 <= j < suffix implies u.contains(#[trigger] candidate_name(base@, j)) by {
                if j == k {
                    assert(candidate_name(base@, j) == candidate@);
                }
            }
            seen = grown;
        }
        let a = concat(base, chars_of(" #").as_slice());
        candidate = concat(a.as_slice(), decimal_of(suffix).as_slice());
        suffix = suffix + 1;
    }
    proof {
        assert(first_free_at(base@, u, (suffix - 1) as nat));
        lemma_free_name(base@, u, (suffix - 1) as nat);
    }
    candidate
}

/// Among finitely many taken names, some try is free; this is the first free one.
pub proof fn first_free_index(base: Seq<char>, used: Set<Seq<char>>) -> (k: nat)
    requires
        used.finite(),
    ensures
        first_free_at(base, used, k),
{
    first_free_from(base, used, 1, Set::empty())
}

/// Searches for the first free try from `k` on, where `seen` holds the tries before `k`,
/// all of them taken.
proof fn first_free_from(base: Seq<char>, used: Set<Seq<char>>, k: nat, seen: Set<Seq<char>>) -> (r: nat)
    requires
        used.finite(),
        k >= 1,
        seen.finite(),
        seen.len() == k - 1,
        seen.subset_of(used),
        forall|j: nat| 1 <= j < k ==> used.contains(#[trigger] candidate_name(base, j)),
        forall|c: Seq<char>|
            seen.contains(c) ==> exists|j: nat| 1 <= j < k && c == #[trigger] candidate_name(base, j),
    ensures
        first_free_at(base, used, r),
    decreases used.len() - seen.len(),
{
    vstd::set_lib::lemma_len_subset(seen, used);
    let c = candidate_name(base, k);
    if !used.contains(c) {
        k
    } else {
        if seen.contains(c) {
            let j = choose|j: nat| 1 <= j < k && c == #[trigger] candidate_name(base, j);
            lemma_candidate_injective(base, j, k);
        }
        let grown = seen.insert(c);
        vstd::set_lib::lemma_len_subset(grown, used);
        assert forall|x: Seq<char>| grown.contains(x) implies exists|j: nat|
            1 <= j < k + 1 && x == #[trigger] candidate_name(base, j) by {
            if x == c {
                assert(x == candidate_name(base, k));
            } else {
                let j = choose|j: nat| 1 <= j < k && x == #[trigger] candidate_name(base, j);
                assert(x == candidate_name(base, j));
            }
        }
        first_free_from(base, used, k + 1, grown)
    }
}

} // verus!
