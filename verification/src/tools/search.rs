//! Choosing the best-matching chunks of a text. Similarities are computed
//! outside (floating point) and arrive here as integer keys that order the
//! chunks the same way.

use vstd::prelude::*;

verus! {

/// Whether a search ranks the chunks at all: with an empty query, no chunks or
/// nothing to keep, every chunk is returned as it is.
pub fn needs_ranking(text: &str, chunk_count: usize, top: usize) -> (b: bool)
    ensures
        b == (text@.len() > 0 && chunk_count > 0 && top > 0),
{
    text.unicode_len() > 0 && chunk_count > 0 && top > 0
}

/// `r` picks the `top` best items by key (all items when there are fewer),
/// best first: no item left out has a greater key than an item picked.
/// Among equal keys, which item is picked is left open.
pub open spec fn is_top_selection(keys: Seq<u32>, top: nat, r: Seq<usize>) -> bool {
    &&& r.len() == if top < keys.len() {
        top
    } else {
        keys.len()
    }
    &&& forall|i: int| 0 <= i < r.len() ==> (#[trigger] r[i]) < keys.len()
    &&& forall|i: int, j: int| 0 <= i < j < r.len() ==> r[i] != r[j]
    &&& forall|i: int, j: int|
        0 <= i < j < r.len() ==> keys[#[trigger] r[i] as int] >= keys[#[trigger] r[j] as int]
    &&& forall|j: int, k: int|
        #![trigger keys[j], r[k]]
        0 <= j < keys.len() && 0 <= k < r.len() && !r.contains(j as usize) ==> keys[j] <= keys[r[k] as int]
}

fn contains_index(r: &Vec<usize>, j: usize) -> (b: bool)
    ensures
        b == r@.contains(j),
{
    let mut i: usize = 0;
    while i < r.len()
        invariant
            i <= r@.len(),
            forall|k: int| 0 <= k < i ==> r@[k] != j,
        decreases r@.len() - i,
    {
        if r[i] == j {
            assert(r@[i as int] == j);
            return true;
        }
        i = i + 1;
    }
    false
}

/// The indices of the `top` items with the greatest keys, greatest first.
pub fn select_top(keys: &Vec<u32>, top: usize) -> (r: Vec<usize>)
    ensures
        is_top_selection(keys@, top as nat, r@),
{
    let n = keys.len();
    let count = if top < n {
        top
    } else {
        n
    };
    let mut r: Vec<usize> = Vec::new();
    while r.len() < count
        invariant
            n == keys@.len(),
            count <= n,
            count == if top < n {
                top
            } else {
                n
            },
            r@.len() <= count,
            forall|i: int| 0 <= i < r@.len() ==> (#[trigger] r@[i]) < n,
            forall|i: int, j: int| 0 <= i < j < r@.len() ==> r@[i] != r@[j],
            forall|i: int, j: int|
                0 <= i < j < r@.len() ==> keys@[#[trigger] r@[i] as int] >= keys@[#[trigger] r@[j] as int],
            forall|j: int, k: int|
                #![trigger keys@[j], r@[k]]
                0 <= j < n && 0 <= k < r@.len() && !r@.contains(j as usize) ==> keys@[j] <= keys@[r@[k] as int],
        decreases count - r@.len(),
    {
        // Find the greatest key among the items not picked yet.
        let mut best: Option<usize> = None;
        let mut j: usize = 0;
        while j < n
            invariant
                n == keys@.len(),
                j <= n,
                match best {
                    Some(b) => b < j && !r@.contains(b) && forall|x: int|
                        0 <= x < j && !r@.contains(x as usize) ==> keys@[x] <= keys@[b as int],
                    None => forall|x: usize| x < j ==> #[trigger] r@.contains(x),
                },
            decreases n - j,
        {
            if !contains_index(&r, j) {
                match best {
                    Some(b) => {
                        if keys[j] > keys[b] {
                            best = Some(j);
                        }
                    },
                    None => {
                        best = Some(j);
                    },
                }
            }
            j = j + 1;
        }
        let b = match best {
            Some(b) => b,
            None => {
                // Every item is picked, so at least `n` distinct picks exist.
                proof {
                    lemma_distinct_in_range_bound(r@, n);
                }
                return r;
            },
        };
        let ghost old_r = r@;
        r.push(b);
        proof {
            assert forall|x: int, y: int| 0 <= x < y < r@.len() implies r@[x] != r@[y] by {
                if y == r@.len() - 1 {
                    assert(old_r.contains(r@[x]));
                }
            }
            assert forall|x: int, y: int| 0 <= x < y < r@.len() implies keys@[#[trigger] r@[x] as int]
                >= keys@[#[trigger] r@[y] as int] by {
                if y == r@.len() - 1 {
                    assert(r@[x] == old_r[x]);
                }
            }
            assert forall|x: int, k: int|
                #![trigger keys@[x], r@[k]]
                0 <= x < n && 0 <= k < r@.len() && !r@.contains(x as usize) implies keys@[x] <= keys@[r@[k] as int] by {
                assert(!old_r.contains(x as usize)) by {
                    if old_r.contains(x as usize) {
                        let w = choose|w: int| 0 <= w < old_r.len() && old_r[w] == x as usize;
                        assert(r@[w] == x as usize);
                    }
                }
                if k < old_r.len() {
                    assert(r@[k] == old_r[k]);
                }
            }
        }
    }
    r
}

/// `r` holds distinct indices below `n`, and every index below `n`: it is as
/// long as `n`.
proof fn lemma_distinct_in_range_bound(r: Seq<usize>, n: usize)
    requires
        forall|i: int| 0 <= i < r.len() ==> (#[trigger] r[i]) < n,
        forall|i: int, j: int| 0 <= i < j < r.len() ==> r[i] != r[j],
        forall|x: usize| x < n ==> #[trigger] r.contains(x),
    ensures
        r.len() >= n,
{
    let ints = r.map_values(|x: usize| x as int);
    assert(ints.no_duplicates()) by {
        assert forall|i: int, j: int| 0 <= i < ints.len() && 0 <= j < ints.len() && i != j implies ints[i] != ints[j] by {
            if i < j {
                assert(r[i] != r[j]);
            } else {
                assert(r[j] != r[i]);
            }
        }
    }
    ints.unique_seq_to_set();
    vstd::seq_lib::seq_to_set_is_finite(ints);
    assert(vstd::set_lib::set_int_range(0, n as int).subset_of(ints.to_set())) by {
        assert forall|x: int| vstd::set_lib::set_int_range(0, n as int).contains(x) implies ints.to_set().contains(x) by {
            assert(r.contains(x as usize));
            let w = choose|w: int| 0 <= w < r.len() && r[w] == x as usize;
            assert(ints[w] == x);
        }
    }
    vstd::set_lib::lemma_int_range(0, n as int);
    vstd::set_lib::lemma_len_subset(vstd::set_lib::set_int_range(0, n as int), ints.to_set());
}

} // verus!
