//! Distributing grocery items into named buckets.
//!
//! Every item always lands in the "All" bucket, in input order.  In the
//! two-way mode the items are additionally dealt out alternately to two
//! per-person buckets, purely by position: even positions to the first
//! person, odd positions to the second.

use vstd::prelude::*;

verus! {

/// How the items are to be divided among sections of the output document.
#[derive(Clone, Copy, PartialEq, Eq, Structural, Debug)]
pub enum Mode {
    /// One undivided list.
    Single,
    /// An undivided list plus a two-way alternating split.
    SplitTwo,
}

/// The items of the list, grouped into the buckets the document will show.
pub struct Ingredients {
    /// Every item, in input order.
    pub all: Vec<String>,
    /// In `SplitTwo` mode, the items at even positions; otherwise empty.
    pub person_a: Vec<String>,
    /// In `SplitTwo` mode, the items at odd positions; otherwise empty.
    pub person_b: Vec<String>,
}

/// The elements of `s` at positions 0, 2, 4, ...
pub open spec fn even_positions<T>(s: Seq<T>) -> Seq<T> {
    Seq::new((s.len() + 1) / 2, |i: int| s[2 * i])
}

/// The elements of `s` at positions 1, 3, 5, ...
pub open spec fn odd_positions<T>(s: Seq<T>) -> Seq<T> {
    Seq::new(s.len() / 2, |i: int| s[2 * i + 1])
}

/// `a` and `b` riffled back together: `a` supplies the even positions,
/// `b` the odd ones.
pub open spec fn interleaved<T>(a: Seq<T>, b: Seq<T>) -> Seq<T> {
    Seq::new(a.len() + b.len(), |i: int| if i % 2 == 0 { a[i / 2] } else { b[i / 2] })
}

/// What it means for `sorted` to be the partition of `items` under `mode`.
pub open spec fn partitioned(sorted: Ingredients, items: Seq<String>, mode: Mode) -> bool {
    &&& sorted.all@ == items
    &&& match mode {
        Mode::Single => sorted.person_a@ == Seq::<String>::empty() && sorted.person_b@
            == Seq::<String>::empty(),
        Mode::SplitTwo => sorted.person_a@ == even_positions(items) && sorted.person_b@
            == odd_positions(items),
    }
}

impl Ingredients {
    /// An empty set of buckets.
    pub fn new() -> (r: Ingredients)
        ensures
            r.all@ == Seq::<String>::empty(),
            r.person_a@ == Seq::<String>::empty(),
            r.person_b@ == Seq::<String>::empty(),
    {
        Ingredients { all: Vec::new(), person_a: Vec::new(), person_b: Vec::new() }
    }
}

/// Sort the list of ingredients into buckets.
///
/// The "All" bucket receives every item in input order.  In `SplitTwo`
/// mode the per-person buckets receive the items at even and at odd
/// positions respectively; in `Single` mode they stay empty.
pub fn sort_ingredients(ingredients: Vec<String>, mode: Mode) -> (sorted: Ingredients)
    ensures
        partitioned(sorted, ingredients@, mode),
{
    let mut sorted = Ingredients::new();
    let n = ingredients.len();
    let mut i: usize = 0;
    while i < n
        invariant
            i <= n,
            n == ingredients@.len(),
            sorted.all@ == ingredients@.take(i as int),
            mode == Mode::Single ==> sorted.person_a@ == Seq::<String>::empty()
                && sorted.person_b@ == Seq::<String>::empty(),
            mode == Mode::SplitTwo ==> sorted.person_a@ == even_positions(
                ingredients@.take(i as int),
            ) && sorted.person_b@ == odd_positions(ingredients@.take(i as int)),
        decreases n - i,
    {
        let item = &ingredients[i];
        sorted.all.push(item.clone());
        match mode {
            Mode::Single => {},
            Mode::SplitTwo => {
                if i % 2 == 0 {
                    sorted.person_a.push(item.clone());
                } else {
                    sorted.person_b.push(item.clone());
                }
            },
        }
        proof {
            assert(ingredients@.take(i + 1) =~= ingredients@.take(i as int).push(
                ingredients@[i as int],
            ));
            if mode == Mode::SplitTwo {
                if i % 2 == 0 {
                    assert(even_positions(ingredients@.take(i + 1)) =~= even_positions(
                        ingredients@.take(i as int),
                    ).push(ingredients@[i as int]));
                    assert(odd_positions(ingredients@.take(i + 1)) =~= odd_positions(
                        ingredients@.take(i as int),
                    ));
                } else {
                    assert(even_positions(ingredients@.take(i + 1)) =~= even_positions(
                        ingredients@.take(i as int),
                    ));
                    assert(odd_positions(ingredients@.take(i + 1)) =~= odd_positions(
                        ingredients@.take(i as int),
                    ).push(ingredients@[i as int]));
                }
            }
        }
        i = i + 1;
    }
    proof {
        assert(ingredients@.take(n as int) =~= ingredients@);
    }
    sorted
}

/// Interleaving the even-position and odd-position elements back together
/// reconstructs the original sequence exactly, and the two halves account
/// for every element: no element is dropped, added, or moved.
pub proof fn lemma_split_round_trip<T>(s: Seq<T>)
    ensures
        interleaved(even_positions(s), odd_positions(s)) == s,
        even_positions(s).len() + odd_positions(s).len() == s.len(),
{
    assert(interleaved(even_positions(s), odd_positions(s)) =~= s);
}

/// Partitioning is a pure function of the items and the mode: any two
/// results that satisfy the partition relation on the same input hold
/// exactly the same buckets.  No hidden state persists across calls.
pub proof fn lemma_partition_deterministic(
    r1: Ingredients,
    r2: Ingredients,
    items: Seq<String>,
    mode: Mode,
)
    requires
        partitioned(r1, items, mode),
        partitioned(r2, items, mode),
    ensures
        r1.all@ == r2.all@,
        r1.person_a@ == r2.person_a@,
        r1.person_b@ == r2.person_b@,
{
}

} // verus!
