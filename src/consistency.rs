use vstd::prelude::*;

verus! {

/// Whether an item before `j` has the same class as the item at `j`.
pub open spec fn dup_before(c: Seq<u8>, j: int) -> bool {
    exists|i: int| 0 <= i < j && c[i] == c[j]
}

/// The first position from `j` on whose class occurred before it.
pub open spec fn first_dup_from(c: Seq<u8>, j: int) -> Option<int>
    decreases c.len() - j,
{
    if j < 0 || j >= c.len() {
        None
    } else if dup_before(c, j) {
        Some(j)
    } else {
        first_dup_from(c, j + 1)
    }
}

/// The first position from `j` on that holds class `k`.
pub open spec fn find_class(c: Seq<u8>, k: u8, j: int) -> Option<int>
    decreases c.len() - j,
{
    if j < 0 || j >= c.len() {
        None
    } else if c[j] == k {
        Some(j)
    } else {
        find_class(c, k, j + 1)
    }
}

/// The first position whose class repeats an earlier one.
pub fn first_duplicate(c: &Vec<u8>) -> (r: Option<usize>)
    ensures
        match r {
            Some(j) => first_dup_from(c@, 0) == Some(j as int) && j < c@.len(),
            None => first_dup_from(c@, 0) is None,
        },
{
    let mut j: usize = 0;
    while j < c.len()
        invariant
            j <= c@.len(),
            first_dup_from(c@, 0) == first_dup_from(c@, j as int),
        decreases c@.len() - j,
    {
        let mut i: usize = 0;
        while i < j
            invariant
                i <= j < c@.len(),
                first_dup_from(c@, 0) == first_dup_from(c@, j as int),
                forall|h: int| 0 <= h < i ==> c@[h] != c@[j as int],
            decreases j - i,
        {
            if c[i] == c[j] {
                assert(dup_before(c@, j as int)) by {
                    assert(c@[i as int] == c@[j as int]);
                }
                return Some(j);
            }
            i = i + 1;
        }
        assert(!dup_before(c@, j as int));
        j = j + 1;
    }
    None
}

/// The first position that holds class `k`.
pub fn position_of_class(c: &Vec<u8>, k: u8) -> (r: Option<usize>)
    ensures
        match r {
            Some(j) => find_class(c@, k, 0) == Some(j as int) && j < c@.len(),
            None => find_class(c@, k, 0) is None,
        },
{
    let mut j: usize = 0;
    while j < c.len()
        invariant
            j <= c@.len(),
            find_class(c@, k, 0) == find_class(c@, k, j as int),
        decreases c@.len() - j,
    {
        if c[j] == k {
            return Some(j);
        }
        j = j + 1;
    }
    None
}

} // verus!
