//! Facts about free identifiers in a closed range, shared by the device id
//! allocators.

use vstd::prelude::*;

verus! {

/// Some identifier in `[start, end]` is not in `taken`.
pub open spec fn has_free(taken: Set<u32>, start: u32, end: u32) -> bool {
    exists|x: u32| start <= x <= end && !taken.contains(x)
}

/// `x` is the smallest identifier in `[start, end]` not in `taken`.
pub open spec fn is_least_free(taken: Set<u32>, start: u32, end: u32, x: u32) -> bool {
    &&& start <= x <= end
    &&& !taken.contains(x)
    &&& forall|y: u32| start <= y < x ==> taken.contains(y)
}

/// How many identifiers of `[start, end]` are not in `taken`.
pub open spec fn free_count(taken: Set<u32>, start: int, end: int) -> nat
    decreases end - start + 1,
{
    if end < start {
        0
    } else {
        free_count(taken, start, end - 1) + (if 0 <= end <= u32::MAX && !taken.contains(end as u32) { 1nat } else { 0nat })
    }
}

/// Taking one free identifier of the range leaves one fewer free.
pub proof fn lemma_free_count_insert(taken: Set<u32>, start: int, end: int, x: u32)
    requires
        start <= x <= end,
        !taken.contains(x),
    ensures
        free_count(taken.insert(x), start, end) + 1 == free_count(taken, start, end),
    decreases end - start + 1,
{
    if end > x {
        lemma_free_count_insert(taken, start, end - 1, x);
    } else {
        lemma_free_count_unchanged(taken, x, start, end - 1);
    }
}

/// Taking an identifier outside the range leaves its free count as it was.
pub proof fn lemma_free_count_unchanged(taken: Set<u32>, x: u32, start: int, end: int)
    requires
        end < x,
    ensures
        free_count(taken.insert(x), start, end) == free_count(taken, start, end),
    decreases end - start + 1,
{
    if end >= start {
        lemma_free_count_unchanged(taken, x, start, end - 1);
    }
}

/// A range of identifiers that are all taken has no free one.
pub proof fn lemma_free_count_zero(taken: Set<u32>, start: int, end: int)
    requires
        0 <= start,
        end <= u32::MAX,
        forall|y: u32| start <= y <= end ==> taken.contains(y),
    ensures
        free_count(taken, start, end) == 0,
    decreases end - start + 1,
{
    if end >= start {
        lemma_free_count_zero(taken, start, end - 1);
    }
}

/// A free identifier counts in the range.
pub proof fn lemma_free_count_positive(taken: Set<u32>, start: int, end: int, x: u32)
    requires
        start <= x <= end,
        !taken.contains(x),
    ensures
        free_count(taken, start, end) > 0,
    decreases end - start + 1,
{
    if end > x {
        lemma_free_count_positive(taken, start, end - 1, x);
    }
}

/// The text of an exhausted range: "No available device ID in range
/// {start}-{end} for core type {core_type}".
pub open spec fn exhausted_text(start: u32, end: u32, core_type: Seq<char>) -> Seq<char> {
    "No available device ID in range "@ + crate::logging::formatter::decimal(start as nat) + "-"@
        + crate::logging::formatter::decimal(end as nat) + " for core type "@ + core_type
}

/// The text of an exhausted range.
pub fn exhausted_message(start: u32, end: u32, core_type: &str) -> (s: String)
    ensures
        s@ == exhausted_text(start, end, core_type@),
{
    let mut s = String::from_str("No available device ID in range ");
    crate::logging::formatter::push_decimal(&mut s, start as u64);
    s.append("-");
    crate::logging::formatter::push_decimal(&mut s, end as u64);
    s.append(" for core type ");
    s.append(core_type);
    s
}

/// Finds and takes the smallest identifier of `[start, end]` missing from
/// `taken`.
pub fn take_least_free(taken: &mut std::collections::HashSet<u32>, start: u32, end: u32) -> (r: Option<u32>)
    requires
        start <= end < u32::MAX,
    ensures
        has_free(old(taken)@, start, end) ==> (r matches Some(x) && is_least_free(old(taken)@, start, end, x)
            && final(taken)@ == old(taken)@.insert(x)),
        !has_free(old(taken)@, start, end) ==> r is None && final(taken)@ == old(taken)@,
{
    broadcast use vstd::std_specs::hash::group_hash_axioms;
    let mut id = start;
    while id <= end
        invariant
            start <= id <= end + 1,
            end < u32::MAX,
            *taken == *old(taken),
            forall|y: u32| start <= y < id ==> taken@.contains(y),
        decreases end + 1 - id,
    {
        if !taken.contains(&id) {
            taken.insert(id);
            return Some(id);
        }
        id = id + 1;
    }
    assert(!has_free(old(taken)@, start, end));
    None
}


/// Giving back an identifier just handed out leaves the taken identifiers
/// as they were.
pub proof fn law_release_undoes_allocation(taken: Set<u32>, start: u32, end: u32, x: u32)
    requires
        is_least_free(taken, start, end, x),
    ensures
        taken.insert(x).remove(x) == taken,
{
    assert(taken.insert(x).remove(x) =~= taken);
}

/// An identifier handed out is not handed out again before it is given
/// back: the next allocation in the range gives a larger one.
pub proof fn law_allocation_never_repeats(taken: Set<u32>, start: u32, end: u32, x: u32, y: u32)
    requires
        is_least_free(taken, start, end, x),
        is_least_free(taken.insert(x), start, end, y),
    ensures
        x < y,
{
}
} // verus!
