//! Searching byte strings.
use vstd::prelude::*;

verus! {

/// The index of the first occurrence of `c` in `s` at or after `from`.
pub open spec fn find_from(s: Seq<u8>, c: u8, from: int) -> Option<int>
    decreases s.len() - from,
{
    if from < 0 || from >= s.len() {
        None
    } else if s[from] == c {
        Some(from)
    } else {
        find_from(s, c, from + 1)
    }
}

/// What [`find_from`] finds is an occurrence, and none comes before it.
pub proof fn lemma_find_from(s: Seq<u8>, c: u8, from: int)
    requires
        0 <= from,
    ensures
        match find_from(s, c, from) {
            None => forall|j: int| from <= j < s.len() ==> s[j] != c,
            Some(i) => from <= i < s.len() && s[i] == c && forall|j: int| from <= j < i ==> s[j] != c,
        },
    decreases s.len() - from,
{
    if from < s.len() && s[from] != c {
        lemma_find_from(s, c, from + 1);
    }
}

/// The index of the first `c` in `b` at or after `from`.
pub fn find_byte(b: &[u8], c: u8, from: usize) -> (r: Option<usize>)
    requires
        from <= b.len(),
    ensures
        match r {
            None => find_from(b@, c, from as int) is None,
            Some(i) => find_from(b@, c, from as int) == Some(i as int) && from <= i < b.len()
                && b@[i as int] == c,
        },
{
    let mut i = from;
    while i < b.len()
        invariant
            from <= i <= b.len(),
            find_from(b@, c, from as int) == find_from(b@, c, i as int),
        decreases b.len() - i,
    {
        if b[i] == c {
            return Some(i);
        }
        i += 1;
    }
    None
}

} // verus!
