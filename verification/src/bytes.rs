//! Searching byte strings: the first occurrence of a byte or of a
//! two-byte pattern, as the message grammar needs it.
use vstd::prelude::*;

verus! {

/// `i` is the position of the first `b` in `s`.
pub open spec fn is_first_index_of(s: Seq<u8>, b: u8, i: int) -> bool {
    &&& 0 <= i < s.len()
    &&& s[i] == b
    &&& forall|j: int| 0 <= j < i ==> s[j] != b
}

/// The position of the first `b` in `s`, if `s` holds one.
pub open spec fn first_index_of(s: Seq<u8>, b: u8) -> Option<int> {
    if exists|i: int| is_first_index_of(s, b, i) {
        Some(choose|i: int| is_first_index_of(s, b, i))
    } else {
        None
    }
}

/// The first occurrence is unique, so `first_index_of` names it.
pub proof fn lemma_first_index_of(s: Seq<u8>, b: u8, i: int)
    requires
        is_first_index_of(s, b, i),
    ensures
        first_index_of(s, b) == Some(i),
{
    let k = choose|k: int| is_first_index_of(s, b, k);
    assert(is_first_index_of(s, b, k));
    if k < i {
        assert(s[k] != b);
    } else if i < k {
        assert(s[i] != b);
    }
}

/// `i` is the position where the first occurrence of the pair `b1 b2` in `s` starts.
pub open spec fn is_first_index_of_pair(s: Seq<u8>, b1: u8, b2: u8, i: int) -> bool {
    &&& 0 <= i && i + 1 < s.len()
    &&& s[i] == b1 && s[i + 1] == b2
    &&& forall|j: int| 0 <= j < i ==> !(#[trigger] s[j] == b1 && s[j + 1] == b2)
}

/// The position where the first occurrence of the pair `b1 b2` in `s` starts, if any.
pub open spec fn first_index_of_pair(s: Seq<u8>, b1: u8, b2: u8) -> Option<int> {
    if exists|i: int| is_first_index_of_pair(s, b1, b2, i) {
        Some(choose|i: int| is_first_index_of_pair(s, b1, b2, i))
    } else {
        None
    }
}

pub proof fn lemma_first_index_of_pair(s: Seq<u8>, b1: u8, b2: u8, i: int)
    requires
        is_first_index_of_pair(s, b1, b2, i),
    ensures
        first_index_of_pair(s, b1, b2) == Some(i),
{
    let k = choose|k: int| is_first_index_of_pair(s, b1, b2, k);
    assert(is_first_index_of_pair(s, b1, b2, k));
    if k < i {
        assert(!(s[k] == b1 && s[k + 1] == b2));
    } else if i < k {
        assert(!(s[i] == b1 && s[i + 1] == b2));
    }
}

/// Finds the first `b` in `s`.
pub fn find_byte(s: &[u8], b: u8) -> (r: Option<usize>)
    ensures
        match r {
            Some(i) => first_index_of(s@, b) == Some(i as int),
            None => first_index_of(s@, b) is None,
        },
        r matches Some(i) ==> is_first_index_of(s@, b, i as int),
{
    let mut i: usize = 0;
    while i < s.len()
        invariant
            i <= s.len(),
            forall|j: int| 0 <= j < i ==> s@[j] != b,
        decreases s.len() - i,
    {
        if s[i] == b {
            proof {
                lemma_first_index_of(s@, b, i as int);
            }
            return Some(i);
        }
        i = i + 1;
    }
    assert(!exists|k: int| is_first_index_of(s@, b, k));
    None
}

/// Finds where the first occurrence of the pair `b1 b2` in `s` starts.
pub fn find_pair(s: &[u8], b1: u8, b2: u8) -> (r: Option<usize>)
    ensures
        match r {
            Some(i) => first_index_of_pair(s@, b1, b2) == Some(i as int),
            None => first_index_of_pair(s@, b1, b2) is None,
        },
        r matches Some(i) ==> is_first_index_of_pair(s@, b1, b2, i as int),
{
    let mut i: usize = 0;
    while i < s.len() && s.len() - i >= 2
        invariant
            i <= s.len(),
            forall|j: int| 0 <= j < i ==> !(#[trigger] s@[j] == b1 && s@[j + 1] == b2),
        decreases s.len() - i,
    {
        if s[i] == b1 && s[i + 1] == b2 {
            proof {
                lemma_first_index_of_pair(s@, b1, b2, i as int);
            }
            return Some(i);
        }
        i = i + 1;
    }
    assert(!exists|k: int| is_first_index_of_pair(s@, b1, b2, k)) by {
        assert forall|k: int| !is_first_index_of_pair(s@, b1, b2, k) by {
            if is_first_index_of_pair(s@, b1, b2, k) {
                assert(k < i);
            }
        }
    }
    None
}

} // verus!
