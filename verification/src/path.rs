//! The path convention: a file's path starts with the identity that owns it,
//! and the first `/` ends that identity.

use vstd::prelude::*;

verus! {

/// Whether the first `/` of `path` stands at index `i`.
pub open spec fn is_first_separator(path: Seq<char>, i: int) -> bool {
    &&& 0 <= i < path.len()
    &&& path[i] == '/'
    &&& forall|j: int| 0 <= j < i ==> path[j] != '/'
}

/// The identity that owns `path`: what stands before its first `/`. A path
/// without a `/` names no owner.
pub open spec fn path_owner(path: Seq<char>) -> Option<Seq<char>> {
    if exists|i: int| is_first_separator(path, i) {
        Some(path.take(choose|i: int| is_first_separator(path, i)))
    } else {
        None
    }
}

/// A path has at most one first separator, and it is the one that
/// [`path_owner`] cuts at.
pub proof fn lemma_path_owner_at(path: Seq<char>, i: int)
    requires
        is_first_separator(path, i),
    ensures
        path_owner(path) == Some(path.take(i)),
{
    let k = choose|k: int| is_first_separator(path, k);
    if k < i {
        assert(path[k] != '/');
    } else if i < k {
        assert(path[i] != '/');
    }
}

/// A path without any `/` has no owner.
pub proof fn lemma_path_owner_none(path: Seq<char>)
    requires
        forall|j: int| 0 <= j < path.len() ==> path[j] != '/',
    ensures
        path_owner(path) is None,
{
}

/// Finds the identity that owns `path`, or `None` where the path holds no `/`.
pub fn owner_of_path(path: &str) -> (owner: Option<String>)
    ensures
        match owner {
            Some(name) => path_owner(path@) == Some(name@),
            None => path_owner(path@) is None,
        },
{
    let length = path.unicode_len();
    let mut i: usize = 0;
    while i < length
        invariant
            length == path@.len(),
            i <= length,
            forall|j: int| 0 <= j < i ==> path@[j] != '/',
        decreases length - i,
    {
        if path.get_char(i) == '/' {
            proof {
                lemma_path_owner_at(path@, i as int);
            }
            return Some(String::from_str(path.substring_char(0, i)));
        }
        i += 1;
    }
    proof {
        lemma_path_owner_none(path@);
    }
    None
}

} // verus!
