//! Containment of one canonical path in another.
//!
//! Paths are byte strings as Unix has them, in canonical form: absolute, with
//! every link resolved, without `.` and `..`, without a doubled or trailing
//! separator. On such paths, to lie below a directory is to continue its text
//! at a component boundary.

use vstd::prelude::*;

verus! {

/// The byte that separates the components of a path.
pub const SEPARATOR: u8 = 47u8;

/// `path` is `root` itself or lies below it: `root` is the beginning of
/// `path`, and ends where a component of `path` ends.
pub open spec fn within(path: Seq<u8>, root: Seq<u8>) -> bool {
    &&& root.is_prefix_of(path)
    &&& {
        ||| root.len() == 0
        ||| path.len() == root.len()
        ||| root.last() == SEPARATOR
        ||| path[root.len() as int] == SEPARATOR
    }
}

/// Tells whether the canonical path `path` is `root` or lies below it.
pub fn is_within(path: &[u8], root: &[u8]) -> (inside: bool)
    ensures
        inside == within(path@, root@),
{
    if root.len() > path.len() {
        return false;
    }
    let mut at: usize = 0;
    while at < root.len()
        invariant
            at <= root.len() <= path.len(),
            forall|i: int| 0 <= i < at ==> path[i] == root[i],
        decreases root.len() - at,
    {
        if path[at] != root[at] {
            assert(path@.take(root.len() as int)[at as int] != root@[at as int]);
            return false;
        }
        at += 1;
    }
    assert(path@.take(root.len() as int) =~= root@);
    root.len() == 0 || path.len() == root.len() || root[root.len() - 1] == SEPARATOR
        || path[root.len()] == SEPARATOR
}

/// Every path lies within itself.
pub proof fn law_within_itself(path: Seq<u8>)
    ensures
        within(path, path),
{
    assert(path.take(path.len() as int) =~= path);
}

/// What lies within a directory lies within each directory around it.
pub proof fn law_within_is_transitive(path: Seq<u8>, inner: Seq<u8>, outer: Seq<u8>)
    requires
        within(path, inner),
        within(inner, outer),
    ensures
        within(path, outer),
{
    assert(path.take(outer.len() as int) =~= inner.take(outer.len() as int)) by {
        assert(path.take(inner.len() as int) == inner);
        assert forall|i: int| 0 <= i < outer.len() implies path.take(outer.len() as int)[i]
            == inner.take(outer.len() as int)[i] by {
            assert(path.take(inner.len() as int)[i] == inner[i]);
        }
    }
    if outer.len() < inner.len() && outer.len() > 0 && outer.last() != SEPARATOR {
        assert(path.take(inner.len() as int)[outer.len() as int] == inner[outer.len() as int]);
    }
}

/// A path made of a directory, a separator and anything behind it lies
/// within that directory.
pub proof fn law_below_is_within(root: Seq<u8>, rest: Seq<u8>)
    ensures
        within(root + seq![SEPARATOR] + rest, root),
{
    let path = root + seq![SEPARATOR] + rest;
    assert(path.take(root.len() as int) =~= root);
    assert(path[root.len() as int] == SEPARATOR);
}

/// To begin with the text of a directory is not enough: a path that goes on
/// in the middle of a component lies outside it.
pub proof fn law_shared_text_is_not_within(root: Seq<u8>, rest: Seq<u8>)
    requires
        root.len() > 0,
        root.last() != SEPARATOR,
        rest.len() > 0,
        rest[0] != SEPARATOR,
    ensures
        root.is_prefix_of(root + rest),
        !within(root + rest, root),
{
    assert((root + rest).take(root.len() as int) =~= root);
    assert((root + rest)[root.len() as int] == rest[0]);
}

/// A path that does not begin with the text of a directory lies outside it.
pub proof fn law_within_shares_text(path: Seq<u8>, root: Seq<u8>)
    requires
        within(path, root),
    ensures
        path.len() >= root.len(),
        forall|i: int| 0 <= i < root.len() ==> path[i] == root[i],
{
    assert forall|i: int| 0 <= i < root.len() implies path[i] == root[i] by {
        assert(path.take(root.len() as int)[i] == path[i]);
    }
}

} // verus!
