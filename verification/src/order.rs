//! The first failure in a sequence of outcomes.
//!
//! Declarations are compiled field by field and rules are checked one by one,
//! and in both the first failure ends the work. This module says what "first"
//! means.

use vstd::prelude::*;

verus! {

/// The first `Some` in `s`, by position, or `None` where every entry is `None`.
pub open spec fn first_some<E>(s: Seq<Option<E>>) -> Option<E>
    decreases s.len(),
{
    if s.len() == 0 {
        None
    } else {
        match first_some(s.drop_last()) {
            Some(e) => Some(e),
            None => s.last(),
        }
    }
}

/// The position of the first `Some` in `s`, or the length of `s` where there
/// is none.
pub open spec fn first_some_at<E>(s: Seq<Option<E>>) -> int
    decreases s.len(),
{
    if s.len() == 0 {
        0
    } else if first_some_at(s.drop_last()) < s.len() - 1 {
        first_some_at(s.drop_last())
    } else if s.last() is Some {
        s.len() - 1
    } else {
        s.len() as int
    }
}

/// `first_some(s)` is the entry at `first_some_at(s)`, every entry before it
/// is `None`, and it is `None` exactly when every entry is.
pub proof fn lemma_first_some<E>(s: Seq<Option<E>>)
    ensures
        0 <= first_some_at(s) <= s.len(),
        forall|j: int| 0 <= j < first_some_at(s) ==> s[j] is None,
        first_some_at(s) < s.len() ==> s[first_some_at(s)] is Some && first_some(s)
            == s[first_some_at(s)],
        first_some_at(s) == s.len() ==> first_some(s) is None,
    decreases s.len(),
{
    if s.len() > 0 {
        let p = s.drop_last();
        lemma_first_some(p);
        assert forall|j: int| 0 <= j < first_some_at(s) implies s[j] is None by {
            if j < p.len() {
                assert(p[j] == s[j]);
            }
        }
        if first_some_at(p) < p.len() {
            assert(p[first_some_at(p)] == s[first_some_at(p)]);
        }
    }
}

/// Where every entry before `i` is `None`, the first `Some` of the first `i`
/// entries is `None`.
pub proof fn lemma_first_some_none<E>(s: Seq<Option<E>>, i: int)
    requires
        0 <= i <= s.len(),
        forall|j: int| 0 <= j < i ==> s[j] is None,
    ensures
        first_some(s.take(i)) is None,
    decreases i,
{
    if i > 0 {
        lemma_first_some_none(s, i - 1);
        assert(s.take(i).drop_last() =~= s.take(i - 1));
        assert(s.take(i).last() == s[i - 1]);
    }
}

/// Where entry `i` is `Some` and every entry before it is `None`, entry `i` is
/// the first `Some` of the whole sequence.
pub proof fn lemma_first_some_is<E>(s: Seq<Option<E>>, i: int)
    requires
        0 <= i < s.len(),
        s[i] is Some,
        forall|j: int| 0 <= j < i ==> s[j] is None,
    ensures
        first_some(s) == s[i],
        first_some_at(s) == i,
{
    lemma_first_some(s);
    let k = first_some_at(s);
    if k < i {
        assert(s[k] is None);
    }
    if k > i {
        assert(s[i] is None);
    }
}

/// Where every entry is `None`, there is no first `Some`.
pub proof fn lemma_first_some_all_none<E>(s: Seq<Option<E>>)
    requires
        forall|j: int| 0 <= j < s.len() ==> s[j] is None,
    ensures
        first_some(s) is None,
{
    lemma_first_some_none(s, s.len() as int);
    assert(s.take(s.len() as int) =~= s);
}

} // verus!
