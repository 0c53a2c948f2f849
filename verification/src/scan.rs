//! Finding and dropping the entries of a sequence that a predicate picks.

use vstd::prelude::*;

verus! {

/// Index of the first entry of `s` that `p` holds of, or the length of `s`
/// when it holds of none.
pub open spec fn first_where<A>(s: Seq<A>, p: spec_fn(A) -> bool) -> int
    decreases s.len(),
{
    if s.len() == 0 || p(s[0]) {
        0
    } else {
        1 + first_where(s.skip(1), p)
    }
}

/// The first entry of `s` that `p` holds of, if there is one.
pub open spec fn found<A>(s: Seq<A>, p: spec_fn(A) -> bool) -> Option<A> {
    let i = first_where(s, p);
    if 0 <= i < s.len() {
        Some(s[i])
    } else {
        None
    }
}

/// The entries of `s` that `p` holds of, in their order.
pub open spec fn kept<A>(s: Seq<A>, p: spec_fn(A) -> bool) -> Seq<A>
    decreases s.len(),
{
    if s.len() == 0 {
        s
    } else if p(s.last()) {
        kept(s.drop_last(), p).push(s.last())
    } else {
        kept(s.drop_last(), p)
    }
}

/// `first_where` stops at an entry that `p` holds of and passes none.
pub proof fn lemma_first_where<A>(s: Seq<A>, p: spec_fn(A) -> bool)
    ensures
        0 <= first_where(s, p) <= s.len(),
        forall|j: int| 0 <= j < first_where(s, p) ==> !p(#[trigger] s[j]),
        first_where(s, p) < s.len() ==> p(s[first_where(s, p)]),
    decreases s.len(),
{
    if s.len() == 0 || p(s[0]) {
    } else {
        let t = s.skip(1);
        lemma_first_where(t, p);
        assert forall|j: int| 0 <= j < first_where(s, p) implies !p(#[trigger] s[j]) by {
            if j > 0 {
                assert(s[j] == t[j - 1]);
            }
        }
    }
}

/// The only index with the properties of `lemma_first_where` is
/// `first_where`.
pub proof fn lemma_first_where_unique<A>(s: Seq<A>, p: spec_fn(A) -> bool, i: int)
    requires
        0 <= i <= s.len(),
        forall|j: int| 0 <= j < i ==> !p(#[trigger] s[j]),
        i < s.len() ==> p(s[i]),
    ensures
        first_where(s, p) == i,
{
    lemma_first_where(s, p);
    let k = first_where(s, p);
    if k < i {
        assert(!p(s[k]));
    }
    if i < k {
        assert(!p(s[i]));
    }
}

/// Every entry that is kept is one that `p` holds of, and the kept entries
/// are no more than the entries.
pub proof fn lemma_kept<A>(s: Seq<A>, p: spec_fn(A) -> bool)
    ensures
        kept(s, p).len() <= s.len(),
        forall|j: int| 0 <= j < kept(s, p).len() ==> p(#[trigger] kept(s, p)[j]),
        forall|j: int|
            0 <= j < kept(s, p).len() ==> exists|k: int|
                0 <= k < s.len() && s[k] == #[trigger] kept(s, p)[j],
    decreases s.len(),
{
    if s.len() > 0 {
        let init = s.drop_last();
        lemma_kept(init, p);
        assert forall|j: int| 0 <= j < kept(s, p).len() implies exists|k: int|
            0 <= k < s.len() && s[k] == #[trigger] kept(s, p)[j] by {
            if j < kept(init, p).len() {
                let k = choose|k: int| 0 <= k < init.len() && init[k] == kept(init, p)[j];
                assert(s[k] == kept(s, p)[j]);
            } else {
                assert(s[s.len() - 1] == kept(s, p)[j]);
            }
        }
    }
}

/// Nothing that `p` holds of is found after what `p` holds of was dropped.
pub proof fn law_dropped_is_not_found<A>(s: Seq<A>, p: spec_fn(A) -> bool, q: spec_fn(A) -> bool)
    requires
        forall|a: A| #[trigger] q(a) == !p(a),
    ensures
        found(kept(s, q), p) is None,
{
    lemma_kept(s, q);
    lemma_first_where(kept(s, q), p);
}

/// What an entry of a section is looked up by.
#[derive(Debug, Clone, Copy, PartialEq, Eq, Structural)]
pub enum Mark {
    /// Its type discriminator.
    Type,
    /// Its tag.
    Tag,
}

/// Where `p` holds of some entry, an entry is found.
pub proof fn lemma_found_some<A>(s: Seq<A>, p: spec_fn(A) -> bool, k: int)
    requires
        0 <= k < s.len(),
        p(s[k]),
    ensures
        found(s, p) is Some,
        p(found(s, p)->0),
{
    lemma_first_where(s, p);
    let i = first_where(s, p);
    if i >= s.len() {
        assert(!p(s[k]));
    }
}

/// What is found is one of the entries.
pub proof fn lemma_found_is_entry<A>(s: Seq<A>, p: spec_fn(A) -> bool)
    ensures
        found(s, p) matches Some(e) ==> p(e) && exists|k: int| 0 <= k < s.len() && s[k] == e,
{
    lemma_first_where(s, p);
}

} // verus!
