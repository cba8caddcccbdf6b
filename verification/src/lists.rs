//! Facts about sequences shared by the other modules.

use vstd::prelude::*;

verus! {

/// The first element that satisfies `p`.
pub open spec fn first_where<A>(s: Seq<A>, p: spec_fn(A) -> bool) -> Option<A>
    decreases s.len(),
{
    if s.len() == 0 {
        None
    } else {
        match first_where(s.drop_last(), p) {
            Some(a) => Some(a),
            None => if p(s.last()) {
                Some(s.last())
            } else {
                None
            },
        }
    }
}

/// Filtering a sequence with one more element behind it.
pub proof fn lemma_filter_push<A>(s: Seq<A>, p: spec_fn(A) -> bool, x: A)
    ensures
        s.push(x).filter(p) == if p(x) {
            s.filter(p).push(x)
        } else {
            s.filter(p)
        },
{
    reveal(Seq::filter);
    assert(s.push(x).drop_last() == s);
}

/// Whatever a filter leaves was there before and satisfies the filter.
pub proof fn lemma_filter_members<A>(s: Seq<A>, p: spec_fn(A) -> bool)
    ensures
        s.filter(p).len() <= s.len(),
        forall|i: int|
            0 <= i < s.filter(p).len() ==> p(#[trigger] s.filter(p)[i]) && s.contains(
                s.filter(p)[i],
            ),
    decreases s.len(),
{
    reveal(Seq::filter);
    if s.len() > 0 {
        let rest = s.drop_last();
        lemma_filter_members(rest, p);
        assert forall|i: int| 0 <= i < s.filter(p).len() implies p(#[trigger] s.filter(p)[i])
            && s.contains(s.filter(p)[i]) by {
            if i < rest.filter(p).len() {
                let x = rest.filter(p)[i];
                assert(rest.contains(x));
                let j = choose|j: int| 0 <= j < rest.len() && rest[j] == x;
                assert(s[j] == x);
            } else {
                assert(s[s.len() - 1] == s.last());
            }
        }
    }
}

/// Whatever satisfies a filter is left by it.
pub proof fn lemma_filter_keeps<A>(s: Seq<A>, p: spec_fn(A) -> bool, x: A)
    requires
        s.contains(x),
        p(x),
    ensures
        s.filter(p).contains(x),
    decreases s.len(),
{
    reveal(Seq::filter);
    let rest = s.drop_last();
    if rest.contains(x) {
        lemma_filter_keeps(rest, p, x);
        let j = choose|j: int| 0 <= j < rest.filter(p).len() && rest.filter(p)[j] == x;
        assert(s.filter(p)[j] == x);
    } else {
        let j = choose|j: int| 0 <= j < s.len() && s[j] == x;
        assert(j == s.len() - 1) by {
            if j < s.len() - 1 {
                assert(rest[j] == x);
            }
        }
        assert(s.filter(p)[rest.filter(p).len() as int] == x);
    }
}

/// The first match is a member that satisfies the predicate, and there is one
/// exactly when some member satisfies it.
pub proof fn lemma_first_where<A>(s: Seq<A>, p: spec_fn(A) -> bool)
    ensures
        first_where(s, p) matches Some(a) ==> s.contains(a) && p(a),
        first_where(s, p) is None ==> forall|i: int| 0 <= i < s.len() ==> !p(#[trigger] s[i]),
    decreases s.len(),
{
    if s.len() > 0 {
        let rest = s.drop_last();
        lemma_first_where(rest, p);
        match first_where(rest, p) {
            Some(a) => {
                let j = choose|j: int| 0 <= j < rest.len() && rest[j] == a;
                assert(s[j] == a);
            },
            None => {
                assert(s[s.len() - 1] == s.last());
                assert forall|i: int| 0 <= i < s.len() && !p(s.last()) implies !p(
                    #[trigger] s[i],
                ) by {
                    if i < s.len() - 1 {
                        assert(rest[i] == s[i]);
                    }
                }
            },
        }
    }
}

/// The first match is the one in front of which nothing matches.
pub proof fn lemma_first_is_least<A>(s: Seq<A>, p: spec_fn(A) -> bool, at: int)
    requires
        0 <= at < s.len(),
        p(s[at]),
        forall|i: int| 0 <= i < at ==> !p(#[trigger] s[i]),
    ensures
        first_where(s, p) == Some(s[at]),
    decreases s.len(),
{
    let rest = s.drop_last();
    if at < rest.len() {
        assert(rest[at] == s[at]);
        assert forall|i: int| 0 <= i < at implies !p(#[trigger] rest[i]) by {
            assert(rest[i] == s[i]);
        }
        lemma_first_is_least(rest, p, at);
    } else {
        lemma_first_where(rest, p);
        if let Some(a) = first_where(rest, p) {
            let i = choose|i: int| 0 <= i < rest.len() && rest[i] == a;
            assert(p(s[i]));
        }
    }
}

} // verus!
