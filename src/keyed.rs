use vstd::prelude::*;

verus! {

/// The first element of `s` whose key is `k`, if any: the lookup rule shared by
/// every keyed store of the library.
pub open spec fn find_by<A>(s: Seq<A>, key: spec_fn(A) -> Seq<char>, k: Seq<char>) -> Option<A>
    decreases s.len(),
{
    if s.len() == 0 {
        None
    } else if key(s[0]) == k {
        Some(s[0])
    } else {
        find_by(s.drop_first(), key, k)
    }
}

pub proof fn lemma_find_first<A>(s: Seq<A>, key: spec_fn(A) -> Seq<char>, k: Seq<char>, i: int)
    requires
        0 <= i < s.len(),
        key(s[i]) == k,
        forall|j: int| 0 <= j < i ==> key(#[trigger] s[j]) != k,
    ensures
        find_by(s, key, k) == Some(s[i]),
    decreases s.len(),
{
    if i > 0 {
        lemma_find_first(s.drop_first(), key, k, i - 1);
    }
}

pub proof fn lemma_find_none<A>(s: Seq<A>, key: spec_fn(A) -> Seq<char>, k: Seq<char>)
    requires
        forall|j: int| 0 <= j < s.len() ==> key(#[trigger] s[j]) != k,
    ensures
        find_by(s, key, k) is None,
    decreases s.len(),
{
    if s.len() > 0 {
        lemma_find_none(s.drop_first(), key, k);
    }
}

pub proof fn lemma_find_push<A>(s: Seq<A>, key: spec_fn(A) -> Seq<char>, x: A, k: Seq<char>)
    ensures
        find_by(s.push(x), key, k) == (if find_by(s, key, k) is Some {
            find_by(s, key, k)
        } else if key(x) == k {
            Some(x)
        } else {
            None
        }),
    decreases s.len(),
{
    if s.len() > 0 {
        assert(s.push(x).drop_first() =~= s.drop_first().push(x));
        assert(s.push(x)[0] == s[0]);
        lemma_find_push(s.drop_first(), key, x, k);
    } else {
        assert(s.push(x).drop_first() =~= s);
        assert(s.push(x)[0] == x);
        assert(find_by(s, key, k) is None);
    }
}

/// Replacing the first element with a given key changes the lookup of that key only.
pub proof fn lemma_find_update<A>(s: Seq<A>, key: spec_fn(A) -> Seq<char>, i: int, x: A, k: Seq<char>)
    requires
        0 <= i < s.len(),
        key(x) == key(s[i]),
        forall|j: int| 0 <= j < i ==> key(#[trigger] s[j]) != key(x),
    ensures
        find_by(s.update(i, x), key, k) == (if k == key(x) {
            Some(x)
        } else {
            find_by(s, key, k)
        }),
    decreases s.len(),
{
    if i == 0 {
        assert(s.update(i, x).drop_first() =~= s.drop_first());
    } else {
        assert(s.update(i, x).drop_first() =~= s.drop_first().update(i - 1, x));
        assert(s.update(i, x)[0] == s[0]);
        lemma_find_update(s.drop_first(), key, i - 1, x, k);
    }
}

/// Whether two identifiers hold the same text.
pub(crate) fn same_id(a: &String, b: &String) -> (r: bool)
    ensures
        r == (a@ == b@),
{
    a.eq(b)
}

} // verus!
