//! Lists of identities, and facts about them that several modules lean on.

use crate::primitives::Identifier;
use vstd::prelude::*;

verus! {

/// Filtering the empty sequence leaves it empty.
pub proof fn lemma_filter_empty<T>(p: spec_fn(T) -> bool)
    ensures
        Seq::<T>::empty().filter(p) == Seq::<T>::empty(),
{
    Seq::<T>::empty().lemma_filter_len(p);
    assert(Seq::<T>::empty().filter(p) =~= Seq::<T>::empty());
}

/// A sequence without repetitions has none after filtering.
pub proof fn lemma_filter_no_duplicates<T>(s: Seq<T>, p: spec_fn(T) -> bool)
    requires
        s.no_duplicates(),
    ensures
        s.filter(p).no_duplicates(),
    decreases s.len(),
{
    if s.len() == 0 {
        lemma_filter_empty(p);
    } else {
        let init = s.drop_last();
        let last = s.last();
        assert(init.push(last) =~= s);
        lemma_filter_no_duplicates(init, p);
        init.lemma_filter_push(last, p);
        if p(last) {
            if init.filter(p).contains(last) {
                init.lemma_filter_contains_rev(p, last);
                let i = choose|i: int| 0 <= i < init.len() && init[i] == last;
                assert(s[i] == s[s.len() - 1]);
            }
            let f = init.filter(p);
            assert forall|i: int, j: int|
                0 <= i < f.push(last).len() && 0 <= j < f.push(last).len() && i != j implies f.push(
                last,
            )[i] != f.push(last)[j] by {
                if i == f.len() {
                    assert(f.contains(f[j]));
                } else if j == f.len() {
                    assert(f.contains(f[i]));
                }
            }
        }
    }
}

/// Filtering first by `p` leaves no more matches of `q` than there were.
pub proof fn lemma_filter_filter_len<T>(s: Seq<T>, p: spec_fn(T) -> bool, q: spec_fn(T) -> bool)
    ensures
        s.filter(p).filter(q).len() <= s.filter(q).len(),
    decreases s.len(),
{
    if s.len() == 0 {
        lemma_filter_empty(p);
        lemma_filter_empty(q);
    } else {
        let init = s.drop_last();
        let last = s.last();
        assert(init.push(last) =~= s);
        lemma_filter_filter_len(init, p, q);
        init.lemma_filter_push(last, p);
        init.lemma_filter_push(last, q);
        init.filter(p).lemma_filter_push(last, q);
    }
}

/// What a filtered sequence holds: the members of the sequence that pass.
pub proof fn lemma_filter_members<T>(s: Seq<T>, p: spec_fn(T) -> bool, x: T)
    ensures
        s.filter(p).contains(x) <==> s.contains(x) && p(x),
    decreases s.len(),
{
    if s.len() == 0 {
        lemma_filter_empty(p);
    } else {
        let init = s.drop_last();
        let last = s.last();
        assert(init.push(last) =~= s);
        lemma_filter_members(init, p, x);
        init.lemma_filter_push(last, p);
        let f = init.filter(p);
        if s.contains(x) {
            let i = choose|i: int| 0 <= i < s.len() && s[i] == x;
            if i < init.len() {
                assert(init[i] == x);
            }
        }
        if init.contains(x) {
            let i = choose|i: int| 0 <= i < init.len() && init[i] == x;
            assert(s[i] == x);
        }
        if p(last) {
            assert(f.push(last)[f.len() as int] == last);
            if f.contains(x) {
                let i = choose|i: int| 0 <= i < f.len() && f[i] == x;
                assert(f.push(last)[i] == x);
            }
            if f.push(last).contains(x) {
                let i = choose|i: int| 0 <= i < f.push(last).len() && f.push(last)[i] == x;
                if i < f.len() {
                    assert(f[i] == x);
                }
            }
        }
        assert(s[s.len() - 1] == last);
    }
}

/// Two conditions that agree on the members of a sequence select the same.
pub proof fn lemma_filter_agree<T>(s: Seq<T>, p: spec_fn(T) -> bool, q: spec_fn(T) -> bool)
    requires
        forall|i: int| 0 <= i < s.len() ==> p(#[trigger] s[i]) == q(s[i]),
    ensures
        s.filter(p) == s.filter(q),
    decreases s.len(),
{
    if s.len() == 0 {
        lemma_filter_empty(p);
        lemma_filter_empty(q);
    } else {
        let init = s.drop_last();
        let last = s.last();
        assert(init.push(last) =~= s);
        assert forall|i: int| 0 <= i < init.len() implies p(#[trigger] init[i]) == q(init[i]) by {
            assert(init[i] == s[i]);
        }
        lemma_filter_agree(init, p, q);
        init.lemma_filter_push(last, p);
        init.lemma_filter_push(last, q);
        assert(p(s[s.len() - 1]) == q(s[s.len() - 1]));
    }
}

/// `log` with `e` added at its end, unless it holds `e` already.
pub open spec fn push_new<T>(log: Seq<T>, e: T) -> Seq<T> {
    if log.contains(e) {
        log
    } else {
        log.push(e)
    }
}

/// After `push_new` the log holds the entry.
pub proof fn lemma_push_new_holds<T>(log: Seq<T>, e: T)
    ensures
        push_new(log, e).contains(e),
        log.no_duplicates() ==> push_new(log, e).no_duplicates(),
{
    if !log.contains(e) {
        assert(log.push(e)[log.len() as int] == e);
    }
}

/// `push_new` removes nothing.
pub proof fn lemma_push_new_keeps<T>(log: Seq<T>, e: T, x: T)
    requires
        log.contains(x),
    ensures
        push_new(log, e).contains(x),
{
    let i = choose|i: int| 0 <= i < log.len() && log[i] == x;
    if !log.contains(e) {
        assert(log.push(e)[i] == x);
    }
}

/// `push_new` adds nothing but the entry.
pub proof fn lemma_push_new_adds_one<T>(log: Seq<T>, e: T, x: T)
    requires
        push_new(log, e).contains(x),
    ensures
        log.contains(x) || x == e,
{
    if !log.contains(e) {
        let i = choose|i: int| 0 <= i < log.push(e).len() && log.push(e)[i] == x;
        if i < log.len() {
            assert(log[i] == x);
        }
    }
}

/// `acc` followed by the members of `items` that it does not hold yet, each
/// once, in their order.
pub open spec fn extend_new<T>(acc: Seq<T>, items: Seq<T>) -> Seq<T>
    decreases items.len(),
{
    if items.len() == 0 {
        acc
    } else {
        push_new(extend_new(acc, items.drop_last()), items.last())
    }
}

/// What `extend_new` holds: what `acc` held and what `items` holds.
pub proof fn lemma_extend_new_members<T>(acc: Seq<T>, items: Seq<T>, x: T)
    ensures
        extend_new(acc, items).contains(x) <==> acc.contains(x) || items.contains(x),
        acc.no_duplicates() ==> extend_new(acc, items).no_duplicates(),
    decreases items.len(),
{
    if items.len() > 0 {
        let init = items.drop_last();
        let last = items.last();
        lemma_extend_new_members(acc, init, x);
        let before = extend_new(acc, init);
        lemma_push_new_holds(before, last);
        if before.contains(x) {
            lemma_push_new_keeps(before, last, x);
        }
        if push_new(before, last).contains(x) && !before.contains(x) {
            let i = choose|i: int|
                0 <= i < push_new(before, last).len() && push_new(before, last)[i] == x;
            if i < before.len() {
                assert(before[i] == x);
            }
        }
        if init.contains(x) {
            let i = choose|i: int| 0 <= i < init.len() && init[i] == x;
            assert(items[i] == x);
        }
        if items.contains(x) {
            let i = choose|i: int| 0 <= i < items.len() && items[i] == x;
            if i < init.len() {
                assert(init[i] == x);
            }
        }
        assert(items[items.len() - 1] == last);
    }
}

/// A copy of a list.
pub fn copy_ids<K: Identifier>(list: &Vec<K>) -> (r: Vec<K>)
    ensures
        r@ == list@,
{
    let mut r: Vec<K> = Vec::new();
    let mut i: usize = 0;
    while i < list.len()
        invariant
            i <= list.len(),
            r@ == list@.take(i as int),
        decreases list.len() - i,
    {
        r.push(list[i]);
        proof {
            list@.lemma_take_succ_push(i as int);
        }
        i += 1;
    }
    assert(list@.take(list@.len() as int) =~= list@);
    r
}

/// Whether a list holds a value.
pub fn contains_id<K: Identifier>(list: &Vec<K>, key: &K) -> (r: bool)
    ensures
        r == list@.contains(*key),
{
    let mut i: usize = 0;
    while i < list.len()
        invariant
            i <= list.len(),
            forall|j: int| 0 <= j < i ==> list@[j] != *key,
        decreases list.len() - i,
    {
        if list[i].same(key) {
            return true;
        }
        i += 1;
    }
    false
}

} // verus!
