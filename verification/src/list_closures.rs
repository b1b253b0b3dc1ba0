//! `filter`, `map` and `fold` of a list, with the closure that the language
//! passes them given as a function from an item to a result: the items are
//! visited in order, and the first error stops the method.

use vstd::prelude::*;
use crate::error::RuntimeError;

verus! {

/// The items of `s` whose flag in `keep` is set, in order.
pub open spec fn kept<T>(s: Seq<T>, keep: Seq<bool>) -> Seq<T>
    decreases s.len(),
{
    if s.len() == 0 || keep.len() != s.len() {
        Seq::empty()
    } else {
        let rest = kept(s.drop_last(), keep.drop_last());
        if keep.last() { rest.push(s.last()) } else { rest }
    }
}

/// `v` holds clones of the items of `s`, in order.
pub open spec fn clones_of<T: Clone>(v: Seq<T>, s: Seq<T>) -> bool {
    v.len() == s.len() && forall|i: int| 0 <= i < s.len() ==> cloned(s[i], #[trigger] v[i])
}

/// `f` may return `Ok` on `x`.
pub open spec fn gives_ok<T, U, F: Fn(&T) -> Result<U, RuntimeError>>(f: F, x: T) -> bool {
    exists|u: U| #[trigger] f.ensures((&x,), Ok(u))
}

/// `f` may return `Ok` on each of the first `k` items.
pub open spec fn succeeded_on<T, U, F: Fn(&T) -> Result<U, RuntimeError>>(f: F, items: Seq<T>, k: int) -> bool {
    forall|i: int| 0 <= i < k ==> #[trigger] gives_ok(f, items[i])
}

/// What `map` gives: each item's result, or the error of the first item
/// whose call failed.
pub open spec fn map_gives<T, U, F: Fn(&T) -> Result<U, RuntimeError>>(r: Result<Vec<U>, RuntimeError>, f: F, items: Seq<T>) -> bool {
    match r {
        Ok(v) => v@.len() == items.len() && forall|i: int| 0 <= i < items.len() ==> f.ensures((&items[i],), Ok(#[trigger] v@[i])),
        Err(e) => exists|k: int| 0 <= k < items.len() && succeeded_on(f, items, k) && #[trigger] f.ensures((&items[k],), Err(e)),
    }
}

/// The flags that `keep` gave to the items.
pub open spec fn flags_from<T, F: Fn(&T) -> Result<bool, RuntimeError>>(keep: F, items: Seq<T>, flags: Seq<bool>) -> bool {
    flags.len() == items.len() && forall|i: int| 0 <= i < items.len() ==> keep.ensures((&items[i],), Ok(#[trigger] flags[i]))
}

/// What `filter` gives: clones of the items for which the closure gave
/// `true`, in order, or the error of the first item whose call failed.
pub open spec fn filter_gives<T: Clone, F: Fn(&T) -> Result<bool, RuntimeError>>(r: Result<Vec<T>, RuntimeError>, keep: F, items: Seq<T>) -> bool {
    match r {
        Ok(v) => exists|flags: Seq<bool>| #[trigger] flags_from(keep, items, flags) && clones_of(v@, kept(items, flags)),
        Err(e) => exists|k: int| 0 <= k < items.len() && succeeded_on(keep, items, k) && #[trigger] keep.ensures((&items[k],), Err(e)),
    }
}

/// `accs` are the accumulators of a fold from `init` over the first
/// `accs.len() - 1` items.
pub open spec fn fold_trace<T, A, F: Fn(A, &T) -> Result<A, RuntimeError>>(f: F, init: A, items: Seq<T>, accs: Seq<A>) -> bool {
    &&& accs.len() >= 1
    &&& accs.len() <= items.len() + 1
    &&& accs[0] == init
    &&& forall|i: int| 0 <= i < accs.len() - 1 ==> f.ensures((accs[i], &items[i]), Ok(#[trigger] accs[i + 1]))
}

/// What `fold` gives: the last accumulator, or the error of the first call
/// that failed.
pub open spec fn fold_gives<T, A, F: Fn(A, &T) -> Result<A, RuntimeError>>(r: Result<A, RuntimeError>, f: F, init: A, items: Seq<T>) -> bool {
    match r {
        Ok(x) => exists|accs: Seq<A>| #[trigger] fold_trace(f, init, items, accs) && accs.len() == items.len() + 1 && accs.last() == x,
        Err(e) => exists|accs: Seq<A>| #[trigger] fold_trace(f, init, items, accs) && accs.len() <= items.len()
            && f.ensures((accs.last(), &items[accs.len() - 1]), Err(e)),
    }
}

/// `map`: the result of `f` on each item.
pub fn map_items<T, U, F: Fn(&T) -> Result<U, RuntimeError>>(items: &Vec<T>, f: &F) -> (r: Result<Vec<U>, RuntimeError>)
    requires
        forall|i: int| 0 <= i < items@.len() ==> f.requires((&items@[i],)),
    ensures
        map_gives(r, *f, items@),
{
    let mut v: Vec<U> = Vec::new();
    let mut i: usize = 0;
    while i < items.len()
        invariant
            i <= items@.len(),
            v@.len() == i,
            forall|j: int| 0 <= j < items@.len() ==> f.requires((&items@[j],)),
            forall|j: int| 0 <= j < i ==> f.ensures((&items@[j],), Ok(#[trigger] v@[j])),
        decreases items@.len() - i,
    {
        match f(&items[i]) {
            Ok(u) => v.push(u),
            Err(e) => {
                proof {
                    assert forall|j: int| 0 <= j < i implies #[trigger] gives_ok(*f, items@[j]) by {
                        assert(f.ensures((&items@[j],), Ok(v@[j])));
                    }
                    assert(succeeded_on(*f, items@, i as int));
                }
                return Err(e);
            },
        }
        i = i + 1;
    }
    Ok(v)
}

/// `filter`: clones of the items for which `keep` gives `true`.
pub fn filter_items<T: Clone, F: Fn(&T) -> Result<bool, RuntimeError>>(items: &Vec<T>, keep: &F) -> (r: Result<Vec<T>, RuntimeError>)
    requires
        forall|i: int| 0 <= i < items@.len() ==> keep.requires((&items@[i],)),
    ensures
        filter_gives(r, *keep, items@),
{
    let mut v: Vec<T> = Vec::new();
    let ghost mut flags: Seq<bool> = Seq::empty();
    let mut i: usize = 0;
    while i < items.len()
        invariant
            i <= items@.len(),
            forall|j: int| 0 <= j < items@.len() ==> keep.requires((&items@[j],)),
            flags_from(*keep, items@.take(i as int), flags),
            clones_of(v@, kept(items@.take(i as int), flags)),
        decreases items@.len() - i,
    {
        let ghost before = items@.take(i as int);
        assert(items@.take(i + 1).drop_last() =~= before);
        match keep(&items[i]) {
            Ok(b) => {
                if b {
                    v.push(items[i].clone());
                }
                proof {
                    let old_flags = flags;
                    flags = flags.push(b);
                    assert(flags.drop_last() =~= old_flags);
                    assert forall|j: int| 0 <= j < i + 1 implies keep.ensures((&items@.take(i + 1)[j],), Ok(#[trigger] flags[j])) by {
                        if j < i {
                            assert(items@.take(i + 1)[j] == before[j]);
                        }
                    }
                }
            },
            Err(e) => {
                proof {
                    assert forall|j: int| 0 <= j < i implies #[trigger] gives_ok(*keep, items@[j]) by {
                        assert(before[j] == items@[j]);
                        assert(keep.ensures((&before[j],), Ok(flags[j])));
                    }
                    assert(succeeded_on(*keep, items@, i as int));
                }
                return Err(e);
            },
        }
        i = i + 1;
    }
    assert(items@.take(items@.len() as int) =~= items@);
    Ok(v)
}

/// `fold`: `f` applied to the accumulator and each item in turn, from `init`.
pub fn fold_items<T, A, F: Fn(A, &T) -> Result<A, RuntimeError>>(items: &Vec<T>, init: A, f: &F) -> (r: Result<A, RuntimeError>)
    requires
        forall|a: A, i: int| 0 <= i < items@.len() ==> f.requires((a, &items@[i])),
    ensures
        fold_gives(r, *f, init, items@),
{
    let ghost mut accs: Seq<A> = seq![init];
    let mut acc = init;
    let mut i: usize = 0;
    while i < items.len()
        invariant
            i <= items@.len(),
            forall|a: A, j: int| 0 <= j < items@.len() ==> f.requires((a, &items@[j])),
            fold_trace(*f, init, items@, accs),
            accs.len() == i + 1,
            accs.last() == acc,
        decreases items@.len() - i,
    {
        match f(acc, &items[i]) {
            Ok(next) => {
                proof {
                    let old_accs = accs;
                    accs = accs.push(next);
                    assert forall|j: int| 0 <= j < accs.len() - 1 implies f.ensures((accs[j], &items@[j]), Ok(#[trigger] accs[j + 1])) by {
                        if j < old_accs.len() - 1 {
                            assert(accs[j] == old_accs[j] && accs[j + 1] == old_accs[j + 1]);
                        }
                    }
                }
                acc = next;
            },
            Err(e) => {
                proof {
                    assert(fold_trace(*f, init, items@, accs));
                }
                return Err(e);
            },
        }
        i = i + 1;
    }
    proof {
        assert(fold_trace(*f, init, items@, accs));
    }
    Ok(acc)
}

} // verus!
