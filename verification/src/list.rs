//! Decoding a list item by item, where the first item that fails decides the
//! outcome.

use vstd::prelude::*;
use crate::error::ErrorView;

verus! {

/// Decodes every item of `items` with `f`, in order.  The result is the list
/// of the decoded items, or the error of the first item that `f` rejects.
pub open spec fn decode_all<T>(
    items: Seq<Seq<char>>,
    f: spec_fn(Seq<char>) -> Result<T, ErrorView>,
) -> Result<Seq<T>, ErrorView>
    decreases items.len(),
{
    if items.len() == 0 {
        Ok(Seq::empty())
    } else {
        match decode_all(items.drop_last(), f) {
            Err(e) => Err(e),
            Ok(done) => match f(items.last()) {
                Err(e) => Err(e),
                Ok(x) => Ok(done.push(x)),
            },
        }
    }
}

/// Decoding one more item: the outcome of the first `i + 1` items in terms of
/// the outcome of the first `i`.
pub proof fn lemma_decode_all_step<T>(
    items: Seq<Seq<char>>,
    f: spec_fn(Seq<char>) -> Result<T, ErrorView>,
    i: int,
)
    requires
        0 <= i < items.len(),
    ensures
        decode_all(items.take(i + 1), f) == match decode_all(items.take(i), f) {
            Err(e) => Err(e),
            Ok(done) => match f(items[i]) {
                Err(e) => Err(e),
                Ok(x) => Ok(done.push(x)),
            },
        },
{
    assert(items.take(i + 1).drop_last() =~= items.take(i));
}

/// An error among the first `k` items is the error of the whole list.
pub proof fn lemma_decode_all_error<T>(
    items: Seq<Seq<char>>,
    f: spec_fn(Seq<char>) -> Result<T, ErrorView>,
    k: int,
)
    requires
        0 <= k <= items.len(),
        decode_all(items.take(k), f) is Err,
    ensures
        decode_all(items, f) == decode_all(items.take(k), f),
    decreases items.len() - k,
{
    if k == items.len() {
        assert(items.take(k) =~= items);
    } else {
        lemma_decode_all_step(items, f, k);
        lemma_decode_all_error(items, f, k + 1);
    }
}

/// What decoding a list comes to, item by item: it succeeds exactly when
/// every item decodes, and then gives the decoded items in order; it fails
/// with the error of the first item that does not decode.
pub proof fn lemma_decode_all_items<T>(
    items: Seq<Seq<char>>,
    f: spec_fn(Seq<char>) -> Result<T, ErrorView>,
)
    ensures
        decode_all(items, f) is Ok <==> forall|i: int|
            0 <= i < items.len() ==> (#[trigger] f(items[i])) is Ok,
        decode_all(items, f) matches Ok(xs) ==> xs.len() == items.len() && forall|i: int|
            0 <= i < items.len() ==> f(items[i]) == Ok::<T, ErrorView>(#[trigger] xs[i]),
        decode_all(items, f) matches Err(e) ==> exists|k: int|
            0 <= k < items.len() && #[trigger] f(items[k]) == Err::<T, ErrorView>(e) && forall|
                i: int,
            | 0 <= i < k ==> (#[trigger] f(items[i])) is Ok,
    decreases items.len(),
{
    if items.len() > 0 {
        let front = items.drop_last();
        lemma_decode_all_items(front, f);
        assert forall|i: int| 0 <= i < front.len() implies front[i] == items[i] by {}
        match decode_all(front, f) {
            Err(e) => {
                let k = choose|k: int|
                    0 <= k < front.len() && #[trigger] f(front[k]) == Err::<T, ErrorView>(e)
                        && forall|i: int| 0 <= i < k ==> (#[trigger] f(front[i])) is Ok;
                assert(f(items[k]) == Err::<T, ErrorView>(e));
                assert forall|i: int| 0 <= i < k implies (#[trigger] f(items[i])) is Ok by {
                    assert(f(front[i]) is Ok);
                }
            },
            Ok(done) => {
                assert forall|i: int| 0 <= i < front.len() implies (#[trigger] f(items[i])) is Ok by {
                    assert(f(front[i]) is Ok);
                }
                match f(items.last()) {
                    Err(e) => {
                        let k = items.len() - 1;
                        assert(f(items[k]) == Err::<T, ErrorView>(e));
                    },
                    Ok(x) => {
                        let xs = done.push(x);
                        assert forall|i: int| 0 <= i < items.len() implies f(items[i]) == Ok::<
                            T,
                            ErrorView,
                        >(#[trigger] xs[i]) by {
                            if i < front.len() {
                                assert(f(front[i]) == Ok::<T, ErrorView>(done[i]));
                            }
                        }
                    },
                }
            },
        }
    }
}

} // verus!
