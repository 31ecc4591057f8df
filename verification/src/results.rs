use crate::error::GenError;
use vstd::prelude::*;

verus! {

/// The text of a result, where there is one.
pub open spec fn chars_result(r: Result<String, GenError>) -> Result<Seq<char>, GenError> {
    match r {
        Ok(text) => Ok(text@),
        Err(e) => Err(e),
    }
}

/// The texts that `each` gives for the items, one after the other; where it fails for some
/// item, the error of the first such item.
pub open spec fn append_all<A>(
    items: Seq<A>,
    each: spec_fn(A) -> Result<Seq<char>, GenError>,
) -> Result<Seq<char>, GenError>
    decreases items.len(),
{
    if items.len() == 0 {
        Ok(Seq::empty())
    } else {
        match append_all(items.drop_last(), each) {
            Err(e) => Err(e),
            Ok(init) => match each(items.last()) {
                Err(e) => Err(e),
                Ok(text) => Ok(init + text),
            },
        }
    }
}

/// What one more item adds to the texts of those before it.
pub proof fn lemma_append_all_step<A>(
    items: Seq<A>,
    each: spec_fn(A) -> Result<Seq<char>, GenError>,
    i: int,
)
    requires
        0 <= i < items.len(),
    ensures
        append_all(items.take(i + 1), each) == (match append_all(items.take(i), each) {
            Err(e) => Err(e),
            Ok(init) => match each(items[i]) {
                Err(e) => Err(e),
                Ok(text) => Ok(init + text),
            },
        }),
{
    assert(items.take(i + 1).drop_last() =~= items.take(i));
    assert(items.take(i + 1).last() == items[i]);
}

/// An error among the first items is the error of the whole.
pub proof fn lemma_append_all_error<A>(
    items: Seq<A>,
    each: spec_fn(A) -> Result<Seq<char>, GenError>,
    i: int,
)
    requires
        0 <= i <= items.len(),
        append_all(items.take(i), each) is Err,
    ensures
        append_all(items, each) == append_all(items.take(i), each),
    decreases items.len() - i,
{
    if i == items.len() {
        assert(items.take(i) =~= items);
    } else {
        lemma_append_all_step(items, each, i);
        lemma_append_all_error(items, each, i + 1);
    }
}

/// The texts of all items are those of the first `items.len()` of them.
pub proof fn lemma_append_all_whole<A>(
    items: Seq<A>,
    each: spec_fn(A) -> Result<Seq<char>, GenError>,
)
    ensures
        append_all(items.take(items.len() as int), each) == append_all(items, each),
{
    assert(items.take(items.len() as int) =~= items);
}

/// What an item put behind the others adds to their texts.
pub proof fn lemma_append_all_push<A>(
    items: Seq<A>,
    each: spec_fn(A) -> Result<Seq<char>, GenError>,
    last: A,
)
    ensures
        append_all(items.push(last), each) == (match append_all(items, each) {
            Err(e) => Err(e),
            Ok(init) => match each(last) {
                Err(e) => Err(e),
                Ok(text) => Ok(init + text),
            },
        }),
{
    assert(items.push(last).drop_last() =~= items);
}

/// The texts that `each` gives for the items, with `sep` between each two; where it fails
/// for some item, the error of the first such item.
pub open spec fn join_all<A>(
    items: Seq<A>,
    sep: Seq<char>,
    each: spec_fn(A) -> Result<Seq<char>, GenError>,
) -> Result<Seq<char>, GenError>
    decreases items.len(),
{
    if items.len() == 0 {
        Ok(Seq::empty())
    } else {
        match join_all(items.drop_last(), sep, each) {
            Err(e) => Err(e),
            Ok(init) => match each(items.last()) {
                Err(e) => Err(e),
                Ok(text) => Ok(
                    if items.len() == 1 {
                        text
                    } else {
                        init + sep + text
                    },
                ),
            },
        }
    }
}

/// What one more item adds to the joined texts of those before it.
pub proof fn lemma_join_all_step<A>(
    items: Seq<A>,
    sep: Seq<char>,
    each: spec_fn(A) -> Result<Seq<char>, GenError>,
    i: int,
)
    requires
        0 <= i < items.len(),
    ensures
        join_all(items.take(i + 1), sep, each) == (match join_all(items.take(i), sep, each) {
            Err(e) => Err(e),
            Ok(init) => match each(items[i]) {
                Err(e) => Err(e),
                Ok(text) => Ok(
                    if i == 0 {
                        text
                    } else {
                        init + sep + text
                    },
                ),
            },
        }),
{
    assert(items.take(i + 1).drop_last() =~= items.take(i));
    assert(items.take(i + 1).last() == items[i]);
}

/// An error among the first items is the error of the whole.
pub proof fn lemma_join_all_error<A>(
    items: Seq<A>,
    sep: Seq<char>,
    each: spec_fn(A) -> Result<Seq<char>, GenError>,
    i: int,
)
    requires
        0 <= i <= items.len(),
        join_all(items.take(i), sep, each) is Err,
    ensures
        join_all(items, sep, each) == join_all(items.take(i), sep, each),
    decreases items.len() - i,
{
    if i == items.len() {
        assert(items.take(i) =~= items);
    } else {
        lemma_join_all_step(items, sep, each, i);
        lemma_join_all_error(items, sep, each, i + 1);
    }
}

/// What one more item adds to the texts of those chosen by `pred` before it.
pub proof fn lemma_append_chosen_step<A>(
    items: Seq<A>,
    pred: spec_fn(A) -> bool,
    each: spec_fn(A) -> Result<Seq<char>, GenError>,
    i: int,
)
    requires
        0 <= i < items.len(),
    ensures
        append_all(items.take(i + 1).filter(pred), each) == (if pred(items[i]) {
            match append_all(items.take(i).filter(pred), each) {
                Err(e) => Err(e),
                Ok(init) => match each(items[i]) {
                    Err(e) => Err(e),
                    Ok(text) => Ok(init + text),
                },
            }
        } else {
            append_all(items.take(i).filter(pred), each)
        }),
{
    assert(items.take(i + 1) =~= items.take(i).push(items[i]));
    items.take(i).lemma_filter_push(items[i], pred);
    lemma_append_all_push(items.take(i).filter(pred), each, items[i]);
}

/// An error among the first chosen items is the error of the whole.
pub proof fn lemma_append_chosen_error<A>(
    items: Seq<A>,
    pred: spec_fn(A) -> bool,
    each: spec_fn(A) -> Result<Seq<char>, GenError>,
    i: int,
)
    requires
        0 <= i <= items.len(),
        append_all(items.take(i).filter(pred), each) is Err,
    ensures
        append_all(items.filter(pred), each) == append_all(items.take(i).filter(pred), each),
    decreases items.len() - i,
{
    if i == items.len() {
        assert(items.take(i) =~= items);
    } else {
        lemma_append_chosen_step(items, pred, each, i);
        lemma_append_chosen_error(items, pred, each, i + 1);
    }
}

/// The texts of the items are had where, and only where, `each` gives a text for every one
/// of them; and an error of the whole is the error of one of the items.
pub proof fn lemma_append_all_ok<A>(
    items: Seq<A>,
    each: spec_fn(A) -> Result<Seq<char>, GenError>,
)
    ensures
        append_all(items, each) is Ok <==> forall|i: int|
            0 <= i < items.len() ==> (#[trigger] each(items[i])) is Ok,
        append_all(items, each) matches Err(e) ==> exists|i: int|
            0 <= i < items.len() && #[trigger] each(items[i]) == Err::<Seq<char>, GenError>(e),
    decreases items.len(),
{
    if items.len() > 0 {
        let init = items.drop_last();
        lemma_append_all_ok(init, each);
        assert forall|i: int| 0 <= i < init.len() implies init[i] == items[i] by {}
        if append_all(init, each) is Ok {
            if each(items.last()) is Ok {
                assert forall|i: int| 0 <= i < items.len() implies (#[trigger] each(
                    items[i],
                )) is Ok by {
                    if i < init.len() {
                        assert(each(init[i]) is Ok);
                    }
                }
            } else {
                assert(each(items[items.len() - 1]) is Err);
            }
        } else {
            let e = append_all(init, each)->Err_0;
            let at = choose|i: int|
                0 <= i < init.len() && #[trigger] each(init[i]) == Err::<Seq<char>, GenError>(e);
            assert(each(items[at]) == Err::<Seq<char>, GenError>(e));
        }
    }
}

} // verus!
