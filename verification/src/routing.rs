//! Results that came back in batches, put into the order in which they were asked for.

use crate::error::{internal, BeadsError, ErrorModel};
use crate::text::{same_text, text2, text3, texts};
use vstd::multiset::Multiset;
use vstd::prelude::*;
use vstd::string::*;

verus! {

broadcast use vstd::string::group_string_axioms;

/// The first position that asks for `input` and has no result yet, or the number of
/// positions where there is none.
pub open spec fn free_position<T>(
    requested: Seq<Seq<char>>,
    slots: Seq<Option<T>>,
    input: Seq<char>,
    from: nat,
) -> int
    decreases requested.len() - from,
{
    if from >= requested.len() {
        requested.len() as int
    } else if requested[from as int] == input && slots[from as int] is None {
        from as int
    } else {
        free_position(requested, slots, input, from + 1)
    }
}

/// The results of one batch put into place, from item `from` on.
pub open spec fn batch_placed<T>(
    requested: Seq<Seq<char>>,
    slots: Seq<Option<T>>,
    inputs: Seq<Seq<char>>,
    items: Seq<T>,
    from: nat,
    context: Seq<char>,
) -> Result<Seq<Option<T>>, ErrorModel>
    decreases items.len() - from,
{
    if from >= items.len() {
        Ok(slots)
    } else {
        let at = free_position(requested, slots, inputs[from as int], 0);
        if at >= requested.len() {
            Err(
                ErrorModel::Internal(
                    context + " returned unexpected issue input "@ + inputs[from as int],
                ),
            )
        } else {
            batch_placed(
                requested,
                slots.update(at, Some(items[from as int])),
                inputs,
                items,
                from + 1,
                context,
            )
        }
    }
}

/// The results of all batches put into place, from batch `from` on.
pub open spec fn batches_placed<T>(
    requested: Seq<Seq<char>>,
    slots: Seq<Option<T>>,
    batches: Seq<(Seq<Seq<char>>, Seq<T>)>,
    from: nat,
    context: Seq<char>,
) -> Result<Seq<Option<T>>, ErrorModel>
    decreases batches.len() - from,
{
    if from >= batches.len() {
        Ok(slots)
    } else {
        let (inputs, items) = batches[from as int];
        if inputs.len() != items.len() {
            Err(ErrorModel::Internal(context + " produced mismatched issue/result counts"@))
        } else {
            match batch_placed(requested, slots, inputs, items, 0, context) {
                Err(e) => Err(e),
                Ok(next) => batches_placed(requested, next, batches, from + 1, context),
            }
        }
    }
}

/// The results of the positions, where every position has one.
pub open spec fn all_filled<T>(
    requested: Seq<Seq<char>>,
    slots: Seq<Option<T>>,
    from: nat,
    context: Seq<char>,
) -> Result<(), ErrorModel>
    decreases slots.len() - from,
{
    if from >= slots.len() {
        Ok(())
    } else if slots[from as int] is None {
        Err(
            ErrorModel::Internal(
                context + " did not produce a result for "@ + requested[from as int],
            ),
        )
    } else {
        all_filled(requested, slots, from + 1, context)
    }
}

/// As many empty positions as were asked for.
pub open spec fn empty_slots<T>(n: nat) -> Seq<Option<T>> {
    Seq::new(n, |i: int| None)
}

/// The batches, with their inputs as texts.
pub open spec fn batch_texts<T>(batches: Seq<(Vec<String>, Vec<T>)>) -> Seq<
    (Seq<Seq<char>>, Seq<T>),
> {
    batches.map_values(|b: (Vec<String>, Vec<T>)| (texts(b.0@), b.1@))
}

/// The results in the order in which they were asked for, or what was wrong with them.
pub open spec fn reordered<T>(
    requested: Seq<Seq<char>>,
    batches: Seq<(Seq<Seq<char>>, Seq<T>)>,
    context: Seq<char>,
) -> Result<Seq<T>, ErrorModel> {
    match batches_placed(requested, empty_slots(requested.len()), batches, 0, context) {
        Err(e) => Err(e),
        Ok(slots) => match all_filled(requested, slots, 0, context) {
            Err(e) => Err(e),
            Ok(()) => Ok(slots.map_values(|s: Option<T>| s->0)),
        },
    }
}

/// The items, or what the error says.
pub open spec fn items_or_error<T>(r: Result<Vec<T>, BeadsError>) -> Result<Seq<T>, ErrorModel> {
    match r {
        Ok(v) => Ok(v@),
        Err(e) => Err(e.model()),
    }
}

fn find_free<T>(requested: &Vec<String>, slots: &Vec<Option<T>>, input: &str) -> (r: usize)
    requires
        slots@.len() == requested@.len(),
    ensures
        r == free_position(texts(requested@), slots@, input@, 0),
        r <= requested@.len(),
        r < requested@.len() ==> slots@[r as int] is None,
{
    let ghost all = texts(requested@);
    let mut i: usize = 0;
    while i < requested.len()
        invariant
            i <= requested@.len(),
            all == texts(requested@),
            slots@.len() == requested@.len(),
            free_position(all, slots@, input@, 0) == free_position(all, slots@, input@, i as nat),
        decreases requested@.len() - i,
    {
        assert(all[i as int] == requested@[i as int]@);
        if slots[i].is_none() && same_text(requested[i].as_str(), input) {
            return i;
        }
        i += 1;
    }
    i
}

fn place_batch<T>(
    requested: &Vec<String>,
    slots: &mut Vec<Option<T>>,
    inputs: Vec<String>,
    items: Vec<T>,
    context: &str,
) -> (r: Result<(), BeadsError>)
    requires
        old(slots)@.len() == requested@.len(),
        inputs@.len() == items@.len(),
    ensures
        final(slots)@.len() == requested@.len(),
        match batch_placed(texts(requested@), old(slots)@, texts(inputs@), items@, 0, context@) {
            Ok(next) => r is Ok && final(slots)@ == next,
            Err(e) => r is Err && r->Err_0.model() == e,
        },
{
    let ghost all = texts(requested@);
    let ghost names = texts(inputs@);
    let ghost start = slots@;
    let ghost goal = batch_placed(all, start, names, items@, 0, context@);
    let ghost given = items@;
    let total: usize = inputs.len();
    let mut i: usize = 0;
    for item in it: items
        invariant
            it.seq() == given,
            given == items@,
            start == old(slots)@,
            i == it.index(),
            total == inputs@.len() == given.len(),
            goal == batch_placed(all, start, names, given, 0, context@),
            slots@.len() == requested@.len(),
            all == texts(requested@),
            names == texts(inputs@),
            goal == batch_placed(all, slots@, names, given, it.index() as nat, context@),
    {
        assert(names[i as int] == inputs@[i as int]@);
        let at = find_free(requested, slots, inputs[i].as_str());
        if at >= requested.len() {
            return Err(
                internal(
                    text3(
                        context,
                        " returned unexpected issue input ",
                        inputs[i].as_str(),
                    ),
                ),
            );
        }
        slots.set(at, Some(item));
        i += 1;
    }
    Ok(())
}

/// The results of the batches, in the order of the requested inputs. An input that was
/// requested several times gets its results in the order in which they came.
pub fn reorder_routed_items_by_requested_inputs<T>(
    requested_inputs: &Vec<String>,
    routed_items: Vec<(Vec<String>, Vec<T>)>,
    context: &str,
) -> (r: Result<Vec<T>, BeadsError>)
    ensures
        items_or_error(r) == reordered(
            texts(requested_inputs@),
            batch_texts(routed_items@),
            context@,
        ),
{
    let ghost all = texts(requested_inputs@);
    let ghost batches = batch_texts(routed_items@);
    let ghost given = routed_items@;
    let mut slots: Vec<Option<T>> = Vec::new();
    let mut n: usize = 0;
    while n < requested_inputs.len()
        invariant
            n <= requested_inputs@.len(),
            slots@ == empty_slots::<T>(n as nat),
        decreases requested_inputs@.len() - n,
    {
        slots.push(None);
        n += 1;
        assert(slots@ =~= empty_slots::<T>(n as nat));
    }
    let ghost goal = batches_placed(all, slots@, batches, 0, context@);
    assert(all.len() == requested_inputs@.len());
    for batch in it: routed_items
        invariant
            it.seq() == given,
            given == routed_items@,
            all == texts(requested_inputs@),
            batches == batch_texts(given),
            slots@.len() == requested_inputs@.len(),
            goal == batches_placed(all, slots@, batches, it.index() as nat, context@),
            goal == batches_placed(
                all,
                empty_slots::<T>(requested_inputs@.len()),
                batches,
                0,
                context@,
            ),
    {
        let (inputs, items) = batch;
        assert(batches[it.index() as int] == (texts(inputs@), items@));
        assert(texts(inputs@).len() == inputs@.len());
        if inputs.len() != items.len() {
            return Err(
                internal(text2(context, " produced mismatched issue/result counts")),
            );
        }
        if let Err(e) = place_batch(requested_inputs, &mut slots, inputs, items, context) {
            return Err(e);
        }
    }
    let ghost filled = slots@;
    assert(goal == Ok::<Seq<Option<T>>, ErrorModel>(filled));
    let total: usize = requested_inputs.len();
    let mut out: Vec<T> = Vec::new();
    let mut k: usize = 0;
    for slot in it: slots
        invariant
            it.seq() == filled,
            given == routed_items@,
            k == it.index(),
            total == filled.len() == requested_inputs@.len(),
            all == texts(requested_inputs@),
            goal == Ok::<Seq<Option<T>>, ErrorModel>(filled),
            goal == batches_placed(
                all,
                empty_slots::<T>(requested_inputs@.len()),
                batches,
                0,
                context@,
            ),
            batches == batch_texts(given),
            all_filled(all, filled, 0, context@) == all_filled(all, filled, k as nat, context@),
            out@ == filled.take(k as int).map_values(|s: Option<T>| s->0),
    {
        match slot {
            Some(item) => {
                let ghost before = out@;
                out.push(item);
                assert(out@ =~= filled.take(k + 1).map_values(|s: Option<T>| s->0));
            },
            None => {
                assert(all[k as int] == requested_inputs@[k as int]@);
                return Err(
                    internal(
                        text3(
                            context,
                            " did not produce a result for ",
                            requested_inputs[k].as_str(),
                        ),
                    ),
                );
            },
        }
        k += 1;
    }
    assert(filled.take(filled.len() as int) =~= filled);
    Ok(out)
}

proof fn lemma_free_position<T>(
    requested: Seq<Seq<char>>,
    slots: Seq<Option<T>>,
    input: Seq<char>,
    from: nat,
)
    requires
        from <= requested.len(),
    ensures
        from <= free_position(requested, slots, input, from) <= requested.len(),
        free_position(requested, slots, input, from) < requested.len() ==> requested[free_position(
            requested,
            slots,
            input,
            from,
        )] == input && slots[free_position(requested, slots, input, from)] is None,
    decreases requested.len() - from,
{
    if from < requested.len() && !(requested[from as int] == input && slots[from as int] is None) {
        lemma_free_position(requested, slots, input, from + 1);
    }
}

/// The item is a result that some batch gave for this input.
pub open spec fn came_for<T>(
    batches: Seq<(Seq<Seq<char>>, Seq<T>)>,
    input: Seq<char>,
    item: T,
) -> bool {
    exists|b: int, j: int|
        0 <= b < batches.len() && 0 <= j < (#[trigger] batches[b]).0.len() && 0 <= j
            < batches[b].1.len() && #[trigger] batches[b].0[j] == input && batches[b].1[j] == item
}

/// Every result in place came for the input of its position.
spec fn rightly_placed<T>(
    requested: Seq<Seq<char>>,
    slots: Seq<Option<T>>,
    batches: Seq<(Seq<Seq<char>>, Seq<T>)>,
) -> bool {
    slots.len() == requested.len() && forall|k: int|
        0 <= k < slots.len() && (#[trigger] slots[k]) is Some ==> came_for(
            batches,
            requested[k],
            slots[k]->0,
        )
}

/// How many positions have a result.
pub open spec fn filled_count<T>(slots: Seq<Option<T>>) -> nat
    decreases slots.len(),
{
    if slots.len() == 0 {
        0
    } else {
        filled_count(slots.drop_last()) + (if slots.last() is Some {
            1nat
        } else {
            0nat
        })
    }
}

proof fn lemma_fill_one<T>(slots: Seq<Option<T>>, at: int, item: T)
    requires
        0 <= at < slots.len(),
        slots[at] is None,
    ensures
        filled_count(slots.update(at, Some(item))) == filled_count(slots) + 1,
    decreases slots.len(),
{
    let next = slots.update(at, Some(item));
    if at == slots.len() - 1 {
        assert(next.drop_last() =~= slots.drop_last());
    } else {
        assert(next.drop_last() =~= slots.drop_last().update(at, Some(item)));
        lemma_fill_one(slots.drop_last(), at, item);
    }
}

proof fn lemma_batch_rightly_placed<T>(
    requested: Seq<Seq<char>>,
    slots: Seq<Option<T>>,
    batches: Seq<(Seq<Seq<char>>, Seq<T>)>,
    b: int,
    from: nat,
    context: Seq<char>,
)
    requires
        0 <= b < batches.len(),
        batches[b].0.len() == batches[b].1.len(),
        from <= batches[b].1.len(),
        rightly_placed(requested, slots, batches),
        batch_placed(requested, slots, batches[b].0, batches[b].1, from, context) is Ok,
    ensures
        ({
            let next = batch_placed(
                requested,
                slots,
                batches[b].0,
                batches[b].1,
                from,
                context,
            )->Ok_0;
            &&& rightly_placed(requested, next, batches)
            &&& filled_count(next) == filled_count(slots) + (batches[b].1.len() - from)
        }),
    decreases batches[b].1.len() - from,
{
    let (inputs, items) = batches[b];
    if from < items.len() {
        let at = free_position(requested, slots, inputs[from as int], 0);
        lemma_free_position(requested, slots, inputs[from as int], 0);
        let next = slots.update(at, Some(items[from as int]));
        assert(batches[b].0[from as int] == inputs[from as int]);
        assert(came_for(batches, requested[at], items[from as int]));
        lemma_fill_one(slots, at, items[from as int]);
        lemma_batch_rightly_placed(requested, next, batches, b, from + 1, context);
    }
}

/// The number of results in the batches from `from` on.
pub open spec fn result_count<T>(batches: Seq<(Seq<Seq<char>>, Seq<T>)>, from: nat) -> nat
    decreases batches.len() - from,
{
    if from >= batches.len() {
        0
    } else {
        batches[from as int].1.len() + result_count(batches, from + 1)
    }
}

proof fn lemma_batches_rightly_placed<T>(
    requested: Seq<Seq<char>>,
    slots: Seq<Option<T>>,
    batches: Seq<(Seq<Seq<char>>, Seq<T>)>,
    from: nat,
    context: Seq<char>,
)
    requires
        from <= batches.len(),
        rightly_placed(requested, slots, batches),
        batches_placed(requested, slots, batches, from, context) is Ok,
    ensures
        ({
            let next = batches_placed(requested, slots, batches, from, context)->Ok_0;
            &&& rightly_placed(requested, next, batches)
            &&& filled_count(next) == filled_count(slots) + result_count(batches, from)
        }),
    decreases batches.len() - from,
{
    if from < batches.len() {
        let (inputs, items) = batches[from as int];
        lemma_batch_rightly_placed(requested, slots, batches, from as int, 0, context);
        let next = batch_placed(requested, slots, inputs, items, 0, context)->Ok_0;
        lemma_batches_rightly_placed(requested, next, batches, from + 1, context);
    }
}

proof fn lemma_all_filled<T>(
    requested: Seq<Seq<char>>,
    slots: Seq<Option<T>>,
    from: nat,
    context: Seq<char>,
)
    requires
        from <= slots.len(),
    ensures
        all_filled(requested, slots, from, context) is Ok <==> forall|k: int|
            from <= k < slots.len() ==> (#[trigger] slots[k]) is Some,
    decreases slots.len() - from,
{
    if from < slots.len() {
        lemma_all_filled(requested, slots, from + 1, context);
    }
}

proof fn lemma_count_full<T>(slots: Seq<Option<T>>)
    ensures
        (forall|k: int| 0 <= k < slots.len() ==> (#[trigger] slots[k]) is Some) ==> filled_count(
            slots,
        ) == slots.len(),
        (forall|k: int| 0 <= k < slots.len() ==> (#[trigger] slots[k]) is None) ==> filled_count(
            slots,
        ) == 0,
    decreases slots.len(),
{
    if slots.len() > 0 {
        let init = slots.drop_last();
        lemma_count_full(init);
        if forall|k: int| 0 <= k < slots.len() ==> (#[trigger] slots[k]) is Some {
            assert forall|k: int| 0 <= k < init.len() implies (#[trigger] init[k]) is Some by {
                assert(init[k] == slots[k]);
            }
        }
        if forall|k: int| 0 <= k < slots.len() ==> (#[trigger] slots[k]) is None {
            assert forall|k: int| 0 <= k < init.len() implies (#[trigger] init[k]) is None by {
                assert(init[k] == slots[k]);
            }
        }
    }
}

/// Where the results can be put in order, every position holds a result that came for its
/// input, and there are as many results as positions.
pub proof fn law_results_stand_where_asked<T>(
    requested: Seq<Seq<char>>,
    batches: Seq<(Seq<Seq<char>>, Seq<T>)>,
    context: Seq<char>,
)
    requires
        reordered(requested, batches, context) is Ok,
    ensures
        ({
            let out = reordered(requested, batches, context)->Ok_0;
            &&& out.len() == requested.len()
            &&& result_count(batches, 0) == requested.len()
            &&& forall|k: int|
                0 <= k < out.len() ==> came_for(batches, requested[k], #[trigger] out[k])
        }),
{
    let empty = empty_slots::<T>(requested.len());
    let slots = batches_placed(requested, empty, batches, 0, context)->Ok_0;
    assert(rightly_placed(requested, empty, batches));
    lemma_batches_rightly_placed(requested, empty, batches, 0, context);
    lemma_all_filled(requested, slots, 0, context);
    lemma_count_full(slots);
    lemma_count_full(empty);
    let out = slots.map_values(|s: Option<T>| s->0);
    assert forall|k: int| 0 <= k < out.len() implies came_for(
        batches,
        requested[k],
        #[trigger] out[k],
    ) by {
        assert(slots[k] is Some);
    }
}

/// How often a text stands in a list.
pub open spec fn times(texts: Seq<Seq<char>>, x: Seq<char>) -> nat
    decreases texts.len(),
{
    if texts.len() == 0 {
        0
    } else {
        times(texts.drop_last(), x) + (if texts.last() == x {
            1nat
        } else {
            0nat
        })
    }
}

/// How many positions ask for `x` and have no result yet.
spec fn open_times<T>(requested: Seq<Seq<char>>, slots: Seq<Option<T>>, x: Seq<char>) -> nat
    decreases slots.len(),
{
    if slots.len() == 0 {
        0
    } else {
        open_times(requested, slots.drop_last(), x) + (if slots.last() is None
            && requested[slots.len() - 1] == x {
            1nat
        } else {
            0nat
        })
    }
}

/// The inputs of the batches, end to end, from batch `from` on.
pub open spec fn answered_inputs<T>(batches: Seq<(Seq<Seq<char>>, Seq<T>)>, from: nat) -> Seq<
    Seq<char>,
>
    decreases batches.len() - from,
{
    if from >= batches.len() {
        Seq::empty()
    } else {
        batches[from as int].0 + answered_inputs(batches, from + 1)
    }
}

/// Every batch, from batch `from` on, has as many items as inputs.
pub open spec fn counts_match<T>(batches: Seq<(Seq<Seq<char>>, Seq<T>)>, from: nat) -> bool {
    forall|b: int|
        from <= b < batches.len() ==> (#[trigger] batches[b]).0.len() == batches[b].1.len()
}

proof fn lemma_times_concat(a: Seq<Seq<char>>, b: Seq<Seq<char>>, x: Seq<char>)
    ensures
        times(a + b, x) == times(a, x) + times(b, x),
    decreases b.len(),
{
    if b.len() == 0 {
        assert(a + b =~= a);
    } else {
        assert((a + b).drop_last() =~= a + b.drop_last());
        lemma_times_concat(a, b.drop_last(), x);
    }
}

proof fn lemma_open_fill<T>(
    requested: Seq<Seq<char>>,
    slots: Seq<Option<T>>,
    at: int,
    item: T,
    x: Seq<char>,
)
    requires
        0 <= at < slots.len() <= requested.len(),
        slots[at] is None,
    ensures
        open_times(requested, slots, x) == open_times(requested, slots.update(at, Some(item)), x)
            + (if requested[at] == x {
            1nat
        } else {
            0nat
        }),
    decreases slots.len(),
{
    let next = slots.update(at, Some(item));
    if at == slots.len() - 1 {
        assert(next.drop_last() =~= slots.drop_last());
    } else {
        assert(next.drop_last() =~= slots.drop_last().update(at, Some(item)));
        lemma_open_fill(requested, slots.drop_last(), at, item, x);
    }
}

proof fn lemma_none_free<T>(
    requested: Seq<Seq<char>>,
    slots: Seq<Option<T>>,
    input: Seq<char>,
    from: nat,
    k: int,
)
    requires
        free_position(requested, slots, input, from) >= requested.len(),
        from <= k < requested.len(),
    ensures
        !(requested[k] == input && slots[k] is None),
    decreases requested.len() - from,
{
    lemma_free_position(requested, slots, input, from);
    if k > from {
        lemma_none_free(requested, slots, input, from + 1, k);
    }
}

proof fn lemma_open_zero<T>(requested: Seq<Seq<char>>, slots: Seq<Option<T>>, x: Seq<char>)
    requires
        slots.len() <= requested.len(),
        forall|k: int|
            0 <= k < slots.len() ==> !(requested[k] == x && (#[trigger] slots[k]) is None),
    ensures
        open_times(requested, slots, x) == 0,
    decreases slots.len(),
{
    if slots.len() > 0 {
        let head = slots.drop_last();
        assert forall|k: int| 0 <= k < head.len() implies !(requested[k] == x && (
        #[trigger] head[k]) is None) by {
            assert(head[k] == slots[k]);
        }
        lemma_open_zero(requested, head, x);
        assert(slots[slots.len() - 1] == slots.last());
    }
}

proof fn lemma_open_some<T>(
    requested: Seq<Seq<char>>,
    slots: Seq<Option<T>>,
    at: int,
    x: Seq<char>,
)
    requires
        0 <= at < slots.len() <= requested.len(),
        requested[at] == x,
        slots[at] is None,
    ensures
        open_times(requested, slots, x) > 0,
    decreases slots.len(),
{
    if at < slots.len() - 1 {
        lemma_open_some(requested, slots.drop_last(), at, x);
    }
}

/// The state `later` has room for what `given` took from `earlier`.
spec fn took<T>(
    requested: Seq<Seq<char>>,
    earlier: Seq<Option<T>>,
    given: Seq<Seq<char>>,
    later: Seq<Option<T>>,
) -> bool {
    later.len() == earlier.len() && forall|x: Seq<char>|
        #[trigger] open_times(requested, earlier, x) == open_times(requested, later, x) + times(
            given,
            x,
        )
}

/// There is room for what is given.
spec fn room_for<T>(
    requested: Seq<Seq<char>>,
    slots: Seq<Option<T>>,
    given: Seq<Seq<char>>,
) -> bool {
    forall|x: Seq<char>| times(given, x) <= #[trigger] open_times(requested, slots, x)
}

proof fn lemma_batch_takes<T>(
    requested: Seq<Seq<char>>,
    slots: Seq<Option<T>>,
    inputs: Seq<Seq<char>>,
    items: Seq<T>,
    from: nat,
    context: Seq<char>,
)
    requires
        slots.len() == requested.len(),
        inputs.len() == items.len(),
        from <= items.len(),
    ensures
        ({
            let placed = batch_placed(requested, slots, inputs, items, from, context);
            let rest = inputs.skip(from as int);
            &&& placed is Ok <==> room_for(requested, slots, rest)
            &&& placed is Ok ==> took(requested, slots, rest, placed->Ok_0)
        }),
    decreases items.len() - from,
{
    let rest = inputs.skip(from as int);
    if from >= items.len() {
        assert(rest =~= Seq::<Seq<char>>::empty());
    } else {
        let input = inputs[from as int];
        let at = free_position(requested, slots, input, 0);
        let more = inputs.skip((from + 1) as int);
        assert(rest =~= seq![input] + more);
        assert forall|x: Seq<char>| #[trigger] times(rest, x) == times(more, x) + (if input == x {
            1nat
        } else {
            0nat
        }) by {
            lemma_times_concat(seq![input], more, x);
            assert(seq![input].drop_last() =~= Seq::<Seq<char>>::empty());
            assert(times(seq![input].drop_last(), x) == 0);
        }
        lemma_free_position(requested, slots, input, 0);
        if at >= requested.len() {
            assert forall|k: int| 0 <= k < slots.len() implies !(requested[k] == input && (
            #[trigger] slots[k]) is None) by {
                lemma_none_free(requested, slots, input, 0, k);
            }
            lemma_open_zero(requested, slots, input);
            assert(times(rest, input) > open_times(requested, slots, input));
        } else {
            let next = slots.update(at, Some(items[from as int]));
            lemma_batch_takes(requested, next, inputs, items, from + 1, context);
            assert forall|x: Seq<char>| #[trigger]
                open_times(requested, slots, x) == open_times(requested, next, x) + (if input == x {
                    1nat
                } else {
                    0nat
                }) by {
                lemma_open_fill(requested, slots, at, items[from as int], x);
            }
            if room_for(requested, next, more) {
                assert forall|x: Seq<char>| times(rest, x) <= #[trigger] open_times(
                    requested,
                    slots,
                    x,
                ) by {
                    assert(times(more, x) <= open_times(requested, next, x));
                }
            }
            if room_for(requested, slots, rest) {
                assert forall|x: Seq<char>| times(more, x) <= #[trigger] open_times(
                    requested,
                    next,
                    x,
                ) by {
                    assert(times(rest, x) <= open_times(requested, slots, x));
                }
            }
        }
    }
}

proof fn lemma_batches_take<T>(
    requested: Seq<Seq<char>>,
    slots: Seq<Option<T>>,
    batches: Seq<(Seq<Seq<char>>, Seq<T>)>,
    from: nat,
    context: Seq<char>,
)
    requires
        slots.len() == requested.len(),
        from <= batches.len(),
    ensures
        ({
            let placed = batches_placed(requested, slots, batches, from, context);
            let rest = answered_inputs(batches, from);
            &&& placed is Ok <==> counts_match(batches, from) && room_for(requested, slots, rest)
            &&& placed is Ok ==> took(requested, slots, rest, placed->Ok_0)
        }),
    decreases batches.len() - from,
{
    let rest = answered_inputs(batches, from);
    if from < batches.len() {
        let (inputs, items) = batches[from as int];
        let more = answered_inputs(batches, from + 1);
        assert forall|x: Seq<char>| #[trigger] times(rest, x) == times(inputs, x) + times(
            more,
            x,
        ) by {
            lemma_times_concat(inputs, more, x);
        }
        if inputs.len() == items.len() {
            lemma_batch_takes(requested, slots, inputs, items, 0, context);
            assert(inputs.skip(0) =~= inputs);
            let placed = batch_placed(requested, slots, inputs, items, 0, context);
            if let Ok(next) = placed {
                lemma_batches_take(requested, next, batches, from + 1, context);
                assert(counts_match(batches, from) == counts_match(batches, from + 1));
                assert forall|x: Seq<char>| #[trigger]
                    open_times(requested, slots, x) == open_times(requested, next, x) + times(
                        inputs,
                        x,
                    ) by {}
                if room_for(requested, next, more) {
                    assert forall|x: Seq<char>| times(rest, x) <= #[trigger] open_times(
                        requested,
                        slots,
                        x,
                    ) by {
                        assert(times(more, x) <= open_times(requested, next, x));
                    }
                }
                if room_for(requested, slots, rest) {
                    assert forall|x: Seq<char>| times(more, x) <= #[trigger] open_times(
                        requested,
                        next,
                        x,
                    ) by {
                        assert(times(rest, x) <= open_times(requested, slots, x));
                    }
                }
            } else {
                if room_for(requested, slots, rest) {
                    assert forall|x: Seq<char>| times(inputs, x) <= #[trigger] open_times(
                        requested,
                        slots,
                        x,
                    ) by {
                        assert(times(rest, x) <= open_times(requested, slots, x));
                    }
                }
            }
        } else {
            assert(!counts_match(batches, from));
        }
    }
}

proof fn lemma_open_at_first<T>(requested: Seq<Seq<char>>, n: nat, x: Seq<char>)
    requires
        n <= requested.len(),
    ensures
        open_times(requested, empty_slots::<T>(n), x) == times(requested.take(n as int), x),
    decreases n,
{
    if n > 0 {
        lemma_open_at_first::<T>(requested, (n - 1) as nat, x);
        assert(empty_slots::<T>(n).drop_last() =~= empty_slots::<T>((n - 1) as nat));
        assert(requested.take(n as int).drop_last() =~= requested.take(n - 1));
    }
}

proof fn lemma_times_is_count(s: Seq<Seq<char>>, x: Seq<char>)
    ensures
        s.to_multiset().count(x) == times(s, x),
    decreases s.len(),
{
    broadcast use vstd::seq_lib::group_to_multiset_ensures;

    if s.len() > 0 {
        lemma_times_is_count(s.drop_last(), x);
        assert(s =~= s.drop_last().push(s.last()));
    } else {
        assert(s =~= Seq::<Seq<char>>::empty());
        assert(s.to_multiset().len() == 0);
    }
}

/// The results can be put in order exactly where every batch has as many results as inputs,
/// and the inputs of the batches are those that were asked for, each as often.
pub proof fn law_order_found_exactly_for_complete_answers<T>(
    requested: Seq<Seq<char>>,
    batches: Seq<(Seq<Seq<char>>, Seq<T>)>,
    context: Seq<char>,
)
    ensures
        reordered(requested, batches, context) is Ok <==> counts_match(batches, 0)
            && requested.to_multiset() == answered_inputs(batches, 0).to_multiset(),
{
    let start = empty_slots::<T>(requested.len());
    let given = answered_inputs(batches, 0);
    let placed = batches_placed(requested, start, batches, 0, context);
    lemma_batches_take(requested, start, batches, 0, context);
    assert(requested.take(requested.len() as int) =~= requested);
    assert forall|x: Seq<char>| #[trigger] open_times(requested, start, x) == times(
        requested,
        x,
    ) by {
        lemma_open_at_first::<T>(requested, requested.len(), x);
    }
    assert forall|x: Seq<char>|
        #[trigger] requested.to_multiset().count(x) == times(requested, x) by {
        lemma_times_is_count(requested, x);
    }
    assert forall|x: Seq<char>| #[trigger] given.to_multiset().count(x) == times(given, x) by {
        lemma_times_is_count(given, x);
    }
    if let Ok(slots) = placed {
        lemma_all_filled(requested, slots, 0, context);
        if all_filled(requested, slots, 0, context) is Ok {
            assert forall|x: Seq<char>|
                requested.to_multiset().count(x) == given.to_multiset().count(x) by {
                lemma_open_zero(requested, slots, x);
                assert(open_times(requested, start, x) == open_times(requested, slots, x) + times(
                    given,
                    x,
                ));
            }
            assert(requested.to_multiset() =~= given.to_multiset());
        } else {
            let k = choose|k: int| 0 <= k < slots.len() && (#[trigger] slots[k]) is None;
            let x = requested[k];
            lemma_open_some(requested, slots, k, x);
            assert(open_times(requested, start, x) == open_times(requested, slots, x) + times(
                given,
                x,
            ));
            assert(requested.to_multiset().count(x) != given.to_multiset().count(x));
        }
    } else if counts_match(batches, 0) && requested.to_multiset() == given.to_multiset() {
        assert forall|x: Seq<char>| times(given, x) <= #[trigger] open_times(
            requested,
            start,
            x,
        ) by {
            assert(requested.to_multiset().count(x) == given.to_multiset().count(x));
        }
    }
}

/// The items of the batches, end to end, from batch `from` on.
pub open spec fn answered_items<T>(batches: Seq<(Seq<Seq<char>>, Seq<T>)>, from: nat) -> Seq<T>
    decreases batches.len() - from,
{
    if from >= batches.len() {
        Seq::empty()
    } else {
        batches[from as int].1 + answered_items(batches, from + 1)
    }
}

/// The items that belong to `x`, in order: those that stand where it does.
pub open spec fn items_for<T>(inputs: Seq<Seq<char>>, items: Seq<T>, x: Seq<char>) -> Seq<T>
    decreases items.len(),
{
    if items.len() == 0 {
        Seq::empty()
    } else if inputs[items.len() - 1] == x {
        items_for(inputs, items.drop_last(), x).push(items.last())
    } else {
        items_for(inputs, items.drop_last(), x)
    }
}

/// The results in the positions that ask for `x`, in order.
spec fn placed_for<T>(requested: Seq<Seq<char>>, slots: Seq<Option<T>>, x: Seq<char>) -> Seq<T>
    decreases slots.len(),
{
    if slots.len() == 0 {
        Seq::empty()
    } else if requested[slots.len() - 1] == x && slots.last() is Some {
        placed_for(requested, slots.drop_last(), x).push(slots.last()->0)
    } else {
        placed_for(requested, slots.drop_last(), x)
    }
}

/// The results that are in place.
spec fn placed_items<T>(slots: Seq<Option<T>>) -> Multiset<T>
    decreases slots.len(),
{
    if slots.len() == 0 {
        Multiset::empty()
    } else if slots.last() is Some {
        placed_items(slots.drop_last()).insert(slots.last()->0)
    } else {
        placed_items(slots.drop_last())
    }
}

/// Of positions with one input those in front have results first.
spec fn filled_from_front<T>(requested: Seq<Seq<char>>, slots: Seq<Option<T>>) -> bool {
    slots.len() == requested.len() && forall|j: int, k: int|
        0 <= j < k < slots.len() && requested[j] == requested[k] && (#[trigger] slots[k]) is Some
            ==> (#[trigger] slots[j]) is Some
}

proof fn lemma_items_concat<T>(
    a: Seq<Seq<char>>,
    s: Seq<T>,
    b: Seq<Seq<char>>,
    t: Seq<T>,
    x: Seq<char>,
)
    requires
        a.len() == s.len(),
        b.len() == t.len(),
    ensures
        items_for(a + b, s + t, x) == items_for(a, s, x) + items_for(b, t, x),
    decreases t.len(),
{
    if t.len() == 0 {
        assert(s + t =~= s);
        assert(a + b =~= a);
        assert(items_for(a, s, x) + items_for(b, t, x) =~= items_for(a, s, x));
    } else {
        let (b0, t0) = (b.drop_last(), t.drop_last());
        lemma_items_concat(a, s, b0, t0, x);
        assert((s + t).drop_last() =~= s + t0);
        lemma_items_prefix(a + b, a + b0, s + t0, x);
        lemma_items_prefix(b, b0, t0, x);
        assert(items_for(a + b, s + t, x) =~= items_for(a, s, x) + items_for(b, t, x));
    }
}

/// Inputs behind the items do not matter.
proof fn lemma_items_prefix<T>(
    long: Seq<Seq<char>>,
    short: Seq<Seq<char>>,
    items: Seq<T>,
    x: Seq<char>,
)
    requires
        items.len() <= short.len() <= long.len(),
        forall|i: int| 0 <= i < short.len() ==> long[i] == #[trigger] short[i],
    ensures
        items_for(long, items, x) == items_for(short, items, x),
    decreases items.len(),
{
    if items.len() > 0 {
        lemma_items_prefix(long, short, items.drop_last(), x);
        assert(long[items.len() - 1] == short[items.len() - 1]);
    }
}

proof fn lemma_place_one<T>(
    requested: Seq<Seq<char>>,
    slots: Seq<Option<T>>,
    at: int,
    item: T,
    x: Seq<char>,
)
    requires
        0 <= at < slots.len() <= requested.len(),
        slots[at] is None,
        forall|k: int|
            at < k < slots.len() && requested[k] == requested[at] ==> (#[trigger] slots[k]) is None,
    ensures
        ({
            let next = slots.update(at, Some(item));
            &&& placed_for(requested, next, x) == if requested[at] == x {
                placed_for(requested, slots, x).push(item)
            } else {
                placed_for(requested, slots, x)
            }
            &&& placed_items(next) == placed_items(slots).insert(item)
        }),
    decreases slots.len(),
{
    let next = slots.update(at, Some(item));
    let init = slots.drop_last();
    if at == slots.len() - 1 {
        assert(next.drop_last() =~= init);
    } else {
        assert(next.drop_last() =~= init.update(at, Some(item)));
        assert forall|k: int| at < k < init.len() && requested[k] == requested[at] implies (
        #[trigger] init[k]) is None by {
            assert(init[k] == slots[k]);
        }
        lemma_place_one(requested, init, at, item, x);
        assert(slots[slots.len() - 1] == slots.last());
        assert(next.last() == slots.last());
        if slots.last() is Some {
            let last = slots.last()->0;
            assert(placed_items(init).insert(item).insert(last) =~= placed_items(init).insert(
                last,
            ).insert(item));
        }
    }
}

proof fn lemma_first_free<T>(
    requested: Seq<Seq<char>>,
    slots: Seq<Option<T>>,
    input: Seq<char>,
    from: nat,
)
    requires
        from <= requested.len(),
    ensures
        forall|j: int|
            from <= j < free_position(requested, slots, input, from) && j < requested.len() ==> !(
            requested[j] == input && (#[trigger] slots[j]) is None),
    decreases requested.len() - from,
{
    if from < requested.len() && !(requested[from as int] == input && slots[from as int] is None) {
        lemma_first_free(requested, slots, input, from + 1);
    }
}

proof fn lemma_batch_in_order<T>(
    requested: Seq<Seq<char>>,
    slots: Seq<Option<T>>,
    inputs: Seq<Seq<char>>,
    items: Seq<T>,
    from: nat,
    context: Seq<char>,
    x: Seq<char>,
)
    requires
        filled_from_front(requested, slots),
        inputs.len() == items.len(),
        from <= items.len(),
        batch_placed(requested, slots, inputs, items, from, context) is Ok,
    ensures
        ({
            let next = batch_placed(requested, slots, inputs, items, from, context)->Ok_0;
            let (more, rest) = (inputs.skip(from as int), items.skip(from as int));
            &&& filled_from_front(requested, next)
            &&& placed_for(requested, next, x) == placed_for(requested, slots, x) + items_for(
                more,
                rest,
                x,
            )
            &&& placed_items(next) == placed_items(slots).add(rest.to_multiset())
        }),
    decreases items.len() - from,
{
    broadcast use vstd::seq_lib::group_to_multiset_ensures;

    let (more, rest) = (inputs.skip(from as int), items.skip(from as int));
    if from >= items.len() {
        assert(rest =~= Seq::<T>::empty());
        assert(placed_for(requested, slots, x) + items_for(more, rest, x) =~= placed_for(
            requested,
            slots,
            x,
        ));
        assert(rest.to_multiset() =~= Multiset::<T>::empty());
        assert(placed_items(slots).add(rest.to_multiset()) =~= placed_items(slots));
    } else {
        let (input, item) = (inputs[from as int], items[from as int]);
        let at = free_position(requested, slots, input, 0);
        lemma_free_position(requested, slots, input, 0);
        lemma_first_free(requested, slots, input, 0);
        assert forall|k: int| at < k < slots.len() && requested[k] == requested[at] implies (
        #[trigger] slots[k]) is None by {
            assert(slots[at] is None);
        }
        lemma_place_one(requested, slots, at, item, x);
        let next = slots.update(at, Some(item));
        assert(filled_from_front(requested, next)) by {
            assert forall|j: int, k: int|
                0 <= j < k < next.len() && requested[j] == requested[k] && (
                #[trigger] next[k]) is Some implies (#[trigger] next[j]) is Some by {
                if k == at {
                    assert(!(requested[j] == input && slots[j] is None));
                } else if j != at {
                    assert(slots[k] is Some);
                    assert(slots[j] is Some);
                }
            }
        }
        lemma_batch_in_order(requested, next, inputs, items, from + 1, context, x);
        let (more1, rest1) = (inputs.skip((from + 1) as int), items.skip((from + 1) as int));
        assert(more =~= seq![input] + more1);
        assert(rest =~= seq![item] + rest1);
        lemma_items_concat(seq![input], seq![item], more1, rest1, x);
        assert(seq![item].drop_last() =~= Seq::<T>::empty());
        assert(items_for(seq![input], seq![item].drop_last(), x) =~= Seq::<T>::empty());
        assert(items_for(seq![input], seq![item], x) =~= if input == x {
            seq![item]
        } else {
            Seq::<T>::empty()
        });
        let end = batch_placed(requested, slots, inputs, items, from, context)->Ok_0;
        assert(placed_for(requested, end, x) =~= placed_for(requested, slots, x) + items_for(
            more,
            rest,
            x,
        ));
        vstd::seq_lib::lemma_multiset_commutative(seq![item], rest1);
        assert(seq![item] =~= Seq::<T>::empty().push(item));
        assert(Seq::<T>::empty().to_multiset() =~= Multiset::<T>::empty());
        assert(seq![item].to_multiset() =~= Multiset::<T>::empty().insert(item));
        assert(placed_items(end) =~= placed_items(slots).add(rest.to_multiset()));
    }
}

proof fn lemma_batches_in_order<T>(
    requested: Seq<Seq<char>>,
    slots: Seq<Option<T>>,
    batches: Seq<(Seq<Seq<char>>, Seq<T>)>,
    from: nat,
    context: Seq<char>,
    x: Seq<char>,
)
    requires
        filled_from_front(requested, slots),
        from <= batches.len(),
        batches_placed(requested, slots, batches, from, context) is Ok,
    ensures
        ({
            let next = batches_placed(requested, slots, batches, from, context)->Ok_0;
            let (inputs, items) = (answered_inputs(batches, from), answered_items(batches, from));
            &&& next.len() == requested.len()
            &&& inputs.len() == items.len()
            &&& placed_for(requested, next, x) == placed_for(requested, slots, x) + items_for(
                inputs,
                items,
                x,
            )
            &&& placed_items(next) == placed_items(slots).add(items.to_multiset())
        }),
    decreases batches.len() - from,
{
    broadcast use vstd::seq_lib::group_to_multiset_ensures;

    if from >= batches.len() {
        let none = Seq::<T>::empty();
        assert(none.to_multiset() =~= Multiset::<T>::empty());
        assert(placed_items(slots).add(none.to_multiset()) =~= placed_items(slots));
        assert(placed_for(requested, slots, x) + items_for(
            answered_inputs(batches, from),
            none,
            x,
        ) =~= placed_for(requested, slots, x));
    } else {
        let (inputs, items) = batches[from as int];
        lemma_batch_in_order(requested, slots, inputs, items, 0, context, x);
        assert(inputs.skip(0) =~= inputs);
        assert(items.skip(0) =~= items);
        let next = batch_placed(requested, slots, inputs, items, 0, context)->Ok_0;
        lemma_batches_in_order(requested, next, batches, from + 1, context, x);
        let more = answered_inputs(batches, from + 1);
        let rest = answered_items(batches, from + 1);
        lemma_items_concat(inputs, items, more, rest, x);
        vstd::seq_lib::lemma_multiset_commutative(items, rest);
        let end = batches_placed(requested, slots, batches, from, context)->Ok_0;
        assert(placed_for(requested, end, x) =~= placed_for(requested, slots, x) + items_for(
            inputs + more,
            items + rest,
            x,
        ));
        assert(placed_items(end) =~= placed_items(slots).add((items + rest).to_multiset()));
    }
}

proof fn lemma_nothing_placed<T>(requested: Seq<Seq<char>>, n: nat, x: Seq<char>)
    ensures
        placed_for(requested, empty_slots::<T>(n), x) == Seq::<T>::empty(),
        placed_items(empty_slots::<T>(n)) == Multiset::<T>::empty(),
    decreases n,
{
    if n > 0 {
        assert(empty_slots::<T>(n).drop_last() =~= empty_slots::<T>((n - 1) as nat));
        lemma_nothing_placed::<T>(requested, (n - 1) as nat, x);
    }
}

proof fn lemma_all_placed<T>(requested: Seq<Seq<char>>, slots: Seq<Option<T>>, x: Seq<char>)
    requires
        slots.len() <= requested.len(),
        forall|k: int| 0 <= k < slots.len() ==> (#[trigger] slots[k]) is Some,
    ensures
        ({
            let out = slots.map_values(|s: Option<T>| s->0);
            &&& placed_for(requested, slots, x) == items_for(requested, out, x)
            &&& placed_items(slots) == out.to_multiset()
        }),
    decreases slots.len(),
{
    broadcast use vstd::seq_lib::group_to_multiset_ensures;

    let out = slots.map_values(|s: Option<T>| s->0);
    if slots.len() == 0 {
        assert(out =~= Seq::<T>::empty());
        assert(out.to_multiset() =~= Multiset::<T>::empty());
    } else {
        let init = slots.drop_last();
        assert forall|k: int| 0 <= k < init.len() implies (#[trigger] init[k]) is Some by {
            assert(init[k] == slots[k]);
        }
        lemma_all_placed(requested, init, x);
        assert(out.drop_last() =~= init.map_values(|s: Option<T>| s->0));
        assert(slots[slots.len() - 1] is Some);
        assert(out =~= out.drop_last().push(slots.last()->0));
    }
}

/// Every result is used once: the results in order are those of the batches in another order.
/// And an input that was asked for several times gets its results in the order in which the
/// batches gave them.
pub proof fn law_results_keep_their_order<T>(
    requested: Seq<Seq<char>>,
    batches: Seq<(Seq<Seq<char>>, Seq<T>)>,
    context: Seq<char>,
    input: Seq<char>,
)
    requires
        reordered(requested, batches, context) is Ok,
    ensures
        ({
            let out = reordered(requested, batches, context)->Ok_0;
            &&& out.to_multiset() == answered_items(batches, 0).to_multiset()
            &&& items_for(requested, out, input) == items_for(
                answered_inputs(batches, 0),
                answered_items(batches, 0),
                input,
            )
        }),
{
    let start = empty_slots::<T>(requested.len());
    let slots = batches_placed(requested, start, batches, 0, context)->Ok_0;
    lemma_batches_in_order(requested, start, batches, 0, context, input);
    lemma_nothing_placed::<T>(requested, requested.len(), input);
    lemma_all_filled(requested, slots, 0, context);
    lemma_all_placed(requested, slots, input);
    let given = answered_items(batches, 0);
    assert(Multiset::<T>::empty().add(given.to_multiset()) =~= given.to_multiset());
    assert(Seq::<T>::empty() + items_for(answered_inputs(batches, 0), given, input) =~= items_for(
        answered_inputs(batches, 0),
        given,
        input,
    ));
}

} // verus!
