//! What holds of the assignment engine, whatever is drawn.

use crate::game::{Color, Content};
use crate::monster::MonsterModel;
use crate::pool::{
    in_prefix, lemma_available_upto, lemma_unbound_contains, lemma_unbound_no_duplicates,
    spec_available, spec_is_bound, spec_unbound, spec_unbound_upto,
};
use crate::select::{
    draws_ok, is_draw_of, lemma_first_of_color, spec_assign, spec_bind, spec_compute_with,
    spec_fill_from, spec_first_of_color, spec_group_upto, spec_has_color, spec_is_first,
    spec_order, spec_order_upto, spec_same_key, spec_shown, spec_shown_upto,
};
use crate::setup::{roster_ok, slot_ok};
use crate::slot::{MonsterRef, SlotRequest};
use crate::store::{spec_adjust, spec_adjust_slot, spec_out_of_play};
use vstd::prelude::*;

verus! {

/// A slot stands in the group of the slot at `i` exactly where it stands at
/// or after `i`, is open, and asks for what the slot at `i` asks for.
pub proof fn lemma_group_contains(selection: Seq<SlotRequest>, i: int, j: int, x: usize)
    requires
        0 <= i <= j <= selection.len() <= usize::MAX,
    ensures
        spec_group_upto(selection, i, j).contains(x) <==> i <= x < j
            && selection[x as int].spec_is_open() && spec_same_key(
            selection[x as int],
            selection[i],
        ),
    decreases j - i,
{
    let now = spec_group_upto(selection, i, j);
    if j > i {
        lemma_group_contains(selection, i, j - 1, x);
        let rest = spec_group_upto(selection, i, j - 1);
        if now.contains(x) {
            let q = choose|q: int| 0 <= q < now.len() && now[q] == x;
            if q < rest.len() {
                assert(rest[q] == x);
                assert(rest.contains(x));
            }
        }
        if rest.contains(x) {
            let q = choose|q: int| 0 <= q < rest.len() && rest[q] == x;
            assert(now[q] == x);
        }
        if x == j - 1 && selection[j - 1].spec_is_open() && spec_same_key(
            selection[j - 1],
            selection[i],
        ) {
            assert(now[now.len() - 1] == x);
        }
    }
}

/// No slot stands twice in a group.
pub proof fn lemma_group_no_duplicates(selection: Seq<SlotRequest>, i: int, j: int)
    requires
        0 <= i <= j <= selection.len() <= usize::MAX,
    ensures
        spec_group_upto(selection, i, j).no_duplicates(),
    decreases j - i,
{
    let now = spec_group_upto(selection, i, j);
    if j > i {
        lemma_group_no_duplicates(selection, i, j - 1);
        let rest = spec_group_upto(selection, i, j - 1);
        lemma_group_contains(selection, i, j - 1, (j - 1) as usize);
        assert forall|a: int, b: int| 0 <= a < now.len() && 0 <= b < now.len() && a
            != b implies now[a] != now[b] by {
            if a < rest.len() {
                assert(rest.contains(rest[a]));
            }
            if b < rest.len() {
                assert(rest.contains(rest[b]));
            }
        }
    }
}

/// Whether the slot at `x` is open and its group starts before `i`.
pub open spec fn group_started(selection: Seq<SlotRequest>, i: int, x: int) -> bool {
    0 <= x < selection.len() && selection[x].spec_is_open() && exists|f: int|
        0 <= f < i && f <= x && #[trigger] spec_is_first(selection, f) && spec_same_key(
            selection[f],
            selection[x],
        )
}

/// A slot stands in the demand of the first `i` slots exactly where it is
/// open and its group starts before `i`.
pub proof fn lemma_order_contains(selection: Seq<SlotRequest>, i: int, x: usize)
    requires
        0 <= i <= selection.len() <= usize::MAX,
    ensures
        spec_order_upto(selection, i).contains(x) <==> group_started(selection, i, x as int),
    decreases i,
{
    let now = spec_order_upto(selection, i);
    let n = selection.len() as int;
    if i > 0 {
        lemma_order_contains(selection, i - 1, x);
        let rest = spec_order_upto(selection, i - 1);
        let group = spec_group_upto(selection, i - 1, n);
        lemma_group_contains(selection, i - 1, n, x);
        if spec_is_first(selection, i - 1) {
            if now.contains(x) {
                let q = choose|q: int| 0 <= q < now.len() && now[q] == x;
                if q < rest.len() {
                    assert(rest[q] == x);
                    assert(rest.contains(x));
                    let f = choose|f: int|
                        0 <= f < i - 1 && f <= x && #[trigger] spec_is_first(selection, f)
                            && spec_same_key(selection[f], selection[x as int]);
                    assert(0 <= f < i && spec_is_first(selection, f));
                } else {
                    assert(group[q - rest.len()] == x);
                    assert(group.contains(x));
                    assert(spec_is_first(selection, i - 1));
                }
            }
            if group_started(selection, i, x as int) {
                let f = choose|f: int|
                    0 <= f < i && f <= x && #[trigger] spec_is_first(selection, f)
                        && spec_same_key(selection[f], selection[x as int]);
                if f < i - 1 {
                    assert(group_started(selection, i - 1, x as int));
                    let q = choose|q: int| 0 <= q < rest.len() && rest[q] == x;
                    assert(now[q] == x);
                } else {
                    assert(group.contains(x));
                    let q = choose|q: int| 0 <= q < group.len() && group[q] == x;
                    assert(now[rest.len() + q] == x);
                }
            }
        } else {
            if group_started(selection, i, x as int) {
                let f = choose|f: int|
                    0 <= f < i && f <= x && #[trigger] spec_is_first(selection, f)
                        && spec_same_key(selection[f], selection[x as int]);
                assert(f < i - 1);
                assert(group_started(selection, i - 1, x as int));
            }
            if group_started(selection, i - 1, x as int) {
                let f = choose|f: int|
                    0 <= f < i - 1 && f <= x && #[trigger] spec_is_first(selection, f)
                        && spec_same_key(selection[f], selection[x as int]);
                assert(0 <= f < i && spec_is_first(selection, f));
            }
        }
    }
}

/// Every open slot has a first slot of its group at or before it.
pub proof fn lemma_group_starts(selection: Seq<SlotRequest>, x: int, k: int)
    requires
        0 <= k <= x < selection.len(),
        selection[x].spec_is_open(),
        forall|j: int|
            0 <= j < k ==> !((#[trigger] selection[j]).spec_is_open() && spec_same_key(
                selection[j],
                selection[x],
            )),
    ensures
        group_started(selection, selection.len() as int, x),
    decreases x - k,
{
    if selection[k].spec_is_open() && spec_same_key(selection[k], selection[x]) {
        assert(spec_is_first(selection, k));
    } else {
        lemma_group_starts(selection, x, k + 1);
    }
}

/// No slot stands twice in the demand.
pub proof fn lemma_order_no_duplicates(selection: Seq<SlotRequest>, i: int)
    requires
        0 <= i <= selection.len() <= usize::MAX,
    ensures
        spec_order_upto(selection, i).no_duplicates(),
    decreases i,
{
    let now = spec_order_upto(selection, i);
    let n = selection.len() as int;
    if i > 0 {
        lemma_order_no_duplicates(selection, i - 1);
        let rest = spec_order_upto(selection, i - 1);
        let group = spec_group_upto(selection, i - 1, n);
        if spec_is_first(selection, i - 1) {
            lemma_group_no_duplicates(selection, i - 1, n);
            assert forall|a: int, b: int|
                0 <= a < rest.len() && 0 <= b < group.len() implies rest[a] != group[b] by {
                let x = rest[a];
                lemma_order_contains(selection, i - 1, x);
                lemma_group_contains(selection, i - 1, n, x);
                assert(rest.contains(x));
                if x == group[b] {
                    assert(group.contains(x));
                    let f = choose|f: int|
                        0 <= f < i - 1 && f <= x && #[trigger] spec_is_first(selection, f)
                            && spec_same_key(selection[f], selection[x as int]);
                    assert(selection[f].spec_is_open());
                    assert(spec_same_key(selection[f], selection[i - 1]));
                    assert(false);
                }
            }
            vstd::seq_lib::lemma_no_dup_in_concat(rest, group);
        }
    }
}

/// The demand of a selection holds its open slots, each once.
pub proof fn lemma_order(selection: Seq<SlotRequest>)
    requires
        selection.len() <= usize::MAX,
    ensures
        spec_order(selection).no_duplicates(),
        forall|w: int|
            0 <= w < spec_order(selection).len() ==> (#[trigger] spec_order(selection)[w])
                < selection.len() && selection[spec_order(selection)[w] as int].spec_is_open(),
        forall|x: int|
            0 <= x < selection.len() && (#[trigger] selection[x]).spec_is_open() ==> spec_order(
                selection,
            ).contains(x as usize),
{
    let n = selection.len() as int;
    let order = spec_order(selection);
    lemma_order_no_duplicates(selection, n);
    assert forall|w: int| 0 <= w < order.len() implies (#[trigger] order[w]) < selection.len()
        && selection[order[w] as int].spec_is_open() by {
        assert(order.contains(order[w]));
        lemma_order_contains(selection, n, order[w]);
    }
    assert forall|x: int|
        0 <= x < selection.len() && (#[trigger] selection[x]).spec_is_open() implies order.contains(
        x as usize,
    ) by {
        lemma_group_starts(selection, x, 0);
        lemma_order_contains(selection, n, x as usize);
    }
}

/// Whether `after` is the open slot `before` as the engine serves it from a
/// pool: bound to a monster of the pool that has the color class that the
/// slot declares, and otherwise as it was, but that no preset fixed it.
pub open spec fn served(
    cat: Seq<MonsterModel>,
    pool: Seq<usize>,
    before: SlotRequest,
    after: SlotRequest,
) -> bool {
    &&& before.spec_is_open()
    &&& after.monster matches Some(MonsterRef::Listed(id)) && after == spec_bind(before, id)
        && pool.contains(id) && id < cat.len() && before.color == Some(cat[id as int].color)
}

/// The slots that the first `u` units of a demand stand for.
pub open spec fn taken(order: Seq<usize>, u: int) -> Set<int> {
    Set::new(|i: int| exists|w: int| 0 <= w < u && w < order.len() && order[w] == i)
}

/// Whether `filled` is the selection with the slots in `done` served from
/// the pool, no monster to two of them, and the other slots as they were.
pub open spec fn filling(
    selection: Seq<SlotRequest>,
    cat: Seq<MonsterModel>,
    pool: Seq<usize>,
    filled: Seq<SlotRequest>,
    done: Set<int>,
) -> bool {
    &&& filled.len() == selection.len()
    &&& forall|i: int|
        0 <= i < selection.len() && !done.contains(i) ==> #[trigger] filled[i] == selection[i]
    &&& forall|i: int|
        0 <= i < selection.len() && done.contains(i) ==> served(
            cat,
            pool,
            selection[i],
            #[trigger] filled[i],
        )
    &&& forall|i: int, j: int|
        0 <= i < selection.len() && 0 <= j < selection.len() && i != j && done.contains(i)
            && done.contains(j) ==> (#[trigger] filled[i]).monster != (#[trigger] filled[j]).monster
}

/// Whether `rest` is what is left of a pool after the slots in `done` were
/// served from it: monsters of the pool, none twice, and none of those that
/// the served slots are bound to.
pub open spec fn pool_left(
    pool: Seq<usize>,
    rest: Seq<usize>,
    filled: Seq<SlotRequest>,
    done: Set<int>,
) -> bool {
    &&& rest.no_duplicates()
    &&& forall|q: int| 0 <= q < rest.len() ==> pool.contains(#[trigger] rest[q])
    &&& forall|i: int, q: int|
        0 <= i < filled.len() && done.contains(i) && 0 <= q < rest.len() ==> (
        #[trigger] filled[i]).monster != Some(MonsterRef::Listed(#[trigger] rest[q]))
}

/// Where the units of a demand are served, each slot of the demand is
/// served from the pool, no monster goes to two slots, and the other slots
/// stay as they were.
pub proof fn lemma_fill_shape(
    selection: Seq<SlotRequest>,
    cat: Seq<MonsterModel>,
    pool: Seq<usize>,
    rest: Seq<usize>,
    filled: Seq<SlotRequest>,
    order: Seq<usize>,
    u: int,
)
    requires
        0 <= u <= order.len(),
        order.no_duplicates(),
        forall|w: int|
            0 <= w < order.len() ==> (#[trigger] order[w]) < selection.len()
                && selection[order[w] as int].spec_is_open(),
        filling(selection, cat, pool, filled, taken(order, u)),
        pool_left(pool, rest, filled, taken(order, u)),
    ensures
        spec_fill_from(cat, rest, filled, order, u) matches Some(f) ==> filling(
            selection,
            cat,
            pool,
            f,
            taken(order, order.len() as int),
        ),
    decreases order.len() - u,
{
    if u < order.len() {
        let at = order[u] as int;
        let done = taken(order, u);
        let next = taken(order, u + 1);
        assert(!done.contains(at)) by {
            if done.contains(at) {
                let w = choose|w: int| 0 <= w < u && w < order.len() && order[w] == at;
                assert(order[w] == order[u]);
            }
        }
        assert(filled[at] == selection[at]);
        match filled[at].color {
            None => {},
            Some(color) => {
                lemma_first_of_color(cat, rest, color, 0);
                match spec_first_of_color(cat, rest, color, 0) {
                    None => {},
                    Some(p) => {
                        let id = rest[p];
                        let rest2 = rest.remove(p);
                        let filled2 = filled.update(at, spec_bind(filled[at], id));
                        assert(next.contains(at)) by {
                            assert(0 <= u < u + 1 && order[u] == at);
                        }
                        assert forall|i: int| next.contains(i) <==> done.contains(i) || i
                            == at by {
                            if next.contains(i) {
                                let w = choose|w: int|
                                    0 <= w < u + 1 && w < order.len() && order[w] == i;
                                if w < u {
                                    assert(done.contains(i));
                                }
                            }
                            if done.contains(i) {
                                let w = choose|w: int|
                                    0 <= w < u && w < order.len() && order[w] == i;
                                assert(0 <= w < u + 1 && order[w] == i);
                            }
                        }
                        assert(pool.contains(id));
                        assert(served(cat, pool, selection[at], filled2[at]));
                        assert forall|q: int| 0 <= q < rest2.len() implies rest2[q] != id
                            && rest.contains(#[trigger] rest2[q]) by {
                            if q < p {
                                assert(rest2[q] == rest[q]);
                            } else {
                                assert(rest2[q] == rest[q + 1]);
                            }
                        }
                        assert(rest2.no_duplicates()) by {
                            assert forall|a: int, b: int|
                                0 <= a < rest2.len() && 0 <= b < rest2.len() && a
                                    != b implies rest2[a] != rest2[b] by {
                                let a0 = if a < p {
                                    a
                                } else {
                                    a + 1
                                };
                                let b0 = if b < p {
                                    b
                                } else {
                                    b + 1
                                };
                                assert(rest2[a] == rest[a0]);
                                assert(rest2[b] == rest[b0]);
                            }
                        }
                        assert(filling(selection, cat, pool, filled2, next)) by {
                            assert forall|i: int, j: int|
                                0 <= i < selection.len() && 0 <= j < selection.len() && i != j
                                    && next.contains(i) && next.contains(j) implies (
                            #[trigger] filled2[i]).monster != (#[trigger] filled2[j]).monster by {
                                if i == at {
                                    assert(filled2[j] == filled[j]);
                                    assert(filled[j].monster != Some(MonsterRef::Listed(rest[p])));
                                } else if j == at {
                                    assert(filled2[i] == filled[i]);
                                    assert(filled[i].monster != Some(MonsterRef::Listed(rest[p])));
                                } else {
                                    assert(filled2[i] == filled[i]);
                                    assert(filled2[j] == filled[j]);
                                }
                            }
                        }
                        assert(pool_left(pool, rest2, filled2, next)) by {
                            assert forall|q: int| 0 <= q < rest2.len() implies pool.contains(
                                #[trigger] rest2[q],
                            ) by {
                                assert(rest.contains(rest2[q]));
                                let w = choose|w: int| 0 <= w < rest.len() && rest[w] == rest2[q];
                                assert(pool.contains(rest[w]));
                            }
                            assert forall|i: int, q: int|
                                0 <= i < filled2.len() && next.contains(i) && 0 <= q
                                    < rest2.len() implies (#[trigger] filled2[i]).monster != Some(
                                MonsterRef::Listed(#[trigger] rest2[q]),
                            ) by {
                                assert(rest.contains(rest2[q]));
                                let w = choose|w: int| 0 <= w < rest.len() && rest[w] == rest2[q];
                                if i != at {
                                    assert(filled2[i] == filled[i]);
                                    assert(filled[i].monster != Some(MonsterRef::Listed(rest[w])));
                                }
                            }
                        }
                        lemma_fill_shape(selection, cat, pool, rest2, filled2, order, u + 1);
                    },
                }
            },
        }
    }
}

/// The open slots of a selection.
pub open spec fn open_slots(selection: Seq<SlotRequest>) -> Set<int> {
    Set::new(|i: int| 0 <= i < selection.len() && selection[i].spec_is_open())
}

/// The slots of a selection after one attempt on a pool, exclusions
/// included; nothing where the attempt fails.
pub open spec fn spec_filled(
    selection: Seq<SlotRequest>,
    cat: Seq<MonsterModel>,
    pool: Seq<usize>,
) -> Option<Seq<SlotRequest>> {
    spec_fill_from(cat, pool, selection, spec_order(selection), 0)
}

/// Where an attempt on a pool without repetitions succeeds, every open slot
/// is served from the pool, no monster goes to two of them, and the other
/// slots stay as they were.
pub proof fn lemma_filled_shape(
    selection: Seq<SlotRequest>,
    cat: Seq<MonsterModel>,
    pool: Seq<usize>,
)
    requires
        selection.len() <= usize::MAX,
        pool.no_duplicates(),
    ensures
        spec_filled(selection, cat, pool) matches Some(f) ==> filling(
            selection,
            cat,
            pool,
            f,
            open_slots(selection),
        ),
{
    let order = spec_order(selection);
    lemma_order(selection);
    assert(taken(order, 0) =~= Set::<int>::empty());
    assert(pool_left(pool, pool, selection, taken(order, 0)));
    lemma_fill_shape(selection, cat, pool, pool, selection, order, 0);
    assert(taken(order, order.len() as int) =~= open_slots(selection)) by {
        assert forall|i: int| taken(order, order.len() as int).contains(i) <==> open_slots(
            selection,
        ).contains(i) by {
            if taken(order, order.len() as int).contains(i) {
                let w = choose|w: int| 0 <= w < order.len() && w < order.len() && order[w] == i;
                assert(order[w] < selection.len());
            }
            if open_slots(selection).contains(i) {
                assert(selection[i].spec_is_open());
                assert(order.contains(i as usize));
                let w = choose|w: int| 0 <= w < order.len() && order[w] == i as usize;
                assert(0 <= w < order.len() && order[w] == i);
            }
        }
    }
}

/// The places, among the first `k` slots, of those that are no exclusions,
/// in rising order.
pub open spec fn spec_source_upto(filled: Seq<SlotRequest>, k: int) -> Seq<int>
    decreases k,
{
    if k <= 0 {
        seq![]
    } else {
        let rest = spec_source_upto(filled, k - 1);
        if filled[k - 1].exclude {
            rest
        } else {
            rest.push(k - 1)
        }
    }
}

/// The places of the slots that are no exclusions, in rising order: entry
/// `q` of the output is the slot at place `q` of this sequence.
pub open spec fn spec_source(filled: Seq<SlotRequest>) -> Seq<int> {
    spec_source_upto(filled, filled.len() as int)
}

/// The output holds the slots that are no exclusions, in their order.
pub proof fn lemma_source_upto(filled: Seq<SlotRequest>, k: int)
    requires
        0 <= k <= filled.len(),
    ensures
        spec_source_upto(filled, k).len() == spec_shown_upto(filled, k).len(),
        forall|q: int|
            0 <= q < spec_source_upto(filled, k).len() ==> {
                &&& 0 <= (#[trigger] spec_source_upto(filled, k)[q]) < k
                &&& !filled[spec_source_upto(filled, k)[q]].exclude
                &&& spec_shown_upto(filled, k)[q] == filled[spec_source_upto(filled, k)[q]]
            },
        forall|q: int, r: int|
            0 <= q < r < spec_source_upto(filled, k).len() ==> (#[trigger] spec_source_upto(
                filled,
                k,
            )[q]) < (#[trigger] spec_source_upto(filled, k)[r]),
        forall|i: int|
            0 <= i < k && !(#[trigger] filled[i]).exclude ==> spec_source_upto(filled, k).contains(
                i,
            ),
    decreases k,
{
    if k > 0 {
        lemma_source_upto(filled, k - 1);
        let rest = spec_source_upto(filled, k - 1);
        let now = spec_source_upto(filled, k);
        assert forall|i: int| 0 <= i < k && !(#[trigger] filled[i]).exclude implies now.contains(
            i,
        ) by {
            if i < k - 1 {
                assert(rest.contains(i));
                let q = choose|q: int| 0 <= q < rest.len() && rest[q] == i;
                assert(now[q] == i);
            } else {
                assert(now[now.len() - 1] == i);
            }
        }
    }
}

/// The sources of the output depend on nothing but which slots are
/// exclusions.
pub proof fn lemma_source_same(a: Seq<SlotRequest>, b: Seq<SlotRequest>, k: int)
    requires
        0 <= k <= a.len(),
        a.len() == b.len(),
        forall|i: int| 0 <= i < a.len() ==> (#[trigger] a[i]).exclude == (#[trigger] b[i]).exclude,
    ensures
        spec_source_upto(a, k) == spec_source_upto(b, k),
    decreases k,
{
    if k > 0 {
        lemma_source_same(a, b, k - 1);
        assert(a[k - 1].exclude == b[k - 1].exclude);
    }
}

/// The number of monsters of a color class in a pool.
pub open spec fn spec_count(cat: Seq<MonsterModel>, pool: Seq<usize>, color: Color) -> nat
    decreases pool.len(),
{
    if pool.len() == 0 {
        0
    } else {
        spec_count(cat, pool.drop_last(), color) + if spec_has_color(cat, pool.last(), color) {
            1nat
        } else {
            0nat
        }
    }
}

/// A pool without one of its monsters holds one monster less of that
/// monster's color class, and as many of every other.
pub proof fn lemma_count_remove(cat: Seq<MonsterModel>, pool: Seq<usize>, color: Color, p: int)
    requires
        0 <= p < pool.len(),
    ensures
        spec_count(cat, pool, color) == spec_count(cat, pool.remove(p), color) + if spec_has_color(
            cat,
            pool[p],
            color,
        ) {
            1nat
        } else {
            0nat
        },
    decreases pool.len(),
{
    if p == pool.len() - 1 {
        assert(pool.remove(p) =~= pool.drop_last());
    } else {
        lemma_count_remove(cat, pool.drop_last(), color, p);
        assert(pool.remove(p).drop_last() =~= pool.drop_last().remove(p));
        assert(pool.remove(p).last() == pool.last());
        assert(pool.drop_last()[p] == pool[p]);
    }
}

/// A pool holds a monster of a color class exactly where the number of its
/// monsters of that class is not zero.
pub proof fn lemma_count_positive(cat: Seq<MonsterModel>, pool: Seq<usize>, color: Color)
    ensures
        spec_count(cat, pool, color) > 0 <==> exists|q: int|
            0 <= q < pool.len() && spec_has_color(cat, #[trigger] pool[q], color),
    decreases pool.len(),
{
    if pool.len() > 0 {
        let front = pool.drop_last();
        lemma_count_positive(cat, front, color);
        if spec_count(cat, pool, color) > 0 {
            if spec_has_color(cat, pool.last(), color) {
                assert(spec_has_color(cat, pool[pool.len() - 1], color));
            } else {
                let q = choose|q: int|
                    0 <= q < front.len() && spec_has_color(cat, #[trigger] front[q], color);
                assert(spec_has_color(cat, pool[q], color));
            }
        }
        if exists|q: int| 0 <= q < pool.len() && spec_has_color(cat, #[trigger] pool[q], color) {
            let q = choose|q: int|
                0 <= q < pool.len() && spec_has_color(cat, #[trigger] pool[q], color);
            if q < pool.len() - 1 {
                assert(spec_has_color(cat, front[q], color));
            }
        }
    }
}

/// The number of units of a demand, from unit `u` on, whose slots declare a
/// color class.
pub open spec fn spec_need_from(
    selection: Seq<SlotRequest>,
    order: Seq<usize>,
    color: Color,
    u: int,
) -> nat
    decreases order.len() - u,
{
    if u >= order.len() {
        0
    } else {
        spec_need_from(selection, order, color, u + 1) + if order[u] < selection.len()
            && selection[order[u] as int].color == Some(color) {
            1nat
        } else {
            0nat
        }
    }
}

/// Whether a unit of a demand, from unit `u` on, stands for a slot that
/// declares no color class.
pub open spec fn colorless_from(selection: Seq<SlotRequest>, order: Seq<usize>, u: int) -> bool {
    exists|w: int|
        u <= w < order.len() && ((#[trigger] order[w]) >= selection.len()
            || selection[order[w] as int].color is None)
}

/// The units of a demand can be served from a pool exactly where each of
/// their slots declares a color class and the pool holds, of every color
/// class, as many monsters as there are units for it.
pub proof fn lemma_fill_succeeds(
    selection: Seq<SlotRequest>,
    cat: Seq<MonsterModel>,
    rest: Seq<usize>,
    filled: Seq<SlotRequest>,
    order: Seq<usize>,
    u: int,
)
    requires
        0 <= u <= order.len(),
        filled.len() == selection.len(),
        forall|i: int|
            0 <= i < selection.len() ==> (#[trigger] filled[i]).color == selection[i].color,
    ensures
        spec_fill_from(cat, rest, filled, order, u) is Some <==> !colorless_from(
            selection,
            order,
            u,
        ) && forall|c: Color| #[trigger]
            spec_need_from(selection, order, c, u) <= spec_count(cat, rest, c),
    decreases order.len() - u,
{
    if u < order.len() {
        if order[u] >= filled.len() {
            assert(colorless_from(selection, order, u));
        } else {
            let at = order[u] as int;
            match filled[at].color {
                None => {
                    assert(selection[at].color is None);
                    assert(colorless_from(selection, order, u));
                },
                Some(c0) => {
                    lemma_first_of_color(cat, rest, c0, 0);
                    lemma_count_positive(cat, rest, c0);
                    assert(colorless_from(selection, order, u) <==> colorless_from(
                        selection,
                        order,
                        u + 1,
                    )) by {
                        if colorless_from(selection, order, u) {
                            let w = choose|w: int|
                                u <= w < order.len() && ((#[trigger] order[w]) >= selection.len()
                                    || selection[order[w] as int].color is None);
                            assert(w != u);
                            assert(u + 1 <= w < order.len());
                        }
                        if colorless_from(selection, order, u + 1) {
                            let w = choose|w: int|
                                u + 1 <= w < order.len() && ((#[trigger] order[w])
                                    >= selection.len() || selection[order[w] as int].color is None);
                            assert(u <= w < order.len());
                        }
                    }
                    match spec_first_of_color(cat, rest, c0, 0) {
                        None => {
                            assert(spec_count(cat, rest, c0) == 0);
                            assert(spec_need_from(selection, order, c0, u) > spec_count(
                                cat,
                                rest,
                                c0,
                            ));
                        },
                        Some(p) => {
                            let rest2 = rest.remove(p);
                            let filled2 = filled.update(at, spec_bind(filled[at], rest[p]));
                            lemma_fill_succeeds(selection, cat, rest2, filled2, order, u + 1);
                            assert forall|c: Color|
                                (#[trigger] spec_need_from(selection, order, c, u) <= spec_count(
                                    cat,
                                    rest,
                                    c,
                                )) <==> (spec_need_from(selection, order, c, u + 1) <= spec_count(
                                    cat,
                                    rest2,
                                    c,
                                )) by {
                                lemma_count_remove(cat, rest, c, p);
                            }
                            if forall|c: Color| #[trigger]
                                spec_need_from(selection, order, c, u) <= spec_count(cat, rest, c) {
                                assert forall|c: Color| #[trigger]
                                    spec_need_from(selection, order, c, u + 1) <= spec_count(
                                        cat,
                                        rest2,
                                        c,
                                    ) by {
                                    assert(spec_need_from(selection, order, c, u) <= spec_count(
                                        cat,
                                        rest,
                                        c,
                                    ));
                                }
                            }
                            if forall|c: Color| #[trigger]
                                spec_need_from(selection, order, c, u + 1) <= spec_count(
                                    cat,
                                    rest2,
                                    c,
                                ) {
                                assert forall|c: Color| #[trigger]
                                    spec_need_from(selection, order, c, u) <= spec_count(
                                        cat,
                                        rest,
                                        c,
                                    ) by {
                                    assert(spec_need_from(selection, order, c, u + 1)
                                        <= spec_count(cat, rest2, c));
                                }
                            }
                        },
                    }
                },
            }
        }
    } else {
        assert(!colorless_from(selection, order, u));
    }
}

/// The number of units of the demand of a selection whose slots declare a
/// color class.
pub open spec fn spec_units(selection: Seq<SlotRequest>, color: Color) -> nat {
    spec_need_from(selection, spec_order(selection), color, 0)
}

/// Whether the slot at `i` is open and declares a color class.
pub open spec fn wants(selection: Seq<SlotRequest>, i: int, color: Color) -> bool {
    0 <= i < selection.len() && selection[i].spec_is_open() && selection[i].color == Some(color)
}

/// The number of open slots among the first `k` that declare a color
/// class.
pub open spec fn spec_demand_upto(selection: Seq<SlotRequest>, color: Color, k: int) -> nat
    decreases k,
{
    if k <= 0 {
        0
    } else {
        spec_demand_upto(selection, color, k - 1) + if wants(selection, k - 1, color) {
            1nat
        } else {
            0nat
        }
    }
}

/// The demand for a color class: the number of open slots of a selection
/// that declare it.
pub open spec fn spec_demand(selection: Seq<SlotRequest>, color: Color) -> nat {
    spec_demand_upto(selection, color, selection.len() as int)
}

/// Whether a slot stands in a demand at unit `u` or after it.
pub open spec fn in_suffix(order: Seq<usize>, u: int, i: int) -> bool {
    exists|w: int| u <= w < order.len() && 0 <= w && #[trigger] order[w] == i
}

/// The number of open slots among the first `k` that declare a color class
/// and stand in a demand at unit `u` or after it.
pub open spec fn spec_marked_upto(
    selection: Seq<SlotRequest>,
    order: Seq<usize>,
    color: Color,
    u: int,
    k: int,
) -> nat
    decreases k,
{
    if k <= 0 {
        0
    } else {
        spec_marked_upto(selection, order, color, u, k - 1) + if wants(selection, k - 1, color)
            && in_suffix(order, u, k - 1) {
            1nat
        } else {
            0nat
        }
    }
}

/// One unit more in a demand without repetitions is one slot more that
/// stands in it.
proof fn lemma_marked_step(
    selection: Seq<SlotRequest>,
    order: Seq<usize>,
    color: Color,
    u: int,
    k: int,
)
    requires
        order.no_duplicates(),
        0 <= u < order.len(),
        0 <= k,
    ensures
        spec_marked_upto(selection, order, color, u, k) == spec_marked_upto(
            selection,
            order,
            color,
            u + 1,
            k,
        ) + if order[u] < k && wants(selection, order[u] as int, color) {
            1nat
        } else {
            0nat
        },
    decreases k,
{
    if k > 0 {
        lemma_marked_step(selection, order, color, u, k - 1);
        let i = k - 1;
        if i == order[u] {
            assert(in_suffix(order, u, i));
            if in_suffix(order, u + 1, i) {
                let w = choose|w: int|
                    u + 1 <= w < order.len() && 0 <= w && #[trigger] order[w] == i;
                assert(order[w] == order[u]);
            }
        } else {
            if in_suffix(order, u, i) {
                let w = choose|w: int| u <= w < order.len() && 0 <= w && #[trigger] order[w] == i;
                assert(w != u);
                assert(u + 1 <= w < order.len() && order[w] == i);
            }
            if in_suffix(order, u + 1, i) {
                let w = choose|w: int|
                    u + 1 <= w < order.len() && 0 <= w && #[trigger] order[w] == i;
                assert(u <= w < order.len() && order[w] == i);
            }
        }
    }
}

/// No slot stands in a demand after its last unit.
proof fn lemma_marked_none(
    selection: Seq<SlotRequest>,
    order: Seq<usize>,
    color: Color,
    u: int,
    k: int,
)
    requires
        u >= order.len(),
    ensures
        spec_marked_upto(selection, order, color, u, k) == 0,
    decreases k,
{
    if k > 0 {
        lemma_marked_none(selection, order, color, u, k - 1);
    }
}

/// The units of a demand, from unit `u` on, whose slots declare a color
/// class are as many as the open slots that declare it and stand in the
/// demand from unit `u` on.
proof fn lemma_need_is_marked(
    selection: Seq<SlotRequest>,
    order: Seq<usize>,
    color: Color,
    u: int,
)
    requires
        0 <= u <= order.len(),
        order.no_duplicates(),
        forall|w: int|
            0 <= w < order.len() ==> (#[trigger] order[w]) < selection.len()
                && selection[order[w] as int].spec_is_open(),
    ensures
        spec_need_from(selection, order, color, u) == spec_marked_upto(
            selection,
            order,
            color,
            u,
            selection.len() as int,
        ),
    decreases order.len() - u,
{
    if u < order.len() {
        lemma_need_is_marked(selection, order, color, u + 1);
        lemma_marked_step(selection, order, color, u, selection.len() as int);
        assert(selection[order[u] as int].spec_is_open());
    } else {
        lemma_marked_none(selection, order, color, u, selection.len() as int);
    }
}

/// Where every open slot stands in a demand, the open slots that stand in
/// it are all the open slots.
proof fn lemma_marked_all(selection: Seq<SlotRequest>, order: Seq<usize>, color: Color, k: int)
    requires
        0 <= k <= selection.len(),
        forall|x: int|
            0 <= x < selection.len() && (#[trigger] selection[x]).spec_is_open() ==> order.contains(
                x as usize,
            ),
        selection.len() <= usize::MAX,
    ensures
        spec_marked_upto(selection, order, color, 0, k) == spec_demand_upto(selection, color, k),
    decreases k,
{
    if k > 0 {
        lemma_marked_all(selection, order, color, k - 1);
        let i = k - 1;
        if wants(selection, i, color) {
            assert(selection[i].spec_is_open());
            assert(order.contains(i as usize));
            let w = choose|w: int| 0 <= w < order.len() && order[w] == i as usize;
            assert(0 <= w < order.len() && order[w] == i);
        }
    }
}

/// The units of the demand whose slots declare a color class are as many as
/// the open slots of the selection that declare it.
pub proof fn lemma_units(selection: Seq<SlotRequest>, color: Color)
    requires
        selection.len() <= usize::MAX,
    ensures
        spec_units(selection, color) == spec_demand(selection, color),
{
    let order = spec_order(selection);
    lemma_order(selection);
    lemma_need_is_marked(selection, order, color, 0);
    lemma_marked_all(selection, order, color, selection.len() as int);
}

/// Whether a pool can serve a selection: every open slot declares a color
/// class, and of every color class the pool holds as many monsters as the
/// demand for it.
pub open spec fn spec_feasible(
    selection: Seq<SlotRequest>,
    cat: Seq<MonsterModel>,
    pool: Seq<usize>,
) -> bool {
    &&& forall|i: int|
        0 <= i < selection.len() && (#[trigger] selection[i]).spec_is_open()
            ==> selection[i].color is Some
    &&& forall|c: Color| #[trigger] spec_demand(selection, c) <= spec_count(cat, pool, c)
}

/// An attempt on a pool succeeds exactly where the pool can serve the
/// selection.
pub proof fn lemma_assign_succeeds(
    selection: Seq<SlotRequest>,
    cat: Seq<MonsterModel>,
    pool: Seq<usize>,
)
    requires
        selection.len() <= usize::MAX,
    ensures
        spec_assign(selection, cat, pool) is Some <==> spec_feasible(selection, cat, pool),
{
    let order = spec_order(selection);
    lemma_order(selection);
    lemma_fill_succeeds(selection, cat, pool, selection, order, 0);
    if spec_feasible(selection, cat, pool) {
        assert forall|c: Color| #[trigger]
            spec_need_from(selection, order, c, 0) <= spec_count(cat, pool, c) by {
            lemma_units(selection, c);
            assert(spec_demand(selection, c) <= spec_count(cat, pool, c));
        }
    }
    if forall|c: Color| #[trigger]
        spec_need_from(selection, order, c, 0) <= spec_count(cat, pool, c) {
        assert forall|c: Color| #[trigger]
            spec_demand(selection, c) <= spec_count(cat, pool, c) by {
            lemma_units(selection, c);
            assert(spec_need_from(selection, order, c, 0) <= spec_count(cat, pool, c));
        }
    }
    if colorless_from(selection, order, 0) {
        let w = choose|w: int|
            0 <= w < order.len() && ((#[trigger] order[w]) >= selection.len()
                || selection[order[w] as int].color is None);
        assert(selection[order[w] as int].spec_is_open());
    }
    if !colorless_from(selection, order, 0) {
        assert forall|i: int|
            0 <= i < selection.len() && (#[trigger] selection[i]).spec_is_open()
                implies selection[i].color is Some by {
            assert(order.contains(i as usize));
            let w = choose|w: int| 0 <= w < order.len() && order[w] == i as usize;
            assert(!(order[w] >= selection.len() || selection[order[w] as int].color is None));
        }
    }
}

/// Two pools that hold the same monsters, each as often, hold as many
/// monsters of every color class.
pub proof fn lemma_count_draw(cat: Seq<MonsterModel>, a: Seq<usize>, b: Seq<usize>, color: Color)
    requires
        is_draw_of(a, b),
    ensures
        spec_count(cat, a, color) == spec_count(cat, b, color),
    decreases b.len(),
{
    vstd::seq_lib::to_multiset_len(a);
    vstd::seq_lib::to_multiset_len(b);
    if b.len() > 0 {
        let last = b.len() - 1;
        let x = b[last];
        assert(b.contains(x));
        vstd::seq_lib::to_multiset_contains(b, x);
        vstd::seq_lib::to_multiset_contains(a, x);
        let q = choose|q: int| 0 <= q < a.len() && a[q] == x;
        vstd::seq_lib::to_multiset_remove(a, q);
        vstd::seq_lib::to_multiset_remove(b, last);
        assert(b.remove(last) =~= b.drop_last());
        lemma_count_draw(cat, a.remove(q), b.drop_last(), color);
        lemma_count_remove(cat, a, color, q);
    }
}

/// Two pools that hold the same monsters, each as often, are both without
/// repetitions where one is, and each holds what the other holds.
pub proof fn lemma_draw_members(a: Seq<usize>, b: Seq<usize>)
    requires
        is_draw_of(a, b),
    ensures
        b.no_duplicates() ==> a.no_duplicates(),
        forall|x: usize| a.contains(x) <==> b.contains(x),
{
    assert forall|x: usize| a.contains(x) <==> b.contains(x) by {
        vstd::seq_lib::to_multiset_contains(a, x);
        vstd::seq_lib::to_multiset_contains(b, x);
    }
    if b.no_duplicates() {
        b.lemma_multiset_has_no_duplicates();
        a.lemma_multiset_has_no_duplicates_conv();
    }
}

/// The unbound monsters of a pool are at most as many, of every color
/// class, as the monsters of the pool.
pub proof fn lemma_count_unbound(
    selection: Seq<SlotRequest>,
    cat: Seq<MonsterModel>,
    pool: Seq<usize>,
    color: Color,
    k: int,
)
    requires
        0 <= k <= pool.len(),
    ensures
        spec_count(cat, spec_unbound_upto(selection, pool, k), color) <= spec_count(
            cat,
            pool.subrange(0, k),
            color,
        ),
    decreases k,
{
    if k > 0 {
        lemma_count_unbound(selection, cat, pool, color, k - 1);
        assert(pool.subrange(0, k).drop_last() =~= pool.subrange(0, k - 1));
        let rest = spec_unbound_upto(selection, pool, k - 1);
        if !spec_is_bound(selection, pool[k - 1] as int) {
            assert(rest.push(pool[k - 1]).drop_last() =~= rest);
        }
    }
}

/// Whether `entry` is what the output holds for the slot at `at`, which is
/// no exclusion: the slot as it is where it is bound, else the slot served
/// from the pool.
pub open spec fn entry_of(
    selection: Seq<SlotRequest>,
    cat: Seq<MonsterModel>,
    pool: Seq<usize>,
    at: int,
    entry: SlotRequest,
) -> bool {
    &&& 0 <= at < selection.len()
    &&& !selection[at].exclude
    &&& selection[at].monster is Some ==> entry == selection[at]
    &&& selection[at].monster is None ==> served(cat, pool, selection[at], entry)
}

/// Whether `out` is an output of the engine for a selection, served from a
/// pool: its entries are the slots of the selection that are no exclusions,
/// in order; a bound slot stands in it as it is; an open slot stands in it
/// served from the pool; and no monster is served to two slots.
pub open spec fn output_of(
    selection: Seq<SlotRequest>,
    cat: Seq<MonsterModel>,
    pool: Seq<usize>,
    out: Seq<SlotRequest>,
) -> bool {
    let src = spec_source(selection);
    &&& out.len() == src.len()
    &&& forall|q: int|
        0 <= q < out.len() ==> entry_of(selection, cat, pool, src[q], #[trigger] out[q])
    &&& forall|q: int, r: int|
        0 <= q < r < out.len() && selection[src[q]].monster is None
            && selection[src[r]].monster is None ==> (#[trigger] out[q]).monster != (
        #[trigger] out[r]).monster
}

/// The output of an attempt on a pool without repetitions is an output of
/// the engine served from that pool.
pub proof fn lemma_assign_output(
    selection: Seq<SlotRequest>,
    cat: Seq<MonsterModel>,
    pool: Seq<usize>,
)
    requires
        selection.len() <= usize::MAX,
        pool.no_duplicates(),
    ensures
        spec_assign(selection, cat, pool) matches Some(out) ==> output_of(
            selection,
            cat,
            pool,
            out,
        ),
{
    lemma_filled_shape(selection, cat, pool);
    match spec_filled(selection, cat, pool) {
        None => {},
        Some(f) => {
            let out = spec_shown(f);
            let n = selection.len() as int;
            let done = open_slots(selection);
            assert forall|i: int| 0 <= i < n implies (#[trigger] f[i]).exclude == (
            #[trigger] selection[i]).exclude by {
                if done.contains(i) {
                    assert(served(cat, pool, selection[i], f[i]));
                } else {
                    assert(f[i] == selection[i]);
                }
            }
            lemma_source_same(f, selection, n);
            lemma_source_upto(f, n);
            let src = spec_source(selection);
            assert forall|q: int| 0 <= q < out.len() implies entry_of(
                selection,
                cat,
                pool,
                src[q],
                #[trigger] out[q],
            ) by {
                let i = src[q];
                assert(out[q] == f[i]);
                assert(f[i].exclude == selection[i].exclude);
                if selection[i].monster is Some {
                    assert(!done.contains(i));
                    assert(f[i] == selection[i]);
                } else {
                    assert(done.contains(i));
                    assert(served(cat, pool, selection[i], f[i]));
                }
            }
            assert forall|q: int, r: int|
                0 <= q < r < out.len() && selection[src[q]].monster is None
                    && selection[src[r]].monster is None implies (#[trigger] out[q]).monster != (
            #[trigger] out[r]).monster by {
                let i = src[q];
                let j = src[r];
                assert(i < j);
                assert(out[q] == f[i]);
                assert(out[r] == f[j]);
                assert(f[i].exclude == selection[i].exclude);
                assert(f[j].exclude == selection[j].exclude);
                assert(done.contains(i));
                assert(done.contains(j));
                assert(f[i].monster != f[j].monster);
            }
        },
    }
}

/// Draws for the two attempts are pools without repetitions.  The second
/// holds the monsters of the enabled packs; the first holds those among
/// them that no slot is bound to, and of no color class more than the
/// second.
pub proof fn lemma_draws(
    selection: Seq<SlotRequest>,
    cat: Seq<MonsterModel>,
    enabled: Set<Content>,
    first: Seq<usize>,
    second: Seq<usize>,
)
    requires
        cat.len() <= usize::MAX,
        draws_ok(selection, cat, enabled, first, second),
    ensures
        first.no_duplicates(),
        second.no_duplicates(),
        forall|x: usize|
            second.contains(x) <==> x < cat.len() && enabled.contains(cat[x as int].content),
        forall|x: usize|
            first.contains(x) <==> second.contains(x) && !spec_is_bound(selection, x as int),
        forall|c: Color| #[trigger] spec_count(cat, first, c) <= spec_count(cat, second, c),
        forall|c: Color| #[trigger]
            spec_count(cat, second, c) == spec_count(cat, spec_available(cat, enabled), c),
        forall|c: Color| #[trigger]
            spec_count(cat, first, c) == spec_count(
                cat,
                spec_unbound(selection, spec_available(cat, enabled)),
                c,
            ),
{
    let all = spec_available(cat, enabled);
    let free = spec_unbound(selection, all);
    lemma_available_upto(cat, enabled, cat.len() as int);
    lemma_unbound_no_duplicates(selection, all, all.len() as int);
    lemma_draw_members(first, free);
    lemma_draw_members(second, all);
    assert forall|x: usize| first.contains(x) <==> second.contains(x) && !spec_is_bound(
        selection,
        x as int,
    ) by {
        lemma_unbound_contains(selection, all, all.len() as int, x);
        if in_prefix(all, all.len() as int, x) {
            let w = choose|w: int| 0 <= w < all.len() && w < all.len() && all[w] == x;
            assert(all.contains(x));
        }
        if all.contains(x) {
            let w = choose|w: int| 0 <= w < all.len() && all[w] == x;
            assert(in_prefix(all, all.len() as int, x));
        }
    }
    assert forall|c: Color| #[trigger] spec_count(cat, first, c) <= spec_count(cat, second, c) by {
        lemma_count_draw(cat, first, free, c);
        lemma_count_draw(cat, second, all, c);
        lemma_count_unbound(selection, cat, all, c, all.len() as int);
        assert(all.subrange(0, all.len() as int) =~= all);
    }
    assert forall|c: Color| #[trigger]
        spec_count(cat, second, c) == spec_count(cat, all, c) by {
        lemma_count_draw(cat, second, all, c);
    }
    assert forall|c: Color| #[trigger]
        spec_count(cat, first, c) == spec_count(cat, free, c) by {
        lemma_count_draw(cat, first, free, c);
    }
}

/// The engine succeeds exactly where the available pool can serve the
/// selection, and its first attempt exactly where the candidate pool can:
/// what is drawn decides which monsters are bound, never whether any are.
pub proof fn lemma_compute_succeeds(
    selection: Seq<SlotRequest>,
    cat: Seq<MonsterModel>,
    enabled: Set<Content>,
    first: Seq<usize>,
    second: Seq<usize>,
)
    requires
        selection.len() <= usize::MAX,
        cat.len() <= usize::MAX,
        draws_ok(selection, cat, enabled, first, second),
    ensures
        spec_compute_with(selection, cat, first, second) is Some <==> spec_feasible(
            selection,
            cat,
            spec_available(cat, enabled),
        ),
        spec_assign(selection, cat, first) is Some <==> spec_feasible(
            selection,
            cat,
            spec_unbound(selection, spec_available(cat, enabled)),
        ),
{
    let all = spec_available(cat, enabled);
    let free = spec_unbound(selection, all);
    lemma_draws(selection, cat, enabled, first, second);
    lemma_assign_succeeds(selection, cat, first);
    lemma_assign_succeeds(selection, cat, second);
    assert(spec_feasible(selection, cat, first) <==> spec_feasible(selection, cat, free)) by {
        if spec_feasible(selection, cat, first) {
            assert forall|c: Color| #[trigger]
                spec_demand(selection, c) <= spec_count(cat, free, c) by {
                assert(spec_count(cat, first, c) == spec_count(cat, free, c));
            }
        }
        if spec_feasible(selection, cat, free) {
            assert forall|c: Color| #[trigger]
                spec_demand(selection, c) <= spec_count(cat, first, c) by {
                assert(spec_count(cat, first, c) == spec_count(cat, free, c));
            }
        }
    }
    assert(spec_feasible(selection, cat, second) <==> spec_feasible(selection, cat, all)) by {
        if spec_feasible(selection, cat, second) {
            assert forall|c: Color| #[trigger]
                spec_demand(selection, c) <= spec_count(cat, all, c) by {
                assert(spec_count(cat, second, c) == spec_count(cat, all, c));
            }
        }
        if spec_feasible(selection, cat, all) {
            assert forall|c: Color| #[trigger]
                spec_demand(selection, c) <= spec_count(cat, second, c) by {
                assert(spec_count(cat, second, c) == spec_count(cat, all, c));
            }
        }
    }
    if spec_feasible(selection, cat, first) {
        assert forall|c: Color| #[trigger]
            spec_demand(selection, c) <= spec_count(cat, second, c) by {
            assert(spec_count(cat, first, c) <= spec_count(cat, second, c));
        }
    }
}

/// What the engine hands out is an output served from the monsters of the
/// enabled packs; where the candidate pool can serve the selection, it is
/// served from the first draw, so from monsters that no slot is bound to.
pub proof fn lemma_compute_output(
    selection: Seq<SlotRequest>,
    cat: Seq<MonsterModel>,
    enabled: Set<Content>,
    first: Seq<usize>,
    second: Seq<usize>,
)
    requires
        selection.len() <= usize::MAX,
        cat.len() <= usize::MAX,
        draws_ok(selection, cat, enabled, first, second),
    ensures
        spec_compute_with(selection, cat, first, second) matches Some(out) ==> output_of(
            selection,
            cat,
            second,
            out,
        ),
        spec_compute_with(selection, cat, first, second) matches Some(out) ==> (spec_feasible(
            selection,
            cat,
            spec_unbound(selection, spec_available(cat, enabled)),
        ) ==> output_of(selection, cat, first, out)),
{
    lemma_draws(selection, cat, enabled, first, second);
    lemma_compute_succeeds(selection, cat, enabled, first, second);
    lemma_assign_output(selection, cat, first);
    lemma_assign_output(selection, cat, second);
    match spec_assign(selection, cat, first) {
        Some(out) => {
            let src = spec_source(selection);
            assert(output_of(selection, cat, first, out));
            assert forall|q: int| 0 <= q < out.len() implies entry_of(
                selection,
                cat,
                second,
                src[q],
                #[trigger] out[q],
            ) by {
                assert(entry_of(selection, cat, first, src[q], out[q]));
            }
            assert(output_of(selection, cat, second, out));
        },
        None => {},
    }
}

/// Whether the slots of a selection that are bound, and no exclusions, are
/// bound to different monsters.
pub open spec fn bound_distinct(selection: Seq<SlotRequest>) -> bool {
    forall|i: int, j: int|
        0 <= i < j < selection.len() && !(#[trigger] selection[i]).exclude && !(
        #[trigger] selection[j]).exclude && selection[i].monster is Some
            && selection[j].monster is Some ==> selection[i].monster != selection[j].monster
}

/// Where the candidate pool can serve the selection, and the slots that are
/// bound already are bound to different monsters, every entry of the output
/// is bound, and no two entries to the same monster.
pub proof fn lemma_compute_distinct(
    selection: Seq<SlotRequest>,
    cat: Seq<MonsterModel>,
    enabled: Set<Content>,
    first: Seq<usize>,
    second: Seq<usize>,
)
    requires
        selection.len() <= usize::MAX,
        cat.len() <= usize::MAX,
        draws_ok(selection, cat, enabled, first, second),
        spec_feasible(selection, cat, spec_unbound(selection, spec_available(cat, enabled))),
        bound_distinct(selection),
    ensures
        spec_compute_with(selection, cat, first, second) is Some,
        forall|q: int|
            0 <= q < spec_compute_with(selection, cat, first, second)->0.len() ==> (
            #[trigger] spec_compute_with(selection, cat, first, second)->0[q]).monster is Some,
        forall|q: int, r: int|
            0 <= q < r < spec_compute_with(selection, cat, first, second)->0.len() ==> (
            #[trigger] spec_compute_with(selection, cat, first, second)->0[q]).monster != (
            #[trigger] spec_compute_with(selection, cat, first, second)->0[r]).monster,
{
    lemma_draws(selection, cat, enabled, first, second);
    lemma_compute_succeeds(selection, cat, enabled, first, second);
    lemma_compute_output(selection, cat, enabled, first, second);
    let out = spec_compute_with(selection, cat, first, second)->0;
    let src = spec_source(selection);
    lemma_source_upto(selection, selection.len() as int);
    assert forall|q: int| 0 <= q < out.len() implies (#[trigger] out[q]).monster is Some by {
        assert(entry_of(selection, cat, first, src[q], out[q]));
    }
    assert forall|q: int, r: int| 0 <= q < r < out.len() implies (#[trigger] out[q]).monster != (
    #[trigger] out[r]).monster by {
        let i = src[q];
        let j = src[r];
        assert(i < j);
        assert(entry_of(selection, cat, first, i, out[q]));
        assert(entry_of(selection, cat, first, j, out[r]));
        if selection[i].monster is None && selection[j].monster is Some {
            assert(served(cat, first, selection[i], out[q]));
            assert(out[r] == selection[j]);
            if out[q].monster == out[r].monster {
                let id = out[q].monster->0->Listed_0;
                assert(selection[j].spec_binds(id as int));
                assert(spec_is_bound(selection, id as int));
                assert(first.contains(id));
            }
        } else if selection[i].monster is Some && selection[j].monster is None {
            assert(served(cat, first, selection[j], out[r]));
            assert(out[q] == selection[i]);
            if out[q].monster == out[r].monster {
                let id = out[r].monster->0->Listed_0;
                assert(selection[i].spec_binds(id as int));
                assert(spec_is_bound(selection, id as int));
                assert(first.contains(id));
            }
        } else if selection[i].monster is Some {
            assert(out[q] == selection[i]);
            assert(out[r] == selection[j]);
        }
    }
}

/// Every monster that the engine binds a slot to has the color class that
/// the slot declares; where that holds of the slots that are bound already,
/// it holds of every entry of the output, but for those that stand for a
/// special unit.
pub proof fn lemma_compute_colors(
    selection: Seq<SlotRequest>,
    cat: Seq<MonsterModel>,
    enabled: Set<Content>,
    first: Seq<usize>,
    second: Seq<usize>,
)
    requires
        selection.len() <= usize::MAX,
        cat.len() <= usize::MAX,
        draws_ok(selection, cat, enabled, first, second),
        roster_ok(cat, selection),
    ensures
        spec_compute_with(selection, cat, first, second) matches Some(out) ==> roster_ok(cat, out),
{
    lemma_compute_output(selection, cat, enabled, first, second);
    match spec_compute_with(selection, cat, first, second) {
        Some(out) => {
            let src = spec_source(selection);
            assert forall|q: int| 0 <= q < out.len() implies slot_ok(
                cat,
                #[trigger] out[q],
            ) by {
                assert(entry_of(selection, cat, second, src[q], out[q]));
                assert(slot_ok(cat, selection[src[q]]));
            }
        },
        None => {},
    }
}

/// An exclusion never stands in the output, whatever the pools hold and
/// whatever its slot is bound to.
pub proof fn lemma_exclusions_hidden(
    selection: Seq<SlotRequest>,
    cat: Seq<MonsterModel>,
    first: Seq<usize>,
    second: Seq<usize>,
)
    ensures
        spec_compute_with(selection, cat, first, second) matches Some(out) ==> forall|q: int|
            0 <= q < out.len() ==> !(#[trigger] out[q]).exclude,
{
    match spec_filled(selection, cat, first) {
        Some(f) => {
            lemma_shown_no_exclusion(f);
        },
        None => {
            match spec_filled(selection, cat, second) {
                Some(f) => {
                    lemma_shown_no_exclusion(f);
                },
                None => {},
            }
        },
    }
}

/// No exclusion stands among the slots that are shown.
pub proof fn lemma_shown_no_exclusion(filled: Seq<SlotRequest>)
    ensures
        forall|q: int|
            0 <= q < spec_shown(filled).len() ==> !(#[trigger] spec_shown(filled)[q]).exclude,
{
    lemma_source_upto(filled, filled.len() as int);
    let src = spec_source(filled);
    let out = spec_shown(filled);
    assert forall|q: int| 0 <= q < out.len() implies !(#[trigger] out[q]).exclude by {
        assert(out[q] == filled[src[q]]);
    }
}

/// Drawing again changes no entry that a preset fixed: two outputs of the
/// engine for one selection have the same length, an entry differs from its
/// counterpart in nothing but the monster, and not at all where either of
/// the two says that a preset fixed it, or where its slot was bound.
pub proof fn lemma_randomize_keeps_presets(
    selection: Seq<SlotRequest>,
    cat: Seq<MonsterModel>,
    first_a: Seq<usize>,
    second_a: Seq<usize>,
    first_b: Seq<usize>,
    second_b: Seq<usize>,
)
    requires
        selection.len() <= usize::MAX,
        first_a.no_duplicates(),
        second_a.no_duplicates(),
        first_b.no_duplicates(),
        second_b.no_duplicates(),
        spec_compute_with(selection, cat, first_a, second_a) is Some,
        spec_compute_with(selection, cat, first_b, second_b) is Some,
    ensures
        ({
            let a = spec_compute_with(selection, cat, first_a, second_a)->0;
            let b = spec_compute_with(selection, cat, first_b, second_b)->0;
            let src = spec_source(selection);
            &&& a.len() == b.len()
            &&& forall|q: int|
                0 <= q < a.len() ==> {
                    &&& (#[trigger] a[q]).number == b[q].number
                    &&& a[q].color == b[q].color
                    &&& a[q].level == b[q].level
                    &&& a[q].exclude == b[q].exclude
                    &&& a[q].preset == b[q].preset
                    &&& (a[q].preset || selection[src[q]].monster is Some ==> a[q] == b[q])
                }
        }),
{
    lemma_assign_output(selection, cat, first_a);
    lemma_assign_output(selection, cat, second_a);
    lemma_assign_output(selection, cat, first_b);
    lemma_assign_output(selection, cat, second_b);
    let a = spec_compute_with(selection, cat, first_a, second_a)->0;
    let b = spec_compute_with(selection, cat, first_b, second_b)->0;
    let src = spec_source(selection);
    let pool_a = if spec_assign(selection, cat, first_a) is Some {
        first_a
    } else {
        second_a
    };
    let pool_b = if spec_assign(selection, cat, first_b) is Some {
        first_b
    } else {
        second_b
    };
    assert(output_of(selection, cat, pool_a, a));
    assert(output_of(selection, cat, pool_b, b));
    assert forall|q: int| 0 <= q < a.len() implies {
        &&& (#[trigger] a[q]).number == b[q].number
        &&& a[q].color == b[q].color
        &&& a[q].level == b[q].level
        &&& a[q].exclude == b[q].exclude
        &&& a[q].preset == b[q].preset
        &&& (a[q].preset || selection[src[q]].monster is Some ==> a[q] == b[q])
    } by {
        assert(entry_of(selection, cat, pool_a, src[q], a[q]));
        assert(entry_of(selection, cat, pool_b, src[q], b[q]));
    }
}

/// After a change of the enabled packs no binding is stale: no slot of the
/// adjusted selection is bound to a monster that is out of play, the slots
/// are otherwise as they were, and no entry of the next output is bound to
/// a monster that is out of play.
pub proof fn lemma_no_stale_binding(
    before: Seq<SlotRequest>,
    cat: Seq<MonsterModel>,
    enabled: Set<Content>,
    first: Seq<usize>,
    second: Seq<usize>,
)
    requires
        before.len() <= usize::MAX,
        cat.len() <= usize::MAX,
        draws_ok(spec_adjust(cat, enabled, before), cat, enabled, first, second),
    ensures
        spec_adjust(cat, enabled, before).len() == before.len(),
        forall|i: int|
            0 <= i < before.len() ==> {
                let slot = #[trigger] spec_adjust(cat, enabled, before)[i];
                &&& !spec_out_of_play(cat, enabled, slot)
                &&& slot.monster == if spec_out_of_play(cat, enabled, before[i]) {
                    None
                } else {
                    before[i].monster
                }
                &&& slot.number == before[i].number
                &&& slot.color == before[i].color
                &&& slot.level == before[i].level
                &&& slot.exclude == before[i].exclude
                &&& slot.preset == before[i].preset
            },
        spec_compute_with(spec_adjust(cat, enabled, before), cat, first, second) matches Some(
            out,
        ) ==> forall|q: int|
            0 <= q < out.len() ==> !spec_out_of_play(cat, enabled, #[trigger] out[q]),
{
    let selection = spec_adjust(cat, enabled, before);
    lemma_draws(selection, cat, enabled, first, second);
    lemma_compute_output(selection, cat, enabled, first, second);
    match spec_compute_with(selection, cat, first, second) {
        Some(out) => {
            let src = spec_source(selection);
            assert forall|q: int| 0 <= q < out.len() implies !spec_out_of_play(
                cat,
                enabled,
                #[trigger] out[q],
            ) by {
                assert(entry_of(selection, cat, second, src[q], out[q]));
                let i = src[q];
                if selection[i].monster is Some {
                    assert(selection[i] == spec_adjust_slot(cat, enabled, before[i]));
                } else {
                    assert(served(cat, second, selection[i], out[q]));
                    let id = out[q].monster->0->Listed_0;
                    assert(second.contains(id));
                }
            }
        },
        None => {},
    }
}

/// An output served from a pool is also one served from any pool that
/// holds every monster of the first.
pub proof fn lemma_output_of_wider(
    selection: Seq<SlotRequest>,
    cat: Seq<MonsterModel>,
    pool: Seq<usize>,
    wider: Seq<usize>,
    out: Seq<SlotRequest>,
)
    requires
        output_of(selection, cat, pool, out),
        forall|x: usize| pool.contains(x) ==> wider.contains(x),
    ensures
        output_of(selection, cat, wider, out),
{
    let src = spec_source(selection);
    assert forall|q: int| 0 <= q < out.len() implies entry_of(
        selection,
        cat,
        wider,
        src[q],
        #[trigger] out[q],
    ) by {
        assert(entry_of(selection, cat, pool, src[q], out[q]));
    }
}

/// What the engine makes of a selection, whatever it draws: where the
/// available pool can serve the selection, an output served from the
/// available pool; else nothing.
pub proof fn lemma_computed(
    selection: Seq<SlotRequest>,
    cat: Seq<MonsterModel>,
    enabled: Set<Content>,
    first: Seq<usize>,
    second: Seq<usize>,
)
    requires
        selection.len() <= usize::MAX,
        cat.len() <= usize::MAX,
        draws_ok(selection, cat, enabled, first, second),
    ensures
        spec_compute_with(selection, cat, first, second) is Some <==> spec_feasible(
            selection,
            cat,
            spec_available(cat, enabled),
        ),
        spec_compute_with(selection, cat, first, second) matches Some(out) ==> output_of(
            selection,
            cat,
            spec_available(cat, enabled),
            out,
        ),
{
    lemma_compute_succeeds(selection, cat, enabled, first, second);
    lemma_compute_output(selection, cat, enabled, first, second);
    lemma_draw_members(second, spec_available(cat, enabled));
    match spec_compute_with(selection, cat, first, second) {
        Some(out) => {
            lemma_output_of_wider(selection, cat, second, spec_available(cat, enabled), out);
        },
        None => {},
    }
}

} // verus!
