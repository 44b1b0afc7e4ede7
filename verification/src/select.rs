//! The assignment engine: it binds the open slots of a selection to
//! monsters of a pool, each slot to a monster of its color class and no
//! monster to two slots.

use crate::game::{Color, Content};
use crate::laws::{lemma_assign_succeeds, lemma_computed, output_of, spec_feasible};
use crate::monster::{MonsterCatalog, MonsterModel};
use crate::pool::{available, spec_available, spec_unbound, unbound, ContentSet};
use crate::slot::{MonsterRef, SlotRequest};
use rand::seq::SliceRandom;
use rand::SeedableRng;
use rand_chacha::ChaCha12Rng;
use vstd::prelude::*;

verus! {

/// Whether two slots ask for the same color class and level tier.
pub open spec fn spec_same_key(a: SlotRequest, b: SlotRequest) -> bool {
    a.color == b.color && a.level == b.level
}

/// Whether two slots ask for the same color class and level tier.
#[verifier::when_used_as_spec(spec_same_key)]
pub fn same_key(a: SlotRequest, b: SlotRequest) -> (r: bool)
    ensures
        r == spec_same_key(a, b),
{
    a.color == b.color && a.level == b.level
}

/// Whether the slot at `i` is open and the first open slot of the selection
/// that asks for its color class and level tier.
pub open spec fn spec_is_first(selection: Seq<SlotRequest>, i: int) -> bool {
    selection[i].spec_is_open() && forall|j: int|
        0 <= j < i ==> !((#[trigger] selection[j]).spec_is_open() && spec_same_key(
            selection[j],
            selection[i],
        ))
}

/// Whether the slot at `i` is open and the first open slot of the selection
/// that asks for its color class and level tier.
pub fn is_first(selection: &[SlotRequest], i: usize) -> (r: bool)
    requires
        i < selection@.len(),
    ensures
        r == spec_is_first(selection@, i as int),
{
    if !selection[i].is_open() {
        return false;
    }
    let mut j: usize = 0;
    while j < i
        invariant
            j <= i < selection@.len(),
            forall|k: int|
                0 <= k < j ==> !((#[trigger] selection@[k]).spec_is_open() && spec_same_key(
                    selection@[k],
                    selection@[i as int],
                )),
        decreases i - j,
    {
        if selection[j].is_open() && same_key(selection[j], selection[i]) {
            return false;
        }
        j += 1;
    }
    true
}

/// The open slots from `i` up to, not including, `j` that ask for the color
/// class and level tier of the slot at `i`, in rising order.
pub open spec fn spec_group_upto(selection: Seq<SlotRequest>, i: int, j: int) -> Seq<usize>
    decreases j - i,
{
    if j <= i {
        seq![]
    } else {
        let rest = spec_group_upto(selection, i, j - 1);
        if selection[j - 1].spec_is_open() && spec_same_key(selection[j - 1], selection[i]) {
            rest.push((j - 1) as usize)
        } else {
            rest
        }
    }
}

/// The demand of the first `i` slots, unit by unit: the open slots in the
/// order in which they are served.  The open slots that ask for one color
/// class and level tier stand together, in rising order; the groups stand in
/// the order of their first slots.
pub open spec fn spec_order_upto(selection: Seq<SlotRequest>, i: int) -> Seq<usize>
    decreases i,
{
    if i <= 0 {
        seq![]
    } else {
        let rest = spec_order_upto(selection, i - 1);
        if spec_is_first(selection, i - 1) {
            rest + spec_group_upto(selection, i - 1, selection.len() as int)
        } else {
            rest
        }
    }
}

/// The demand of a selection, unit by unit: its open slots in the order in
/// which they are served.
pub open spec fn spec_order(selection: Seq<SlotRequest>) -> Seq<usize> {
    spec_order_upto(selection, selection.len() as int)
}

/// The demand of a selection, unit by unit: its open slots in the order in
/// which they are served.
pub fn order(selection: &[SlotRequest]) -> (r: Vec<usize>)
    ensures
        r@ == spec_order(selection@),
{
    let n = selection.len();
    let mut r: Vec<usize> = Vec::new();
    let mut i: usize = 0;
    while i < n
        invariant
            i <= n,
            n == selection@.len(),
            r@ == spec_order_upto(selection@, i as int),
        decreases n - i,
    {
        if is_first(selection, i) {
            let ghost before = r@;
            let mut j: usize = i;
            while j < n
                invariant
                    i <= j <= n,
                    n == selection@.len(),
                    r@ == before + spec_group_upto(selection@, i as int, j as int),
                decreases n - j,
            {
                if selection[j].is_open() && same_key(selection[j], selection[i]) {
                    r.push(j);
                    assert(r@ =~= before + spec_group_upto(selection@, i as int, j + 1));
                }
                j += 1;
            }
        }
        i += 1;
    }
    r
}

/// Whether the monster at position `id` of the catalog has a color class.
pub open spec fn spec_has_color(cat: Seq<MonsterModel>, id: usize, color: Color) -> bool {
    id < cat.len() && cat[id as int].color == color
}

/// The place in the pool, from `from` on, of the first monster of a color
/// class.
pub open spec fn spec_first_of_color(
    cat: Seq<MonsterModel>,
    pool: Seq<usize>,
    color: Color,
    from: int,
) -> Option<int>
    decreases pool.len() - from,
{
    if from >= pool.len() {
        None
    } else if spec_has_color(cat, pool[from], color) {
        Some(from)
    } else {
        spec_first_of_color(cat, pool, color, from + 1)
    }
}

/// What `spec_first_of_color` finds is a place of the pool that holds a
/// monster of the color class; where it finds nothing, the pool holds none
/// from `from` on.
pub proof fn lemma_first_of_color(
    cat: Seq<MonsterModel>,
    pool: Seq<usize>,
    color: Color,
    from: int,
)
    requires
        0 <= from,
    ensures
        match spec_first_of_color(cat, pool, color, from) {
            Some(p) => from <= p < pool.len() && spec_has_color(cat, pool[p], color),
            None => forall|q: int|
                from <= q < pool.len() ==> !spec_has_color(cat, #[trigger] pool[q], color),
        },
    decreases pool.len() - from,
{
    if from < pool.len() && !spec_has_color(cat, pool[from], color) {
        lemma_first_of_color(cat, pool, color, from + 1);
    }
}

/// The place in the pool of the first monster of a color class.
pub fn first_of_color(catalog: &MonsterCatalog, pool: &Vec<usize>, color: Color) -> (r: Option<
    usize,
>)
    ensures
        match r {
            Some(p) => spec_first_of_color(catalog@, pool@, color, 0) == Some(p as int) && p
                < pool@.len(),
            None => spec_first_of_color(catalog@, pool@, color, 0) is None,
        },
{
    let mut p: usize = 0;
    while p < pool.len()
        invariant
            p <= pool@.len(),
            spec_first_of_color(catalog@, pool@, color, 0) == spec_first_of_color(
                catalog@,
                pool@,
                color,
                p as int,
            ),
        decreases pool@.len() - p,
    {
        match catalog.get(pool[p]) {
            Some(m) => {
                if m.color == color {
                    return Some(p);
                }
            },
            None => {},
        }
        p += 1;
    }
    None
}

/// A slot bound to the monster at position `id` of the catalog by the
/// engine: nothing else of the slot changes, but that no preset fixed it.
pub open spec fn spec_bind(slot: SlotRequest, id: usize) -> SlotRequest {
    SlotRequest {
        number: slot.number,
        color: slot.color,
        level: slot.level,
        monster: Some(MonsterRef::Listed(id)),
        exclude: slot.exclude,
        preset: false,
    }
}

/// A slot bound to the monster at position `id` of the catalog by the
/// engine.
#[verifier::when_used_as_spec(spec_bind)]
pub fn bind(slot: SlotRequest, id: usize) -> (r: SlotRequest)
    ensures
        r == spec_bind(slot, id),
{
    SlotRequest {
        number: slot.number,
        color: slot.color,
        level: slot.level,
        monster: Some(MonsterRef::Listed(id)),
        exclude: slot.exclude,
        preset: false,
    }
}

/// The slots after the units of the demand from `u` on are served from the
/// pool: each unit takes the first monster of the pool that has the color
/// class that its slot declares, and that monster leaves the pool.  Nothing
/// is handed out where a unit finds no monster, or its slot declares no
/// color class.
pub open spec fn spec_fill_from(
    cat: Seq<MonsterModel>,
    pool: Seq<usize>,
    filled: Seq<SlotRequest>,
    order: Seq<usize>,
    u: int,
) -> Option<Seq<SlotRequest>>
    decreases order.len() - u,
{
    if u >= order.len() {
        Some(filled)
    } else if order[u] >= filled.len() {
        None
    } else {
        let at = order[u] as int;
        match filled[at].color {
            None => None,
            Some(color) => match spec_first_of_color(cat, pool, color, 0) {
                None => None,
                Some(p) => spec_fill_from(
                    cat,
                    pool.remove(p),
                    filled.update(at, spec_bind(filled[at], pool[p])),
                    order,
                    u + 1,
                ),
            },
        }
    }
}

/// The slots among the first `k` that are no exclusions, in order.
pub open spec fn spec_shown_upto(filled: Seq<SlotRequest>, k: int) -> Seq<SlotRequest>
    decreases k,
{
    if k <= 0 {
        seq![]
    } else {
        let rest = spec_shown_upto(filled, k - 1);
        if filled[k - 1].exclude {
            rest
        } else {
            rest.push(filled[k - 1])
        }
    }
}

/// The slots that are no exclusions, in order.
pub open spec fn spec_shown(filled: Seq<SlotRequest>) -> Seq<SlotRequest> {
    spec_shown_upto(filled, filled.len() as int)
}

/// The slots that are no exclusions, in order.
pub fn shown(filled: &[SlotRequest]) -> (r: Vec<SlotRequest>)
    ensures
        r@ == spec_shown(filled@),
{
    let mut r: Vec<SlotRequest> = Vec::new();
    let mut k: usize = 0;
    while k < filled.len()
        invariant
            k <= filled@.len(),
            r@ == spec_shown_upto(filled@, k as int),
        decreases filled@.len() - k,
    {
        if !filled[k].exclude {
            r.push(filled[k]);
        }
        k += 1;
    }
    r
}

/// The output of one attempt on a pool: every slot of the selection that is
/// no exclusion, in order, the bound ones as they are, the open ones bound
/// to monsters of the pool; or nothing, where the pool does not hold a
/// monster for every open slot.
pub open spec fn spec_assign(
    selection: Seq<SlotRequest>,
    cat: Seq<MonsterModel>,
    pool: Seq<usize>,
) -> Option<Seq<SlotRequest>> {
    match spec_fill_from(cat, pool, selection, spec_order(selection), 0) {
        None => None,
        Some(filled) => Some(spec_shown(filled)),
    }
}

/// Makes one attempt on a pool, in the order in which the pool stands.
pub fn assign(selection: &[SlotRequest], catalog: &MonsterCatalog, pool: Vec<usize>) -> (r:
    Option<Vec<SlotRequest>>)
    ensures
        match r {
            Some(out) => spec_assign(selection@, catalog@, pool@) == Some(out@),
            None => spec_assign(selection@, catalog@, pool@) is None,
        },
        r is Some <==> spec_feasible(selection@, catalog@, pool@),
{
    let n = selection.len();
    proof {
        assert(selection@.len() == n);
        lemma_assign_succeeds(selection@, catalog@, pool@);
    }
    let units = order(selection);
    let mut rest = pool;
    let ghost start = rest@;
    let mut filled: Vec<SlotRequest> = Vec::new();
    let mut k: usize = 0;
    while k < selection.len()
        invariant
            k <= selection@.len(),
            filled@ == selection@.subrange(0, k as int),
        decreases selection@.len() - k,
    {
        filled.push(selection[k]);
        k += 1;
        assert(filled@ =~= selection@.subrange(0, k as int));
    }
    assert(filled@ =~= selection@);
    let mut u: usize = 0;
    while u < units.len()
        invariant
            u <= units@.len(),
            units@ == spec_order(selection@),
            start == pool@,
            spec_assign(selection@, catalog@, start) is Some <==> spec_feasible(
                selection@,
                catalog@,
                start,
            ),
            spec_assign(selection@, catalog@, start) == match spec_fill_from(
                catalog@,
                rest@,
                filled@,
                units@,
                u as int,
            ) {
                None => None,
                Some(f) => Some(spec_shown(f)),
            },
        decreases units@.len() - u,
    {
        let at = units[u];
        if at >= filled.len() {
            return None;
        }
        let slot = filled[at];
        let color = match slot.color {
            Some(c) => c,
            None => {
                return None;
            },
        };
        let p = match first_of_color(catalog, &rest, color) {
            Some(p) => p,
            None => {
                return None;
            },
        };
        let id = rest.remove(p);
        filled.set(at, bind(slot, id));
        u += 1;
    }
    Some(shown(filled.as_slice()))
}

/// The output of the engine on two drawn pools: that of the attempt on the
/// first, else that of the attempt on the second, else nothing.
pub open spec fn spec_compute_with(
    selection: Seq<SlotRequest>,
    cat: Seq<MonsterModel>,
    first: Seq<usize>,
    second: Seq<usize>,
) -> Option<Seq<SlotRequest>> {
    match spec_assign(selection, cat, first) {
        Some(out) => Some(out),
        None => spec_assign(selection, cat, second),
    }
}

/// Runs the engine on two pools that are drawn already: the first attempt
/// is made on `first`, and only where it fails the second is made on
/// `second`.  The output is a function of the selection, the catalog and
/// the two draws alone.
pub fn compute_with(
    selection: &[SlotRequest],
    catalog: &MonsterCatalog,
    first: Vec<usize>,
    second: Vec<usize>,
) -> (r: Option<Vec<SlotRequest>>)
    ensures
        match r {
            Some(out) => spec_compute_with(selection@, catalog@, first@, second@) == Some(out@),
            None => spec_compute_with(selection@, catalog@, first@, second@) is None,
        },
        r is Some <==> spec_feasible(selection@, catalog@, first@) || spec_feasible(
            selection@,
            catalog@,
            second@,
        ),
{
    match assign(selection, catalog, first) {
        Some(out) => Some(out),
        None => assign(selection, catalog, second),
    }
}

/// `rand::seq::SliceRandom::shuffle` on the pool, with the generator of
/// `rand::rng()`: the pool is reordered in place by swaps, so afterwards it
/// holds what it held before, each monster as often, in an order that
/// nothing is said about.
#[verifier::external_body]
fn shuffle(pool: &mut Vec<usize>)
    ensures
        final(pool)@.to_multiset() == old(pool)@.to_multiset(),
{
    pool.shuffle(&mut rand::rng());
}

/// Whether `drawn` holds what `pool` holds, each monster as often, in any
/// order.
pub open spec fn is_draw_of(drawn: Seq<usize>, pool: Seq<usize>) -> bool {
    drawn.to_multiset() == pool.to_multiset()
}

/// Whether what the engine returned is the given output.
pub open spec fn computed(r: Option<Vec<SlotRequest>>, output: Option<Seq<SlotRequest>>) -> bool {
    match r {
        Some(out) => output == Some(out@),
        None => output is None,
    }
}

/// Whether two pools are draws for the two attempts of the engine: the
/// first holds the candidate pool, the second the available pool, each in
/// some order.
pub open spec fn draws_ok(
    selection: Seq<SlotRequest>,
    cat: Seq<MonsterModel>,
    enabled: Set<Content>,
    first: Seq<usize>,
    second: Seq<usize>,
) -> bool {
    &&& is_draw_of(first, spec_unbound(selection, spec_available(cat, enabled)))
    &&& is_draw_of(second, spec_available(cat, enabled))
}

/// Runs the engine.  The first attempt is made on a shuffle of the
/// candidate pool: the monsters of the enabled packs that no slot of the
/// selection is bound to.  Where it fails, a second attempt is made on a
/// fresh shuffle of the available pool: all monsters of the enabled packs.
/// Where that fails too, nothing is returned.
///
/// Whether an output is returned does not hang on the shuffles: one is
/// returned exactly where the available pool holds, of every color class,
/// as many monsters as there are open slots that declare it, and every open
/// slot declares one.  The output holds the slots that are no exclusions,
/// in order, the bound ones as they are, the open ones bound to monsters of
/// the available pool, each to one of its color class and no two to the
/// same.
pub fn compute(selection: &[SlotRequest], enabled: &ContentSet, catalog: &MonsterCatalog) -> (r:
    Option<Vec<SlotRequest>>)
    ensures
        exists|first: Seq<usize>, second: Seq<usize>|
            draws_ok(selection@, catalog@, enabled@, first, second) && #[trigger] computed(
                r,
                spec_compute_with(selection@, catalog@, first, second),
            ),
        r is Some <==> spec_feasible(selection@, catalog@, spec_available(catalog@, enabled@)),
        r matches Some(out) ==> output_of(
            selection@,
            catalog@,
            spec_available(catalog@, enabled@),
            out@,
        ),
{
    let count = catalog.len();
    let n = selection.len();
    assert(catalog@.len() == count && selection@.len() == n);
    let all = available(catalog, enabled);
    let mut first = unbound(selection, &all);
    shuffle(&mut first);
    let ghost first_draw = first@;
    match assign(selection, catalog, first) {
        Some(out) => {
            let r = Some(out);
            assert(draws_ok(selection@, catalog@, enabled@, first_draw, all@) && computed(
                r,
                spec_compute_with(selection@, catalog@, first_draw, all@),
            ));
            proof {
                lemma_computed(selection@, catalog@, enabled@, first_draw, all@);
            }
            r
        },
        None => {
            let mut second = all;
            shuffle(&mut second);
            let ghost second_draw = second@;
            let r = assign(selection, catalog, second);
            assert(draws_ok(selection@, catalog@, enabled@, first_draw, second_draw) && computed(
                r,
                spec_compute_with(selection@, catalog@, first_draw, second_draw),
            ));
            proof {
                lemma_computed(selection@, catalog@, enabled@, first_draw, second_draw);
            }
            r
        },
    }
}

/// The order in which a seed puts a pool: what `SliceRandom::shuffle` makes
/// of the pool with a `ChaCha12Rng` that `seed_from_u64` made of the seed.
pub uninterp spec fn seeded_order(pool: Seq<usize>, seed: u64) -> Seq<usize>;

/// `rand::seq::SliceRandom::shuffle` on the pool, with a generator that
/// `rand_chacha::ChaCha12Rng::seed_from_u64` makes of the seed.  The
/// generator and the seeding are deterministic and the same on every
/// machine, and the shuffle draws its indices in a way that does not hang on
/// the machine's word size, so the order afterwards depends on the pool and
/// the seed alone.  The pool is reordered in place by swaps, so it holds
/// what it held before, each monster as often.
#[verifier::external_body]
fn shuffle_seeded(pool: &mut Vec<usize>, seed: u64)
    ensures
        final(pool)@ == seeded_order(old(pool)@, seed),
        final(pool)@.to_multiset() == old(pool)@.to_multiset(),
{
    pool.shuffle(&mut ChaCha12Rng::seed_from_u64(seed));
}

/// The seed of the second draw: the seed after the given one, and 0 after
/// the greatest.
pub open spec fn spec_second_seed(seed: u64) -> u64 {
    if seed == u64::MAX {
        0
    } else {
        (seed + 1) as u64
    }
}

/// The seed of the second draw.
#[verifier::when_used_as_spec(spec_second_seed)]
pub fn second_seed(seed: u64) -> (r: u64)
    ensures
        r == spec_second_seed(seed),
{
    if seed == u64::MAX {
        0
    } else {
        seed + 1
    }
}

/// The output of the engine under a seed: that on the candidate pool in the
/// order in which the seed puts it, and the available pool in the order in
/// which the second seed puts it.
pub open spec fn spec_compute_seeded(
    selection: Seq<SlotRequest>,
    cat: Seq<MonsterModel>,
    enabled: Set<Content>,
    seed: u64,
) -> Option<Seq<SlotRequest>> {
    spec_compute_with(
        selection,
        cat,
        seeded_order(spec_unbound(selection, spec_available(cat, enabled)), seed),
        seeded_order(spec_available(cat, enabled), spec_second_seed(seed)),
    )
}

/// Runs the engine with shuffles that a seed decides: the first attempt is
/// made on the candidate pool, shuffled under the seed; where it fails, the
/// second is made on the available pool, shuffled under the second seed.
/// The output is a function of the selection, the enabled packs, the
/// catalog and the seed alone, so the same seed gives the same output again.
/// It is an output such as `compute` gives: one is returned exactly where
/// the available pool can serve the selection.
pub fn compute_seeded(
    selection: &[SlotRequest],
    enabled: &ContentSet,
    catalog: &MonsterCatalog,
    seed: u64,
) -> (r: Option<Vec<SlotRequest>>)
    ensures
        computed(r, spec_compute_seeded(selection@, catalog@, enabled@, seed)),
        r is Some <==> spec_feasible(selection@, catalog@, spec_available(catalog@, enabled@)),
        r matches Some(out) ==> output_of(
            selection@,
            catalog@,
            spec_available(catalog@, enabled@),
            out@,
        ),
{
    let count = catalog.len();
    let n = selection.len();
    assert(catalog@.len() == count && selection@.len() == n);
    let all = available(catalog, enabled);
    let mut first = unbound(selection, &all);
    shuffle_seeded(&mut first, seed);
    let ghost first_draw = first@;
    match assign(selection, catalog, first) {
        Some(out) => {
            proof {
                assert(draws_ok(selection@, catalog@, enabled@, first_draw, all@));
                lemma_computed(selection@, catalog@, enabled@, first_draw, all@);
            }
            Some(out)
        },
        None => {
            let mut second = all;
            shuffle_seeded(&mut second, second_seed(seed));
            let ghost second_draw = second@;
            proof {
                assert(draws_ok(selection@, catalog@, enabled@, first_draw, second_draw));
                lemma_computed(selection@, catalog@, enabled@, first_draw, second_draw);
            }
            assign(selection, catalog, second)
        },
    }
}

} // verus!
