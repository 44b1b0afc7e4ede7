//! The pools from which monsters are drawn: the monsters of the enabled
//! expansion packs, and those among them that no slot is bound to.

use crate::game::Content;
use crate::monster::{MonsterCatalog, MonsterModel};
use crate::slot::SlotRequest;
use vstd::prelude::*;

verus! {

/// A set of expansion packs: those that are enabled.
#[derive(Clone, Debug)]
pub struct ContentSet {
    /// The packs of the set, in any order; a pack may stand more than once.
    pub packs: Vec<Content>,
}

impl View for ContentSet {
    type V = Set<Content>;

    open spec fn view(&self) -> Set<Content> {
        self.packs@.to_set()
    }
}

impl ContentSet {
    /// The empty set.
    pub fn new() -> (r: ContentSet)
        ensures
            r@ == Set::<Content>::empty(),
    {
        let r = ContentSet { packs: Vec::new() };
        assert(r@ =~= Set::<Content>::empty());
        r
    }

    /// Whether a pack is in the set.
    pub fn contains(&self, content: Content) -> (r: bool)
        ensures
            r == self@.contains(content),
    {
        let mut i: usize = 0;
        while i < self.packs.len()
            invariant
                i <= self.packs@.len(),
                forall|k: int| 0 <= k < i ==> self.packs@[k] != content,
            decreases self.packs@.len() - i,
        {
            if self.packs[i] == content {
                return true;
            }
            i += 1;
        }
        false
    }

    /// Puts a pack into the set.
    pub fn insert(&mut self, content: Content)
        ensures
            final(self)@ == old(self)@.insert(content),
    {
        self.packs.push(content);
        assert(self.packs@.to_set() =~= old(self).packs@.to_set().insert(content)) by {
            assert forall|c: Content| self.packs@.contains(c) <==> old(self).packs@.contains(c)
                || c == content by {
                if old(self).packs@.contains(c) {
                    let before = old(self).packs@;
                    let k = choose|k: int| 0 <= k < before.len() && before[k] == c;
                    assert(self.packs@[k] == c);
                }
                if c == content {
                    assert(self.packs@[self.packs@.len() - 1] == c);
                }
            }
        }
    }

    /// Takes a pack out of the set.
    pub fn remove(&mut self, content: Content)
        ensures
            final(self)@ == old(self)@.remove(content),
    {
        let mut kept: Vec<Content> = Vec::new();
        let mut i: usize = 0;
        while i < self.packs.len()
            invariant
                i <= self.packs@.len(),
                forall|c: Content|
                    kept@.contains(c) <==> c != content && self.packs@.subrange(
                        0,
                        i as int,
                    ).contains(c),
            decreases self.packs@.len() - i,
        {
            let c = self.packs[i];
            let ghost before = kept@;
            if c != content {
                kept.push(c);
            }
            i += 1;
            assert forall|d: Content|
                kept@.contains(d) <==> d != content && self.packs@.subrange(
                    0,
                    i as int,
                ).contains(d) by {
                let now = self.packs@.subrange(0, i as int);
                let prev = self.packs@.subrange(0, i - 1);
                if kept@.contains(d) {
                    let k = choose|k: int| 0 <= k < kept@.len() && kept@[k] == d;
                    if k < before.len() {
                        assert(before[k] == d);
                        assert(before.contains(d));
                        let q = choose|q: int| 0 <= q < prev.len() && prev[q] == d;
                        assert(now[q] == d);
                    } else {
                        assert(now[i - 1] == d);
                    }
                }
                if d != content && now.contains(d) {
                    let q = choose|q: int| 0 <= q < now.len() && now[q] == d;
                    if q < i - 1 {
                        assert(prev[q] == d);
                        assert(prev.contains(d));
                        assert(before.contains(d));
                        let k = choose|k: int| 0 <= k < before.len() && before[k] == d;
                        assert(kept@[k] == d);
                    } else {
                        assert(kept@[kept@.len() - 1] == d);
                    }
                }
            }
        }
        assert(self.packs@.subrange(0, i as int) =~= self.packs@);
        assert(kept@.to_set() =~= self.packs@.to_set().remove(content));
        self.packs = kept;
    }

    /// Puts a pack into the set where it is not in it, and takes it out
    /// where it is.
    pub fn toggle(&mut self, content: Content)
        ensures
            final(self)@ == if old(self)@.contains(content) {
                old(self)@.remove(content)
            } else {
                old(self)@.insert(content)
            },
    {
        if self.contains(content) {
            self.remove(content);
        } else {
            self.insert(content);
        }
    }
}

/// The positions, among the first `k` of the catalog, of the monsters of
/// the enabled packs, in rising order.
pub open spec fn spec_available_upto(cat: Seq<MonsterModel>, enabled: Set<Content>, k: int) -> Seq<
    usize,
>
    decreases k,
{
    if k <= 0 {
        seq![]
    } else {
        let rest = spec_available_upto(cat, enabled, k - 1);
        if enabled.contains(cat[k - 1].content) {
            rest.push((k - 1) as usize)
        } else {
            rest
        }
    }
}

/// The available pool: the positions of the monsters of the enabled packs,
/// in rising order.
pub open spec fn spec_available(cat: Seq<MonsterModel>, enabled: Set<Content>) -> Seq<usize> {
    spec_available_upto(cat, enabled, cat.len() as int)
}

/// The available pool holds each monster of an enabled pack once, and
/// nothing else.
pub proof fn lemma_available_upto(cat: Seq<MonsterModel>, enabled: Set<Content>, k: int)
    requires
        0 <= k <= cat.len() <= usize::MAX,
    ensures
        forall|id: usize|
            spec_available_upto(cat, enabled, k).contains(id) <==> id < k && enabled.contains(
                cat[id as int].content,
            ),
        spec_available_upto(cat, enabled, k).no_duplicates(),
    decreases k,
{
    if k > 0 {
        lemma_available_upto(cat, enabled, k - 1);
        let rest = spec_available_upto(cat, enabled, k - 1);
        let now = spec_available_upto(cat, enabled, k);
        if enabled.contains(cat[k - 1].content) {
            assert(now[now.len() - 1] == (k - 1) as usize);
            assert forall|id: usize| now.contains(id) <==> id < k && enabled.contains(
                cat[id as int].content,
            ) by {
                if now.contains(id) {
                    let q = choose|q: int| 0 <= q < now.len() && now[q] == id;
                    if q < rest.len() {
                        assert(rest[q] == id);
                        assert(rest.contains(id));
                    }
                }
                if id < k && enabled.contains(cat[id as int].content) {
                    if id < k - 1 {
                        assert(rest.contains(id));
                        let q = choose|q: int| 0 <= q < rest.len() && rest[q] == id;
                        assert(now[q] == id);
                    }
                }
            }
            assert forall|a: int, b: int| 0 <= a < now.len() && 0 <= b < now.len() && a
                != b implies now[a] != now[b] by {
                if a < rest.len() {
                    assert(rest.contains(rest[a]));
                }
                if b < rest.len() {
                    assert(rest.contains(rest[b]));
                }
            }
        }
    }
}

/// The available pool over a catalog and a set of enabled packs.
pub fn available(catalog: &MonsterCatalog, enabled: &ContentSet) -> (r: Vec<usize>)
    ensures
        r@ == spec_available(catalog@, enabled@),
{
    let mut r: Vec<usize> = Vec::new();
    let mut k: usize = 0;
    while k < catalog.monsters.len()
        invariant
            k <= catalog@.len(),
            catalog@.len() == catalog.monsters@.len(),
            r@ == spec_available_upto(catalog@, enabled@, k as int),
        decreases catalog@.len() - k,
    {
        if enabled.contains(catalog.monsters[k].content) {
            r.push(k);
        }
        k += 1;
    }
    r
}

/// Whether a slot of the selection is bound to the monster at position
/// `id`.
pub open spec fn spec_is_bound(selection: Seq<SlotRequest>, id: int) -> bool {
    exists|i: int| 0 <= i < selection.len() && (#[trigger] selection[i]).spec_binds(id)
}

/// Whether a slot of the selection is bound to the monster at position
/// `id`.
pub fn is_bound(selection: &[SlotRequest], id: usize) -> (r: bool)
    ensures
        r == spec_is_bound(selection@, id as int),
{
    let mut i: usize = 0;
    while i < selection.len()
        invariant
            i <= selection@.len(),
            forall|k: int| 0 <= k < i ==> !(#[trigger] selection@[k]).spec_binds(id as int),
        decreases selection@.len() - i,
    {
        if selection[i].binds(id) {
            return true;
        }
        i += 1;
    }
    false
}

/// The monsters among the first `k` of a pool that no slot of the selection
/// is bound to, in the order of the pool.
pub open spec fn spec_unbound_upto(selection: Seq<SlotRequest>, pool: Seq<usize>, k: int) -> Seq<
    usize,
>
    decreases k,
{
    if k <= 0 {
        seq![]
    } else {
        let rest = spec_unbound_upto(selection, pool, k - 1);
        if spec_is_bound(selection, pool[k - 1] as int) {
            rest
        } else {
            rest.push(pool[k - 1])
        }
    }
}

/// The monsters of a pool that no slot of the selection is bound to.
pub open spec fn spec_unbound(selection: Seq<SlotRequest>, pool: Seq<usize>) -> Seq<usize> {
    spec_unbound_upto(selection, pool, pool.len() as int)
}

/// The candidate pool: the available monsters that no slot of the selection
/// is bound to.
pub open spec fn spec_candidates(
    selection: Seq<SlotRequest>,
    cat: Seq<MonsterModel>,
    enabled: Set<Content>,
) -> Seq<usize> {
    spec_unbound(selection, spec_available(cat, enabled))
}

/// Whether a monster stands among the first `k` of a pool.
pub open spec fn in_prefix(pool: Seq<usize>, k: int, id: usize) -> bool {
    exists|w: int| 0 <= w < k && w < pool.len() && pool[w] == id
}

/// A monster stands among the unbound ones of the first `k` of a pool
/// exactly where it stands among those first `k` and no slot is bound to it.
pub proof fn lemma_unbound_contains(
    selection: Seq<SlotRequest>,
    pool: Seq<usize>,
    k: int,
    id: usize,
)
    requires
        0 <= k <= pool.len(),
    ensures
        spec_unbound_upto(selection, pool, k).contains(id) <==> in_prefix(pool, k, id)
            && !spec_is_bound(selection, id as int),
    decreases k,
{
    let now = spec_unbound_upto(selection, pool, k);
    if k > 0 {
        lemma_unbound_contains(selection, pool, k - 1, id);
        let rest = spec_unbound_upto(selection, pool, k - 1);
        if now.contains(id) {
            let q = choose|q: int| 0 <= q < now.len() && now[q] == id;
            if q < rest.len() {
                assert(rest[q] == id);
                assert(rest.contains(id));
                let w = choose|w: int| 0 <= w < k - 1 && w < pool.len() && pool[w] == id;
                assert(0 <= w < k && pool[w] == id);
            } else {
                assert(pool[k - 1] == id);
            }
        }
        if in_prefix(pool, k, id) && !spec_is_bound(selection, id as int) {
            let w = choose|w: int| 0 <= w < k && w < pool.len() && pool[w] == id;
            if w < k - 1 {
                assert(in_prefix(pool, k - 1, id));
                assert(rest.contains(id));
                let q = choose|q: int| 0 <= q < rest.len() && rest[q] == id;
                assert(now[q] == id);
            } else {
                assert(now[now.len() - 1] == id);
            }
        }
    }
}

/// The unbound monsters of a pool without repetitions are without
/// repetitions.
pub proof fn lemma_unbound_no_duplicates(selection: Seq<SlotRequest>, pool: Seq<usize>, k: int)
    requires
        0 <= k <= pool.len(),
        pool.no_duplicates(),
    ensures
        spec_unbound_upto(selection, pool, k).no_duplicates(),
    decreases k,
{
    let now = spec_unbound_upto(selection, pool, k);
    if k > 0 {
        lemma_unbound_no_duplicates(selection, pool, k - 1);
        let rest = spec_unbound_upto(selection, pool, k - 1);
        let last = pool[k - 1];
        if !spec_is_bound(selection, last as int) {
            lemma_unbound_contains(selection, pool, k - 1, last);
            if rest.contains(last) {
                let w = choose|w: int| 0 <= w < k - 1 && w < pool.len() && pool[w] == last;
                assert(pool[w] == pool[k - 1]);
                assert(false);
            }
            assert forall|a: int, b: int| 0 <= a < now.len() && 0 <= b < now.len() && a
                != b implies now[a] != now[b] by {
                if a < rest.len() {
                    assert(rest.contains(rest[a]));
                }
                if b < rest.len() {
                    assert(rest.contains(rest[b]));
                }
            }
        }
    }
}

/// The monsters of a pool that no slot of the selection is bound to.
pub fn unbound(selection: &[SlotRequest], pool: &Vec<usize>) -> (r: Vec<usize>)
    ensures
        r@ == spec_unbound(selection@, pool@),
{
    let mut r: Vec<usize> = Vec::new();
    let mut k: usize = 0;
    while k < pool.len()
        invariant
            k <= pool@.len(),
            r@ == spec_unbound_upto(selection@, pool@, k as int),
        decreases pool@.len() - k,
    {
        if !is_bound(selection, pool[k]) {
            r.push(pool[k]);
        }
        k += 1;
    }
    r
}

} // verus!
