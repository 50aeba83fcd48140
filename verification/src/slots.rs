//! Declared slots and their binding to registry entries.
//!
//! A device declares slots (console, uploader, actuator step); each
//! slot carries match criteria and at most one bound registry id.
//! The binding discipline: a free slot binds to the first matching
//! resource; a bound slot keeps its resource until that resource is
//! removed ("first binder wins"); removal merely clears the slot.
//! The consistency law: whenever a slot is bound to id `i`, the
//! registry holds an entry with id `i` whose properties satisfy the
//! slot's criteria.

use vstd::prelude::*;

use crate::properties::{pairs_view, Properties};
use crate::registry::{
    contains_id, find_entry, find_match, lemma_find_entry_props, lemma_find_match_props,
    lemma_remove_id_absent, lemma_remove_id_at, remove_id, Registry, RegistryEntry,
};

verus! {

/// A declared slot's configuration: anything that names match
/// criteria.
pub trait SlotConfigItem {
    /// The match criteria, mathematically.
    spec fn spec_criteria(&self) -> Seq<(Seq<char>, Seq<char>)>;

    /// The match criteria as required key/value pairs.
    fn criteria(&self) -> (r: &Vec<(String, String)>)
        ensures
            pairs_view(r@) == self.spec_criteria(),
    ;
}

/// A declared slot: its static configuration plus the id of the
/// registry entry currently bound to it, if any.
pub struct DeviceItem<C> {
    config: C,
    id: Option<u64>,
}

impl<C> DeviceItem<C> {
    /// The slot's static configuration.
    pub closed spec fn spec_config(self) -> C {
        self.config
    }

    /// The bound registry id, if any.
    pub closed spec fn spec_bound(self) -> Option<u64> {
        self.id
    }

    /// A fresh, unbound slot.
    pub fn new(config: C) -> (r: DeviceItem<C>)
        ensures
            r.spec_config() == config,
            r.spec_bound() is None,
    {
        DeviceItem { config, id: None }
    }

    /// The slot's configuration.
    pub fn config(&self) -> (r: &C)
        ensures
            *r == self.spec_config(),
    {
        &self.config
    }

    /// The bound id, if any.
    pub fn get(&self) -> (r: Option<u64>)
        ensures
            r == self.spec_bound(),
    {
        self.id
    }

    /// Overwrites the bound id.
    pub fn set(&mut self, id: Option<u64>)
        ensures
            final(self).spec_config() == old(self).spec_config(),
            final(self).spec_bound() == id,
    {
        self.id = id;
    }

    /// Clears the slot when it is bound to exactly `id`.
    pub fn unset_if_matches(&mut self, id: u64) -> (r: bool)
        ensures
            r == (old(self).spec_bound() == Some(id)),
            r ==> final(self).spec_config() == old(self).spec_config() && final(self).spec_bound()
                is None,
            !r ==> *final(self) == *old(self),
    {
        match self.id {
            Some(item_id) => {
                if item_id == id {
                    self.id = None;
                    true
                } else {
                    false
                }
            },
            None => false,
        }
    }
}

impl<C: SlotConfigItem> DeviceItem<C> {
    /// Binds a free slot to `id` when the offered properties satisfy
    /// the slot's criteria; a bound slot is never rebound.
    pub fn set_if_matches(&mut self, id: u64, properties: &Properties) -> (r: bool)
        ensures
            r == (old(self).spec_bound() is None && properties.spec_matches(
                old(self).spec_config().spec_criteria(),
            )),
            r ==> final(self).spec_config() == old(self).spec_config() && final(self).spec_bound()
                == Some(id),
            !r ==> *final(self) == *old(self),
    {
        if self.id.is_none() && properties.matches(self.config.criteria()) {
            self.id = Some(id);
            true
        } else {
            false
        }
    }
}

/// The slot-consistency law for one slot: a bound id points at an
/// entry of `s` whose properties satisfy the slot's criteria.
pub open spec fn slot_ok<C: SlotConfigItem, T>(item: DeviceItem<C>, s: Seq<RegistryEntry<T>>) -> bool {
    match item.spec_bound() {
        Some(id) => exists|k: int|
            0 <= k < s.len() && (#[trigger] s[k]).id == id && s[k].properties.spec_matches(
                item.spec_config().spec_criteria(),
            ),
        None => true,
    }
}

/// The slot-consistency law for a whole slot list.
pub open spec fn slots_ok<C: SlotConfigItem, T>(
    items: Seq<DeviceItem<C>>,
    s: Seq<RegistryEntry<T>>,
) -> bool {
    forall|i: int| 0 <= i < items.len() ==> slot_ok(#[trigger] items[i], s)
}

/// Whether the entry of `s` carrying `id` satisfies a slot's criteria.
pub open spec fn added_binds<C: SlotConfigItem, T>(
    s: Seq<RegistryEntry<T>>,
    id: u64,
    slot: DeviceItem<C>,
) -> bool {
    match find_entry(s, id) {
        Some(e) => e.properties.spec_matches(slot.spec_config().spec_criteria()),
        None => false,
    }
}

/// How one slot changes when the entry with id `id` is added.
pub open spec fn added_slot_update<C: SlotConfigItem, T>(
    before: DeviceItem<C>,
    after: DeviceItem<C>,
    s: Seq<RegistryEntry<T>>,
    id: u64,
) -> bool {
    if before.spec_bound() is None && added_binds(s, id, before) {
        after.spec_config() == before.spec_config() && after.spec_bound() == Some(id)
    } else {
        after == before
    }
}

/// How one slot changes when the entry with id `id` is removed.
pub open spec fn removed_slot_update<C>(
    before: DeviceItem<C>,
    after: DeviceItem<C>,
    id: u64,
) -> bool {
    if before.spec_bound() == Some(id) {
        after.spec_config() == before.spec_config() && after.spec_bound() is None
    } else {
        after == before
    }
}

/// How one slot changes when bound against a full snapshot: a free
/// slot takes the first matching entry; a bound slot keeps its id.
pub open spec fn snapshot_slot_update<C: SlotConfigItem, T>(
    before: DeviceItem<C>,
    after: DeviceItem<C>,
    s: Seq<RegistryEntry<T>>,
) -> bool {
    if before.spec_bound() is None && find_match(s, before.spec_config().spec_criteria()) is Some {
        after.spec_config() == before.spec_config() && after.spec_bound() == Some(
            find_match(s, before.spec_config().spec_criteria()).unwrap().id,
        )
    } else {
        after == before
    }
}

/// The whole outcome of applying an `Added { id }` change to a slot
/// list: every slot updated as `added_slot_update` says, and `newly`
/// holding exactly the indices that went from free to bound, in
/// increasing order.
pub open spec fn added_outcome<C: SlotConfigItem, T>(
    before: Seq<DeviceItem<C>>,
    after: Seq<DeviceItem<C>>,
    newly: Seq<usize>,
    s: Seq<RegistryEntry<T>>,
    id: u64,
) -> bool {
    &&& after.len() == before.len()
    &&& forall|i: int| 0 <= i < before.len() ==> added_slot_update(before[i], #[trigger] after[i], s, id)
    &&& forall|i: int|
        0 <= i < before.len() ==> (((#[trigger] before[i]).spec_bound() is None && added_binds(
            s,
            id,
            before[i],
        )) <==> newly.contains(i as usize))
    &&& forall|k: int, l: int| 0 <= k < l < newly.len() ==> newly[k] < newly[l]
    &&& forall|k: int| 0 <= k < newly.len() ==> (#[trigger] newly[k] as int) < before.len()
}

/// The whole outcome of binding a slot list against a snapshot:
/// every slot updated as `snapshot_slot_update` says, and `newly`
/// holding exactly the indices that went from free to bound, in
/// increasing order.
pub open spec fn snapshot_outcome<C: SlotConfigItem, T>(
    before: Seq<DeviceItem<C>>,
    after: Seq<DeviceItem<C>>,
    newly: Seq<usize>,
    s: Seq<RegistryEntry<T>>,
) -> bool {
    &&& after.len() == before.len()
    &&& forall|i: int| 0 <= i < before.len() ==> snapshot_slot_update(before[i], #[trigger] after[i], s)
    &&& forall|i: int|
        0 <= i < before.len() ==> (((#[trigger] before[i]).spec_bound() is None && find_match(
            s,
            before[i].spec_config().spec_criteria(),
        ) is Some) <==> newly.contains(i as usize))
    &&& forall|k: int, l: int| 0 <= k < l < newly.len() ==> newly[k] < newly[l]
    &&& forall|k: int| 0 <= k < newly.len() ==> (#[trigger] newly[k] as int) < before.len()
}

/// The whole outcome of applying a `Removed { id }` change to a slot
/// list.
pub open spec fn removed_outcome<C: SlotConfigItem>(
    before: Seq<DeviceItem<C>>,
    after: Seq<DeviceItem<C>>,
    changed: bool,
    id: u64,
) -> bool {
    &&& after.len() == before.len()
    &&& forall|i: int| 0 <= i < before.len() ==> removed_slot_update(before[i], #[trigger] after[i], id)
    &&& changed == exists|i: int|
        0 <= i < before.len() && (#[trigger] before[i]).spec_bound() == Some(id)
}

/// Applies an `Added { id }` registry change to a slot list: every
/// free slot whose criteria the added entry satisfies binds to `id`.
/// Returns the newly bound indices.  Preserves the slot-consistency
/// law.
pub fn bind_added<C: SlotConfigItem, T>(
    items: &mut Vec<DeviceItem<C>>,
    reg: &Registry<T>,
    id: u64,
) -> (newly: Vec<usize>)
    ensures
        added_outcome(old(items)@, final(items)@, newly@, reg.spec_entries(), id),
        slots_ok(old(items)@, reg.spec_entries()) ==> slots_ok(final(items)@, reg.spec_entries()),
{
    let ghost s = reg.spec_entries();
    let mut newly: Vec<usize> = Vec::new();
    let entry = match reg.lookup(id) {
        Some(e) => e,
        None => {
            proof {
                assert forall|i: int|
                    0 <= i < old(items)@.len() implies added_slot_update(
                    old(items)@[i],
                    #[trigger] final(items)@[i],
                    s,
                    id,
                ) by {}
            }
            return newly;
        },
    };
    proof {
        lemma_find_entry_props(s, id);
    }
    let n = items.len();
    let mut i: usize = 0;
    while i < n
        invariant
            n == old(items)@.len(),
            items@.len() == n,
            i <= n,
            s == reg.spec_entries(),
            find_entry(s, id) == Some(*entry),
            entry.id == id,
            exists|k: int| 0 <= k < s.len() && s[k] == *entry,
            forall|j: int|
                i <= j < n ==> #[trigger] items@[j] == old(items)@[j],
            forall|j: int|
                0 <= j < i ==> added_slot_update(old(items)@[j], #[trigger] items@[j], s, id),
            forall|j: int|
                0 <= j < i ==> (((#[trigger] old(items)@[j]).spec_bound() is None && added_binds(
                    s,
                    id,
                    old(items)@[j],
                )) <==> newly@.contains(j as usize)),
            forall|k: int| 0 <= k < newly@.len() ==> (#[trigger] newly@[k] as int) < i,
            forall|k: int, l: int| 0 <= k < l < newly@.len() ==> newly@[k] < newly@[l],
        decreases n - i,
    {
        let ghost newly_before = newly@;
        let slot = &mut items[i];
        let changed = slot.set_if_matches(id, &entry.properties);
        if changed {
            newly.push(i);
        }
        proof {
            assert forall|j: int|
                0 <= j < i + 1 implies (((#[trigger] old(items)@[j]).spec_bound() is None
                && added_binds(s, id, old(items)@[j])) <==> newly@.contains(j as usize)) by {
                if changed {
                    assert(newly@ == newly_before.push(i as usize));
                    if j < i {
                        if newly_before.contains(j as usize) {
                            let k = choose|k: int|
                                0 <= k < newly_before.len() && newly_before[k] == j as usize;
                            assert(newly@[k] == j as usize);
                        }
                        if newly@.contains(j as usize) {
                            let k = choose|k: int| 0 <= k < newly@.len() && newly@[k] == j as usize;
                            assert(k < newly_before.len() ==> newly_before.contains(j as usize));
                        }
                    } else {
                        assert(newly@[newly_before.len() as int] == i as usize);
                    }
                } else {
                    if j == i && newly@.contains(j as usize) {
                        let k = choose|k: int| 0 <= k < newly@.len() && newly@[k] == j as usize;
                        assert((newly@[k] as int) < i);
                    }
                }
            }
        }
        i = i + 1;
    }
    proof {
        assert forall|ii: int|
            0 <= ii < final(items)@.len() && slots_ok(old(items)@, s) implies slot_ok(
            #[trigger] final(items)@[ii],
            s,
        ) by {
            assert(added_slot_update(old(items)@[ii], final(items)@[ii], s, id));
            assert(slot_ok(old(items)@[ii], s));
        }
    }
    newly
}

/// Binds a slot list against a registry snapshot: every free slot
/// takes the first entry whose properties satisfy its criteria.
/// Returns the newly bound indices.  Establishes the
/// slot-consistency law for the slots it binds.
pub fn bind_snapshot<C: SlotConfigItem, T>(
    items: &mut Vec<DeviceItem<C>>,
    reg: &Registry<T>,
) -> (newly: Vec<usize>)
    ensures
        snapshot_outcome(old(items)@, final(items)@, newly@, reg.spec_entries()),
        slots_ok(old(items)@, reg.spec_entries()) ==> slots_ok(final(items)@, reg.spec_entries()),
{
    let ghost s = reg.spec_entries();
    let mut newly: Vec<usize> = Vec::new();
    let n = items.len();
    let mut i: usize = 0;
    while i < n
        invariant
            n == old(items)@.len(),
            items@.len() == n,
            i <= n,
            s == reg.spec_entries(),
            forall|j: int|
                i <= j < n ==> #[trigger] items@[j] == old(items)@[j],
            forall|j: int|
                0 <= j < i ==> snapshot_slot_update(old(items)@[j], #[trigger] items@[j], s),
            forall|j: int|
                0 <= j < i ==> (((#[trigger] old(items)@[j]).spec_bound() is None && find_match(
                    s,
                    old(items)@[j].spec_config().spec_criteria(),
                ) is Some) <==> newly@.contains(j as usize)),
            forall|k: int| 0 <= k < newly@.len() ==> (#[trigger] newly@[k] as int) < i,
            forall|k: int, l: int| 0 <= k < l < newly@.len() ==> newly@[k] < newly@[l],
        decreases n - i,
    {
        let ghost newly_before = newly@;
        let mut bound_now: bool = false;
        if items[i].get().is_none() {
            let found = reg.find(items[i].config().criteria());
            match found {
                Some(entry) => {
                    let slot = &mut items[i];
                    slot.set(Some(entry.id));
                    bound_now = true;
                },
                None => {},
            }
        }
        if bound_now {
            newly.push(i);
        }
        proof {
            assert(snapshot_slot_update(old(items)@[i as int], items@[i as int], s));
            assert forall|j: int|
                0 <= j < i + 1 implies (((#[trigger] old(items)@[j]).spec_bound() is None
                && find_match(s, old(items)@[j].spec_config().spec_criteria()) is Some)
                <==> newly@.contains(j as usize)) by {
                if bound_now {
                    assert(newly@ == newly_before.push(i as usize));
                    if j < i {
                        if newly_before.contains(j as usize) {
                            let k = choose|k: int|
                                0 <= k < newly_before.len() && newly_before[k] == j as usize;
                            assert(newly@[k] == j as usize);
                        }
                        if newly@.contains(j as usize) {
                            let k = choose|k: int| 0 <= k < newly@.len() && newly@[k] == j as usize;
                            assert(k < newly_before.len() ==> newly_before.contains(j as usize));
                        }
                    } else {
                        assert(newly@[newly_before.len() as int] == i as usize);
                    }
                } else {
                    if j == i && newly@.contains(j as usize) {
                        let k = choose|k: int| 0 <= k < newly@.len() && newly@[k] == j as usize;
                        assert((newly@[k] as int) < i);
                    }
                }
            }
        }
        i = i + 1;
    }
    proof {
        assert forall|ii: int|
            0 <= ii < final(items)@.len() && slots_ok(old(items)@, s) implies slot_ok(
            #[trigger] final(items)@[ii],
            s,
        ) by {
            assert(snapshot_slot_update(old(items)@[ii], final(items)@[ii], s));
            assert(slot_ok(old(items)@[ii], s));
            let before = old(items)@[ii];
            if before.spec_bound() is None && find_match(
                s,
                before.spec_config().spec_criteria(),
            ) is Some {
                lemma_find_match_props(s, before.spec_config().spec_criteria());
            }
        }
    }
    newly
}

/// Applies a `Removed { id }` registry change to a slot list: every
/// slot bound to `id` is cleared.
pub fn clear_removed<C: SlotConfigItem>(items: &mut Vec<DeviceItem<C>>, id: u64) -> (changed: bool)
    ensures
        removed_outcome(old(items)@, final(items)@, changed, id),
{
    let n = items.len();
    let mut changed: bool = false;
    let mut i: usize = 0;
    while i < n
        invariant
            n == old(items)@.len(),
            items@.len() == n,
            i <= n,
            forall|j: int|
                i <= j < n ==> #[trigger] items@[j] == old(items)@[j],
            forall|j: int|
                0 <= j < i ==> removed_slot_update(old(items)@[j], #[trigger] items@[j], id),
            changed == exists|j: int|
                0 <= j < i && (#[trigger] old(items)@[j]).spec_bound() == Some(id),
        decreases n - i,
    {
        let slot = &mut items[i];
        let cleared = slot.unset_if_matches(id);
        if cleared {
            changed = true;
        }
        i = i + 1;
    }
    changed
}

/// Law (slot consistency under growth): adding an entry to the
/// registry cannot break any slot's consistency.
pub proof fn lemma_slots_ok_grow<C: SlotConfigItem, T>(
    items: Seq<DeviceItem<C>>,
    s: Seq<RegistryEntry<T>>,
    e: RegistryEntry<T>,
)
    requires
        slots_ok(items, s),
    ensures
        slots_ok(items, s.push(e)),
{
    assert forall|i: int| 0 <= i < items.len() implies slot_ok(#[trigger] items[i], s.push(e)) by {
        assert(slot_ok(items[i], s));
        match items[i].spec_bound() {
            Some(id) => {
                let k = choose|k: int|
                    0 <= k < s.len() && (#[trigger] s[k]).id == id && s[k].properties.spec_matches(
                        items[i].spec_config().spec_criteria(),
                    );
                assert(s.push(e)[k] == s[k]);
            },
            None => {},
        }
    }
}

/// Law (slot consistency under removal): when the entry with id `id`
/// leaves the registry and every slot bound to `id` is cleared, every
/// slot is again consistent with the registry.  Needs the registry's
/// ids to be distinct, which its invariant provides.
pub proof fn lemma_slots_ok_shrink<C: SlotConfigItem, T>(
    before: Seq<DeviceItem<C>>,
    after: Seq<DeviceItem<C>>,
    s: Seq<RegistryEntry<T>>,
    id: u64,
)
    requires
        slots_ok(before, s),
        after.len() == before.len(),
        forall|i: int| 0 <= i < before.len() ==> removed_slot_update(before[i], #[trigger] after[i], id),
        forall|a: int, b: int| 0 <= a < b < s.len() ==> (#[trigger] s[a]).id < (#[trigger] s[b]).id,
    ensures
        slots_ok(after, remove_id(s, id)),
{
    let s2 = remove_id(s, id);
    if contains_id(s, id) {
        lemma_find_entry_props(s, id);
        let e = find_entry(s, id).unwrap();
        let j = choose|j: int| 0 <= j < s.len() && s[j] == e;
        assert forall|a: int| 0 <= a < j implies (#[trigger] s[a]).id != id by {
            assert(s[a].id < s[j].id);
        }
        lemma_remove_id_at(s, id, j);
        assert forall|i: int| 0 <= i < after.len() implies slot_ok(#[trigger] after[i], s2) by {
            assert(removed_slot_update(before[i], after[i], id));
            assert(slot_ok(before[i], s));
            match after[i].spec_bound() {
                Some(b) => {
                    assert(after[i] == before[i]);
                    let k = choose|k: int|
                        0 <= k < s.len() && (#[trigger] s[k]).id == b
                            && s[k].properties.spec_matches(
                            before[i].spec_config().spec_criteria(),
                        );
                    assert(b != id);
                    assert(k != j);
                    if k < j {
                        assert(s2[k] == s[k]);
                    } else {
                        assert(s2[k - 1] == s[k]);
                    }
                },
                None => {},
            }
        }
    } else {
        lemma_find_entry_props(s, id);
        lemma_remove_id_absent(s, id);
        assert forall|i: int| 0 <= i < after.len() implies slot_ok(#[trigger] after[i], s2) by {
            assert(removed_slot_update(before[i], after[i], id));
            assert(slot_ok(before[i], s));
            match after[i].spec_bound() {
                Some(b) => {
                    assert(after[i] == before[i]);
                },
                None => {},
            }
        }
    }
}

} // verus!
