//! Typed, monotonically-numbered resource registries.
//!
//! A registry stores `(id, properties, item)` triples for one resource
//! kind.  Ids are assigned monotonically starting at 1 and are never
//! reused within the life of a registry.  Every mutation is appended
//! to a change log; a [`Monitor`] is a cursor into that log, so a
//! subscriber that first takes a snapshot with [`Registry::contents`]
//! and then drains its monitor sees every state the registry passes
//! through.  (A lossy broadcast layered on top of this log must
//! re-reconcile from a fresh snapshot after a lag.)

use vstd::prelude::*;

use crate::properties::Properties;

verus! {

/// One registered resource: its id, its properties and the item
/// handle supplied by the provider.
pub struct RegistryEntry<T> {
    pub id: u64,
    pub properties: Properties,
    pub item: T,
}

/// A change broadcast to registry subscribers.
pub enum RegistryChange {
    Added { id: u64, properties: Properties },
    Removed { id: u64 },
}

/// The mathematical reading of a [`RegistryChange`].
pub enum ChangeView {
    Added { id: u64, properties: Seq<(Seq<char>, Seq<char>)> },
    Removed { id: u64 },
}

impl View for RegistryChange {
    type V = ChangeView;

    open spec fn view(&self) -> ChangeView {
        match self {
            RegistryChange::Added { id, properties } => (ChangeView::Added {
                id: *id,
                properties: properties@,
            }),
            RegistryChange::Removed { id } => (ChangeView::Removed { id: *id }),
        }
    }
}

impl RegistryChange {
    /// A copy with the same mathematical contents.
    pub fn duplicate(&self) -> (r: RegistryChange)
        ensures
            r@ == self@,
    {
        match self {
            RegistryChange::Added { id, properties } => (RegistryChange::Added {
                id: *id,
                properties: properties.duplicate(),
            }),
            RegistryChange::Removed { id } => (RegistryChange::Removed { id: *id }),
        }
    }
}

/// First entry of `s` whose id is `id`.
pub open spec fn find_entry<T>(s: Seq<RegistryEntry<T>>, id: u64) -> Option<RegistryEntry<T>>
    decreases s.len(),
{
    if s.len() == 0 {
        None
    } else if s[0].id == id {
        Some(s[0])
    } else {
        find_entry(s.drop_first(), id)
    }
}

/// Whether some entry of `s` has id `id`.
pub open spec fn contains_id<T>(s: Seq<RegistryEntry<T>>, id: u64) -> bool {
    find_entry(s, id) is Some
}

/// First entry of `s` whose properties satisfy `required`.
pub open spec fn find_match<T>(
    s: Seq<RegistryEntry<T>>,
    required: Seq<(Seq<char>, Seq<char>)>,
) -> Option<RegistryEntry<T>>
    decreases s.len(),
{
    if s.len() == 0 {
        None
    } else if s[0].properties.spec_matches(required) {
        Some(s[0])
    } else {
        find_match(s.drop_first(), required)
    }
}

/// First entry of `s` whose name property equals `name`.
pub open spec fn find_named<T>(s: Seq<RegistryEntry<T>>, name: Seq<char>) -> Option<
    RegistryEntry<T>,
>
    decreases s.len(),
{
    if s.len() == 0 {
        None
    } else if s[0].properties.spec_name() == name && s[0].properties.wf() {
        Some(s[0])
    } else {
        find_named(s.drop_first(), name)
    }
}

/// `s` without its first entry of id `id` (unchanged when absent).
pub open spec fn remove_id<T>(s: Seq<RegistryEntry<T>>, id: u64) -> Seq<RegistryEntry<T>>
    decreases s.len(),
{
    if s.len() == 0 {
        s
    } else if s[0].id == id {
        s.drop_first()
    } else {
        seq![s[0]] + remove_id(s.drop_first(), id)
    }
}

/// What `find_entry` finds: an entry of `s` carrying the id, or a
/// guarantee that no entry carries it.
pub proof fn lemma_find_entry_props<T>(s: Seq<RegistryEntry<T>>, id: u64)
    ensures
        match find_entry(s, id) {
            Some(e) => e.id == id && exists|k: int| 0 <= k < s.len() && s[k] == e,
            None => forall|k: int| 0 <= k < s.len() ==> (#[trigger] s[k]).id != id,
        },
    decreases s.len(),
{
    if s.len() > 0 {
        if s[0].id == id {
            assert(s[0] == find_entry(s, id).unwrap());
        } else {
            lemma_find_entry_props(s.drop_first(), id);
            match find_entry(s.drop_first(), id) {
                Some(e) => {
                    let k = choose|k: int|
                        0 <= k < s.drop_first().len() && s.drop_first()[k] == e;
                    assert(s[k + 1] == e);
                },
                None => {
                    assert forall|k: int| 0 <= k < s.len() implies (#[trigger] s[k]).id != id by {
                        if k > 0 {
                            assert(s.drop_first()[k - 1] == s[k]);
                        }
                    }
                },
            }
        }
    }
}

/// What `find_match` finds: a matching entry of `s`, or a guarantee
/// that no entry matches.
pub proof fn lemma_find_match_props<T>(s: Seq<RegistryEntry<T>>, required: Seq<(Seq<char>, Seq<char>)>)
    ensures
        match find_match(s, required) {
            Some(e) => e.properties.spec_matches(required) && exists|k: int|
                0 <= k < s.len() && s[k] == e,
            None => forall|k: int|
                0 <= k < s.len() ==> !(#[trigger] s[k]).properties.spec_matches(required),
        },
    decreases s.len(),
{
    if s.len() > 0 {
        if s[0].properties.spec_matches(required) {
            assert(s[0] == find_match(s, required).unwrap());
        } else {
            lemma_find_match_props(s.drop_first(), required);
            match find_match(s.drop_first(), required) {
                Some(e) => {
                    let k = choose|k: int|
                        0 <= k < s.drop_first().len() && s.drop_first()[k] == e;
                    assert(s[k + 1] == e);
                },
                None => {
                    assert forall|k: int|
                        0 <= k < s.len() implies !(#[trigger] s[k]).properties.spec_matches(
                        required,
                    ) by {
                        if k > 0 {
                            assert(s.drop_first()[k - 1] == s[k]);
                        }
                    }
                },
            }
        }
    }
}

/// The properties a logged `Added` change carries have a name.
pub open spec fn change_props_wf(c: ChangeView) -> bool {
    match c {
        ChangeView::Added { id, properties } => crate::properties::lookup_key(properties, "name"@)
            is Some,
        ChangeView::Removed { .. } => true,
    }
}

/// A cursor into a registry's change log.
pub struct Monitor {
    pub pos: usize,
}

/// A registry of resources of one kind.
pub struct Registry<T> {
    next_id: u64,
    entries: Vec<RegistryEntry<T>>,
    changes: Vec<RegistryChange>,
    issued: Ghost<Seq<u64>>,
}

impl<T> Registry<T> {
    /// The live entries, in insertion order.
    pub closed spec fn spec_entries(self) -> Seq<RegistryEntry<T>> {
        self.entries@
    }

    /// The change log since creation.
    pub closed spec fn spec_changes(self) -> Seq<ChangeView> {
        self.changes@.map_values(|c: RegistryChange| c@)
    }

    /// The id the next `add` will assign.
    pub closed spec fn spec_next_id(self) -> u64 {
        self.next_id
    }

    /// Every id ever returned by `add`, in order of issue.
    pub closed spec fn spec_issued(self) -> Seq<u64> {
        self.issued@
    }

    /// Registry invariant: ids start at 1, grow strictly along the
    /// entry order and along the issue history, and stay below the
    /// next id to assign; every entry's properties carry a name.
    pub open spec fn wf(self) -> bool {
        &&& 1 <= self.spec_next_id()
        &&& forall|i: int|
            0 <= i < self.spec_entries().len() ==> {
                &&& 1 <= (#[trigger] self.spec_entries()[i]).id < self.spec_next_id()
                &&& self.spec_entries()[i].properties.wf()
            }
        &&& forall|i: int, j: int|
            0 <= i < j < self.spec_entries().len() ==> (#[trigger] self.spec_entries()[i]).id < (
            #[trigger] self.spec_entries()[j]).id
        &&& forall|i: int|
            0 <= i < self.spec_issued().len() ==> (#[trigger] self.spec_issued()[i])
                < self.spec_next_id()
        &&& forall|i: int, j: int|
            0 <= i < j < self.spec_issued().len() ==> (#[trigger] self.spec_issued()[i]) < (
            #[trigger] self.spec_issued()[j])
        &&& forall|i: int|
            0 <= i < self.spec_changes().len() ==> change_props_wf(#[trigger] self.spec_changes()[i])
    }

    /// Ids can still be assigned (a machine limit, never reached in
    /// practice).
    pub open spec fn can_add(self) -> bool {
        self.spec_next_id() < u64::MAX
    }

    /// Whether another id can still be assigned (callers test this
    /// before `add`).
    pub fn can_accept(&self) -> (r: bool)
        ensures
            r == self.can_add(),
    {
        self.next_id < u64::MAX
    }

    /// An empty registry whose first id will be 1.
    pub fn new() -> (r: Registry<T>)
        ensures
            r.wf(),
            r.spec_entries() == Seq::<RegistryEntry<T>>::empty(),
            r.spec_changes() == Seq::<ChangeView>::empty(),
            r.spec_issued() == Seq::<u64>::empty(),
            r.spec_next_id() == 1,
    {
        let r = Registry {
            next_id: 1u64,
            entries: Vec::new(),
            changes: Vec::new(),
            issued: Ghost(Seq::empty()),
        };
        proof {
            assert(r.spec_changes() =~= Seq::<ChangeView>::empty());
        }
        r
    }

    /// Assigns the next unused id, inserts the triple and logs an
    /// `Added` change.  Ids grow strictly: the new id is larger than
    /// every id this registry has ever issued.
    pub fn add(&mut self, properties: Properties, item: T) -> (id: u64)
        requires
            old(self).wf(),
            old(self).can_add(),
            properties.wf(),
        ensures
            final(self).wf(),
            1 <= id,
            id == old(self).spec_next_id(),
            final(self).spec_next_id() == id + 1,
            final(self).spec_entries() == old(self).spec_entries().push(
                (RegistryEntry { id, properties, item }),
            ),
            final(self).spec_changes() == old(self).spec_changes().push(
                (ChangeView::Added { id, properties: properties@ }),
            ),
            final(self).spec_issued() == old(self).spec_issued().push(id),
            forall|i: int|
                0 <= i < old(self).spec_issued().len() ==> (#[trigger] old(self).spec_issued()[i])
                    < id,
    {
        let id = self.next_id;
        self.next_id = id + 1;
        let ghost old_changes = self.spec_changes();
        let props_copy = properties.duplicate();
        self.entries.push(RegistryEntry { id, properties, item });
        self.changes.push(RegistryChange::Added { id, properties: props_copy });
        proof {
            self.issued@ = self.issued@.push(id);
            assert(self.spec_changes() =~= old_changes.push(
                (ChangeView::Added { id, properties: properties@ }),
            ));
            let s = old(self).spec_entries();
            let s2 = self.spec_entries();
            assert forall|a: int, b: int| 0 <= a < b < s2.len() implies (#[trigger] s2[a]).id < (
            #[trigger] s2[b]).id by {
                assert(a < s.len() ==> s2[a] == s[a]);
                assert(b < s.len() ==> s2[b] == s[b]);
                assert(b == s.len() ==> s2[b].id == id);
            }
            assert forall|a: int| 0 <= a < s2.len() implies {
                &&& 1 <= (#[trigger] s2[a]).id < self.spec_next_id()
                &&& s2[a].properties.wf()
            } by {
                assert(a < s.len() ==> s2[a] == s[a]);
                assert(a == s.len() ==> s2[a].id == id && s2[a].properties == properties);
            }
            assert forall|a: int|
                0 <= a < self.spec_changes().len() implies change_props_wf(
                #[trigger] self.spec_changes()[a],
            ) by {
                if a < old_changes.len() {
                    assert(change_props_wf(old(self).spec_changes()[a]));
                    assert(self.spec_changes()[a] == old_changes[a]);
                } else {
                    assert(self.spec_changes()[a] == (ChangeView::Added {
                        id,
                        properties: properties@,
                    }));
                    assert(crate::properties::lookup_key(properties@, "name"@) is Some);
                }
            }
            let t = old(self).spec_issued();
            let t2 = self.spec_issued();
            assert forall|a: int, b: int| 0 <= a < b < t2.len() implies (#[trigger] t2[a]) < (
            #[trigger] t2[b]) by {
                assert(a < t.len() ==> t2[a] == t[a]);
                assert(b < t.len() ==> t2[b] == t[b]);
                assert(b == t.len() ==> t2[b] == id);
            }
            assert forall|a: int| 0 <= a < t2.len() implies (#[trigger] t2[a])
                < self.spec_next_id() by {
                assert(a < t.len() ==> t2[a] == t[a]);
                assert(a == t.len() ==> t2[a] == id);
            }
        }
        id
    }

    /// Removes the entry with id `id` if present and logs a `Removed`
    /// change; on an absent id nothing changes at all.
    pub fn remove(&mut self, id: u64)
        requires
            old(self).wf(),
        ensures
            final(self).wf(),
            final(self).spec_next_id() == old(self).spec_next_id(),
            final(self).spec_issued() == old(self).spec_issued(),
            final(self).spec_entries() == remove_id(old(self).spec_entries(), id),
            contains_id(old(self).spec_entries(), id) ==> final(self).spec_changes() == old(
                self,
            ).spec_changes().push((ChangeView::Removed { id })),
            !contains_id(old(self).spec_entries(), id) ==> *final(self) == *old(self),
    {
        let ghost s = self.spec_entries();
        let ghost old_changes = self.spec_changes();
        let n = self.entries.len();
        let mut i: usize = 0;
        while i < n
            invariant
                n == self.entries.len(),
                i <= n,
                *self == *old(self),
                s == self.spec_entries(),
                old(self).wf(),
                s == old(self).spec_entries(),
                old_changes == self.spec_changes(),
                old_changes == old(self).spec_changes(),
                self.spec_next_id() == old(self).spec_next_id(),
                self.spec_issued() == old(self).spec_issued(),
                forall|j: int| 0 <= j < i ==> (#[trigger] s[j]).id != id,
            decreases n - i,
        {
            if self.entries[i].id == id {
                self.entries.remove(i);
                self.changes.push(RegistryChange::Removed { id });
                proof {
                    lemma_remove_id_at(s, id, i as int);
                    lemma_find_entry_at(s, id, i as int);
                    assert(self.spec_changes() =~= old_changes.push((ChangeView::Removed { id })));
                    assert forall|a: int|
                        0 <= a < self.spec_changes().len() implies change_props_wf(
                        #[trigger] self.spec_changes()[a],
                    ) by {
                        if a < old_changes.len() {
                            assert(self.spec_changes()[a] == old_changes[a]);
                        } else {
                            assert(self.spec_changes()[a] == (ChangeView::Removed { id }));
                        }
                    }
                    assert forall|a: int|
                        0 <= a < self.spec_entries().len() implies {
                        &&& 1 <= (#[trigger] self.spec_entries()[a]).id < self.spec_next_id()
                        &&& self.spec_entries()[a].properties.wf()
                    } by {
                        assert(self.spec_entries()[a] == if a < i as int {
                            s[a]
                        } else {
                            s[a + 1]
                        });
                    }
                    assert forall|a: int, b: int|
                        0 <= a < b < self.spec_entries().len() implies (
                    #[trigger] self.spec_entries()[a]).id < (
                    #[trigger] self.spec_entries()[b]).id by {
                        assert(self.spec_entries()[a] == if a < i as int {
                            s[a]
                        } else {
                            s[a + 1]
                        });
                        assert(self.spec_entries()[b] == if b < i as int {
                            s[b]
                        } else {
                            s[b + 1]
                        });
                    }
                }
                return ;
            }
            i = i + 1;
        }
        proof {
            lemma_find_entry_props(s, id);
            lemma_remove_id_absent(s, id);
        }
    }

    /// Point lookup by id.
    pub fn lookup(&self, id: u64) -> (r: Option<&RegistryEntry<T>>)
        ensures
            match r {
                Some(e) => find_entry(self.spec_entries(), id) == Some(*e),
                None => find_entry(self.spec_entries(), id) is None,
            },
    {
        let ghost s = self.spec_entries();
        let n = self.entries.len();
        let mut i: usize = 0;
        proof {
            assert(s.skip(0) =~= s);
        }
        while i < n
            invariant
                n == self.entries.len(),
                i <= n,
                s == self.spec_entries(),
                find_entry(s, id) == find_entry(s.skip(i as int), id),
            decreases n - i,
        {
            proof {
                assert(s.skip(i as int)[0] == s[i as int]);
            }
            if self.entries[i].id == id {
                return Some(&self.entries[i]);
            }
            proof {
                assert(s.skip(i as int).drop_first() =~= s.skip(i as int + 1));
            }
            i = i + 1;
        }
        proof {
            assert(s.skip(n as int) =~= Seq::empty());
        }
        None
    }

    /// First entry whose properties satisfy every required pair.
    pub fn find(&self, required: &Vec<(String, String)>) -> (r: Option<&RegistryEntry<T>>)
        ensures
            match r {
                Some(e) => find_match(
                    self.spec_entries(),
                    crate::properties::pairs_view(required@),
                ) == Some(*e),
                None => find_match(self.spec_entries(), crate::properties::pairs_view(required@))
                    is None,
            },
    {
        let ghost s = self.spec_entries();
        let ghost rv = crate::properties::pairs_view(required@);
        let n = self.entries.len();
        let mut i: usize = 0;
        proof {
            assert(s.skip(0) =~= s);
        }
        while i < n
            invariant
                n == self.entries.len(),
                i <= n,
                s == self.spec_entries(),
                rv == crate::properties::pairs_view(required@),
                find_match(s, rv) == find_match(s.skip(i as int), rv),
            decreases n - i,
        {
            proof {
                assert(s.skip(i as int)[0] == s[i as int]);
            }
            if self.entries[i].properties.matches(required) {
                return Some(&self.entries[i]);
            }
            proof {
                assert(s.skip(i as int).drop_first() =~= s.skip(i as int + 1));
            }
            i = i + 1;
        }
        proof {
            assert(s.skip(n as int) =~= Seq::empty());
        }
        None
    }

    /// First entry whose name property equals `name`.
    pub fn find_by_name(&self, name: &String) -> (r: Option<&RegistryEntry<T>>)
        requires
            self.wf(),
        ensures
            match r {
                Some(e) => find_named(self.spec_entries(), name@) == Some(*e),
                None => find_named(self.spec_entries(), name@) is None,
            },
    {
        let ghost s = self.spec_entries();
        let n = self.entries.len();
        let mut i: usize = 0;
        proof {
            assert(s.skip(0) =~= s);
        }
        while i < n
            invariant
                n == self.entries.len(),
                i <= n,
                s == self.spec_entries(),
                self.wf(),
                find_named(s, name@) == find_named(s.skip(i as int), name@),
            decreases n - i,
        {
            proof {
                assert(s.skip(i as int)[0] == s[i as int]);
            }
            let entry_name = self.entries[i].properties.name();
            if *entry_name == *name {
                return Some(&self.entries[i]);
            }
            proof {
                assert(s.skip(i as int).drop_first() =~= s.skip(i as int + 1));
            }
            i = i + 1;
        }
        proof {
            assert(s.skip(n as int) =~= Seq::empty());
        }
        None
    }

    /// The position of the entry with id `id`, if present.
    pub fn index_of(&self, id: u64) -> (r: Option<usize>)
        ensures
            match r {
                Some(i) => (i as int) < self.spec_entries().len() && self.spec_entries()[
                    i as int
                ].id == id,
                None => !contains_id(self.spec_entries(), id),
            },
    {
        let ghost s = self.spec_entries();
        let n = self.entries.len();
        let mut i: usize = 0;
        while i < n
            invariant
                n == self.entries.len(),
                i <= n,
                s == self.spec_entries(),
                forall|j: int| 0 <= j < i ==> (#[trigger] s[j]).id != id,
            decreases n - i,
        {
            if self.entries[i].id == id {
                return Some(i);
            }
            i = i + 1;
        }
        proof {
            lemma_find_entry_props(s, id);
        }
        None
    }

    /// Mutable access to the item stored at position `i`, for the
    /// single writer that owns the entry's state (a device's binding
    /// engine).  The entry's id and properties, the change log and
    /// every other entry stay as they are.
    pub fn item_at_mut(&mut self, i: usize) -> (r: &mut T)
        requires
            i < old(self).spec_entries().len(),
        ensures
            *r == old(self).spec_entries()[i as int].item,
            final(self).spec_entries().len() == old(self).spec_entries().len(),
            final(self).spec_entries()[i as int].id == old(self).spec_entries()[i as int].id,
            final(self).spec_entries()[i as int].properties == old(self).spec_entries()[
                i as int
            ].properties,
            final(self).spec_entries()[i as int].item == *final(r),
            forall|k: int|
                0 <= k < old(self).spec_entries().len() && k != i ==> final(self).spec_entries()[k]
                    == #[trigger] old(self).spec_entries()[k],
            final(self).spec_changes() == old(self).spec_changes(),
            final(self).spec_next_id() == old(self).spec_next_id(),
            final(self).spec_issued() == old(self).spec_issued(),
            old(self).wf() ==> final(self).wf(),
    {
        let r = &mut self.entries[i].item;
        r
    }

    /// A consistent point-in-time enumeration of all triples.
    pub fn contents(&self) -> (r: &Vec<RegistryEntry<T>>)
        ensures
            r@ == self.spec_entries(),
    {
        &self.entries
    }

    /// A subscription to changes after this instant.  To see every
    /// state, subscribe first and read `contents` afterwards.
    pub fn monitor(&self) -> (m: Monitor)
        ensures
            m.pos == self.spec_changes().len(),
    {
        Monitor { pos: self.changes.len() }
    }

    /// The next change after the monitor's cursor, if any has been
    /// logged yet; advances the cursor past it.
    pub fn next_change(&self, m: &mut Monitor) -> (r: Option<&RegistryChange>)
        ensures
            old(m).pos < self.spec_changes().len() ==> {
                &&& r is Some
                &&& r.unwrap()@ == self.spec_changes()[old(m).pos as int]
                &&& final(m).pos == old(m).pos + 1
            },
            old(m).pos >= self.spec_changes().len() ==> r is None && final(m).pos == old(m).pos,
    {
        if m.pos < self.changes.len() {
            let r = &self.changes[m.pos];
            m.pos = m.pos + 1;
            Some(r)
        } else {
            None
        }
    }
}

/// Removing an absent id leaves the entry sequence unchanged.
pub proof fn lemma_remove_id_absent<T>(s: Seq<RegistryEntry<T>>, id: u64)
    requires
        forall|k: int| 0 <= k < s.len() ==> (#[trigger] s[k]).id != id,
    ensures
        remove_id(s, id) == s,
    decreases s.len(),
{
    if s.len() > 0 {
        assert forall|k: int|
            0 <= k < s.drop_first().len() implies (#[trigger] s.drop_first()[k]).id != id by {
            assert(s.drop_first()[k] == s[k + 1]);
        }
        lemma_remove_id_absent(s.drop_first(), id);
        assert(remove_id(s, id) =~= s);
    }
}

/// When the first entry with id `id` stands at index `i`, removing the
/// id removes exactly that index.
pub proof fn lemma_remove_id_at<T>(s: Seq<RegistryEntry<T>>, id: u64, i: int)
    requires
        0 <= i < s.len(),
        s[i].id == id,
        forall|j: int| 0 <= j < i ==> (#[trigger] s[j]).id != id,
    ensures
        remove_id(s, id) == s.remove(i),
    decreases i,
{
    if i == 0 {
        assert(remove_id(s, id) =~= s.remove(0));
    } else {
        assert forall|j: int|
            0 <= j < i - 1 implies (#[trigger] s.drop_first()[j]).id != id by {
            assert(s.drop_first()[j] == s[j + 1]);
        }
        assert(s.drop_first()[i - 1] == s[i]);
        lemma_remove_id_at(s.drop_first(), id, i - 1);
        assert(remove_id(s, id) =~= s.remove(i));
    }
}

/// When the first entry with id `id` stands at index `i`, lookup by
/// that id finds it.
pub proof fn lemma_find_entry_at<T>(s: Seq<RegistryEntry<T>>, id: u64, i: int)
    requires
        0 <= i < s.len(),
        s[i].id == id,
        forall|j: int| 0 <= j < i ==> (#[trigger] s[j]).id != id,
    ensures
        find_entry(s, id) == Some(s[i]),
    decreases i,
{
    if i > 0 {
        assert forall|j: int|
            0 <= j < i - 1 implies (#[trigger] s.drop_first()[j]).id != id by {
            assert(s.drop_first()[j] == s[j + 1]);
        }
        assert(s.drop_first()[i - 1] == s[i]);
        lemma_find_entry_at(s.drop_first(), id, i - 1);
    }
}

/// Law: the ids a registry hands out are strictly increasing in order
/// of issue; in particular no id is ever issued twice, including after
/// an identical triple was removed and re-added.
pub proof fn lemma_issued_strictly_increasing<T>(r: Registry<T>, i: int, j: int)
    requires
        r.wf(),
        0 <= i < j < r.spec_issued().len(),
    ensures
        r.spec_issued()[i] < r.spec_issued()[j],
{
}

} // verus!
