//! The service facade: four registries behind one dispatcher.
//!
//! The server owns one registry per resource kind (actuators,
//! consoles, uploaders) and one for devices.  Requests are dispatched
//! by item kind to the right registry; lookup failures and
//! mode-transition failures map onto the error taxonomy reported to
//! clients.

use vstd::prelude::*;

use crate::device::{Device, DeviceSetModeError};
use crate::properties::{lookup_key, pairs_view, Properties};
use crate::registry::{
    contains_id, find_entry, find_match, find_named, ChangeView, Monitor, Registry, RegistryChange,
    RegistryEntry,
};

verus! {

/// The four kinds of registered items a client can address.
#[derive(Clone, Copy, Debug, PartialEq, Eq, Structural)]
pub enum ItemKind {
    Actuator,
    Device,
    Console,
    Uploader,
}

/// One line of an item listing: a registry id and the item's name.
pub struct ItemDesc {
    pub id: u64,
    pub name: String,
}

/// One message of an item-monitor stream: a list of added items or
/// the id of a removed one.
pub enum ItemEvent {
    Add(Vec<ItemDesc>),
    Remove(u64),
}

/// The error taxonomy reported to clients.
#[derive(Clone, Copy, Debug, PartialEq, Eq, Structural)]
pub enum ServiceError {
    /// The named resource or id is unknown.
    NotFound,
    /// The request is malformed.
    InvalidArgument,
    /// The device is not in the mode a transition requires.
    PreconditionFailed,
    /// A mode sequence could not complete.
    Aborted,
    /// A provider operation failed opaquely.
    Unknown,
}

/// A listing reports exactly the registry's entries, in order, by id
/// and name.
pub open spec fn item_list_matches<T>(s: Seq<RegistryEntry<T>>, l: Seq<ItemDesc>) -> bool {
    &&& l.len() == s.len()
    &&& forall|i: int|
        0 <= i < s.len() ==> (#[trigger] l[i]).id == s[i].id && l[i].name@
            == s[i].properties.spec_name()
}

/// An item-monitor message reports exactly one registry change: an
/// add with the entry's id and name, or a removal with its id.
pub open spec fn item_event_matches(c: ChangeView, e: ItemEvent) -> bool {
    match c {
        ChangeView::Added { id, properties } => match e {
            ItemEvent::Add(l) => l@.len() == 1 && l@[0].id == id && Some(l@[0].name@) == lookup_key(
                properties,
                "name"@,
            ),
            ItemEvent::Remove(_) => false,
        },
        ChangeView::Removed { id } => match e {
            ItemEvent::Remove(rid) => rid == id,
            ItemEvent::Add(_) => false,
        },
    }
}

/// Lists a registry's entries as (id, name) lines.
pub fn to_item_list<T>(registry: &Registry<T>) -> (r: Vec<ItemDesc>)
    requires
        registry.wf(),
    ensures
        item_list_matches(registry.spec_entries(), r@),
{
    let entries = registry.contents();
    let n = entries.len();
    let mut r: Vec<ItemDesc> = Vec::new();
    let mut i: usize = 0;
    while i < n
        invariant
            n == entries@.len(),
            entries@ == registry.spec_entries(),
            registry.wf(),
            i <= n,
            r@.len() == i,
            forall|k: int|
                0 <= k < i ==> (#[trigger] r@[k]).id == entries@[k].id && r@[k].name@
                    == entries@[k].properties.spec_name(),
        decreases n - i,
    {
        let entry = &entries[i];
        r.push(ItemDesc { id: entry.id, name: entry.properties.name().clone() });
        i = i + 1;
    }
    r
}

/// Maps a mode-transition failure onto the client error taxonomy: an
/// unknown mode is not found, an unmet prerequisite is a failed
/// precondition, and an absent or failing actuator aborts.
pub fn map_set_mode_error(e: &DeviceSetModeError) -> (r: ServiceError)
    ensures
        r == match *e {
            DeviceSetModeError::ModeNotFound => ServiceError::NotFound,
            DeviceSetModeError::WrongCurrentMode => ServiceError::PreconditionFailed,
            DeviceSetModeError::ActuatorFailed(_) => ServiceError::Aborted,
        },
{
    match e {
        DeviceSetModeError::ModeNotFound => ServiceError::NotFound,
        DeviceSetModeError::WrongCurrentMode => ServiceError::PreconditionFailed,
        DeviceSetModeError::ActuatorFailed(_) => ServiceError::Aborted,
    }
}

/// The server: one registry per resource kind, plus the devices.
/// `A`, `C` and `U` are the provider-supplied item handles for
/// actuators, consoles and uploaders; `P` is the opaque payload type
/// of device configurations.
pub struct Server<A, C, U, P> {
    pub actuators: Registry<A>,
    pub consoles: Registry<C>,
    pub uploaders: Registry<U>,
    pub devices: Registry<Device<P>>,
}

impl<A, C, U, P> Server<A, C, U, P> {
    /// All four registries satisfy their invariant.
    pub open spec fn wf(self) -> bool {
        &&& self.actuators.wf()
        &&& self.consoles.wf()
        &&& self.uploaders.wf()
        &&& self.devices.wf()
    }

    /// The change log of the registry a kind addresses.
    pub open spec fn changes_of(self, kind: ItemKind) -> Seq<ChangeView> {
        match kind {
            ItemKind::Actuator => self.actuators.spec_changes(),
            ItemKind::Device => self.devices.spec_changes(),
            ItemKind::Console => self.consoles.spec_changes(),
            ItemKind::Uploader => self.uploaders.spec_changes(),
        }
    }

    /// A server with four empty registries.
    pub fn new() -> (r: Server<A, C, U, P>)
        ensures
            r.wf(),
            r.actuators.spec_entries() == Seq::<RegistryEntry<A>>::empty(),
            r.consoles.spec_entries() == Seq::<RegistryEntry<C>>::empty(),
            r.uploaders.spec_entries() == Seq::<RegistryEntry<U>>::empty(),
            r.devices.spec_entries() == Seq::<RegistryEntry<Device<P>>>::empty(),
    {
        Server {
            actuators: Registry::new(),
            consoles: Registry::new(),
            uploaders: Registry::new(),
            devices: Registry::new(),
        }
    }

    /// Registers an actuator and returns its new id.
    pub fn register_actuator(&mut self, properties: Properties, actuator: A) -> (id: u64)
        requires
            old(self).wf(),
            old(self).actuators.can_add(),
            properties.wf(),
        ensures
            final(self).wf(),
            id == old(self).actuators.spec_next_id(),
            final(self).actuators.spec_entries() == old(self).actuators.spec_entries().push(
                (RegistryEntry { id, properties, item: actuator }),
            ),
            final(self).actuators.spec_changes() == old(self).actuators.spec_changes().push(
                (ChangeView::Added { id, properties: properties@ }),
            ),
            final(self).actuators.spec_next_id() == id + 1,
            final(self).consoles == old(self).consoles,
            final(self).uploaders == old(self).uploaders,
            final(self).devices == old(self).devices,
    {
        self.actuators.add(properties, actuator)
    }

    /// First actuator whose name property equals `name`.
    pub fn get_actuator(&self, name: &String) -> (r: Option<&A>)
        requires
            self.wf(),
        ensures
            match r {
                Some(a) => find_named(self.actuators.spec_entries(), name@) is Some && *a
                    == find_named(self.actuators.spec_entries(), name@).unwrap().item,
                None => find_named(self.actuators.spec_entries(), name@) is None,
            },
    {
        match self.actuators.find_by_name(name) {
            Some(e) => Some(&e.item),
            None => None,
        }
    }

    /// First actuator whose properties satisfy every required pair.
    /// Mode steps resolve their actuators through this, at execution
    /// time.
    pub fn find_actuator(&self, required: &Vec<(String, String)>) -> (r: Option<&A>)
        ensures
            match r {
                Some(a) => find_match(self.actuators.spec_entries(), pairs_view(required@))
                    is Some && *a == find_match(
                    self.actuators.spec_entries(),
                    pairs_view(required@),
                ).unwrap().item,
                None => find_match(self.actuators.spec_entries(), pairs_view(required@)) is None,
            },
    {
        match self.actuators.find(required) {
            Some(e) => Some(&e.item),
            None => None,
        }
    }

    /// Registers a console and returns its new id.
    pub fn register_console(&mut self, properties: Properties, console: C) -> (id: u64)
        requires
            old(self).wf(),
            old(self).consoles.can_add(),
            properties.wf(),
        ensures
            final(self).wf(),
            id == old(self).consoles.spec_next_id(),
            final(self).consoles.spec_entries() == old(self).consoles.spec_entries().push(
                (RegistryEntry { id, properties, item: console }),
            ),
            final(self).consoles.spec_changes() == old(self).consoles.spec_changes().push(
                (ChangeView::Added { id, properties: properties@ }),
            ),
            final(self).consoles.spec_next_id() == id + 1,
            final(self).actuators == old(self).actuators,
            final(self).uploaders == old(self).uploaders,
            final(self).devices == old(self).devices,
    {
        self.consoles.add(properties, console)
    }

    /// Removes a console; on an absent id nothing changes.
    pub fn unregister_console(&mut self, id: u64)
        requires
            old(self).wf(),
        ensures
            final(self).wf(),
            final(self).consoles.spec_entries() == crate::registry::remove_id(
                old(self).consoles.spec_entries(),
                id,
            ),
            contains_id(old(self).consoles.spec_entries(), id) ==> final(self).consoles
                .spec_changes() == old(self).consoles.spec_changes().push(
                (ChangeView::Removed { id }),
            ),
            !contains_id(old(self).consoles.spec_entries(), id) ==> final(self).consoles == old(
                self
            ).consoles,
            final(self).consoles.spec_next_id() == old(self).consoles.spec_next_id(),
            final(self).actuators == old(self).actuators,
            final(self).uploaders == old(self).uploaders,
            final(self).devices == old(self).devices,
    {
        self.consoles.remove(id)
    }

    /// Point lookup of a console by id.
    pub fn get_console(&self, id: u64) -> (r: Option<&C>)
        ensures
            match r {
                Some(c) => find_entry(self.consoles.spec_entries(), id) is Some && *c == find_entry(
                    self.consoles.spec_entries(),
                    id,
                ).unwrap().item,
                None => !contains_id(self.consoles.spec_entries(), id),
            },
    {
        match self.consoles.lookup(id) {
            Some(e) => Some(&e.item),
            None => None,
        }
    }

    /// Looks up the console a configure request addresses; an
    /// unknown id is not found.
    pub fn console_configure(&self, id: u64) -> (r: Result<&C, ServiceError>)
        ensures
            r is Ok <==> contains_id(self.consoles.spec_entries(), id),
            match r {
                Ok(c) => *c == find_entry(self.consoles.spec_entries(), id).unwrap().item,
                Err(e) => e == ServiceError::NotFound,
            },
    {
        match self.get_console(id) {
            Some(c) => Ok(c),
            None => Err(ServiceError::NotFound),
        }
    }

    /// Registers an uploader and returns its new id.
    pub fn register_uploader(&mut self, properties: Properties, uploader: U) -> (id: u64)
        requires
            old(self).wf(),
            old(self).uploaders.can_add(),
            properties.wf(),
        ensures
            final(self).wf(),
            id == old(self).uploaders.spec_next_id(),
            final(self).uploaders.spec_entries() == old(self).uploaders.spec_entries().push(
                (RegistryEntry { id, properties, item: uploader }),
            ),
            final(self).uploaders.spec_changes() == old(self).uploaders.spec_changes().push(
                (ChangeView::Added { id, properties: properties@ }),
            ),
            final(self).uploaders.spec_next_id() == id + 1,
            final(self).actuators == old(self).actuators,
            final(self).consoles == old(self).consoles,
            final(self).devices == old(self).devices,
    {
        self.uploaders.add(properties, uploader)
    }

    /// Removes an uploader; on an absent id nothing changes.
    pub fn unregister_uploader(&mut self, id: u64)
        requires
            old(self).wf(),
        ensures
            final(self).wf(),
            final(self).uploaders.spec_entries() == crate::registry::remove_id(
                old(self).uploaders.spec_entries(),
                id,
            ),
            contains_id(old(self).uploaders.spec_entries(), id) ==> final(self).uploaders
                .spec_changes() == old(self).uploaders.spec_changes().push(
                (ChangeView::Removed { id }),
            ),
            !contains_id(old(self).uploaders.spec_entries(), id) ==> final(self).uploaders == old(
                self
            ).uploaders,
            final(self).uploaders.spec_next_id() == old(self).uploaders.spec_next_id(),
            final(self).actuators == old(self).actuators,
            final(self).consoles == old(self).consoles,
            final(self).devices == old(self).devices,
    {
        self.uploaders.remove(id)
    }

    /// Point lookup of an uploader by id.
    pub fn get_uploader(&self, id: u64) -> (r: Option<&U>)
        ensures
            match r {
                Some(u) => find_entry(self.uploaders.spec_entries(), id) is Some && *u
                    == find_entry(self.uploaders.spec_entries(), id).unwrap().item,
                None => !contains_id(self.uploaders.spec_entries(), id),
            },
    {
        match self.uploaders.lookup(id) {
            Some(e) => Some(&e.item),
            None => None,
        }
    }

    /// Registers a device under its configured name and returns its
    /// new id.
    pub fn register_device(&mut self, device: Device<P>) -> (id: u64)
        requires
            old(self).wf(),
            old(self).devices.can_add(),
        ensures
            final(self).wf(),
            id == old(self).devices.spec_next_id(),
            final(self).devices.spec_entries().len() == old(self).devices.spec_entries().len() + 1,
            final(self).devices.spec_entries()[old(self).devices.spec_entries().len() as int].id
                == id,
            final(self).devices.spec_entries()[old(self).devices.spec_entries().len() as int].item
                == device,
            final(self).devices.spec_entries()[old(self).devices.spec_entries().len() as int]
                .properties.spec_name() == device.name@,
            forall|i: int|
                0 <= i < old(self).devices.spec_entries().len() ==> final(self).devices
                    .spec_entries()[i] == #[trigger] old(self).devices.spec_entries()[i],
            final(self).actuators == old(self).actuators,
            final(self).consoles == old(self).consoles,
            final(self).uploaders == old(self).uploaders,
    {
        let properties = Properties::new(device.name());
        self.devices.add(properties, device)
    }

    /// Point lookup of a device by id.
    pub fn get_device(&self, id: u64) -> (r: Option<&Device<P>>)
        ensures
            match r {
                Some(d) => find_entry(self.devices.spec_entries(), id) is Some && *d == find_entry(
                    self.devices.spec_entries(),
                    id,
                ).unwrap().item,
                None => !contains_id(self.devices.spec_entries(), id),
            },
    {
        match self.devices.lookup(id) {
            Some(e) => Some(&e.item),
            None => None,
        }
    }

    /// Lists the items of one kind as (id, name) lines.
    pub fn list(&self, kind: ItemKind) -> (r: Vec<ItemDesc>)
        requires
            self.wf(),
        ensures
            match kind {
                ItemKind::Actuator => item_list_matches(self.actuators.spec_entries(), r@),
                ItemKind::Device => item_list_matches(self.devices.spec_entries(), r@),
                ItemKind::Console => item_list_matches(self.consoles.spec_entries(), r@),
                ItemKind::Uploader => item_list_matches(self.uploaders.spec_entries(), r@),
            },
    {
        match kind {
            ItemKind::Actuator => to_item_list(&self.actuators),
            ItemKind::Device => to_item_list(&self.devices),
            ItemKind::Console => to_item_list(&self.consoles),
            ItemKind::Uploader => to_item_list(&self.uploaders),
        }
    }

    /// Opens an item-monitor subscription of one kind: the full
    /// listing as it stands, plus a cursor from which every later
    /// change of that kind can be drained.  Nothing between the two
    /// can be missed: they are taken from one consistent state.
    pub fn monitor(&self, kind: ItemKind) -> (r: (Vec<ItemDesc>, Monitor))
        requires
            self.wf(),
        ensures
            match kind {
                ItemKind::Actuator => item_list_matches(self.actuators.spec_entries(), r.0@),
                ItemKind::Device => item_list_matches(self.devices.spec_entries(), r.0@),
                ItemKind::Console => item_list_matches(self.consoles.spec_entries(), r.0@),
                ItemKind::Uploader => item_list_matches(self.uploaders.spec_entries(), r.0@),
            },
            r.1.pos == self.changes_of(kind).len(),
    {
        let list = self.list(kind);
        let m = match kind {
            ItemKind::Actuator => self.actuators.monitor(),
            ItemKind::Device => self.devices.monitor(),
            ItemKind::Console => self.consoles.monitor(),
            ItemKind::Uploader => self.uploaders.monitor(),
        };
        (list, m)
    }

    /// The next item-monitor message of one kind, if a change has
    /// been logged past the cursor: an add carrying the new entry's
    /// id and name, or a removal carrying its id.
    pub fn next_item_event(&self, kind: ItemKind, m: &mut Monitor) -> (r: Option<ItemEvent>)
        requires
            self.wf(),
        ensures
            old(m).pos < self.changes_of(kind).len() ==> {
                &&& r is Some
                &&& item_event_matches(self.changes_of(kind)[old(m).pos as int], r.unwrap())
                &&& final(m).pos == old(m).pos + 1
            },
            old(m).pos >= self.changes_of(kind).len() ==> r is None && final(m).pos == old(m).pos,
    {
        let change = match kind {
            ItemKind::Actuator => self.actuators.next_change(m),
            ItemKind::Device => self.devices.next_change(m),
            ItemKind::Console => self.consoles.next_change(m),
            ItemKind::Uploader => self.uploaders.next_change(m),
        };
        match change {
            Some(RegistryChange::Added { id, properties }) => {
                let name = properties.name().clone();
                let mut items: Vec<ItemDesc> = Vec::new();
                items.push(ItemDesc { id: *id, name });
                Some(ItemEvent::Add(items))
            },
            Some(RegistryChange::Removed { id }) => Some(ItemEvent::Remove(*id)),
            None => None,
        }
    }
}

} // verus!
