//! Devices: declared slots, derived views and mode transitions.
//!
//! A device is created from a declarative configuration: console and
//! uploader slots, and named modes whose steps are actuator slots.
//! Its binding engine reacts to registry changes by filling and
//! clearing slots; its views are derived from the binding state; its
//! mode sequencer moves the device between named states under a
//! prerequisite discipline.  The payload type `P` carried by console
//! and step configurations is opaque to the device: it is handed
//! through to whatever drives the actuators and consoles.

use vstd::prelude::*;

use crate::properties::pairs_view;
use crate::registry::{Registry, RegistryEntry};
use crate::slots::{
    added_outcome, added_slot_update, bind_added, bind_snapshot, clear_removed, removed_outcome,
    removed_slot_update, slots_ok, snapshot_slot_update, DeviceItem, SlotConfigItem,
};

verus! {

/// A declared console slot: name, match criteria and an opaque
/// configuration payload for the console provider.
pub struct ConsoleConfig<P> {
    pub name: String,
    pub match_criteria: Vec<(String, String)>,
    pub parameters: P,
}

impl<P> SlotConfigItem for ConsoleConfig<P> {
    open spec fn spec_criteria(&self) -> Seq<(Seq<char>, Seq<char>)> {
        pairs_view(self.match_criteria@)
    }

    fn criteria(&self) -> (r: &Vec<(String, String)>) {
        &self.match_criteria
    }
}

/// A declared uploader slot: name and match criteria.
pub struct UploaderConfig {
    pub name: String,
    pub match_criteria: Vec<(String, String)>,
}

impl SlotConfigItem for UploaderConfig {
    open spec fn spec_criteria(&self) -> Seq<(Seq<char>, Seq<char>)> {
        pairs_view(self.match_criteria@)
    }

    fn criteria(&self) -> (r: &Vec<(String, String)>) {
        &self.match_criteria
    }
}

/// One step of a mode transition: which actuator to drive (by match
/// criteria), the opaque payload to hand it, and an optional
/// stabilisation delay in milliseconds.
pub struct ModeStepConfig<P> {
    pub match_criteria: Vec<(String, String)>,
    pub parameters: P,
    pub stabilisation_ms: Option<u64>,
}

impl<P> SlotConfigItem for ModeStepConfig<P> {
    open spec fn spec_criteria(&self) -> Seq<(Seq<char>, Seq<char>)> {
        pairs_view(self.match_criteria@)
    }

    fn criteria(&self) -> (r: &Vec<(String, String)>) {
        &self.match_criteria
    }
}

/// A named mode as configured: optional prerequisite mode and the
/// ordered steps that reach it.
pub struct ModeConfig<P> {
    pub name: String,
    pub depends: Option<String>,
    pub sequence: Vec<ModeStepConfig<P>>,
}

/// A whole device as configured.
pub struct DeviceConfig<P> {
    pub name: String,
    pub consoles: Vec<ConsoleConfig<P>>,
    pub uploaders: Vec<UploaderConfig>,
    pub modes: Vec<ModeConfig<P>>,
}

/// A named mode at runtime: its steps are slots that track which
/// actuator currently fulfils each of them (that tracking only feeds
/// the `available` flag; step execution resolves actuators late).
pub struct DeviceMode<P> {
    pub name: String,
    pub depends: Option<String>,
    pub sequence: Vec<DeviceItem<ModeStepConfig<P>>>,
}

/// A device at runtime.  `current_mode` is `None` outside any known
/// mode and during a transition.
pub struct Device<P> {
    pub name: String,
    pub consoles: Vec<DeviceItem<ConsoleConfig<P>>>,
    pub uploaders: Vec<DeviceItem<UploaderConfig>>,
    pub modes: Vec<DeviceMode<P>>,
    pub current_mode: Option<String>,
}

/// The device could not leave its state or reach the target mode.
#[derive(Debug)]
pub struct ActuatorError;

/// Why a mode transition was refused or abandoned.
#[derive(Debug)]
pub enum DeviceSetModeError {
    /// No mode of the requested name exists on the device.
    ModeNotFound,
    /// The requested mode declares a prerequisite and the device is
    /// not currently in it.
    WrongCurrentMode,
    /// A step's actuator was absent or failed.
    ActuatorFailed(ActuatorError),
}

/// The name each option holds, mathematically.
pub open spec fn opt_name_view(o: Option<String>) -> Option<Seq<char>> {
    match o {
        Some(s) => Some(s@),
        None => None,
    }
}

/// Index of the first mode of the given name.
pub open spec fn mode_index<P>(modes: Seq<DeviceMode<P>>, name: Seq<char>) -> Option<int>
    decreases modes.len(),
{
    if modes.len() == 0 {
        None
    } else if modes[0].name@ == name {
        Some(0)
    } else {
        match mode_index(modes.drop_first(), name) {
            Some(i) => Some(i + 1),
            None => None,
        }
    }
}

/// What `mode_index` finds: the first mode carrying the name, or a
/// guarantee that no mode carries it.
pub proof fn lemma_mode_index_props<P>(modes: Seq<DeviceMode<P>>, name: Seq<char>)
    ensures
        match mode_index(modes, name) {
            Some(i) => 0 <= i < modes.len() && modes[i].name@ == name,
            None => forall|k: int| 0 <= k < modes.len() ==> (#[trigger] modes[k]).name@ != name,
        },
    decreases modes.len(),
{
    if modes.len() > 0 && modes[0].name@ != name {
        lemma_mode_index_props(modes.drop_first(), name);
        match mode_index(modes.drop_first(), name) {
            Some(i) => {
                assert(modes.drop_first()[i] == modes[i + 1]);
            },
            None => {
                assert forall|k: int|
                    0 <= k < modes.len() implies (#[trigger] modes[k]).name@ != name by {
                    if k > 0 {
                        assert(modes.drop_first()[k - 1] == modes[k]);
                    }
                }
            },
        }
    }
}

/// When the first mode of the name stands at index `i`, `mode_index`
/// finds exactly that index.
pub proof fn lemma_mode_index_at<P>(modes: Seq<DeviceMode<P>>, name: Seq<char>, i: int)
    requires
        0 <= i < modes.len(),
        modes[i].name@ == name,
        forall|j: int| 0 <= j < i ==> (#[trigger] modes[j]).name@ != name,
    ensures
        mode_index(modes, name) == Some(i),
    decreases i,
{
    if i > 0 {
        assert forall|j: int|
            0 <= j < i - 1 implies (#[trigger] modes.drop_first()[j]).name@ != name by {
            assert(modes.drop_first()[j] == modes[j + 1]);
        }
        assert(modes.drop_first()[i - 1] == modes[i]);
        lemma_mode_index_at(modes.drop_first(), name, i - 1);
    }
}

/// Law (where a finished transition lands): a transition started
/// towards a named mode (so the mode stands at the index the start
/// reported) and then finished puts the device in exactly that mode.
/// With the refusal cases of `start_transition`, this pins the whole
/// outcome: refused transitions leave the device unchanged, started
/// ones leave it in transit (no mode) until they finish in the
/// target.
pub proof fn lemma_finished_transition_mode<P>(
    started: Device<P>,
    finished: Device<P>,
    mode: Seq<char>,
    idx: int,
)
    requires
        mode_index(started.modes@, mode) == Some(idx),
        finished.current_mode == Some(started.modes@[idx].name),
    ensures
        opt_name_view(finished.current_mode) == Some(mode),
{
    lemma_mode_index_props(started.modes@, mode);
}

/// A mode's prerequisite is met: it declares none, or the device is
/// currently in the declared one.
pub open spec fn mode_prereq_ok<P>(d: Device<P>, m: DeviceMode<P>) -> bool {
    match m.depends {
        Some(dep) => opt_name_view(d.current_mode) == Some(dep@),
        None => true,
    }
}

/// A transition to the named mode may start: the mode exists and its
/// prerequisite is met.
pub open spec fn transition_allowed<P>(d: Device<P>, name: Seq<char>) -> bool {
    match mode_index(d.modes@, name) {
        Some(i) => mode_prereq_ok(d, d.modes@[i]),
        None => false,
    }
}

/// A mode is available iff every step of its sequence has a bound
/// actuator.
pub open spec fn mode_available<P>(m: DeviceMode<P>) -> bool {
    forall|j: int| 0 <= j < m.sequence@.len() ==> (#[trigger] m.sequence@[j]).spec_bound() is Some
}

/// A console or uploader slot as reported in a device view.
pub struct SlotInfo {
    pub name: String,
    pub id: Option<u64>,
}

/// A mode as reported in a device view.
pub struct ModeInfo {
    pub name: String,
    pub depends: Option<String>,
    pub available: bool,
}

/// A device view, derived from the binding state at one instant.
pub struct DeviceInfo {
    pub consoles: Vec<SlotInfo>,
    pub uploaders: Vec<SlotInfo>,
    pub current_mode: Option<String>,
    pub modes: Vec<ModeInfo>,
}

/// What a device view reports: per slot its name and bound id, per
/// mode its name, prerequisite and availability, and the current
/// mode.
pub open spec fn info_matches<P>(d: Device<P>, v: DeviceInfo) -> bool {
    &&& v.consoles@.len() == d.consoles@.len()
    &&& forall|i: int|
        0 <= i < d.consoles@.len() ==> {
            &&& (#[trigger] v.consoles@[i]).name@ == d.consoles@[i].spec_config().name@
            &&& v.consoles@[i].id == d.consoles@[i].spec_bound()
        }
    &&& v.uploaders@.len() == d.uploaders@.len()
    &&& forall|i: int|
        0 <= i < d.uploaders@.len() ==> {
            &&& (#[trigger] v.uploaders@[i]).name@ == d.uploaders@[i].spec_config().name@
            &&& v.uploaders@[i].id == d.uploaders@[i].spec_bound()
        }
    &&& v.modes@.len() == d.modes@.len()
    &&& forall|i: int|
        0 <= i < d.modes@.len() ==> {
            &&& (#[trigger] v.modes@[i]).name@ == d.modes@[i].name@
            &&& opt_name_view(v.modes@[i].depends) == opt_name_view(d.modes@[i].depends)
            &&& v.modes@[i].available == mode_available(d.modes@[i])
        }
    &&& opt_name_view(v.current_mode) == opt_name_view(d.current_mode)
}

/// The slot-consistency law over a whole device: every bound console,
/// uploader and step slot points at a live entry of its registry
/// whose properties satisfy the slot's criteria.
pub open spec fn device_slots_ok<P, A, C, U>(
    d: Device<P>,
    actuators: Seq<RegistryEntry<A>>,
    consoles: Seq<RegistryEntry<C>>,
    uploaders: Seq<RegistryEntry<U>>,
) -> bool {
    &&& slots_ok(d.consoles@, consoles)
    &&& slots_ok(d.uploaders@, uploaders)
    &&& forall|m: int|
        0 <= m < d.modes@.len() ==> slots_ok((#[trigger] d.modes@[m]).sequence@, actuators)
}

/// How one mode's step slots change under an `Added { id }` actuator
/// change, its name and prerequisite staying put.
pub open spec fn added_steps_update<P, T>(
    mb: DeviceMode<P>,
    ma: DeviceMode<P>,
    s: Seq<RegistryEntry<T>>,
    id: u64,
) -> bool {
    &&& ma.name == mb.name
    &&& ma.depends == mb.depends
    &&& ma.sequence@.len() == mb.sequence@.len()
    &&& forall|j: int|
        0 <= j < mb.sequence@.len() ==> added_slot_update(
            mb.sequence@[j],
            #[trigger] ma.sequence@[j],
            s,
            id,
        )
}

/// How one mode's step slots change under a `Removed { id }` actuator
/// change.
pub open spec fn removed_steps_update<P>(mb: DeviceMode<P>, ma: DeviceMode<P>, id: u64) -> bool {
    &&& ma.name == mb.name
    &&& ma.depends == mb.depends
    &&& ma.sequence@.len() == mb.sequence@.len()
    &&& forall|j: int|
        0 <= j < mb.sequence@.len() ==> removed_slot_update(
            mb.sequence@[j],
            #[trigger] ma.sequence@[j],
            id,
        )
}

/// How one mode's step slots change when bound against an actuator
/// snapshot.
pub open spec fn snapshot_steps_update<P, T>(
    mb: DeviceMode<P>,
    ma: DeviceMode<P>,
    s: Seq<RegistryEntry<T>>,
) -> bool {
    &&& ma.name == mb.name
    &&& ma.depends == mb.depends
    &&& ma.sequence@.len() == mb.sequence@.len()
    &&& forall|j: int|
        0 <= j < mb.sequence@.len() ==> snapshot_slot_update(
            mb.sequence@[j],
            #[trigger] ma.sequence@[j],
            s,
        )
}

/// Law (slot consistency across a removal): when a console leaves
/// its registry and the device clears every console slot bound to
/// it, every binding the device still holds points at a live entry
/// that satisfies its slot's criteria.  The registry's invariant
/// supplies the distinct ids this needs.
pub proof fn lemma_device_ok_after_console_removed<P, A, C, U>(
    before: Device<P>,
    after: Device<P>,
    actuators: Seq<RegistryEntry<A>>,
    consoles: Seq<RegistryEntry<C>>,
    uploaders: Seq<RegistryEntry<U>>,
    id: u64,
)
    requires
        device_slots_ok(before, actuators, consoles, uploaders),
        after.consoles@.len() == before.consoles@.len(),
        forall|i: int|
            0 <= i < before.consoles@.len() ==> removed_slot_update(
                before.consoles@[i],
                #[trigger] after.consoles@[i],
                id,
            ),
        after.uploaders == before.uploaders,
        after.modes == before.modes,
        forall|a: int, b: int|
            0 <= a < b < consoles.len() ==> (#[trigger] consoles[a]).id < (
            #[trigger] consoles[b]).id,
    ensures
        device_slots_ok(after, actuators, crate::registry::remove_id(consoles, id), uploaders),
{
    crate::slots::lemma_slots_ok_shrink(before.consoles@, after.consoles@, consoles, id);
}

/// Step `j` of mode `k` is free and the entry of `s` with id `id`
/// satisfies its criteria.
pub open spec fn step_bindable<P, T>(
    modes: Seq<DeviceMode<P>>,
    s: Seq<RegistryEntry<T>>,
    k: int,
    j: int,
    id: u64,
) -> bool {
    &&& 0 <= k < modes.len()
    &&& 0 <= j < modes[k].sequence@.len()
    &&& modes[k].sequence@[j].spec_bound() is None
    &&& crate::slots::added_binds(s, id, modes[k].sequence@[j])
}

/// Step `j` of mode `k` is bound to `id`.
pub open spec fn step_bound_to<P>(modes: Seq<DeviceMode<P>>, k: int, j: int, id: u64) -> bool {
    &&& 0 <= k < modes.len()
    &&& 0 <= j < modes[k].sequence@.len()
    &&& modes[k].sequence@[j].spec_bound() == Some(id)
}

/// Turns a list of slot configurations into fresh, unbound slots.
fn items_from_configs<C>(configs: Vec<C>) -> (items: Vec<DeviceItem<C>>)
    ensures
        items@.len() == configs@.len(),
        forall|i: int|
            0 <= i < configs@.len() ==> (#[trigger] items@[i]).spec_config() == configs@[i]
                && items@[i].spec_bound() is None,
{
    let ghost orig = configs@;
    let mut configs = configs;
    let mut items: Vec<DeviceItem<C>> = Vec::new();
    proof {
        assert(orig.skip(0) =~= orig);
    }
    while configs.len() > 0
        invariant
            items@.len() + configs@.len() == orig.len(),
            configs@ == orig.skip(items@.len() as int),
            forall|i: int|
                0 <= i < items@.len() ==> (#[trigger] items@[i]).spec_config() == orig[i]
                    && items@[i].spec_bound() is None,
        decreases configs.len(),
    {
        let ghost k = items@.len() as int;
        let c = configs.remove(0);
        proof {
            assert(orig.skip(k)[0] == orig[k]);
            assert(orig.skip(k).drop_first() =~= orig.skip(k + 1));
        }
        items.push(DeviceItem::new(c));
    }
    items
}

impl<P> Device<P> {
    /// Builds a device from its configuration: every slot fresh and
    /// unbound, no current mode.
    pub fn from_config(config: DeviceConfig<P>) -> (d: Device<P>)
        ensures
            d.name == config.name,
            d.current_mode is None,
            d.consoles@.len() == config.consoles@.len(),
            forall|i: int|
                0 <= i < config.consoles@.len() ==> (#[trigger] d.consoles@[i]).spec_config()
                    == config.consoles@[i] && d.consoles@[i].spec_bound() is None,
            d.uploaders@.len() == config.uploaders@.len(),
            forall|i: int|
                0 <= i < config.uploaders@.len() ==> (#[trigger] d.uploaders@[i]).spec_config()
                    == config.uploaders@[i] && d.uploaders@[i].spec_bound() is None,
            d.modes@.len() == config.modes@.len(),
            forall|i: int|
                0 <= i < config.modes@.len() ==> {
                    &&& (#[trigger] d.modes@[i]).name == config.modes@[i].name
                    &&& d.modes@[i].depends == config.modes@[i].depends
                    &&& d.modes@[i].sequence@.len() == config.modes@[i].sequence@.len()
                    &&& {
                        let sq = d.modes@[i].sequence@;
                        forall|j: int|
                            0 <= j < config.modes@[i].sequence@.len() ==> (
                            #[trigger] sq[j]).spec_config() == config.modes@[i].sequence@[j]
                                && sq[j].spec_bound() is None
                    }
                },
    {
        let DeviceConfig { name, consoles, uploaders, modes } = config;
        let ghost modes0 = modes@;
        let dconsoles = items_from_configs(consoles);
        let duploaders = items_from_configs(uploaders);
        let mut modes = modes;
        let mut dmodes: Vec<DeviceMode<P>> = Vec::new();
        proof {
            assert(modes0.skip(0) =~= modes0);
        }
        while modes.len() > 0
            invariant
                dmodes@.len() + modes@.len() == modes0.len(),
                modes@ == modes0.skip(dmodes@.len() as int),
                forall|i: int|
                    0 <= i < dmodes@.len() ==> {
                        &&& (#[trigger] dmodes@[i]).name == modes0[i].name
                        &&& dmodes@[i].depends == modes0[i].depends
                        &&& dmodes@[i].sequence@.len() == modes0[i].sequence@.len()
                        &&& {
                            let sq = dmodes@[i].sequence@;
                            forall|j: int|
                                0 <= j < modes0[i].sequence@.len() ==> (
                                #[trigger] sq[j]).spec_config() == modes0[i].sequence@[j] && sq[
                                    j
                                ].spec_bound() is None
                        }
                    },
            decreases modes.len(),
        {
            let ghost k = dmodes@.len() as int;
            let m = modes.remove(0);
            proof {
                assert(modes0.skip(k)[0] == modes0[k]);
                assert(modes0.skip(k).drop_first() =~= modes0.skip(k + 1));
            }
            let ModeConfig { name: mode_name, depends, sequence } = m;
            let dsequence = items_from_configs(sequence);
            dmodes.push(DeviceMode { name: mode_name, depends, sequence: dsequence });
        }
        Device {
            name,
            consoles: dconsoles,
            uploaders: duploaders,
            modes: dmodes,
            current_mode: None,
        }
    }

    /// The device's configured name.
    pub fn name(&self) -> (r: &str)
        ensures
            r@ == self.name@,
    {
        self.name.as_str()
    }

    /// The current mode, if the device is in a known one.
    pub fn current_mode(&self) -> (r: Option<String>)
        ensures
            r == self.current_mode,
    {
        match &self.current_mode {
            Some(s) => Some(s.clone()),
            None => None,
        }
    }

    /// Derives the view reported to device-info subscribers.  The
    /// `available` flag of each mode is true iff every step of its
    /// sequence has a bound actuator at this instant.
    pub fn info(&self) -> (v: DeviceInfo)
        ensures
            info_matches(*self, v),
    {
        let mut consoles: Vec<SlotInfo> = Vec::new();
        let ncons = self.consoles.len();
        let mut i: usize = 0;
        while i < ncons
            invariant
                ncons == self.consoles@.len(),
                i <= ncons,
                consoles@.len() == i,
                forall|k: int|
                    0 <= k < i ==> {
                        &&& (#[trigger] consoles@[k]).name@
                            == self.consoles@[k].spec_config().name@
                        &&& consoles@[k].id == self.consoles@[k].spec_bound()
                    },
            decreases ncons - i,
        {
            let slot = &self.consoles[i];
            consoles.push(SlotInfo { name: slot.config().name.clone(), id: slot.get() });
            i = i + 1;
        }
        let mut uploaders: Vec<SlotInfo> = Vec::new();
        let nupl = self.uploaders.len();
        let mut i: usize = 0;
        while i < nupl
            invariant
                nupl == self.uploaders@.len(),
                i <= nupl,
                uploaders@.len() == i,
                forall|k: int|
                    0 <= k < i ==> {
                        &&& (#[trigger] uploaders@[k]).name@
                            == self.uploaders@[k].spec_config().name@
                        &&& uploaders@[k].id == self.uploaders@[k].spec_bound()
                    },
            decreases nupl - i,
        {
            let slot = &self.uploaders[i];
            uploaders.push(SlotInfo { name: slot.config().name.clone(), id: slot.get() });
            i = i + 1;
        }
        let mut modes: Vec<ModeInfo> = Vec::new();
        let nmodes = self.modes.len();
        let mut i: usize = 0;
        while i < nmodes
            invariant
                nmodes == self.modes@.len(),
                i <= nmodes,
                modes@.len() == i,
                forall|k: int|
                    0 <= k < i ==> {
                        &&& (#[trigger] modes@[k]).name@ == self.modes@[k].name@
                        &&& opt_name_view(modes@[k].depends) == opt_name_view(
                            self.modes@[k].depends,
                        )
                        &&& modes@[k].available == mode_available(self.modes@[k])
                    },
            decreases nmodes - i,
        {
            let m = &self.modes[i];
            let nsteps = m.sequence.len();
            let mut available: bool = true;
            let mut j: usize = 0;
            while j < nsteps
                invariant
                    nsteps == m.sequence@.len(),
                    j <= nsteps,
                    available == (forall|l: int|
                        0 <= l < j ==> (#[trigger] m.sequence@[l]).spec_bound() is Some),
                decreases nsteps - j,
            {
                let ghost avail_before = available;
                if m.sequence[j].get().is_none() {
                    available = false;
                }
                proof {
                    if available {
                        assert forall|l: int|
                            0 <= l < j + 1 implies (#[trigger] m.sequence@[l]).spec_bound()
                            is Some by {}
                    } else {
                        if avail_before && m.sequence@[j as int].spec_bound() is Some {
                            assert(false);
                        }
                    }
                }
                j = j + 1;
            }
            let depends: Option<String> = match &m.depends {
                Some(dep) => Some(dep.clone()),
                None => None,
            };
            modes.push(ModeInfo { name: m.name.clone(), depends, available });
            i = i + 1;
        }
        let current_mode = self.current_mode();
        DeviceInfo { consoles, uploaders, current_mode, modes }
    }

    /// Applies an `Added { id }` console-registry change: every free
    /// console slot whose criteria the entry satisfies binds to it.
    /// Returns the newly bound slot indices, whose consoles are then
    /// to be configured once each.
    pub fn sync_console_added<T>(&mut self, reg: &Registry<T>, id: u64) -> (newly: Vec<usize>)
        ensures
            added_outcome(old(self).consoles@, final(self).consoles@, newly@, reg.spec_entries(), id),
            slots_ok(old(self).consoles@, reg.spec_entries()) ==> slots_ok(
                final(self).consoles@,
                reg.spec_entries(),
            ),
            final(self).name == old(self).name,
            final(self).uploaders == old(self).uploaders,
            final(self).modes == old(self).modes,
            final(self).current_mode == old(self).current_mode,
    {
        bind_added(&mut self.consoles, reg, id)
    }

    /// Applies a `Removed { id }` console-registry change: every
    /// console slot bound to the id is cleared.
    pub fn sync_console_removed(&mut self, id: u64) -> (changed: bool)
        ensures
            removed_outcome(old(self).consoles@, final(self).consoles@, changed, id),
            final(self).name == old(self).name,
            final(self).uploaders == old(self).uploaders,
            final(self).modes == old(self).modes,
            final(self).current_mode == old(self).current_mode,
    {
        clear_removed(&mut self.consoles, id)
    }

    /// Binds the console slots against a console-registry snapshot.
    /// Returns the newly bound slot indices, whose consoles are then
    /// to be configured once each.
    pub fn sync_console_snapshot<T>(&mut self, reg: &Registry<T>) -> (newly: Vec<usize>)
        ensures
            crate::slots::snapshot_outcome(
                old(self).consoles@,
                final(self).consoles@,
                newly@,
                reg.spec_entries(),
            ),
            slots_ok(old(self).consoles@, reg.spec_entries()) ==> slots_ok(
                final(self).consoles@,
                reg.spec_entries(),
            ),
            final(self).name == old(self).name,
            final(self).uploaders == old(self).uploaders,
            final(self).modes == old(self).modes,
            final(self).current_mode == old(self).current_mode,
    {
        bind_snapshot(&mut self.consoles, reg)
    }

    /// Applies an `Added { id }` uploader-registry change.
    pub fn sync_uploader_added<T>(&mut self, reg: &Registry<T>, id: u64) -> (newly: Vec<usize>)
        ensures
            added_outcome(
                old(self).uploaders@,
                final(self).uploaders@,
                newly@,
                reg.spec_entries(),
                id,
            ),
            slots_ok(old(self).uploaders@, reg.spec_entries()) ==> slots_ok(
                final(self).uploaders@,
                reg.spec_entries(),
            ),
            final(self).name == old(self).name,
            final(self).consoles == old(self).consoles,
            final(self).modes == old(self).modes,
            final(self).current_mode == old(self).current_mode,
    {
        bind_added(&mut self.uploaders, reg, id)
    }

    /// Applies a `Removed { id }` uploader-registry change.
    pub fn sync_uploader_removed(&mut self, id: u64) -> (changed: bool)
        ensures
            removed_outcome(old(self).uploaders@, final(self).uploaders@, changed, id),
            final(self).name == old(self).name,
            final(self).consoles == old(self).consoles,
            final(self).modes == old(self).modes,
            final(self).current_mode == old(self).current_mode,
    {
        clear_removed(&mut self.uploaders, id)
    }

    /// Binds the uploader slots against an uploader-registry
    /// snapshot.
    pub fn sync_uploader_snapshot<T>(&mut self, reg: &Registry<T>) -> (newly: Vec<usize>)
        ensures
            crate::slots::snapshot_outcome(
                old(self).uploaders@,
                final(self).uploaders@,
                newly@,
                reg.spec_entries(),
            ),
            slots_ok(old(self).uploaders@, reg.spec_entries()) ==> slots_ok(
                final(self).uploaders@,
                reg.spec_entries(),
            ),
            final(self).name == old(self).name,
            final(self).consoles == old(self).consoles,
            final(self).modes == old(self).modes,
            final(self).current_mode == old(self).current_mode,
    {
        bind_snapshot(&mut self.uploaders, reg)
    }

    /// Applies an `Added { id }` actuator-registry change to every
    /// mode's step slots.  Returns whether any step newly bound.
    pub fn sync_actuator_added<T>(&mut self, reg: &Registry<T>, id: u64) -> (changed: bool)
        ensures
            final(self).modes@.len() == old(self).modes@.len(),
            forall|m: int|
                0 <= m < old(self).modes@.len() ==> added_steps_update(
                    old(self).modes@[m],
                    #[trigger] final(self).modes@[m],
                    reg.spec_entries(),
                    id,
                ),
            changed == exists|m: int, j: int|
                #[trigger] step_bindable(old(self).modes@, reg.spec_entries(), m, j, id),
            (forall|m: int|
                0 <= m < old(self).modes@.len() ==> slots_ok(
                    (#[trigger] old(self).modes@[m]).sequence@,
                    reg.spec_entries(),
                )) ==> forall|m: int|
                0 <= m < final(self).modes@.len() ==> slots_ok(
                    (#[trigger] final(self).modes@[m]).sequence@,
                    reg.spec_entries(),
                ),
            final(self).name == old(self).name,
            final(self).consoles == old(self).consoles,
            final(self).uploaders == old(self).uploaders,
            final(self).current_mode == old(self).current_mode,
    {
        let ghost s = reg.spec_entries();
        let nmodes = self.modes.len();
        let mut changed: bool = false;
        let mut m: usize = 0;
        while m < nmodes
            invariant
                nmodes == old(self).modes@.len(),
                self.modes@.len() == nmodes,
                m <= nmodes,
                s == reg.spec_entries(),
                forall|k: int|
                    m <= k < nmodes ==> #[trigger] self.modes@[k] == old(self).modes@[k],
                forall|k: int|
                    0 <= k < m ==> added_steps_update(
                        old(self).modes@[k],
                        #[trigger] self.modes@[k],
                        s,
                        id,
                    ),
                forall|k: int|
                    0 <= k < m && slots_ok((#[trigger] old(self).modes@[k]).sequence@, s)
                        ==> slots_ok(self.modes@[k].sequence@, s),
                changed == exists|k: int, j: int|
                    k < m && #[trigger] step_bindable(old(self).modes@, s, k, j, id),
                self.name == old(self).name,
                self.consoles == old(self).consoles,
                self.uploaders == old(self).uploaders,
                self.current_mode == old(self).current_mode,
            decreases nmodes - m,
        {
            let md = &mut self.modes[m];
            let newly = bind_added(&mut md.sequence, reg, id);
            let newly_len = newly.len();
            proof {
                let mb = old(self).modes@[m as int];
                if newly@.len() > 0 {
                    let j = newly@[0];
                    assert(newly@.contains(j));
                    assert(step_bindable(old(self).modes@, s, m as int, j as int, id));
                } else {
                    assert forall|j: int|
                        0 <= j < mb.sequence@.len() implies !step_bindable(
                        old(self).modes@,
                        s,
                        m as int,
                        j,
                        id,
                    ) by {
                        if step_bindable(old(self).modes@, s, m as int, j, id) {
                            assert(newly@.contains(j as usize));
                        }
                    }
                }
            }
            if newly_len > 0 {
                changed = true;
            }
            m = m + 1;
        }
        changed
    }

    /// Applies a `Removed { id }` actuator-registry change to every
    /// mode's step slots.
    pub fn sync_actuator_removed(&mut self, id: u64) -> (changed: bool)
        ensures
            final(self).modes@.len() == old(self).modes@.len(),
            forall|m: int|
                0 <= m < old(self).modes@.len() ==> removed_steps_update(
                    old(self).modes@[m],
                    #[trigger] final(self).modes@[m],
                    id,
                ),
            changed == exists|m: int, j: int|
                #[trigger] step_bound_to(old(self).modes@, m, j, id),
            final(self).name == old(self).name,
            final(self).consoles == old(self).consoles,
            final(self).uploaders == old(self).uploaders,
            final(self).current_mode == old(self).current_mode,
    {
        let nmodes = self.modes.len();
        let mut changed: bool = false;
        let mut m: usize = 0;
        while m < nmodes
            invariant
                nmodes == old(self).modes@.len(),
                self.modes@.len() == nmodes,
                m <= nmodes,
                forall|k: int|
                    m <= k < nmodes ==> #[trigger] self.modes@[k] == old(self).modes@[k],
                forall|k: int|
                    0 <= k < m ==> removed_steps_update(
                        old(self).modes@[k],
                        #[trigger] self.modes@[k],
                        id,
                    ),
                changed == exists|k: int, j: int|
                    k < m && #[trigger] step_bound_to(old(self).modes@, k, j, id),
                self.name == old(self).name,
                self.consoles == old(self).consoles,
                self.uploaders == old(self).uploaders,
                self.current_mode == old(self).current_mode,
            decreases nmodes - m,
        {
            let md = &mut self.modes[m];
            let mode_changed = clear_removed(&mut md.sequence, id);
            proof {
                let mb = old(self).modes@[m as int];
                if mode_changed {
                    let j = choose|j: int|
                        0 <= j < mb.sequence@.len() && (#[trigger] mb.sequence@[j]).spec_bound()
                            == Some(id);
                    assert(step_bound_to(old(self).modes@, m as int, j, id));
                } else {
                    assert forall|j: int|
                        0 <= j < mb.sequence@.len() implies !step_bound_to(
                        old(self).modes@,
                        m as int,
                        j,
                        id,
                    ) by {}
                }
            }
            if mode_changed {
                changed = true;
            }
            m = m + 1;
        }
        changed
    }

    /// Binds every mode's step slots against an actuator-registry
    /// snapshot.
    pub fn sync_actuator_snapshot<T>(&mut self, reg: &Registry<T>) -> (changed: bool)
        ensures
            final(self).modes@.len() == old(self).modes@.len(),
            forall|m: int|
                0 <= m < old(self).modes@.len() ==> snapshot_steps_update(
                    old(self).modes@[m],
                    #[trigger] final(self).modes@[m],
                    reg.spec_entries(),
                ),
            (forall|m: int|
                0 <= m < old(self).modes@.len() ==> slots_ok(
                    (#[trigger] old(self).modes@[m]).sequence@,
                    reg.spec_entries(),
                )) ==> forall|m: int|
                0 <= m < final(self).modes@.len() ==> slots_ok(
                    (#[trigger] final(self).modes@[m]).sequence@,
                    reg.spec_entries(),
                ),
            final(self).name == old(self).name,
            final(self).consoles == old(self).consoles,
            final(self).uploaders == old(self).uploaders,
            final(self).current_mode == old(self).current_mode,
    {
        let ghost s = reg.spec_entries();
        let nmodes = self.modes.len();
        let mut changed: bool = false;
        let mut m: usize = 0;
        while m < nmodes
            invariant
                nmodes == old(self).modes@.len(),
                self.modes@.len() == nmodes,
                m <= nmodes,
                s == reg.spec_entries(),
                forall|k: int|
                    m <= k < nmodes ==> #[trigger] self.modes@[k] == old(self).modes@[k],
                forall|k: int|
                    0 <= k < m ==> snapshot_steps_update(
                        old(self).modes@[k],
                        #[trigger] self.modes@[k],
                        s,
                    ),
                forall|k: int|
                    0 <= k < m && slots_ok((#[trigger] old(self).modes@[k]).sequence@, s)
                        ==> slots_ok(self.modes@[k].sequence@, s),
                self.name == old(self).name,
                self.consoles == old(self).consoles,
                self.uploaders == old(self).uploaders,
                self.current_mode == old(self).current_mode,
            decreases nmodes - m,
        {
            let md = &mut self.modes[m];
            let newly = bind_snapshot(&mut md.sequence, reg);
            if newly.len() > 0 {
                changed = true;
            }
            m = m + 1;
        }
        changed
    }

    /// Starts a transition to the named mode: refuses an unknown mode
    /// or an unmet prerequisite, and otherwise clears the current
    /// mode (the device is observably "in transit" until the
    /// transition finishes).  On refusal the device is unchanged.  A
    /// transition that starts and is then abandoned leaves the
    /// current mode cleared.
    pub fn start_transition(&mut self, mode: &String) -> (r: Result<usize, DeviceSetModeError>)
        ensures
            r is Ok <==> transition_allowed(*old(self), mode@),
            match r {
                Ok(idx) => {
                    &&& mode_index(old(self).modes@, mode@) == Some(idx as int)
                    &&& (idx as int) < old(self).modes@.len()
                    &&& final(self).current_mode is None
                    &&& final(self).name == old(self).name
                    &&& final(self).consoles == old(self).consoles
                    &&& final(self).uploaders == old(self).uploaders
                    &&& final(self).modes == old(self).modes
                },
                Err(e) => {
                    &&& *final(self) == *old(self)
                    &&& match e {
                        DeviceSetModeError::ModeNotFound => mode_index(old(self).modes@, mode@)
                            is None,
                        DeviceSetModeError::WrongCurrentMode => mode_index(
                            old(self).modes@,
                            mode@,
                        ) is Some && !transition_allowed(*old(self), mode@),
                        DeviceSetModeError::ActuatorFailed(_) => false,
                    }
                },
            },
    {
        let nmodes = self.modes.len();
        let mut i: usize = 0;
        let mut found: Option<usize> = None;
        while i < nmodes
            invariant_except_break
                found is None,
                forall|j: int| 0 <= j < i ==> (#[trigger] self.modes@[j]).name@ != mode@,
            invariant
                nmodes == self.modes@.len(),
                i <= nmodes,
                *self == *old(self),
            ensures
                match found {
                    Some(f) => (f as int) < nmodes && mode_index(self.modes@, mode@) == Some(
                        f as int,
                    ),
                    None => forall|j: int|
                        0 <= j < nmodes ==> (#[trigger] self.modes@[j]).name@ != mode@,
                },
            decreases nmodes - i,
        {
            if self.modes[i].name == *mode {
                proof {
                    lemma_mode_index_at(self.modes@, mode@, i as int);
                }
                found = Some(i);
                break ;
            }
            i = i + 1;
        }
        let idx = match found {
            Some(idx) => idx,
            None => {
                proof {
                    lemma_mode_index_props(self.modes@, mode@);
                    if mode_index(self.modes@, mode@) is Some {
                        let k = mode_index(self.modes@, mode@).unwrap();
                        assert(self.modes@[k].name@ == mode@);
                    }
                }
                return Err(DeviceSetModeError::ModeNotFound);
            },
        };
        let allowed: bool = {
            let m = &self.modes[idx];
            match &m.depends {
                Some(dep) => match &self.current_mode {
                    Some(cur) => *cur == *dep,
                    None => false,
                },
                None => true,
            }
        };
        if allowed {
            self.current_mode = None;
            Ok(idx)
        } else {
            Err(DeviceSetModeError::WrongCurrentMode)
        }
    }

    /// How many steps the mode at `mode_idx` has.
    pub fn step_count(&self, mode_idx: usize) -> (r: usize)
        requires
            mode_idx < self.modes@.len(),
        ensures
            r == self.modes@[mode_idx as int].sequence@.len(),
    {
        self.modes[mode_idx].sequence.len()
    }

    /// The match criteria of one step: each step resolves its
    /// actuator against the live registry at execution time.
    pub fn step_criteria(&self, mode_idx: usize, step_idx: usize) -> (r: &Vec<(String, String)>)
        requires
            mode_idx < self.modes@.len(),
            step_idx < self.modes@[mode_idx as int].sequence@.len(),
        ensures
            pairs_view(r@) == self.modes@[mode_idx as int].sequence@[step_idx as int]
                .spec_config().spec_criteria(),
    {
        self.modes[mode_idx].sequence[step_idx].config().criteria()
    }

    /// The opaque payload one step hands to its actuator.
    pub fn step_parameters(&self, mode_idx: usize, step_idx: usize) -> (r: &P)
        requires
            mode_idx < self.modes@.len(),
            step_idx < self.modes@[mode_idx as int].sequence@.len(),
        ensures
            *r == self.modes@[mode_idx as int].sequence@[step_idx as int]
                .spec_config().parameters,
    {
        &self.modes[mode_idx].sequence[step_idx].config().parameters
    }

    /// The stabilisation delay after one step, in milliseconds.
    pub fn step_stabilisation(&self, mode_idx: usize, step_idx: usize) -> (r: Option<u64>)
        requires
            mode_idx < self.modes@.len(),
            step_idx < self.modes@[mode_idx as int].sequence@.len(),
        ensures
            r == self.modes@[mode_idx as int].sequence@[step_idx as int]
                .spec_config().stabilisation_ms,
    {
        self.modes[mode_idx].sequence[step_idx].config().stabilisation_ms
    }

    /// Finishes a transition: every step succeeded, so the device is
    /// now in the mode at `mode_idx`.
    pub fn finish_transition(&mut self, mode_idx: usize)
        requires
            mode_idx < old(self).modes@.len(),
        ensures
            final(self).current_mode == Some(old(self).modes@[mode_idx as int].name),
            final(self).name == old(self).name,
            final(self).consoles == old(self).consoles,
            final(self).uploaders == old(self).uploaders,
            final(self).modes == old(self).modes,
    {
        let name = self.modes[mode_idx].name.clone();
        self.current_mode = Some(name);
    }
}

} // verus!
