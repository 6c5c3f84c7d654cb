use vstd::prelude::*;

use crate::identity::{
    generate_id_name_info, generated, lemma_info_nonempty, ChipInfo, FeatureInfo, FeatureKind,
    SubFeatureInfo, SubFeatureKind,
};
use crate::index::{find, ids_unique, index_of, infos_nonempty, lemma_find, of_kind, DeviceIndex, Entry, EntryView};
use crate::model::{descriptor_views, read_outcome, Hardware, HardwareError, HardwareKind, Value};

verus! {

/// The backend over a native sensor library's device tree. It is read-only:
/// only fan-speed and temperature inputs are discovered.
pub struct LinuxBridge {
    sensors: DeviceIndex<usize>,
}

/// The sub-feature kind and exported kind for a feature kind that discovery recognises.
pub open spec fn recognised(k: FeatureKind) -> Option<(SubFeatureKind, HardwareKind)> {
    match k {
        FeatureKind::Fan => Some((SubFeatureKind::FanInput, HardwareKind::Fan)),
        FeatureKind::Temperature => Some((SubFeatureKind::TemperatureInput, HardwareKind::Temp)),
        FeatureKind::Other => None,
    }
}

/// Position of the first sub-feature at or after `i` of kind `k`, or -1.
pub open spec fn select_from(subs: Seq<SubFeatureInfo>, k: SubFeatureKind, i: int) -> int
    decreases subs.len() - i,
{
    if i < 0 || i >= subs.len() {
        -1
    } else if subs[i].kind == k {
        i
    } else {
        select_from(subs, k, i + 1)
    }
}

/// The device that a feature contributes, if any.
pub open spec fn feature_device(chip: ChipInfo, feature: FeatureInfo) -> Option<EntryView<usize>> {
    match recognised(feature.kind) {
        None => None,
        Some((sk, hk)) => {
            let s = select_from(feature.sub_features@, sk, 0);
            if s < 0 {
                None
            } else {
                let sub = feature.sub_features@[s];
                match generated(chip, feature, sub) {
                    None => None,
                    Some(d) => Some(EntryView { descriptor: d, kind: hk, handle: sub.handle }),
                }
            }
        },
    }
}

/// The devices of the features `fs` of `chip`, in order.
pub open spec fn features_devices(chip: ChipInfo, fs: Seq<FeatureInfo>) -> Seq<EntryView<usize>>
    decreases fs.len(),
{
    if fs.len() == 0 {
        Seq::empty()
    } else {
        let rest = features_devices(chip, fs.drop_last());
        match feature_device(chip, fs.last()) {
            Some(e) => rest.push(e),
            None => rest,
        }
    }
}

/// The devices of a tree of chips, in walk order.
pub open spec fn tree_devices(chips: Seq<ChipInfo>) -> Seq<EntryView<usize>>
    decreases chips.len(),
{
    if chips.len() == 0 {
        Seq::empty()
    } else {
        tree_devices(chips.drop_last()) + features_devices(chips.last(), chips.last().features@)
    }
}

/// Two discoveries over the same device tree build the same index, so the
/// same devices get the same ids.
pub proof fn lemma_identity_deterministic(first: LinuxBridge, second: LinuxBridge, chips: Seq<ChipInfo>)
    requires
        first@ == index_of(tree_devices(chips)),
        second@ == index_of(tree_devices(chips)),
    ensures
        first@ == second@,
        forall|i: int| 0 <= i < first@.len() ==> #[trigger] first@[i].descriptor.id == second@[i].descriptor.id,
{
}

impl View for LinuxBridge {
    type V = Seq<EntryView<usize>>;

    closed spec fn view(&self) -> Seq<EntryView<usize>> {
        self.sensors@
    }
}

/// Finds the first sub-feature of kind `k`.
fn select_sub_feature(subs: &Vec<SubFeatureInfo>, k: SubFeatureKind) -> (r: Option<usize>)
    ensures
        match r {
            Some(i) => i as int == select_from(subs@, k, 0) && i < subs@.len(),
            None => select_from(subs@, k, 0) == -1,
        },
{
    let mut i: usize = 0;
    while i < subs.len()
        invariant
            0 <= i <= subs@.len(),
            select_from(subs@, k, 0) == select_from(subs@, k, i as int),
        decreases subs@.len() - i,
    {
        if subs[i].kind == k {
            return Some(i);
        }
        i += 1;
    }
    None
}

/// The device that `feature` of `chip` contributes.
fn feature_entry(chip: &ChipInfo, feature: &FeatureInfo) -> (r: Option<Entry<usize>>)
    ensures
        match r {
            Some(e) => feature_device(*chip, *feature) == Some(e@),
            None => feature_device(*chip, *feature) is None,
        },
{
    let (sub_kind, kind) = match feature.kind {
        FeatureKind::Fan => (SubFeatureKind::FanInput, HardwareKind::Fan),
        FeatureKind::Temperature => (SubFeatureKind::TemperatureInput, HardwareKind::Temp),
        FeatureKind::Other => return None,
    };
    let s = match select_sub_feature(&feature.sub_features, sub_kind) {
        Some(s) => s,
        None => return None,
    };
    let sub = &feature.sub_features[s];
    match generate_id_name_info(chip, feature, sub) {
        Some(descriptor) => Some(Entry { descriptor, kind, handle: sub.handle }),
        None => None,
    }
}

impl LinuxBridge {
    /// Well-formed: ids unique and every diagnostic text present.
    pub open spec fn wf(&self) -> bool {
        ids_unique(self@) && infos_nonempty(self@)
    }

    /// Discovery: walks the tree once and indexes every fan and temperature
    /// input whose identity can be generated; a later device with an id
    /// already taken replaces the earlier one.
    pub fn new(chips: &Vec<ChipInfo>) -> (r: LinuxBridge)
        ensures
            r@ == index_of(tree_devices(chips@)),
            r.wf(),
    {
        let mut sensors: DeviceIndex<usize> = DeviceIndex::new();
        let mut i: usize = 0;
        while i < chips.len()
            invariant
                0 <= i <= chips@.len(),
                sensors.wf(),
                sensors@ == index_of(tree_devices(chips@.take(i as int))),
            decreases chips@.len() - i,
        {
            let chip = &chips[i];
            let ghost done = tree_devices(chips@.take(i as int));
            proof {
                assert(chips@.take(i + 1).drop_last() =~= chips@.take(i as int));
            }
            let mut j: usize = 0;
            while j < chip.features.len()
                invariant
                    0 <= i < chips@.len(),
                    chip == chips@[i as int],
                    0 <= j <= chip.features@.len(),
                    sensors.wf(),
                    sensors@ == index_of(done + features_devices(*chip, chip.features@.take(j as int))),
                decreases chip.features@.len() - j,
            {
                let feature = &chip.features[j];
                let ghost so_far = done + features_devices(*chip, chip.features@.take(j as int));
                proof {
                    assert(chip.features@.take(j + 1).drop_last() =~= chip.features@.take(j as int));
                }
                match feature_entry(chip, feature) {
                    Some(e) => {
                        proof {
                            let sub = feature.sub_features@[select_from(feature.sub_features@, recognised(feature.kind)->Some_0.0, 0)];
                            lemma_info_nonempty(
                                chip.path->Some_0@,
                                chip.name->Some_0@,
                                chip.bus@,
                                feature.label->Some_0@,
                                sub.name->Some_0@,
                            );
                            assert((so_far.push(e@)).drop_last() =~= so_far);
                            assert(so_far.push(e@) =~= done + features_devices(*chip, chip.features@.take(j + 1)));
                        }
                        sensors.insert(e);
                    },
                    None => {
                        assert(so_far =~= done + features_devices(*chip, chip.features@.take(j + 1)));
                    },
                }
                j += 1;
            }
            assert(chip.features@.take(chip.features@.len() as int) =~= chip.features@);
            i += 1;
        }
        assert(chips@.take(chips@.len() as int) =~= chips@);
        LinuxBridge { sensors }
    }

    /// The exported snapshot: fans and temperatures, controls empty.
    pub fn hardware(&self) -> (r: Hardware)
        ensures
            descriptor_views(r.controls@) == of_kind(self@, HardwareKind::Control),
            descriptor_views(r.fans@) == of_kind(self@, HardwareKind::Fan),
            descriptor_views(r.temps@) == of_kind(self@, HardwareKind::Temp),
    {
        self.sensors.snapshot()
    }

    /// Reads the device `hardware_id` through `read_raw`, which reads the
    /// live sub-feature in a handle's slot (`None` when the library fails).
    pub fn value<F: Fn(usize) -> Option<Value>>(&self, hardware_id: &str, read_raw: F) -> (r: Result<Option<Value>, HardwareError>)
        requires
            forall|h: usize| read_raw.requires((h,)),
        ensures
            find(self@, hardware_id@) == -1 ==> r == Err::<Option<Value>, HardwareError>(HardwareError::IdNotFound),
            find(self@, hardware_id@) != -1 ==> exists|raw: Option<Value>|
                read_raw.ensures((self@[find(self@, hardware_id@)].handle,), raw) && r == read_outcome(raw),
    {
        let key = String::from_str(hardware_id);
        match self.sensors.position(&key) {
            Some(p) => {
                proof {
                    lemma_find(self@, key@);
                }
                let handle = self.sensors.entry(p).handle;
                let raw = read_raw(handle);
                let r = match raw {
                    Some(v) => Ok(Some(v)),
                    None => Err(HardwareError::BackendFailure),
                };
                assert(read_raw.ensures((self@[p as int].handle,), raw) && r == read_outcome(raw));
                r
            },
            None => Err(HardwareError::IdNotFound),
        }
    }

    /// Actuation: no device of this backend takes a value.
    pub fn set_value(&self, hardware_id: &str, value: Value) -> (r: Result<(), HardwareError>)
        ensures
            find(self@, hardware_id@) == -1 ==> r == Err::<(), HardwareError>(HardwareError::IdNotFound),
            find(self@, hardware_id@) != -1 ==> r == Err::<(), HardwareError>(HardwareError::NotSupported),
    {
        let key = String::from_str(hardware_id);
        match self.sensors.position(&key) {
            Some(_) => Err(HardwareError::NotSupported),
            None => Err(HardwareError::IdNotFound),
        }
    }

    /// The diagnostic text of the device `hardware_id`.
    pub fn info(&self, hardware_id: &str) -> (r: Result<String, HardwareError>)
        ensures
            find(self@, hardware_id@) == -1 ==> r == Err::<String, HardwareError>(HardwareError::IdNotFound),
            find(self@, hardware_id@) != -1 ==> r is Ok && r->Ok_0@ == self@[find(self@, hardware_id@)].descriptor.info,
    {
        self.sensors.info(hardware_id)
    }
}

} // verus!
