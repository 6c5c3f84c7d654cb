use vstd::prelude::*;

use crate::model::{Descriptor, DescriptorView};

verus! {

/// The kind of a feature of a chip, as far as discovery cares.
#[derive(Clone, Copy, Debug, PartialEq, Eq, Structural)]
pub enum FeatureKind {
    Fan,
    Temperature,
    Other,
}

/// The kind of value that a sub-feature exposes, as far as discovery cares.
#[derive(Clone, Copy, Debug, PartialEq, Eq, Structural)]
pub enum SubFeatureKind {
    FanInput,
    TemperatureInput,
    Other,
}

/// An addressable value point of a feature. `handle` is the stable slot under
/// which the owner of the native library keeps the live sub-feature.
#[derive(Debug)]
pub struct SubFeatureInfo {
    pub kind: SubFeatureKind,
    pub name: Option<String>,
    pub handle: usize,
}

/// A logical feature group of a chip.
#[derive(Debug)]
pub struct FeatureInfo {
    pub kind: FeatureKind,
    pub label: Option<String>,
    pub sub_features: Vec<SubFeatureInfo>,
}

/// A physical chip, with its path and bus rendered as text.
#[derive(Debug)]
pub struct ChipInfo {
    pub path: Option<String>,
    pub name: Option<String>,
    pub bus: String,
    pub features: Vec<FeatureInfo>,
}

/// `<chip-name>-<sub-feature-name>`
pub open spec fn device_id(chip_name: Seq<char>, sub_name: Seq<char>) -> Seq<char> {
    chip_name + "-"@ + sub_name
}

/// `<feature-label> <chip-name> <sub-feature-name>`
pub open spec fn device_name(label: Seq<char>, chip_name: Seq<char>, sub_name: Seq<char>) -> Seq<char> {
    label + " "@ + chip_name + " "@ + sub_name
}

/// The multi-line diagnostic text of a device.
pub open spec fn device_info(
    path: Seq<char>,
    chip_name: Seq<char>,
    bus: Seq<char>,
    label: Seq<char>,
    sub_name: Seq<char>,
) -> Seq<char> {
    "chip path: "@ + path + "\nchip name: "@ + chip_name + "\nbus: "@ + bus + "\nlabel: "@ + label
        + "\nfeature: "@ + sub_name
}

/// The descriptor of a device, or `None` when a field it needs is missing.
pub open spec fn generated(chip: ChipInfo, feature: FeatureInfo, sub: SubFeatureInfo) -> Option<DescriptorView> {
    if chip.path is Some && feature.label is Some && chip.name is Some && sub.name is Some {
        let path = chip.path->Some_0@;
        let label = feature.label->Some_0@;
        let chip_name = chip.name->Some_0@;
        let sub_name = sub.name->Some_0@;
        Some(
            DescriptorView {
                id: device_id(chip_name, sub_name),
                name: device_name(label, chip_name, sub_name),
                info: device_info(path, chip_name, chip.bus@, label, sub_name),
            },
        )
    } else {
        None
    }
}

/// The diagnostic text of a device is never empty.
pub proof fn lemma_info_nonempty(
    path: Seq<char>,
    chip_name: Seq<char>,
    bus: Seq<char>,
    label: Seq<char>,
    sub_name: Seq<char>,
)
    ensures
        device_info(path, chip_name, bus, label, sub_name).len() > 0,
{
    reveal_strlit("chip path: ");
}

/// Composes the id, display name and diagnostic text of the device that
/// `sub` addresses; `None` when the chip's path or name, the feature's label
/// or the sub-feature's name is unavailable.
pub fn generate_id_name_info(chip: &ChipInfo, feature: &FeatureInfo, sub: &SubFeatureInfo) -> (r: Option<Descriptor>)
    ensures
        match r {
            Some(d) => generated(*chip, *feature, *sub) == Some(d@),
            None => generated(*chip, *feature, *sub) is None,
        },
{
    let chip_path = match &chip.path {
        Some(p) => p,
        None => return None,
    };
    let label = match &feature.label {
        Some(l) => l,
        None => return None,
    };
    let chip_name = match &chip.name {
        Some(n) => n,
        None => return None,
    };
    let sub_feature_name = match &sub.name {
        Some(n) => n,
        None => return None,
    };

    let mut id = chip_name.clone();
    id.append("-");
    id.append(sub_feature_name.as_str());

    let mut name = label.clone();
    name.append(" ");
    name.append(chip_name.as_str());
    name.append(" ");
    name.append(sub_feature_name.as_str());

    let mut info = String::from_str("chip path: ");
    info.append(chip_path.as_str());
    info.append("\nchip name: ");
    info.append(chip_name.as_str());
    info.append("\nbus: ");
    info.append(chip.bus.as_str());
    info.append("\nlabel: ");
    info.append(label.as_str());
    info.append("\nfeature: ");
    info.append(sub_feature_name.as_str());

    Some(Descriptor { id, name, info })
}

} // verus!
