use vstd::prelude::*;

verus! {

/// A measurement or a command: raw sensor units, RPM, or a percentage.
pub type Value = i32;

/// The three kinds of device that discovery can export.
#[derive(Clone, Copy, Debug, PartialEq, Eq, Structural)]
pub enum HardwareKind {
    Control,
    Fan,
    Temp,
}

/// The errors that a per-call operation on a backend can report.
#[derive(Clone, Copy, Debug, PartialEq, Eq, Structural)]
pub enum HardwareError {
    /// The identifier was not produced by discovery.
    IdNotFound,
    /// The underlying source failed to answer.
    BackendFailure,
    /// The device cannot perform the operation (a sensor asked to take a value).
    NotSupported,
}

/// An exported, detached record naming one discovered device.
#[derive(Debug)]
pub struct Descriptor {
    pub id: String,
    pub name: String,
    pub info: String,
}

/// The mathematical content of a descriptor.
pub struct DescriptorView {
    pub id: Seq<char>,
    pub name: Seq<char>,
    pub info: Seq<char>,
}

impl View for Descriptor {
    type V = DescriptorView;

    open spec fn view(&self) -> DescriptorView {
        DescriptorView { id: self.id@, name: self.name@, info: self.info@ }
    }
}

impl Descriptor {
    /// An independent copy of this descriptor.
    pub fn duplicate(&self) -> (r: Descriptor)
        ensures
            r@ == self@,
    {
        Descriptor { id: self.id.clone(), name: self.name.clone(), info: self.info.clone() }
    }
}

/// A snapshot of everything that discovery found, grouped by kind.
#[derive(Debug)]
pub struct Hardware {
    pub controls: Vec<Descriptor>,
    pub fans: Vec<Descriptor>,
    pub temps: Vec<Descriptor>,
}

/// The descriptors of a sequence, as values.
pub open spec fn descriptor_views(s: Seq<Descriptor>) -> Seq<DescriptorView> {
    s.map_values(|d: Descriptor| d@)
}

/// What a read hands back: the raw value, or a failure of the source.
pub open spec fn read_outcome(raw: Option<Value>) -> Result<Option<Value>, HardwareError> {
    match raw {
        Some(v) => Ok(Some(v)),
        None => Err(HardwareError::BackendFailure),
    }
}

impl Hardware {
    /// An empty snapshot.
    pub fn new() -> (r: Hardware)
        ensures
            r.controls@.len() == 0,
            r.fans@.len() == 0,
            r.temps@.len() == 0,
    {
        Hardware { controls: Vec::new(), fans: Vec::new(), temps: Vec::new() }
    }
}

} // verus!
