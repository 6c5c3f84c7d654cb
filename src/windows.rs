use vstd::prelude::*;

use crate::index::{
    find, ids_unique, index_of, infos_nonempty, lemma_find, of_kind, DeviceIndex, Entry, EntryView,
};
use crate::model::{descriptor_views, read_outcome, Descriptor, DescriptorView, Hardware, HardwareError, HardwareKind, Value};

verus! {

/// The first port that discovery tries on the loopback interface.
pub const DEFAULT_PORT: u16 = 55555;

/// One decision of the port scan.
#[derive(Clone, Copy, Debug, PartialEq, Eq, Structural)]
pub enum ScanStep {
    /// Try to connect to this port next.
    Try(u16),
    /// The connection on this port is the one to use.
    Connected(u16),
    /// No port in range answered: discovery fails.
    Exhausted,
}

/// The decision after an attempt on `tried`.
pub open spec fn next_step(tried: u16, connected: bool) -> ScanStep {
    if connected {
        ScanStep::Connected(tried)
    } else if tried == u16::MAX {
        ScanStep::Exhausted
    } else {
        ScanStep::Try((tried + 1) as u16)
    }
}

/// Where a scan from `port` ends when exactly the ports of `open` accept.
pub open spec fn scan_outcome(open: Set<u16>, port: u16) -> ScanStep
    decreases u16::MAX - port,
{
    if open.contains(port) {
        ScanStep::Connected(port)
    } else if port == u16::MAX {
        ScanStep::Exhausted
    } else {
        scan_outcome(open, (port + 1) as u16)
    }
}

/// The scan's first decision.
pub fn scan_start() -> (r: ScanStep)
    ensures
        r == ScanStep::Try(DEFAULT_PORT),
{
    ScanStep::Try(DEFAULT_PORT)
}

/// The scan's decision after an attempt on `tried`: the first port that
/// accepts wins; otherwise the next port, up to the top of the port space.
pub fn scan_step(tried: u16, connected: bool) -> (r: ScanStep)
    ensures
        r == next_step(tried, connected),
{
    if connected {
        ScanStep::Connected(tried)
    } else if tried == u16::MAX {
        ScanStep::Exhausted
    } else {
        ScanStep::Try(tried + 1)
    }
}

/// Following the scan's decisions from `port` ends in `scan_outcome`.
pub proof fn lemma_scan_follows_steps(open: Set<u16>, port: u16)
    ensures
        next_step(port, open.contains(port)) matches ScanStep::Try(q) ==> scan_outcome(open, port)
            == scan_outcome(open, q),
        !(next_step(port, open.contains(port)) is Try) ==> scan_outcome(open, port) == next_step(
            port,
            open.contains(port),
        ),
{
}

/// No port of `open` lies in `[lo, hi)`.
pub open spec fn closed_between(open: Set<u16>, lo: u16, hi: int) -> bool {
    forall|q: u16| lo <= q < hi ==> !#[trigger] open.contains(q)
}

proof fn lemma_scan_connected(open: Set<u16>, port: u16, p: u16)
    ensures
        scan_outcome(open, port) == ScanStep::Connected(p) <==> (port <= p && open.contains(p)
            && closed_between(open, port, p as int)),
    decreases u16::MAX - port,
{
    if !open.contains(port) && port < u16::MAX {
        lemma_scan_connected(open, (port + 1) as u16, p);
        if port <= p && open.contains(p) && closed_between(open, port, p as int) {
            assert(closed_between(open, (port + 1) as u16, p as int));
        }
        if scan_outcome(open, port) == ScanStep::Connected(p) {
            assert forall|q: u16| port <= q < p implies !#[trigger] open.contains(q) by {
                if q != port {
                    assert((port + 1) as u16 <= q);
                }
            }
        }
    } else if open.contains(port) {
        if port < p && open.contains(p) && closed_between(open, port, p as int) {
            assert(!open.contains(port));
        }
    }
}

proof fn lemma_scan_exhausted(open: Set<u16>, port: u16)
    ensures
        scan_outcome(open, port) == ScanStep::Exhausted <==> closed_between(open, port, u16::MAX + 1),
        !(scan_outcome(open, port) is Try),
    decreases u16::MAX - port,
{
    if !open.contains(port) && port < u16::MAX {
        lemma_scan_exhausted(open, (port + 1) as u16);
        if closed_between(open, (port + 1) as u16, u16::MAX + 1) {
            assert forall|q: u16| port <= q < u16::MAX + 1 implies !#[trigger] open.contains(q) by {
                if q != port {
                    assert((port + 1) as u16 <= q);
                }
            }
        }
    } else if open.contains(port) {
        assert(!closed_between(open, port, u16::MAX + 1));
    }
}

/// A scan from `port` connects at `p` exactly when `p` is the least open port
/// at or above `port`, and is exhausted (never empty-handed) exactly when no
/// port at or above `port` is open.
pub proof fn lemma_scan_outcome(open: Set<u16>, port: u16, p: u16)
    ensures
        scan_outcome(open, port) == ScanStep::Connected(p) <==> (port <= p && open.contains(p)
            && closed_between(open, port, p as int)),
        scan_outcome(open, port) == ScanStep::Exhausted <==> closed_between(open, port, u16::MAX + 1),
        !(scan_outcome(open, port) is Try),
{
    lemma_scan_connected(open, port, p);
    lemma_scan_exhausted(open, port);
}

/// A device record as the monitoring server sends it.
#[derive(Debug)]
pub struct BaseHardware {
    pub id: String,
    pub name: String,
    pub index: usize,
    pub index2: usize,
    pub hardware_type: HardwareKind,
}

/// A read-only sensor of the server, addressed by its primary index.
#[derive(Clone, Copy, Debug, PartialEq, Eq, Structural)]
pub struct InternalSensor {
    pub index: usize,
}

/// A controllable output of the server: its value channel and its enable
/// (mode) channel.
#[derive(Clone, Copy, Debug, PartialEq, Eq, Structural)]
pub struct InternalControl {
    pub io: usize,
    pub enable: usize,
}

/// What a remote device is behind its id.
#[derive(Clone, Copy, Debug, PartialEq, Eq, Structural)]
pub enum RemoteItem {
    Sensor(InternalSensor),
    Control(InternalControl),
}

/// The mode that an output is commanded into.
#[derive(Clone, Copy, Debug, PartialEq, Eq, Structural)]
pub enum ControlMode {
    Manual,
    Automatic,
}

impl InternalSensor {
    /// Reads the sensor through `read_raw` (`None` when the source fails).
    pub fn get_value<F: Fn(usize) -> Option<Value>>(&self, read_raw: F) -> (r: Result<Option<Value>, HardwareError>)
        requires
            read_raw.requires((self.index,)),
        ensures
            exists|raw: Option<Value>| read_raw.ensures((self.index,), raw) && r == read_outcome(raw),
    {
        let raw = read_raw(self.index);
        let r = match raw {
            Some(v) => Ok(Some(v)),
            None => Err(HardwareError::BackendFailure),
        };
        assert(read_raw.ensures((self.index,), raw) && r == read_outcome(raw));
        r
    }

    /// A sensor takes no value.
    pub fn set_value(&self, value: Value) -> (r: Result<(), HardwareError>)
        ensures
            r == Err::<(), HardwareError>(HardwareError::NotSupported),
    {
        Err(HardwareError::NotSupported)
    }

    /// A sensor has no mode.
    pub fn set_mode(&self, mode: ControlMode) -> (r: Result<(), HardwareError>)
        ensures
            r == Err::<(), HardwareError>(HardwareError::NotSupported),
    {
        Err(HardwareError::NotSupported)
    }
}

/// What an outcome of sending a command gives the caller.
pub open spec fn command_outcome(sent: bool) -> Result<(), HardwareError> {
    if sent {
        Ok(())
    } else {
        Err(HardwareError::BackendFailure)
    }
}

impl InternalControl {
    /// An output reports no value.
    pub fn get_value(&self) -> (r: Result<Option<Value>, HardwareError>)
        ensures
            r == Err::<Option<Value>, HardwareError>(HardwareError::NotSupported),
    {
        Err(HardwareError::NotSupported)
    }

    /// Sends `value` on the value channel through `send` (`false` when it fails).
    pub fn set_value<F: Fn(usize, Value) -> bool>(&self, value: Value, send: F) -> (r: Result<(), HardwareError>)
        requires
            send.requires((self.io, value)),
        ensures
            exists|sent: bool| send.ensures((self.io, value), sent) && r == command_outcome(sent),
    {
        let sent = send(self.io, value);
        let r = if sent {
            Ok(())
        } else {
            Err(HardwareError::BackendFailure)
        };
        assert(send.ensures((self.io, value), sent) && r == command_outcome(sent));
        r
    }

    /// Sends `mode` on the enable channel through `send` (`false` when it fails).
    pub fn set_mode<F: Fn(usize, ControlMode) -> bool>(&self, mode: ControlMode, send: F) -> (r: Result<(), HardwareError>)
        requires
            send.requires((self.enable, mode)),
        ensures
            exists|sent: bool| send.ensures((self.enable, mode), sent) && r == command_outcome(sent),
    {
        let sent = send(self.enable, mode);
        let r = if sent {
            Ok(())
        } else {
            Err(HardwareError::BackendFailure)
        };
        assert(send.ensures((self.enable, mode), sent) && r == command_outcome(sent));
        r
    }

    /// Releases the output: consumes it, so it happens once, and names the
    /// enable channel that must be commanded back to automatic mode.
    pub fn release(self) -> (r: usize)
        ensures
            r == self.enable,
    {
        self.enable
    }
}

/// The name of a record's type tag.
pub open spec fn kind_text(k: HardwareKind) -> Seq<char> {
    match k {
        HardwareKind::Control => "Control"@,
        HardwareKind::Fan => "Fan"@,
        HardwareKind::Temp => "Temp"@,
    }
}

/// The diagnostic text of a remote device.
pub open spec fn remote_info(rec: BaseHardware) -> Seq<char> {
    "id: "@ + rec.id@ + "\nname: "@ + rec.name@ + "\ntype: "@ + kind_text(rec.hardware_type)
}

/// The kind under which a record is exported: every record is a control when
/// `sensors_as_controls` is set, otherwise its own type.
pub open spec fn exported_kind(t: HardwareKind, sensors_as_controls: bool) -> HardwareKind {
    if sensors_as_controls {
        HardwareKind::Control
    } else {
        t
    }
}

/// What a record stands for: an output for a control, a sensor otherwise.
pub open spec fn remote_item(rec: BaseHardware) -> RemoteItem {
    match rec.hardware_type {
        HardwareKind::Control => RemoteItem::Control(InternalControl { io: rec.index, enable: rec.index2 }),
        _ => RemoteItem::Sensor(InternalSensor { index: rec.index }),
    }
}

/// The index entry of a record.
pub open spec fn record_entry(rec: BaseHardware, sensors_as_controls: bool) -> EntryView<RemoteItem> {
    EntryView {
        descriptor: DescriptorView { id: rec.id@, name: rec.name@, info: remote_info(rec) },
        kind: exported_kind(rec.hardware_type, sensors_as_controls),
        handle: remote_item(rec),
    }
}

/// The entries of a record list, in order.
pub open spec fn record_entries(recs: Seq<BaseHardware>, sensors_as_controls: bool) -> Seq<EntryView<RemoteItem>> {
    recs.map_values(|rec: BaseHardware| record_entry(rec, sensors_as_controls))
}

/// The enable channels of the outputs of an index, in order.
pub open spec fn control_enables(s: Seq<EntryView<RemoteItem>>) -> Seq<usize>
    decreases s.len(),
{
    if s.len() == 0 {
        Seq::empty()
    } else {
        match s.last().handle {
            RemoteItem::Control(c) => control_enables(s.drop_last()).push(c.enable),
            RemoteItem::Sensor(_) => control_enables(s.drop_last()),
        }
    }
}

/// The backend over a remote monitoring server's one-shot device list.
pub struct WindowsBridge {
    items: DeviceIndex<RemoteItem>,
}

impl View for WindowsBridge {
    type V = Seq<EntryView<RemoteItem>>;

    closed spec fn view(&self) -> Seq<EntryView<RemoteItem>> {
        self.items@
    }
}

fn record_index_entry(rec: &BaseHardware, sensors_as_controls: bool) -> (r: Entry<RemoteItem>)
    ensures
        r@ == record_entry(*rec, sensors_as_controls),
        r.descriptor.info@.len() > 0,
{
    let mut info = String::from_str("id: ");
    info.append(rec.id.as_str());
    info.append("\nname: ");
    info.append(rec.name.as_str());
    info.append("\ntype: ");
    let handle = match rec.hardware_type {
        HardwareKind::Control => {
            info.append("Control");
            RemoteItem::Control(InternalControl { io: rec.index, enable: rec.index2 })
        },
        HardwareKind::Fan => {
            info.append("Fan");
            RemoteItem::Sensor(InternalSensor { index: rec.index })
        },
        HardwareKind::Temp => {
            info.append("Temp");
            RemoteItem::Sensor(InternalSensor { index: rec.index })
        },
    };
    proof {
        reveal_strlit("id: ");
    }
    let kind = if sensors_as_controls {
        HardwareKind::Control
    } else {
        rec.hardware_type
    };
    Entry { descriptor: Descriptor { id: rec.id.clone(), name: rec.name.clone(), info }, kind, handle }
}

impl WindowsBridge {
    /// Well-formed: ids unique and every diagnostic text present.
    pub open spec fn wf(&self) -> bool {
        ids_unique(self@) && infos_nonempty(self@)
    }

    /// Discovery from the server's record list: each record is indexed under
    /// its id (a later record with an id already taken replaces the earlier
    /// one), as an output for a control record and a sensor otherwise.
    pub fn new(records: &Vec<BaseHardware>, sensors_as_controls: bool) -> (r: WindowsBridge)
        ensures
            r@ == index_of(record_entries(records@, sensors_as_controls)),
            r.wf(),
    {
        let mut items: DeviceIndex<RemoteItem> = DeviceIndex::new();
        let mut i: usize = 0;
        while i < records.len()
            invariant
                0 <= i <= records@.len(),
                items.wf(),
                items@ == index_of(record_entries(records@.take(i as int), sensors_as_controls)),
            decreases records@.len() - i,
        {
            let e = record_index_entry(&records[i], sensors_as_controls);
            proof {
                let next = record_entries(records@.take(i + 1), sensors_as_controls);
                assert(next.drop_last() =~= record_entries(records@.take(i as int), sensors_as_controls));
                assert(next.last() == e@);
            }
            items.insert(e);
            i += 1;
        }
        assert(records@.take(records@.len() as int) =~= records@);
        WindowsBridge { items }
    }

    /// The exported snapshot, grouped by exported kind.
    pub fn hardware(&self) -> (r: Hardware)
        ensures
            descriptor_views(r.controls@) == of_kind(self@, HardwareKind::Control),
            descriptor_views(r.fans@) == of_kind(self@, HardwareKind::Fan),
            descriptor_views(r.temps@) == of_kind(self@, HardwareKind::Temp),
    {
        self.items.snapshot()
    }

    /// Reads the sensor `hardware_id` through `read_raw` (`None` when the
    /// source fails); an output reports no value.
    pub fn value<F: Fn(usize) -> Option<Value>>(&self, hardware_id: &str, read_raw: F) -> (r: Result<Option<Value>, HardwareError>)
        requires
            forall|h: usize| read_raw.requires((h,)),
        ensures
            find(self@, hardware_id@) == -1 ==> r == Err::<Option<Value>, HardwareError>(HardwareError::IdNotFound),
            find(self@, hardware_id@) != -1 ==> match self@[find(self@, hardware_id@)].handle {
                RemoteItem::Sensor(s) => exists|raw: Option<Value>|
                    read_raw.ensures((s.index,), raw) && r == read_outcome(raw),
                RemoteItem::Control(_) => r == Err::<Option<Value>, HardwareError>(HardwareError::NotSupported),
            },
    {
        let key = String::from_str(hardware_id);
        match self.items.position(&key) {
            Some(p) => {
                proof {
                    lemma_find(self@, key@);
                }
                match self.items.entry(p).handle {
                    RemoteItem::Sensor(s) => s.get_value(read_raw),
                    RemoteItem::Control(c) => c.get_value(),
                }
            },
            None => Err(HardwareError::IdNotFound),
        }
    }

    /// Sends `value` to the output `hardware_id` through `send` (`false` when
    /// it fails); a sensor takes no value.
    pub fn set_value<F: Fn(usize, Value) -> bool>(&self, hardware_id: &str, value: Value, send: F) -> (r: Result<(), HardwareError>)
        requires
            forall|io: usize, v: Value| send.requires((io, v)),
        ensures
            find(self@, hardware_id@) == -1 ==> r == Err::<(), HardwareError>(HardwareError::IdNotFound),
            find(self@, hardware_id@) != -1 ==> match self@[find(self@, hardware_id@)].handle {
                RemoteItem::Sensor(_) => r == Err::<(), HardwareError>(HardwareError::NotSupported),
                RemoteItem::Control(c) => exists|sent: bool|
                    send.ensures((c.io, value), sent) && r == command_outcome(sent),
            },
    {
        let key = String::from_str(hardware_id);
        match self.items.position(&key) {
            Some(p) => {
                proof {
                    lemma_find(self@, key@);
                }
                match self.items.entry(p).handle {
                    RemoteItem::Sensor(s) => s.set_value(value),
                    RemoteItem::Control(c) => c.set_value(value, send),
                }
            },
            None => Err(HardwareError::IdNotFound),
        }
    }

    /// The diagnostic text of the device `hardware_id`.
    pub fn info(&self, hardware_id: &str) -> (r: Result<String, HardwareError>)
        ensures
            find(self@, hardware_id@) == -1 ==> r == Err::<String, HardwareError>(HardwareError::IdNotFound),
            find(self@, hardware_id@) != -1 ==> r is Ok && r->Ok_0@ == self@[find(self@, hardware_id@)].descriptor.info,
    {
        self.items.info(hardware_id)
    }

    /// Tears the backend down: consumes it, and names once, in index order,
    /// the enable channel of every output, each of which must be commanded
    /// back to automatic mode.
    pub fn release(self) -> (r: Vec<usize>)
        ensures
            r@ == control_enables(self@),
    {
        let mut enables: Vec<usize> = Vec::new();
        let n = self.items.len();
        let mut i: usize = 0;
        while i < n
            invariant
                n == self@.len(),
                0 <= i <= n,
                enables@ == control_enables(self@.take(i as int)),
            decreases n - i,
        {
            proof {
                assert(self@.take(i + 1).drop_last() =~= self@.take(i as int));
            }
            match self.items.entry(i).handle {
                RemoteItem::Control(c) => enables.push(c.release()),
                RemoteItem::Sensor(_) => {},
            }
            i += 1;
        }
        assert(self@.take(n as int) =~= self@);
        enables
    }
}

} // verus!
