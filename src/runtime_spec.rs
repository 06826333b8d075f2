//! The parts of a container runtime specification that seat devices touch,
//! and the merge of accepted device records into them.
use vstd::prelude::*;
use vstd::string::*;
use crate::decimal::{i64_of, parse_i64};
use crate::device::{
    lookup, property_lookup, pairs_view, seat_accepts, DeviceRecord, NodeKind, NodeMeta, RecordView, UdevDevice,
};

verus! {

/// A device category of the runtime specification: all, block, character,
/// unbuffered character, named pipe.
#[derive(Clone, Copy, Debug, PartialEq, Eq, Structural)]
pub enum LinuxDeviceType {
    A,
    B,
    C,
    U,
    P,
}

/// An entry of `linux.devices`.
pub struct LinuxDevice {
    pub path: String,
    pub typ: LinuxDeviceType,
    pub major: i64,
    pub minor: i64,
    pub file_mode: Option<u32>,
    pub uid: Option<u32>,
    pub gid: Option<u32>,
}

/// An entry of `linux.resources.devices`, the device cgroup allow-list.
pub struct LinuxDeviceCgroup {
    pub allow: bool,
    pub typ: Option<LinuxDeviceType>,
    pub major: Option<i64>,
    pub minor: Option<i64>,
    pub access: Option<String>,
}

/// The annotations, `linux.devices` and `linux.resources.devices` of a
/// runtime specification; `None` where the document has no such list.
pub struct RuntimeSpec {
    pub annotations: Option<Vec<(String, String)>>,
    pub devices: Option<Vec<LinuxDevice>>,
    pub cgroup_devices: Option<Vec<LinuxDeviceCgroup>>,
}

/// Why an augmentation, or the choice of where a specification comes from, failed.
#[derive(Debug, PartialEq, Eq)]
pub enum HookError {
    /// Neither standard input nor a file was selected.
    NoSpecSource,
    MissingMajor,
    InvalidMajor,
    MissingMinor,
    InvalidMinor,
    /// The metadata of a device node could not be read.
    NodeMetadata(String),
}

pub struct DeviceView {
    pub path: Seq<char>,
    pub typ: LinuxDeviceType,
    pub major: i64,
    pub minor: i64,
    pub file_mode: Option<u32>,
    pub uid: Option<u32>,
    pub gid: Option<u32>,
}

pub struct CgroupView {
    pub allow: bool,
    pub typ: Option<LinuxDeviceType>,
    pub major: Option<i64>,
    pub minor: Option<i64>,
    pub access: Option<Seq<char>>,
}

pub struct SpecView {
    pub annotations: Option<Seq<(Seq<char>, Seq<char>)>>,
    pub devices: Option<Seq<DeviceView>>,
    pub cgroup_devices: Option<Seq<CgroupView>>,
}

impl View for LinuxDevice {
    type V = DeviceView;

    open spec fn view(&self) -> DeviceView {
        DeviceView {
            path: self.path@,
            typ: self.typ,
            major: self.major,
            minor: self.minor,
            file_mode: self.file_mode,
            uid: self.uid,
            gid: self.gid,
        }
    }
}

impl View for LinuxDeviceCgroup {
    type V = CgroupView;

    open spec fn view(&self) -> CgroupView {
        CgroupView {
            allow: self.allow,
            typ: self.typ,
            major: self.major,
            minor: self.minor,
            access: match self.access {
                Some(a) => Some(a@),
                None => None,
            },
        }
    }
}

impl View for RuntimeSpec {
    type V = SpecView;

    open spec fn view(&self) -> SpecView {
        SpecView {
            annotations: match self.annotations {
                Some(a) => Some(pairs_view(a@)),
                None => None,
            },
            devices: match self.devices {
                Some(d) => Some(d@.map_values(|x: LinuxDevice| x@)),
                None => None,
            },
            cgroup_devices: match self.cgroup_devices {
                Some(c) => Some(c@.map_values(|x: LinuxDeviceCgroup| x@)),
                None => None,
            },
        }
    }
}

/// The annotation key that names the seat whose devices a container receives.
pub open spec fn seat_annotation() -> Seq<char> {
    "io.dev-binder.udev.seat"@
}

/// The seat that a specification asks for, if any.
pub open spec fn seat_of(s: SpecView) -> Option<Seq<char>> {
    match s.annotations {
        Some(a) => lookup(a, seat_annotation()),
        None => None,
    }
}

/// The device list, empty where the document has none.
pub open spec fn devices_of(s: SpecView) -> Seq<DeviceView> {
    match s.devices {
        Some(d) => d,
        None => Seq::empty(),
    }
}

/// The cgroup rule list, empty where the document has none.
pub open spec fn rules_of(s: SpecView) -> Seq<CgroupView> {
    match s.cgroup_devices {
        Some(c) => c,
        None => Seq::empty(),
    }
}

/// Whether some device entry has node path `path`.
pub open spec fn has_path(s: SpecView, path: Seq<char>) -> bool {
    exists|i: int| 0 <= i < devices_of(s).len() && (#[trigger] devices_of(s)[i]).path == path
}

/// The device category of a node type; `None` for types that are never granted.
pub open spec fn device_type_of(kind: NodeKind) -> Option<LinuxDeviceType> {
    match kind {
        NodeKind::Block => Some(LinuxDeviceType::B),
        NodeKind::Char => Some(LinuxDeviceType::C),
        NodeKind::Fifo => Some(LinuxDeviceType::P),
        NodeKind::Other => None,
    }
}

/// A required integer property: an error when it is absent or does not parse.
pub open spec fn number_property(
    d: RecordView,
    key: Seq<char>,
    missing: HookError,
    invalid: HookError,
) -> Result<i64, HookError> {
    match lookup(d.properties, key) {
        None => Err(missing),
        Some(v) => match i64_of(v) {
            Some(n) => Ok(n),
            None => Err(invalid),
        },
    }
}

pub open spec fn major_of(d: RecordView) -> Result<i64, HookError> {
    number_property(d, "MAJOR"@, HookError::MissingMajor, HookError::InvalidMajor)
}

pub open spec fn minor_of(d: RecordView) -> Result<i64, HookError> {
    number_property(d, "MINOR"@, HookError::MissingMinor, HookError::InvalidMinor)
}

/// The device entry for a node: mode and ownership taken as the node has them.
pub open spec fn device_entry(
    path: Seq<char>,
    typ: LinuxDeviceType,
    major: i64,
    minor: i64,
    m: NodeMeta,
) -> DeviceView {
    DeviceView {
        path,
        typ,
        major,
        minor,
        file_mode: Some(m.mode),
        uid: Some(m.uid),
        gid: Some(m.gid),
    }
}

/// The cgroup rule that grants full access to one device.
pub open spec fn cgroup_rule(typ: LinuxDeviceType, major: i64, minor: i64) -> CgroupView {
    CgroupView {
        allow: true,
        typ: Some(typ),
        major: Some(major),
        minor: Some(minor),
        access: Some("rwm"@),
    }
}

/// `s` with one device entry and one cgroup rule appended, each list created if absent.
pub open spec fn append_device(s: SpecView, dev: DeviceView, rule: CgroupView) -> SpecView {
    SpecView {
        annotations: s.annotations,
        devices: Some(devices_of(s).push(dev)),
        cgroup_devices: Some(rules_of(s).push(rule)),
    }
}

/// The result of merging one device record into `s`. A record without a node,
/// or whose node path is already listed, changes nothing. Otherwise `MAJOR`
/// and `MINOR` must parse, then the node's metadata must have been read; a node
/// of an unsupported type changes nothing, any other is appended.
pub open spec fn add_device_spec(s: SpecView, d: RecordView) -> Result<SpecView, HookError> {
    match d.node {
        None => Ok(s),
        Some(n) => if has_path(s, n.path) {
            Ok(s)
        } else {
            match major_of(d) {
                Err(e) => Err(e),
                Ok(major) => match minor_of(d) {
                    Err(e) => Err(e),
                    Ok(minor) => match n.meta {
                        Err(msg) => Err(HookError::NodeMetadata(msg)),
                        Ok(m) => match device_type_of(m.kind) {
                            None => Ok(s),
                            Some(t) => Ok(
                                append_device(
                                    s,
                                    device_entry(n.path, t, major, minor, m),
                                    cgroup_rule(t, major, minor),
                                ),
                            ),
                        },
                    },
                },
            }
        },
    }
}

/// Merging `d` after a merge that yielded `r`; a failure stays as it was.
pub open spec fn then_add(r: Result<SpecView, HookError>, d: RecordView) -> Result<
    SpecView,
    HookError,
> {
    match r {
        Ok(s) => add_device_spec(s, d),
        Err(e) => Err(e),
    }
}

/// Merging the records of `ds` into `s` one after another, in order.
pub open spec fn add_all_spec(s: SpecView, ds: Seq<RecordView>) -> Result<SpecView, HookError>
    decreases ds.len(),
{
    if ds.len() == 0 {
        Ok(s)
    } else {
        then_add(add_all_spec(s, ds.drop_last()), ds.last())
    }
}

/// The records of `ds` that belong to `seat`, in their order.
pub open spec fn accepted(seat: Seq<char>, ds: Seq<RecordView>) -> Seq<RecordView>
    decreases ds.len(),
{
    if ds.len() == 0 {
        Seq::empty()
    } else {
        let p = accepted(seat, ds.drop_last());
        if seat_accepts(seat, ds.last()) {
            p.push(ds.last())
        } else {
            p
        }
    }
}

/// The views of a list of records.
pub open spec fn records_view(ds: Seq<DeviceRecord>) -> Seq<RecordView> {
    ds.map_values(|d: DeviceRecord| d@)
}

/// The view of a finished augmentation.
pub open spec fn result_view(r: Result<RuntimeSpec, HookError>) -> Result<SpecView, HookError> {
    match r {
        Ok(s) => Ok(s@),
        Err(e) => Err(e),
    }
}

/// Merging device records into a runtime specification.
pub trait RuntimeSpecUdev: Sized + View<V = SpecView> {
    /// Merges one device record (see `add_device_spec`). On failure the
    /// specification is left as it was.
    fn add_udev_device(&mut self, device: &DeviceRecord) -> (r: Result<(), HookError>)
        ensures
            match add_device_spec(old(self)@, device@) {
                Ok(s) => r is Ok && final(self)@ == s,
                Err(e) => r == Err::<(), HookError>(e) && final(self)@ == old(self)@,
            },
    ;
}

impl RuntimeSpecUdev for RuntimeSpec {
    fn add_udev_device(&mut self, device: &DeviceRecord) -> (r: Result<(), HookError>) {
        let node = match &device.node {
            None => return Ok(()),
            Some(n) => n,
        };
        if self.has_device_path(&node.path) {
            return Ok(());
        }
        let major = match read_number(
            device,
            &String::from_str("MAJOR"),
            HookError::MissingMajor,
            HookError::InvalidMajor,
        ) {
            Ok(v) => v,
            Err(e) => return Err(e),
        };
        let minor = match read_number(
            device,
            &String::from_str("MINOR"),
            HookError::MissingMinor,
            HookError::InvalidMinor,
        ) {
            Ok(v) => v,
            Err(e) => return Err(e),
        };
        let meta = match &node.meta {
            Ok(m) => *m,
            Err(msg) => return Err(HookError::NodeMetadata(msg.clone())),
        };
        let typ = match meta.kind {
            NodeKind::Block => LinuxDeviceType::B,
            NodeKind::Char => LinuxDeviceType::C,
            NodeKind::Fifo => LinuxDeviceType::P,
            NodeKind::Other => return Ok(()),
        };
        let dev = LinuxDevice {
            path: node.path.clone(),
            typ,
            major,
            minor,
            file_mode: Some(meta.mode),
            uid: Some(meta.uid),
            gid: Some(meta.gid),
        };
        let rule = LinuxDeviceCgroup {
            allow: true,
            typ: Some(typ),
            major: Some(major),
            minor: Some(minor),
            access: Some(String::from_str("rwm")),
        };
        let ghost s0 = self@;
        let mut devs = match self.devices.take() {
            Some(v) => v,
            None => Vec::new(),
        };
        devs.push(dev);
        self.devices = Some(devs);
        let mut rules = match self.cgroup_devices.take() {
            Some(v) => v,
            None => Vec::new(),
        };
        rules.push(rule);
        self.cgroup_devices = Some(rules);
        assert(devices_of(self@) =~= devices_of(s0).push(dev@));
        assert(rules_of(self@) =~= rules_of(s0).push(rule@));
        Ok(())
    }

}

/// A failure stays a failure whatever further records are merged.
proof fn lemma_failure_persists(
    s: SpecView,
    seat: Seq<char>,
    ds: Seq<RecordView>,
    i: int,
    e: HookError,
)
    requires
        0 <= i <= ds.len(),
        add_all_spec(s, accepted(seat, ds.subrange(0, i))) == Err::<SpecView, HookError>(e),
    ensures
        add_all_spec(s, accepted(seat, ds)) == Err::<SpecView, HookError>(e),
    decreases ds.len() - i,
{
    if i < ds.len() {
        let prefix = accepted(seat, ds.subrange(0, i));
        assert(ds.subrange(0, i + 1).drop_last() =~= ds.subrange(0, i));
        assert(prefix.push(ds[i]).drop_last() =~= prefix);
        lemma_failure_persists(s, seat, ds, i + 1, e);
    } else {
        assert(ds.subrange(0, ds.len() as int) =~= ds);
    }
}

/// Reads the integer property `key` of a record.
fn read_number(device: &DeviceRecord, key: &String, missing: HookError, invalid: HookError) -> (r:
    Result<i64, HookError>)
    ensures
        r == number_property(device@, key@, missing, invalid),
{
    match device.property_value(key) {
        None => Err(missing),
        Some(v) => match parse_i64(v.as_str()) {
            Some(n) => Ok(n),
            None => Err(invalid),
        },
    }
}

impl RuntimeSpec {
    /// The seat that the annotations ask for, if any.
    pub fn seat_id(&self) -> (r: Option<String>)
        ensures
            match r {
                Some(v) => seat_of(self@) == Some(v@),
                None => seat_of(self@).is_none(),
            },
    {
        match &self.annotations {
            Some(a) => {
                let key = String::from_str("io.dev-binder.udev.seat");
                match property_lookup(a, &key) {
                    Some(v) => Some(v.clone()),
                    None => None,
                }
            },
            None => None,
        }
    }

    /// Whether some device entry has node path `path`.
    pub fn has_device_path(&self, path: &String) -> (r: bool)
        ensures
            r == has_path(self@, path@),
    {
        match &self.devices {
            None => false,
            Some(devs) => {
                let ghost all = devices_of(self@);
                let mut i: usize = 0;
                while i < devs.len()
                    invariant
                        i <= devs.len(),
                        all == devs@.map_values(|x: LinuxDevice| x@),
                        all == devices_of(self@),
                        forall|j: int| 0 <= j < i ==> all[j].path != path@,
                    decreases devs.len() - i,
                {
                    if devs[i].path == *path {
                        assert(all[i as int].path == path@);
                        return true;
                    }
                    i = i + 1;
                }
                false
            },
        }
    }

    /// Merges, in order, the records that belong to the seat the annotations
    /// name. Without such a seat the specification comes back unchanged. The
    /// first failure ends the merge, and no specification is returned.
    pub fn with_seat_devices(self, devices: &Vec<DeviceRecord>) -> (r: Result<
        RuntimeSpec,
        HookError,
    >)
        ensures
            match seat_of(self@) {
                None => result_view(r) == Ok::<SpecView, HookError>(self@),
                Some(seat) => result_view(r) == add_all_spec(
                    self@,
                    accepted(seat, records_view(devices@)),
                ),
            },
    {
        let seat = match self.seat_id() {
            None => return Ok(self),
            Some(s) => s,
        };
        let ghost s0 = self@;
        let ghost all = records_view(devices@);
        let mut spec = self;
        assert(all.subrange(0, 0) =~= Seq::<RecordView>::empty());
        let mut i: usize = 0;
        while i < devices.len()
            invariant
                i <= devices.len(),
                all == records_view(devices@),
                s0 == self@,
                seat_of(s0) == Some(seat@),
                add_all_spec(s0, accepted(seat@, all.subrange(0, i as int))) == Ok::<
                    SpecView,
                    HookError,
                >(spec@),
            decreases devices.len() - i,
        {
            let ghost prefix = accepted(seat@, all.subrange(0, i as int));
            assert(all[i as int] == devices@[i as int]@);
            assert(all.subrange(0, i + 1).last() == all[i as int]);
            assert(all.subrange(0, i + 1).drop_last() =~= all.subrange(0, i as int));
            assert(prefix.push(all[i as int]).drop_last() =~= prefix);
            if devices[i].belongs_to_seat(&seat) {
                match spec.add_udev_device(&devices[i]) {
                    Ok(()) => {},
                    Err(e) => {
                        proof {
                            assert(accepted(seat@, all.subrange(0, i + 1)) == prefix.push(
                                all[i as int],
                            ));
                            lemma_failure_persists(s0, seat@, all, i + 1, e);
                        }
                        return Err(e);
                    },
                }
            }
            i = i + 1;
        }
        assert(all.subrange(0, devices.len() as int) =~= all);
        Ok(spec)
    }
}

} // verus!
