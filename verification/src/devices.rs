//! Audio devices: the settings a stream is opened with, and the scan that
//! sorts the devices of each audio host into inputs and outputs.
use vstd::prelude::*;

verus! {

/// Why audio devices could not be found or opened.
#[derive(Clone, Copy, Debug, PartialEq, Eq, Structural)]
pub enum CpalError {
    HostUnavailable,
    DeviceName,
    DevicesError,
    SupportedConfig,
    DefaultConfig,
    BuildStream,
    InputUnavailable,
    OutputUnavailable,
    Unexpected,
}

/// How many frames a stream hands over at a time.
#[derive(Clone, Copy, Debug, PartialEq, Eq, Structural)]
pub enum BufferSize {
    /// Left to the host.
    Default,
    Fixed(u32),
}

/// The settings a stream is opened with.
#[derive(Clone, Copy, Debug, PartialEq, Eq, Structural)]
pub struct StreamConfig {
    pub channels: u16,
    pub sample_rate: u32,
    pub buffer_size: BufferSize,
}

/// An audio device: the host's handle for it, its name, and the settings
/// its streams are opened with.
pub struct Device<H> {
    inner: H,
    name: String,
    config: StreamConfig,
}

impl<H> Device<H> {
    pub closed spec fn spec_inner(&self) -> H {
        self.inner
    }

    pub closed spec fn spec_name(&self) -> Seq<char> {
        self.name@
    }

    pub closed spec fn spec_config(&self) -> StreamConfig {
        self.config
    }

    /// A device with the given handle and name, whose streams use the given
    /// settings with the buffer size left to the host.
    pub fn new(inner: H, name: String, config: StreamConfig) -> (r: Self)
        ensures
            r.spec_inner() == inner,
            r.spec_name() == name@,
            r.spec_config() == (StreamConfig {
                channels: config.channels,
                sample_rate: config.sample_rate,
                buffer_size: BufferSize::Default,
            }),
    {
        let mut config = config;
        config.buffer_size = BufferSize::Default;
        Device { inner, name, config }
    }

    /// The device's name.
    pub fn name(&self) -> (r: &str)
        ensures
            r@ == self.spec_name(),
    {
        self.name.as_str()
    }

    /// The settings the device's streams are opened with.
    pub fn config(&self) -> (r: &StreamConfig)
        ensures
            *r == self.spec_config(),
    {
        &self.config
    }

    /// The host's handle for the device.
    pub fn inner(&self) -> (r: &H)
        ensures
            *r == self.spec_inner(),
    {
        &self.inner
    }
}

/// Where a device goes in a scan.
#[derive(Clone, Copy, Debug, PartialEq, Eq, Structural)]
pub enum DeviceRole {
    Input,
    Output,
}

/// The role of a device from the number of input and of output settings it
/// supports: a device with input settings is an input, else one with output
/// settings is an output; `None` for a device with neither, which ends the
/// scan of its host.
pub fn device_role(input_configs: usize, output_configs: usize) -> (r: Option<DeviceRole>)
    ensures
        input_configs > 0 ==> r == Some(DeviceRole::Input),
        input_configs == 0 && output_configs > 0 ==> r == Some(DeviceRole::Output),
        input_configs == 0 && output_configs == 0 ==> r is None,
{
    if input_configs > 0 {
        Some(DeviceRole::Input)
    } else if output_configs > 0 {
        Some(DeviceRole::Output)
    } else {
        None
    }
}

/// The devices found on one audio host.
pub struct HostDevices<H> {
    pub name: String,
    pub inputs: Vec<Device<H>>,
    pub outputs: Vec<Device<H>>,
}

pub struct HostView<H> {
    pub name: Seq<char>,
    pub inputs: Seq<Device<H>>,
    pub outputs: Seq<Device<H>>,
}

impl<H> View for HostDevices<H> {
    type V = HostView<H>;

    open spec fn view(&self) -> HostView<H> {
        HostView { name: self.name@, inputs: self.inputs@, outputs: self.outputs@ }
    }
}

/// A host with no devices yet.
pub open spec fn fresh_host<H>(name: Seq<char>) -> HostView<H> {
    HostView { name, inputs: Seq::empty(), outputs: Seq::empty() }
}

/// Some host has the given name.
pub open spec fn has_host<H>(hosts: Seq<HostView<H>>, name: Seq<char>) -> bool {
    exists|k: int| 0 <= k < hosts.len() && #[trigger] hosts[k].name == name
}

/// The index of the host with the given name (meaningful when one has it).
pub open spec fn host_index<H>(hosts: Seq<HostView<H>>, name: Seq<char>) -> int {
    choose|k: int| 0 <= k < hosts.len() && #[trigger] hosts[k].name == name
}

/// No two hosts have the same name.
pub open spec fn distinct_names<H>(hosts: Seq<HostView<H>>) -> bool {
    forall|i: int, j: int|
        0 <= i < hosts.len() && 0 <= j < hosts.len() && i != j ==> #[trigger] hosts[i].name
            != #[trigger] hosts[j].name
}

/// A scan as mathematical values: the hosts seen so far, the host being
/// scanned, and whether some input and some output were found.
pub struct ScanView<H> {
    pub hosts: Seq<HostView<H>>,
    pub current: Option<nat>,
    pub input_available: bool,
    pub output_available: bool,
}

/// The devices of the audio hosts, sorted into inputs and outputs host by
/// host.
pub struct DeviceScan<H> {
    hosts: Vec<HostDevices<H>>,
    current: Option<usize>,
    input_available: bool,
    output_available: bool,
}

impl<H> View for DeviceScan<H> {
    type V = ScanView<H>;

    closed spec fn view(&self) -> ScanView<H> {
        ScanView {
            hosts: self.hosts@.map_values(|h: HostDevices<H>| h@),
            current: match self.current {
                Some(c) => Some(c as nat),
                None => None,
            },
            input_available: self.input_available,
            output_available: self.output_available,
        }
    }
}

impl<H> DeviceScan<H> {
    /// Host names are distinct and the current host is one of the hosts.
    pub open spec fn wf(&self) -> bool {
        &&& distinct_names(self@.hosts)
        &&& self@.current matches Some(c) ==> c < self@.hosts.len()
    }

    /// Starts a scan of `host_count` hosts; there must be at least one.
    pub fn start(host_count: usize) -> (r: Result<DeviceScan<H>, CpalError>)
        ensures
            host_count == 0 <==> r == Err::<DeviceScan<H>, CpalError>(CpalError::HostUnavailable),
            host_count > 0 <==> r is Ok,
            r matches Ok(s) ==> {
                &&& s.wf()
                &&& s@.hosts == Seq::<HostView<H>>::empty()
                &&& s@.current is None
                &&& !s@.input_available
                &&& !s@.output_available
            },
    {
        if host_count == 0 {
            return Err(CpalError::HostUnavailable);
        }
        let s = DeviceScan {
            hosts: Vec::new(),
            current: None,
            input_available: false,
            output_available: false,
        };
        assert(s@.hosts =~= Seq::<HostView<H>>::empty());
        Ok(s)
    }

    /// Starts scanning the host called `name`. A host of that name seen
    /// before is emptied and scanned again in its place; otherwise the host
    /// is added after the others.
    pub fn begin_host(&mut self, name: String)
        requires
            old(self).wf(),
        ensures
            final(self).wf(),
            final(self)@.input_available == old(self)@.input_available,
            final(self)@.output_available == old(self)@.output_available,
            has_host(old(self)@.hosts, name@) ==> {
                let k = host_index(old(self)@.hosts, name@);
                &&& final(self)@.hosts == old(self)@.hosts.update(k, fresh_host(name@))
                &&& final(self)@.current == Some(k as nat)
            },
            !has_host(old(self)@.hosts, name@) ==> {
                &&& final(self)@.hosts == old(self)@.hosts.push(fresh_host(name@))
                &&& final(self)@.current == Some(old(self)@.hosts.len())
            },
    {
        let ghost hosts = self@.hosts;
        let n = self.hosts.len();
        let mut k: usize = 0;
        while k < n
            invariant
                n == self.hosts.len(),
                k <= n,
                hosts == self@.hosts,
                hosts == self.hosts@.map_values(|h: HostDevices<H>| h@),
                distinct_names(hosts),
                hosts == old(self)@.hosts,
                self.input_available == old(self).input_available,
                self.output_available == old(self).output_available,
                forall|i: int| 0 <= i < k ==> #[trigger] hosts[i].name != name@,
            decreases n - k,
        {
            if self.hosts[k].name == name {
                assert(hosts[k as int].name == name@);
                assert(has_host(hosts, name@));
                let ghost j = host_index(hosts, name@);
                assert(hosts[j].name == name@);
                assert(j == k as int);
                let fresh = HostDevices { name, inputs: Vec::new(), outputs: Vec::new() };
                self.hosts.set(k, fresh);
                self.current = Some(k);
                assert(self@.hosts =~= hosts.update(k as int, fresh_host(name@)));
                assert forall|a: int, b: int|
                    0 <= a < self@.hosts.len() && 0 <= b < self@.hosts.len() && a != b implies #[trigger] self@.hosts[a].name
                    != #[trigger] self@.hosts[b].name by {
                    assert(hosts[a].name != hosts[b].name);
                }
                return;
            }
            k = k + 1;
        }
        assert(!has_host(hosts, name@));
        let fresh = HostDevices { name, inputs: Vec::new(), outputs: Vec::new() };
        self.hosts.push(fresh);
        self.current = Some(n);
        assert(self@.hosts =~= hosts.push(fresh_host(name@)));
        assert forall|a: int, b: int|
            0 <= a < self@.hosts.len() && 0 <= b < self@.hosts.len() && a != b implies #[trigger] self@.hosts[a].name
            != #[trigger] self@.hosts[b].name by {
            if a < n && b < n {
                assert(hosts[a].name != hosts[b].name);
            } else if a < n {
                assert(hosts[a].name != name@);
            } else {
                assert(hosts[b].name != name@);
            }
        }
    }

    /// Files a device of the current host under its role, and notes that a
    /// device of that role exists.
    pub fn add_device(&mut self, device: Device<H>, role: DeviceRole)
        requires
            old(self).wf(),
            old(self)@.current is Some,
        ensures
            final(self).wf(),
            final(self)@.current == old(self)@.current,
            ({
                let c = old(self)@.current->0 as int;
                let h = old(self)@.hosts[c];
                match role {
                    DeviceRole::Input => {
                        &&& final(self)@.hosts == old(self)@.hosts.update(
                            c,
                            HostView { name: h.name, inputs: h.inputs.push(device), outputs: h.outputs },
                        )
                        &&& final(self)@.input_available
                        &&& final(self)@.output_available == old(self)@.output_available
                    },
                    DeviceRole::Output => {
                        &&& final(self)@.hosts == old(self)@.hosts.update(
                            c,
                            HostView { name: h.name, inputs: h.inputs, outputs: h.outputs.push(device) },
                        )
                        &&& final(self)@.output_available
                        &&& final(self)@.input_available == old(self)@.input_available
                    },
                }
            }),
    {
        let ghost hosts = self@.hosts;
        let c = match self.current {
            Some(c) => c,
            None => {
                return;
            },
        };
        let mut host = self.hosts.remove(c);
        let ghost after_remove = self.hosts@;
        match role {
            DeviceRole::Input => {
                host.inputs.push(device);
                self.input_available = true;
            },
            DeviceRole::Output => {
                host.outputs.push(device);
                self.output_available = true;
            },
        }
        self.hosts.insert(c, host);
        assert(self@.hosts =~= hosts.update(c as int, host@));
        assert forall|i: int, j: int|
            0 <= i < self@.hosts.len() && 0 <= j < self@.hosts.len() && i != j implies #[trigger] self@.hosts[i].name
            != #[trigger] self@.hosts[j].name by {
            assert(hosts[i].name != hosts[j].name);
        }
    }

    /// Ends the scan: the hosts and their devices, provided that some input
    /// and some output were found.
    pub fn finish(self) -> (r: Result<Vec<HostDevices<H>>, CpalError>)
        ensures
            !self@.input_available ==> r == Err::<Vec<HostDevices<H>>, CpalError>(
                CpalError::InputUnavailable,
            ),
            self@.input_available && !self@.output_available ==> r == Err::<
                Vec<HostDevices<H>>,
                CpalError,
            >(CpalError::OutputUnavailable),
            self@.input_available && self@.output_available ==> (r matches Ok(v) && v@.map_values(
                |h: HostDevices<H>| h@,
            ) == self@.hosts),
    {
        if !self.input_available {
            return Err(CpalError::InputUnavailable);
        }
        if !self.output_available {
            return Err(CpalError::OutputUnavailable);
        }
        Ok(self.hosts)
    }
}

/// The devices to use: the first input and the first output of the first
/// host.
pub fn select_devices<H>(hosts: Vec<HostDevices<H>>) -> (r: Result<(Device<H>, Device<H>), CpalError>)
    ensures
        hosts@.len() == 0 ==> r == Err::<(Device<H>, Device<H>), CpalError>(CpalError::Unexpected),
        hosts@.len() > 0 ==> {
            let h = hosts@[0]@;
            if h.inputs.len() == 0 || h.outputs.len() == 0 {
                r == Err::<(Device<H>, Device<H>), CpalError>(CpalError::Unexpected)
            } else {
                r == Ok::<(Device<H>, Device<H>), CpalError>((h.inputs[0], h.outputs[0]))
            }
        },
{
    let mut hosts = hosts;
    if hosts.len() == 0 {
        return Err(CpalError::Unexpected);
    }
    let mut first = hosts.remove(0);
    if first.inputs.len() == 0 {
        return Err(CpalError::Unexpected);
    }
    if first.outputs.len() == 0 {
        return Err(CpalError::Unexpected);
    }
    let input = first.inputs.remove(0);
    let output = first.outputs.remove(0);
    Ok((input, output))
}

} // verus!
