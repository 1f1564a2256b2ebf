//! Audio endpoints as the platform reports them, and the devices that a
//! listing keeps of them.

use vstd::prelude::*;

verus! {

/// The direction of the endpoints that are listed: those that render sound.
pub const FLOW_RENDER: i32 = 0;

/// The states of the endpoints that are listed: active ones only.
pub const STATE_ACTIVE: u32 = 1;

/// One active output endpoint: its persistent identifier and its label.
#[derive(Clone, Debug, PartialEq, Eq)]
pub struct AudioDevice {
    pub id: String,
    pub name: String,
}

/// Mathematical value of an [`AudioDevice`].
pub struct DeviceView {
    pub id: Seq<char>,
    pub name: Seq<char>,
}

impl View for AudioDevice {
    type V = DeviceView;

    open spec fn view(&self) -> DeviceView {
        DeviceView { id: self.id@, name: self.name@ }
    }
}

impl DeepView for AudioDevice {
    type V = DeviceView;

    open spec fn deep_view(&self) -> DeviceView {
        self@
    }
}

/// What reading one endpoint gave: each property is there or could not be
/// read.
#[derive(Clone, Debug, PartialEq, Eq)]
pub struct EndpointProbe {
    pub id: Option<String>,
    pub name: Option<String>,
}

/// Mathematical value of an [`EndpointProbe`].
pub struct ProbeView {
    pub id: Option<Seq<char>>,
    pub name: Option<Seq<char>>,
}

impl View for EndpointProbe {
    type V = ProbeView;

    open spec fn view(&self) -> ProbeView {
        ProbeView { id: self.id.deep_view(), name: self.name.deep_view() }
    }
}

impl DeepView for EndpointProbe {
    type V = ProbeView;

    open spec fn deep_view(&self) -> ProbeView {
        self@
    }
}

/// The device that a probe stands for. An endpoint without a readable,
/// non-empty identifier stands for none; an unreadable label becomes the
/// empty label.
pub open spec fn device_of(probe: ProbeView) -> Option<DeviceView> {
    match probe.id {
        Some(id) if id.len() > 0 => Some(
            DeviceView {
                id,
                name: match probe.name {
                    Some(name) => name,
                    None => Seq::empty(),
                },
            },
        ),
        _ => None,
    }
}

/// The devices of a run of probes, in the order of the probes.
pub open spec fn collect(probes: Seq<ProbeView>) -> Seq<DeviceView>
    decreases probes.len(),
{
    if probes.len() == 0 {
        Seq::empty()
    } else {
        let earlier = collect(probes.drop_last());
        match device_of(probes.last()) {
            Some(device) => earlier.push(device),
            None => earlier,
        }
    }
}

/// Every device has a non-empty identifier.
pub open spec fn identified(devices: Seq<DeviceView>) -> bool {
    forall|i: int| 0 <= i < devices.len() ==> (#[trigger] devices[i]).id.len() > 0
}

/// Turns one probe into a device, if it has an identifier.
pub fn describe_endpoint(probe: &EndpointProbe) -> (device: Option<AudioDevice>)
    ensures
        device.deep_view() == device_of(probe@),
{
    match &probe.id {
        None => None,
        Some(id) => {
            if id.as_str().is_empty() {
                None
            } else {
                let name = match &probe.name {
                    Some(name) => name.clone(),
                    None => String::new(),
                };
                Some(AudioDevice { id: id.clone(), name })
            }
        },
    }
}

/// Builds the listing from the probes of all endpoints, keeping their order.
pub fn collect_devices(probes: &Vec<EndpointProbe>) -> (devices: Vec<AudioDevice>)
    ensures
        devices.deep_view() == collect(probes.deep_view()),
        identified(devices.deep_view()),
{
    let mut devices: Vec<AudioDevice> = Vec::new();
    let mut index: usize = 0;
    while index < probes.len()
        invariant
            index <= probes.len(),
            devices.deep_view() == collect(probes.deep_view().take(index as int)),
        decreases probes.len() - index,
    {
        let ghost before = devices.deep_view();
        let ghost seen = probes.deep_view().take(index as int);
        let ghost next = probes.deep_view().take(index + 1);
        assert(next.drop_last() == seen);
        assert(next.last() == probes[index as int]@);
        match describe_endpoint(&probes[index]) {
            Some(device) => {
                devices.push(device);
                assert(devices.deep_view() == before.push(device@));
            },
            None => {},
        }
        index += 1;
    }
    proof {
        assert(probes.deep_view().take(index as int) == probes.deep_view());
        lemma_collected_are_identified(probes.deep_view());
    }
    devices
}

/// No listing holds a device without an identifier, whatever the probes.
pub proof fn lemma_collected_are_identified(probes: Seq<ProbeView>)
    ensures
        identified(collect(probes)),
    decreases probes.len(),
{
    if probes.len() > 0 {
        lemma_collected_are_identified(probes.drop_last());
    }
}

/// A listing keeps the order of the endpoints: the devices of two runs of
/// probes, one after the other, are the devices of the first followed by the
/// devices of the second.
pub proof fn lemma_collect_keeps_order(first: Seq<ProbeView>, second: Seq<ProbeView>)
    ensures
        collect(first + second) == collect(first) + collect(second),
    decreases second.len(),
{
    if second.len() == 0 {
        assert(first + second == first);
        assert(collect(first) + collect(second) == collect(first));
    } else {
        let whole = first + second;
        assert(whole.drop_last() == first + second.drop_last());
        assert(whole.last() == second.last());
        lemma_collect_keeps_order(first, second.drop_last());
        match device_of(second.last()) {
            Some(device) => {
                assert((collect(first) + collect(second.drop_last())).push(device) == collect(first)
                    + collect(second.drop_last()).push(device));
            },
            None => {},
        }
    }
}

} // verus!
