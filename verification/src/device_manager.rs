//! The device manager: routes inbound broker messages to device sessions
//! and owns the provisioning lifecycle.
//!
//! A device is provisioned in two steps.  A `preDeploy`/`deploy` message
//! records a pending deploy and answers with a provisioning response (the
//! `DeployAck` effect).  A later `completeProvisioning_ack` — accepted
//! only when a pending deploy exists and no session does — creates the
//! session, announces it to the hub and queries the device's state.  A
//! stray or duplicate acknowledgment is reported and changes nothing.
//!
//! Inbound `device_packet` messages are forwarded to the session of an
//! already-provisioned device; packets for unknown ids, unparseable hex
//! and frames failing the register-update pattern are dropped silently.
//!
//! Like the sessions, the manager performs no I/O: every method returns
//! the messages to publish as `Effect` values.

use crate::device::{
    spec_dispatch_records, spec_kind_model, spec_model_class, spec_packet_match,
    spec_publish_match, spec_set_property, DeviceTypes, DeviceWrapper, DiscoveryOut, HubPublish,
    PacketOut, WriteError,
};
use crate::frame::{spec_frame, spec_frame_accepted, spec_frame_payload, CommandHeader};
use crate::hexutil::{hex_decode, spec_hex_decode, spec_hex_encode, spec_is_hex};
use crate::text::{concat2, str_eq};
use crate::tlv::{lemma_decode_wire_ok, parse_tlv, spec_decode, spec_encode, Tlv};
use vstd::prelude::*;
use vstd::string::StringExecFns;

verus! {

/// A provisioning response for the broker: the caller renders the JSON
/// body for `did` and the provisioning type named here and publishes it
/// to `topic`.
pub struct DeployAckOut {
    pub topic: String,
    pub did: String,
    pub provisioning_type: String,
}

/// One message the manager asks its caller to deliver.
pub enum Effect {
    /// Publish to the hub connection.
    Hub(HubPublish),
    /// Publish a discovery descriptor to the hub connection.
    Discovery(DiscoveryOut),
    /// Publish an outbound device packet envelope to the broker.
    Packet(PacketOut),
    /// Publish a provisioning response to the broker.
    DeployAck(DeployAckOut),
    /// A protocol violation worth logging; nothing is published.
    Report(String),
}

/// A parsed inbound message envelope: its command, device id, device
/// kind, and the command's data (a hex-rendered wire frame for
/// `device_packet`).
pub struct Payload {
    pub cmd: String,
    pub did: String,
    pub kind: String,
    pub data: String,
}

/// The position of the first entry keyed `k`, or the sequence's length
/// when there is none.
pub open spec fn spec_assoc_idx<V>(s: Seq<(String, V)>, k: Seq<char>) -> int
    decreases s.len(),
{
    if s.len() == 0 {
        0
    } else if s[0].0@ == k {
        0
    } else {
        1 + spec_assoc_idx(s.skip(1), k)
    }
}

/// Whether some entry is keyed `k`.
pub open spec fn spec_assoc_has<V>(s: Seq<(String, V)>, k: Seq<char>) -> bool {
    spec_assoc_idx(s, k) < s.len()
}

/// A scan that saw no key `k` before position `i`, and `k` (or the end)
/// at `i`, has found the first entry keyed `k`.
proof fn lemma_assoc_idx<V>(s: Seq<(String, V)>, k: Seq<char>, i: int)
    requires
        0 <= i <= s.len(),
        forall|j: int| 0 <= j < i ==> (#[trigger] s[j]).0@ != k,
        i < s.len() ==> s[i].0@ == k,
    ensures
        spec_assoc_idx(s, k) == i,
    decreases i,
{
    if s.len() == 0 {
    } else if i == 0 {
    } else {
        lemma_assoc_idx(s.skip(1), k, i - 1);
    }
}

/// The manager's state: the provisioned sessions, the pending deploys,
/// and the hub topic prefixes.
pub struct DeviceManager {
    devices: Vec<(String, DeviceWrapper)>,
    deploy_msg_list: Vec<(String, String)>,
    discovery_prefix: String,
    ponder_prefix: String,
}

impl DeviceManager {
    /// The provisioned sessions, keyed by device id, in provisioning
    /// order.
    pub closed spec fn devices_seq(self) -> Seq<(String, DeviceWrapper)> {
        self.devices@
    }

    /// The pending deploy records, keyed by device id.
    pub closed spec fn deploys_seq(self) -> Seq<(String, String)> {
        self.deploy_msg_list@
    }

    /// The hub's discovery topic prefix.
    pub closed spec fn discovery_prefix_view(self) -> Seq<char> {
        self.discovery_prefix@
    }

    /// The hub's state/command topic prefix.
    pub closed spec fn ponder_prefix_view(self) -> Seq<char> {
        self.ponder_prefix@
    }

    /// Every session is well-formed.
    pub open spec fn wf(self) -> bool {
        forall|i: int|
            0 <= i < self.devices_seq().len() ==> (#[trigger] self.devices_seq()[i]).1.wf()
    }

    /// A manager with no devices and no pending deploys.
    pub fn new(discovery_prefix: String, ponder_prefix: String) -> (m: DeviceManager)
        ensures
            m.devices_seq().len() == 0,
            m.deploys_seq().len() == 0,
            m.discovery_prefix_view() == discovery_prefix@,
            m.ponder_prefix_view() == ponder_prefix@,
            m.wf(),
    {
        DeviceManager {
            devices: Vec::new(),
            deploy_msg_list: Vec::new(),
            discovery_prefix,
            ponder_prefix,
        }
    }

    /// The position of a device's session, if it has one.
    fn device_index(&self, id: &String) -> (r: Option<usize>)
        ensures
            ({
                let i = spec_assoc_idx(self.devices_seq(), id@);
                match r {
                    Some(ix) => ix as int == i && i < self.devices_seq().len(),
                    None => i == self.devices_seq().len(),
                }
            }),
    {
        let mut i: usize = 0;
        while i < self.devices.len()
            invariant
                i <= self.devices@.len(),
                forall|j: int| 0 <= j < i ==> (#[trigger] self.devices@[j]).0@ != id@,
            decreases self.devices@.len() - i,
        {
            if str_eq(self.devices[i].0.as_str(), id.as_str()) {
                proof {
                    lemma_assoc_idx(self.devices@, id@, i as int);
                }
                return Some(i);
            }
            i = i + 1;
        }
        proof {
            lemma_assoc_idx(self.devices@, id@, self.devices@.len() as int);
        }
        None
    }

    /// The position of a device's pending deploy record, if any.
    fn deploy_index(&self, id: &String) -> (r: Option<usize>)
        ensures
            ({
                let i = spec_assoc_idx(self.deploys_seq(), id@);
                match r {
                    Some(ix) => ix as int == i && i < self.deploys_seq().len(),
                    None => i == self.deploys_seq().len(),
                }
            }),
    {
        let mut i: usize = 0;
        while i < self.deploy_msg_list.len()
            invariant
                i <= self.deploy_msg_list@.len(),
                forall|j: int| 0 <= j < i ==> (#[trigger] self.deploy_msg_list@[j]).0@ != id@,
            decreases self.deploy_msg_list@.len() - i,
        {
            if str_eq(self.deploy_msg_list[i].0.as_str(), id.as_str()) {
                proof {
                    lemma_assoc_idx(self.deploy_msg_list@, id@, i as int);
                }
                return Some(i);
            }
            i = i + 1;
        }
        proof {
            lemma_assoc_idx(self.deploy_msg_list@, id@, self.deploy_msg_list@.len() as int);
        }
        None
    }
}

/// What a provisioning acknowledgment does to the manager.  Without a
/// pending deploy, with a session already present, or with an unknown
/// device kind, the state is unchanged and the violation is reported;
/// otherwise exactly one fresh session is appended and three messages go
/// out: the discovery descriptor, the availability announcement, and the
/// initial state query.
pub open spec fn spec_ack_transition(
    pre: DeviceManager,
    post: DeviceManager,
    did: Seq<char>,
    kind: Seq<char>,
    effects: Seq<Effect>,
) -> bool {
    &&& post.deploys_seq() == pre.deploys_seq()
    &&& post.discovery_prefix_view() == pre.discovery_prefix_view()
    &&& post.ponder_prefix_view() == pre.ponder_prefix_view()
    &&& (if !spec_assoc_has(pre.deploys_seq(), did) {
        &&& post.devices_seq() == pre.devices_seq()
        &&& effects.len() == 1
        &&& (effects[0] matches Effect::Report(msg) && msg@
            == "completeProvisioning_ack received without deploy/preDeploy"@)
    } else if spec_assoc_has(pre.devices_seq(), did) {
        &&& post.devices_seq() == pre.devices_seq()
        &&& effects.len() == 1
        &&& (effects[0] matches Effect::Report(msg) && msg@
            == "completeProvisioning_ack received twice"@)
    } else if spec_kind_model(kind) is None {
        &&& post.devices_seq() == pre.devices_seq()
        &&& effects.len() == 1
        &&& (effects[0] matches Effect::Report(msg) && msg@
            == "completeProvisioning_ack for unknown device kind"@)
    } else {
        let model = spec_kind_model(kind)->Some_0;
        let entry = post.devices_seq().last();
        &&& post.devices_seq().len() == pre.devices_seq().len() + 1
        &&& post.devices_seq().take(pre.devices_seq().len() as int) == pre.devices_seq()
        &&& entry.0@ == did
        &&& entry.1.model() == model
        &&& entry.1.device_id() == did
        &&& entry.1.device_topic() == "lime/devices/"@ + did
        &&& entry.1.state() == Map::<u16, u32>::empty()
        &&& effects.len() == 3
        &&& (effects[0] matches Effect::Discovery(dd) && dd.topic@ == pre.discovery_prefix_view()
            + "/"@ + spec_model_class(model) + "/"@ + pre.ponder_prefix_view() + "/"@ + did
            + "/config"@ && dd.device_id@ == did && dd.ponder_prefix@ == pre.ponder_prefix_view()
            && dd.model == model)
        &&& (effects[1] matches Effect::Hub(hp) && hp.topic@ == pre.ponder_prefix_view() + "/"@
            + did + "/availability"@ && hp.payload@ == "online"@ && hp.retain == false)
        &&& (effects[2] matches Effect::Packet(p) && p.topic@ == "lime/devices/"@ + did && p.did@
            == did && p.frame_hex@ == spec_hex_encode(
            spec_frame(
                (CommandHeader { b0: 1, b1: 1, b2: 2, b3: 2, b4: 1 }),
                spec_encode(seq![Tlv { t: 0x1f5, v: 2 }]),
            ),
        ))
    })
}

/// What an inbound device packet does to the manager: for a provisioned
/// device and a hex-decodable frame matching the register-update
/// pattern, that device's session dispatches the decoded records and the
/// resulting property publishes go to the hub; anything else is dropped
/// silently.
pub open spec fn spec_packet_transition(
    pre: DeviceManager,
    post: DeviceManager,
    did: Seq<char>,
    data: Seq<char>,
    effects: Seq<Effect>,
) -> bool {
    &&& post.deploys_seq() == pre.deploys_seq()
    &&& post.discovery_prefix_view() == pre.discovery_prefix_view()
    &&& post.ponder_prefix_view() == pre.ponder_prefix_view()
    &&& ({
        let devs = pre.devices_seq();
        let i = spec_assoc_idx(devs, did);
        if i >= devs.len() {
            post.devices_seq() == devs && effects.len() == 0
        } else if !spec_is_hex(data) || !spec_frame_accepted(spec_hex_decode(data)) {
            post.devices_seq() == devs && effects.len() == 0
        } else {
            let dev = devs[i].1;
            let records = spec_decode(spec_frame_payload(spec_hex_decode(data)));
            let d = spec_dispatch_records(dev.model(), dev.state(), records);
            &&& post.devices_seq().len() == devs.len()
            &&& (forall|j: int|
                0 <= j < devs.len() && j != i ==> post.devices_seq()[j] == #[trigger] devs[j])
            &&& post.devices_seq()[i].0 == devs[i].0
            &&& post.devices_seq()[i].1.model() == dev.model()
            &&& post.devices_seq()[i].1.device_id() == dev.device_id()
            &&& post.devices_seq()[i].1.device_topic() == dev.device_topic()
            &&& post.devices_seq()[i].1.state() == d.0
            &&& effects.len() == d.1.len()
            &&& (forall|k: int|
                0 <= k < effects.len() ==> (#[trigger] effects[k] matches Effect::Hub(hp)
                    && spec_publish_match(hp, pre.ponder_prefix_view(), dev.device_id(), d.1[k])))
        }
    })
}

/// What a deploy request does to the manager: the pending deploy record
/// for the id is stored (replacing an earlier one), and one provisioning
/// response goes to the device's topic.
pub open spec fn spec_deploy_transition(
    pre: DeviceManager,
    post: DeviceManager,
    did: Seq<char>,
    cmd: Seq<char>,
    payload_serialized: Seq<char>,
    effects: Seq<Effect>,
) -> bool {
    &&& post.devices_seq() == pre.devices_seq()
    &&& post.discovery_prefix_view() == pre.discovery_prefix_view()
    &&& post.ponder_prefix_view() == pre.ponder_prefix_view()
    &&& ({
        let deps = pre.deploys_seq();
        let i = spec_assoc_idx(deps, did);
        if i < deps.len() {
            &&& post.deploys_seq().len() == deps.len()
            &&& (forall|j: int|
                0 <= j < deps.len() && j != i ==> post.deploys_seq()[j] == #[trigger] deps[j])
            &&& post.deploys_seq()[i].0@ == did
            &&& post.deploys_seq()[i].1@ == payload_serialized
        } else {
            &&& post.deploys_seq().len() == deps.len() + 1
            &&& post.deploys_seq().take(deps.len() as int) == deps
            &&& post.deploys_seq().last().0@ == did
            &&& post.deploys_seq().last().1@ == payload_serialized
        }
    })
    &&& effects.len() == 1
    &&& (effects[0] matches Effect::DeployAck(a) && a.topic@ == "lime/devices/"@ + did && a.did@
        == did && a.provisioning_type@ == cmd)
}

/// What a property-set request does to the manager: the named device's
/// session runs the write flow; its packets go to the broker and its
/// error, if any, is surfaced.  A request for an unknown id does
/// nothing.
pub open spec fn spec_set_transition(
    pre: DeviceManager,
    post: DeviceManager,
    id: Seq<char>,
    prop: Seq<char>,
    value: Seq<char>,
    effects: Seq<Effect>,
    err: Option<WriteError>,
) -> bool {
    &&& post.deploys_seq() == pre.deploys_seq()
    &&& post.discovery_prefix_view() == pre.discovery_prefix_view()
    &&& post.ponder_prefix_view() == pre.ponder_prefix_view()
    &&& ({
        let devs = pre.devices_seq();
        let i = spec_assoc_idx(devs, id);
        if i >= devs.len() {
            post.devices_seq() == devs && effects.len() == 0 && err is None
        } else {
            let dev = devs[i].1;
            let d = spec_set_property(dev.model(), dev.state(), prop, value);
            &&& post.devices_seq().len() == devs.len()
            &&& (forall|j: int|
                0 <= j < devs.len() && j != i ==> post.devices_seq()[j] == #[trigger] devs[j])
            &&& post.devices_seq()[i].0 == devs[i].0
            &&& post.devices_seq()[i].1.model() == dev.model()
            &&& post.devices_seq()[i].1.device_id() == dev.device_id()
            &&& post.devices_seq()[i].1.device_topic() == dev.device_topic()
            &&& post.devices_seq()[i].1.state() == d.1
            &&& effects.len() == d.0.len()
            &&& (forall|k: int|
                0 <= k < effects.len() ==> (#[trigger] effects[k] matches Effect::Packet(p)
                    && spec_packet_match(p, dev.device_topic(), dev.device_id(), d.0[k])))
            &&& (match d.2 {
                Some(tag) => err == Some(WriteError::MissingAttachState(tag)),
                None => err is None,
            })
        }
    })
}

/// The pair of hub messages that announce one device: its discovery
/// descriptor and its availability.
pub open spec fn spec_discovery_pair(
    e1: Effect,
    e2: Effect,
    disc: Seq<char>,
    ponder: Seq<char>,
    dev: DeviceWrapper,
) -> bool {
    &&& (e1 matches Effect::Discovery(dd) && dd.topic@ == disc + "/"@ + spec_model_class(
        dev.model(),
    ) + "/"@ + ponder + "/"@ + dev.device_id() + "/config"@ && dd.device_id@ == dev.device_id()
        && dd.ponder_prefix@ == ponder && dd.model == dev.model())
    &&& (e2 matches Effect::Hub(hp) && hp.topic@ == ponder + "/"@ + dev.device_id()
        + "/availability"@ && hp.payload@ == "online"@ && hp.retain == false)
}

impl DeviceManager {
    /// Handle a provisioning acknowledgment: create the device's session
    /// if a deploy is pending and none exists, else report the violation.
    pub fn complete_provisioning(&mut self, device_id: String, kind: String) -> (effects: Vec<
        Effect,
    >)
        requires
            old(self).wf(),
        ensures
            final(self).wf(),
            spec_ack_transition(*old(self), *final(self), device_id@, kind@, effects@),
    {
        let mut effects: Vec<Effect> = Vec::new();

        if self.deploy_index(&device_id).is_none() {
            effects.push(
                Effect::Report(
                    String::from_str(
                        "completeProvisioning_ack received without deploy/preDeploy",
                    ),
                ),
            );
            return effects;
        }

        if self.device_index(&device_id).is_some() {
            effects.push(
                Effect::Report(String::from_str("completeProvisioning_ack received twice")),
            );
            return effects;
        }

        let model = match DeviceTypes::from_kind(kind.as_str()) {
            Some(m) => m,
            None => {
                effects.push(
                    Effect::Report(
                        String::from_str("completeProvisioning_ack for unknown device kind"),
                    ),
                );
                return effects;
            },
        };

        let topic = concat2("lime/devices/", device_id.as_str());
        let dev = DeviceWrapper::new(model, device_id.clone(), topic);
        let (discovery, availability) = dev.publish_config(
            self.discovery_prefix.clone(),
            self.ponder_prefix.clone(),
        );
        let query = dev.query();

        let ghost devices_before = self.devices@;
        self.devices.push((device_id, dev));
        proof {
            assert(self.devices@.take(devices_before.len() as int) =~= devices_before);
        }

        effects.push(Effect::Discovery(discovery));
        effects.push(Effect::Hub(availability));
        effects.push(Effect::Packet(query));
        effects
    }

    /// Forward an inbound device packet to the device's session: decode
    /// the hex frame, validate the register-update pattern, dispatch the
    /// records, and yield the property publishes.  Unknown ids and
    /// malformed frames are dropped silently.
    pub fn handle_device_packet(&mut self, did: String, data: String) -> (effects: Vec<Effect>)
        requires
            old(self).wf(),
        ensures
            final(self).wf(),
            spec_packet_transition(*old(self), *final(self), did@, data@, effects@),
    {
        let effects: Vec<Effect> = Vec::new();

        let idx = match self.device_index(&did) {
            Some(i) => i,
            None => {
                return effects;
            },
        };
        let buf = match hex_decode(data.as_str()) {
            Some(b) => b,
            None => {
                return effects;
            },
        };
        let payload = match crate::frame::extract_payload(buf.as_slice()) {
            Some(p) => p,
            None => {
                return effects;
            },
        };
        let tlv = parse_tlv(payload.as_slice());
        proof {
            lemma_decode_wire_ok(payload@);
        }

        let ghost devices_before = self.devices@;
        let (key, mut dev) = self.devices.remove(idx);
        let pubs = dev.process_tlv(self.ponder_prefix.clone(), tlv);
        let ghost dev_after = dev;
        self.devices.insert(idx, (key, dev));
        proof {
            assert(self.devices@ =~= devices_before.update(
                idx as int,
                (devices_before[idx as int].0, dev_after),
            ));
        }

        let mut effects: Vec<Effect> = Vec::new();
        let ghost pubs0 = pubs@;
        let mut pubs = pubs;
        #[verifier::loop_isolation(false)]
        loop
            invariant
                effects@.len() + pubs@.len() == pubs0.len(),
                pubs@ =~= pubs0.skip(effects@.len() as int),
                forall|k: int|
                    0 <= k < effects@.len() ==> (#[trigger] effects@[k] matches Effect::Hub(hp)
                        && hp == pubs0[k]),
            decreases pubs@.len(),
        {
            if pubs.len() == 0 {
                break ;
            }
            let hp = pubs.remove(0);
            effects.push(Effect::Hub(hp));
        }
        effects
    }

    /// Record a deploy request and answer with a provisioning response.
    pub fn deploy_request(&mut self, did: String, cmd: String, payload_serialized: String) -> (
        effects: Vec<Effect>
    )
        requires
            old(self).wf(),
        ensures
            final(self).wf(),
            spec_deploy_transition(
                *old(self),
                *final(self),
                did@,
                cmd@,
                payload_serialized@,
                effects@,
            ),
    {
        let ack = DeployAckOut {
            topic: concat2("lime/devices/", did.as_str()),
            did: did.clone(),
            provisioning_type: cmd,
        };

        let ghost deploys_before = self.deploy_msg_list@;
        match self.deploy_index(&did) {
            Some(i) => {
                self.deploy_msg_list[i] = (did, payload_serialized);
            },
            None => {
                self.deploy_msg_list.push((did, payload_serialized));
                proof {
                    assert(self.deploy_msg_list@.take(deploys_before.len() as int)
                        =~= deploys_before);
                }
            },
        }

        let mut effects: Vec<Effect> = Vec::new();
        effects.push(Effect::DeployAck(ack));
        proof {
            assert(self.devices@ == old(self).devices@);
            assert forall|j: int|
                0 <= j < self.devices_seq().len() implies (#[trigger] self.devices_seq()[
            j]).1.wf() by {
                assert(self.devices_seq()[j] == old(self).devices_seq()[j]);
                assert(old(self).devices_seq()[j].1.wf());
            }
        }
        effects
    }

    /// Route one inbound broker message: provisioning acknowledgments
    /// and device packets on the device's message topic, deploy requests
    /// on its provisioning topic; everything else is ignored.
    pub fn on_publish(&mut self, topic: String, payload: Payload, payload_serialized: String) -> (
        effects: Vec<Effect>
    )
        requires
            old(self).wf(),
        ensures
            final(self).wf(),
            ({
                let msg = "clip/message/devices/"@ + payload.did@;
                let prov = "clip/provisioning/devices/"@ + payload.did@;
                if topic@ == msg && payload.cmd@ == "completeProvisioning_ack"@ {
                    spec_ack_transition(
                        *old(self),
                        *final(self),
                        payload.did@,
                        payload.kind@,
                        effects@,
                    )
                } else if topic@ == msg && payload.cmd@ == "device_packet"@ {
                    spec_packet_transition(
                        *old(self),
                        *final(self),
                        payload.did@,
                        payload.data@,
                        effects@,
                    )
                } else if topic@ == prov && (payload.cmd@ == "preDeploy"@ || payload.cmd@
                    == "deploy"@) {
                    spec_deploy_transition(
                        *old(self),
                        *final(self),
                        payload.did@,
                        payload.cmd@,
                        payload_serialized@,
                        effects@,
                    )
                } else {
                    *final(self) == *old(self) && effects@.len() == 0
                }
            }),
    {
        proof {
            reveal_strlit("clip/message/devices/");
            reveal_strlit("clip/provisioning/devices/");
            assert("clip/message/devices/"@.len() == 21);
            assert("clip/provisioning/devices/"@.len() == 26);
            assert(("clip/message/devices/"@ + payload.did@).len() == 21 + payload.did@.len());
            assert(("clip/provisioning/devices/"@ + payload.did@).len() == 26
                + payload.did@.len());
        }
        let msg_topic = concat2("clip/message/devices/", payload.did.as_str());
        if str_eq(topic.as_str(), msg_topic.as_str()) {
            if str_eq(payload.cmd.as_str(), "completeProvisioning_ack") {
                return self.complete_provisioning(payload.did, payload.kind);
            }
            if str_eq(payload.cmd.as_str(), "device_packet") {
                return self.handle_device_packet(payload.did, payload.data);
            }
            return Vec::new();
        }

        let prov_topic = concat2("clip/provisioning/devices/", payload.did.as_str());
        if str_eq(topic.as_str(), prov_topic.as_str()) {
            if str_eq(payload.cmd.as_str(), "preDeploy") || str_eq(payload.cmd.as_str(), "deploy")
            {
                return self.deploy_request(payload.did, payload.cmd, payload_serialized);
            }
            return Vec::new();
        }

        Vec::new()
    }

    /// Re-announce every provisioned device to the hub: its discovery
    /// descriptor followed by its availability, in provisioning order.
    pub fn on_discovery(&self) -> (effects: Vec<Effect>)
        ensures
            effects@.len() == 2 * self.devices_seq().len(),
            forall|i: int|
                0 <= i < self.devices_seq().len() ==> spec_discovery_pair(
                    effects@[2 * i],
                    effects@[2 * i + 1],
                    self.discovery_prefix_view(),
                    self.ponder_prefix_view(),
                    (#[trigger] self.devices_seq()[i]).1,
                ),
    {
        let mut effects: Vec<Effect> = Vec::new();
        let mut i: usize = 0;
        while i < self.devices.len()
            invariant
                i <= self.devices@.len(),
                effects@.len() == 2 * i,
                forall|k: int|
                    0 <= k < i ==> spec_discovery_pair(
                        effects@[2 * k],
                        effects@[2 * k + 1],
                        self.discovery_prefix_view(),
                        self.ponder_prefix_view(),
                        (#[trigger] self.devices_seq()[k]).1,
                    ),
            decreases self.devices@.len() - i,
        {
            let (discovery, availability) = self.devices[i].1.publish_config(
                self.discovery_prefix.clone(),
                self.ponder_prefix.clone(),
            );
            effects.push(Effect::Discovery(discovery));
            effects.push(Effect::Hub(availability));
            i = i + 1;
        }
        effects
    }

    /// Write one property of one device; requests for unknown ids do
    /// nothing.  Returns the packets to publish and the write flow's
    /// error, if any.
    pub fn on_set_property(&mut self, id: String, prop: String, value: String) -> (r: (
        Vec<Effect>,
        Option<WriteError>,
    ))
        requires
            old(self).wf(),
        ensures
            final(self).wf(),
            spec_set_transition(*old(self), *final(self), id@, prop@, value@, r.0@, r.1),
    {
        let idx = match self.device_index(&id) {
            Some(i) => i,
            None => {
                return (Vec::new(), None);
            },
        };

        let ghost devices_before = self.devices@;
        let (key, mut dev) = self.devices.remove(idx);
        let (packets, err) = dev.set_property(prop, value);
        let ghost dev_after = dev;
        self.devices.insert(idx, (key, dev));
        proof {
            assert(self.devices@ =~= devices_before.update(
                idx as int,
                (devices_before[idx as int].0, dev_after),
            ));
        }

        let mut effects: Vec<Effect> = Vec::new();
        let ghost packets0 = packets@;
        let mut packets = packets;
        #[verifier::loop_isolation(false)]
        loop
            invariant
                effects@.len() + packets@.len() == packets0.len(),
                packets@ =~= packets0.skip(effects@.len() as int),
                forall|k: int|
                    0 <= k < effects@.len() ==> (#[trigger] effects@[k] matches Effect::Packet(p)
                        && p == packets0[k]),
            decreases packets@.len(),
        {
            if packets.len() == 0 {
                break ;
            }
            let p = packets.remove(0);
            effects.push(Effect::Packet(p));
        }
        (effects, err)
    }
}

/// Provisioning idempotency: a first acknowledgment with a pending
/// deploy, no session and a known kind creates exactly one session; a
/// second acknowledgment for the same id leaves the sessions unchanged
/// and only reports.
pub proof fn lemma_provisioning_idempotent(
    m0: DeviceManager,
    m1: DeviceManager,
    m2: DeviceManager,
    did: Seq<char>,
    kind: Seq<char>,
    e1: Seq<Effect>,
    e2: Seq<Effect>,
)
    requires
        spec_assoc_has(m0.deploys_seq(), did),
        !spec_assoc_has(m0.devices_seq(), did),
        spec_kind_model(kind) is Some,
        spec_ack_transition(m0, m1, did, kind, e1),
        spec_ack_transition(m1, m2, did, kind, e2),
    ensures
        m1.devices_seq().len() == m0.devices_seq().len() + 1,
        spec_assoc_has(m1.devices_seq(), did),
        m2.devices_seq() == m1.devices_seq(),
        e2.len() == 1,
        e2[0] is Report,
{
    let n = m0.devices_seq().len() as int;
    lemma_assoc_idx_le_len(m1.devices_seq(), did);
    assert(spec_assoc_has(m1.devices_seq(), did)) by {
        lemma_assoc_idx_found(m1.devices_seq(), did, n);
    }
}

/// The first-occurrence position never exceeds the sequence's length.
proof fn lemma_assoc_idx_le_len<V>(s: Seq<(String, V)>, k: Seq<char>)
    ensures
        0 <= spec_assoc_idx(s, k) <= s.len(),
    decreases s.len(),
{
    if s.len() > 0 && s[0].0@ != k {
        lemma_assoc_idx_le_len(s.skip(1), k);
    }
}

/// A sequence with an entry keyed `k` has a first occurrence within
/// bounds.
proof fn lemma_assoc_idx_found<V>(s: Seq<(String, V)>, k: Seq<char>, i: int)
    requires
        0 <= i < s.len(),
        s[i].0@ == k,
    ensures
        spec_assoc_idx(s, k) <= i,
    decreases i,
{
    if s.len() > 0 && s[0].0@ != k {
        assert(i >= 1);
        lemma_assoc_idx_found(s.skip(1), k, i - 1);
    }
}

} // verus!
