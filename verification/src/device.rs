//! One device's session: its register cache and model binding, and the
//! two dispatch flows over them.
//!
//! The read flow takes decoded TLV records, stores each record's raw
//! value in the cache once, under the tag it arrived with, translates it
//! through the model's field registry and yields the property values to
//! publish.  A field may redirect an update to another tag (a power
//! update surfaces as a mode reading); the redirect resumes at field
//! lookup with the same raw value and writes nothing to the cache, and
//! the chain is bounded by `REDIRECT_LIMIT` hops so a mis-registered
//! model cannot loop forever.
//!
//! The write flow takes a property assignment, applies the prerequisite
//! write the field may order, translates the value to a raw register
//! value, gathers the attach registers' cached values, and yields the
//! framed, hex-encoded packets to publish.  An attach register that was
//! never seen is a recoverable error, reported next to the packets that
//! were already produced.
//!
//! The session performs no I/O: callers publish what it returns.

use crate::cache::{spec_cache_get, RegisterCache};
use crate::frame::{build_frame, query_command, spec_frame, write_command, CommandHeader};
use crate::hexutil::{hex_encode, spec_hex_encode};
use crate::rac_056905_ww::{
    spec_field_from_id, spec_field_from_name, spec_field_id, spec_field_name,
    spec_field_readable, spec_field_writable, spec_pre_write, spec_read_callback,
    spec_read_xform, spec_write_attach, spec_write_callback, spec_write_xform,
    RAC_056905_WW_Fields, RAC_056905_WW,
};
use crate::text::{concat5, spec_u32_decimal, u32_to_string};
use crate::tlv::{
    build_tlv, lemma_encode_len, spec_encode, tlv_wire_ok, tlvs_wire_ok, Tlv, TAG_MAX, VALUE_MAX,
};
use vstd::prelude::*;
use vstd::string::StringExecFns;

verus! {

/// Most redirect hops one inbound register update may take before the
/// dispatcher gives up instead of looping.
pub const REDIRECT_LIMIT: usize = 8;

/// The device models the bridge knows.  Each model owns one field
/// registry; adding a model means adding a variant and its registry.
#[allow(non_camel_case_types)]
#[derive(Clone, Copy, Debug, PartialEq, Eq, Structural)]
pub enum DeviceTypes {
    RAC_056905_WW,
}

/// The field a model registers under a tag.
pub open spec fn spec_model_field_by_id(m: DeviceTypes, t: u16) -> Option<RAC_056905_WW_Fields> {
    match m {
        DeviceTypes::RAC_056905_WW => spec_field_from_id(t),
    }
}

/// The field a model registers under a property name.
pub open spec fn spec_model_field_by_name(m: DeviceTypes, n: Seq<char>) -> Option<
    RAC_056905_WW_Fields,
> {
    match m {
        DeviceTypes::RAC_056905_WW => spec_field_from_name(n),
    }
}

/// The hub device class of a model.
pub open spec fn spec_model_class(m: DeviceTypes) -> Seq<char> {
    match m {
        DeviceTypes::RAC_056905_WW => "climate"@,
    }
}

/// The vendor model string of a model.
pub open spec fn spec_model_name(m: DeviceTypes) -> Seq<char> {
    match m {
        DeviceTypes::RAC_056905_WW => "RAC_056905_WW"@,
    }
}

/// The discovery capability table of a model.
pub open spec fn spec_model_inner_config(m: DeviceTypes, id: Seq<char>, prefix: Seq<char>) -> Seq<
    (Seq<char>, Seq<char>),
> {
    match m {
        DeviceTypes::RAC_056905_WW => crate::rac_056905_ww::spec_inner_config(id, prefix),
    }
}

/// The model registered under a kind string, if any.
pub open spec fn spec_kind_model(kind: Seq<char>) -> Option<DeviceTypes> {
    if kind == "RAC_056905_WW"@ {
        Some(DeviceTypes::RAC_056905_WW)
    } else {
        None
    }
}

impl DeviceTypes {
    /// The model registered under a kind string, if any.
    pub fn from_kind(kind: &str) -> (r: Option<DeviceTypes>)
        ensures
            r == spec_kind_model(kind@),
    {
        if crate::text::str_eq(kind, "RAC_056905_WW") {
            Some(DeviceTypes::RAC_056905_WW)
        } else {
            None
        }
    }

    /// The hub device class this model is discovered as.
    pub fn get_ha_class(&self) -> (r: String)
        ensures
            r@ == spec_model_class(*self),
    {
        match self {
            Self::RAC_056905_WW => RAC_056905_WW.get_ha_class(),
        }
    }

    /// The vendor model string.
    pub fn get_model(&self) -> (r: String)
        ensures
            r@ == spec_model_name(*self),
    {
        match self {
            Self::RAC_056905_WW => RAC_056905_WW.get_model(),
        }
    }

    /// Look a field up by register tag.
    pub fn get_field_by_id(&self, t: u16) -> (r: Option<RAC_056905_WW_Fields>)
        ensures
            r == spec_model_field_by_id(*self, t),
    {
        match self {
            Self::RAC_056905_WW => RAC_056905_WW.get_field_by_id(t),
        }
    }

    /// Look a field up by property name.
    pub fn get_field_by_ha(&self, prop: String) -> (r: Option<RAC_056905_WW_Fields>)
        ensures
            r == spec_model_field_by_name(*self, prop@),
    {
        match self {
            Self::RAC_056905_WW => RAC_056905_WW.get_field_by_ha(prop),
        }
    }

    /// The model's discovery capability table for one device: descriptor
    /// keys with their values as JSON text.
    pub fn get_inner_config(&self, id: &str, ponder_prefix: &str) -> (r: Vec<(String, String)>)
        ensures
            r.deep_view() == spec_model_inner_config(*self, id@, ponder_prefix@),
    {
        match self {
            Self::RAC_056905_WW => RAC_056905_WW.get_inner_config(id, ponder_prefix),
        }
    }
}

/// A retained or plain message for the hub connection.
pub struct HubPublish {
    pub topic: String,
    pub payload: String,
    pub retain: bool,
}

/// The retained publish announcing property `p.0` of device `id` with
/// value `p.1`, under the hub state-topic scheme `prefix/id/property`.
pub open spec fn spec_publish_match(
    hp: HubPublish,
    prefix: Seq<char>,
    id: Seq<char>,
    p: (Seq<char>, Seq<char>),
) -> bool {
    &&& hp.topic@ == prefix + "/"@ + id + "/"@ + p.0
    &&& hp.payload@ == p.1
    &&& hp.retain == true
}

/// An outbound packet for the device broker: the framed bytes rendered
/// in hex, ready to be wrapped in the JSON envelope for `topic`.
pub struct PacketOut {
    pub topic: String,
    pub did: String,
    pub frame_hex: String,
}

/// The packet publishing the records `tlvs` as a register write to the
/// device behind `topic`/`did`: encoded, framed under the write command
/// bytes, checksummed and rendered in hex.
pub open spec fn spec_packet_match(
    p: PacketOut,
    topic: Seq<char>,
    did: Seq<char>,
    tlvs: Seq<Tlv>,
) -> bool {
    &&& p.topic@ == topic
    &&& p.did@ == did
    &&& p.frame_hex@ == spec_hex_encode(
        spec_frame((CommandHeader { b0: 1, b1: 1, b2: 2, b3: 1, b4: 1 }), spec_encode(tlvs)),
    )
}

/// A discovery descriptor announcement: the caller renders the payload
/// for the device and model named here and publishes it to `topic`.
pub struct DiscoveryOut {
    pub topic: String,
    pub device_id: String,
    pub ponder_prefix: String,
    pub model: DeviceTypes,
}

/// A recoverable failure of the write flow.
#[derive(Clone, Copy, Debug, PartialEq, Eq, Structural)]
pub enum WriteError {
    /// A register that must ride along in the write packet has no cached
    /// value to echo.
    MissingAttachState(u16),
}

/// Every cached value fits the wire format, so it can be echoed into an
/// outbound packet.
pub open spec fn spec_state_wire_ok(state: Map<u16, u32>) -> bool {
    forall|t: u16| state.contains_key(t) ==> state[t] <= VALUE_MAX
}

/// The property an inbound update surfaces, after following at most
/// `fuel` redirect hops through the registry.  The cache is only read
/// here: a redirect re-dispatches the same raw value under the redirect
/// tag, resuming at field lookup, and stores nothing.  `None` when the
/// tag is unregistered, the field is not readable, or the hop cap is
/// spent.
pub open spec fn spec_dispatch_lookup(
    m: DeviceTypes,
    state: Map<u16, u32>,
    t: u16,
    v: u32,
    fuel: nat,
) -> Option<(Seq<char>, Seq<char>)>
    decreases fuel,
{
    if fuel == 0 {
        None
    } else {
        match spec_model_field_by_id(m, t) {
            None => None,
            Some(f) => {
                let display = match spec_read_xform(f, v, state) {
                    Some(d) => d,
                    None => spec_u32_decimal(v as int),
                };
                match spec_read_callback(f) {
                    Some(t2) => spec_dispatch_lookup(m, state, t2, v, (fuel - 1) as nat),
                    None => if spec_field_readable(f) {
                        Some((spec_field_name(f), display))
                    } else {
                        None
                    },
                }
            },
        }
    }
}

/// One inbound register update: the raw value is stored exactly once,
/// under the tag it arrived with, and the update is then dispatched
/// through the registry against that once-updated cache.  Redirect hops
/// do not touch the cache.
pub open spec fn spec_dispatch(
    m: DeviceTypes,
    state: Map<u16, u32>,
    t: u16,
    v: u32,
    fuel: nat,
) -> (Map<u16, u32>, Option<(Seq<char>, Seq<char>)>) {
    let state1 = state.insert(t, v);
    (state1, spec_dispatch_lookup(m, state1, t, v, fuel))
}

/// Redirect chains cannot exhaust the hop cap: in every registry the
/// longest chain is one hop (a power update redirecting to the mode
/// field), so the dispatch result is the same under any fuel of at
/// least two, and the cap never drops an update.
pub proof fn lemma_redirect_bounded(
    m: DeviceTypes,
    state: Map<u16, u32>,
    t: u16,
    v: u32,
    f1: nat,
    f2: nat,
)
    requires
        f1 >= 2,
        f2 >= 2,
    ensures
        spec_dispatch(m, state, t, v, f1) == spec_dispatch(m, state, t, v, f2),
{
    let s1 = state.insert(t, v);
    match spec_model_field_by_id(m, t) {
        None => {
            assert(spec_dispatch_lookup(m, s1, t, v, f1) is None);
            assert(spec_dispatch_lookup(m, s1, t, v, f2) is None);
        },
        Some(f) => {
            let display = match spec_read_xform(f, v, s1) {
                Some(d) => d,
                None => spec_u32_decimal(v as int),
            };
            match spec_read_callback(f) {
                Some(t2) => {
                    assert(f is Power);
                    assert(t2 == crate::rac_056905_ww::TAG_MODE);
                    let g1 = (f1 - 1) as nat;
                    let g2 = (f2 - 1) as nat;
                    assert(spec_dispatch_lookup(m, s1, t, v, f1) == spec_dispatch_lookup(
                        m,
                        s1,
                        t2,
                        v,
                        g1,
                    ));
                    assert(spec_dispatch_lookup(m, s1, t, v, f2) == spec_dispatch_lookup(
                        m,
                        s1,
                        t2,
                        v,
                        g2,
                    ));
                    let fm = spec_model_field_by_id(m, t2)->Some_0;
                    assert(spec_read_callback(fm) is None);
                    let display2 = match spec_read_xform(fm, v, s1) {
                        Some(d) => d,
                        None => spec_u32_decimal(v as int),
                    };
                    let res = if spec_field_readable(fm) {
                        Some((spec_field_name(fm), display2))
                    } else {
                        None
                    };
                    assert(spec_dispatch_lookup(m, s1, t2, v, g1) == res);
                    assert(spec_dispatch_lookup(m, s1, t2, v, g2) == res);
                },
                None => {
                    let res = if spec_field_readable(f) {
                        Some((spec_field_name(f), display))
                    } else {
                        None
                    };
                    assert(spec_dispatch_lookup(m, s1, t, v, f1) == res);
                    assert(spec_dispatch_lookup(m, s1, t, v, f2) == res);
                },
            }
        },
    }
}

/// A whole packet's records dispatched in order; later records see the
/// cache as earlier ones left it.
pub open spec fn spec_dispatch_records(
    m: DeviceTypes,
    state: Map<u16, u32>,
    rs: Seq<Tlv>,
) -> (Map<u16, u32>, Seq<(Seq<char>, Seq<char>)>)
    decreases rs.len(),
{
    if rs.len() == 0 {
        (state, Seq::empty())
    } else {
        let head = spec_dispatch(m, state, rs[0].t, rs[0].v, REDIRECT_LIMIT as nat);
        let rest = spec_dispatch_records(m, head.0, rs.skip(1));
        (
            rest.0,
            match head.1 {
                Some(p) => seq![p] + rest.1,
                None => rest.1,
            },
        )
    }
}

/// The first attach register with no cached value, if any.
pub open spec fn spec_first_missing(attach: Seq<u16>, state: Map<u16, u32>) -> Option<u16>
    decreases attach.len(),
{
    if attach.len() == 0 {
        None
    } else if !state.contains_key(attach[0]) {
        Some(attach[0])
    } else {
        spec_first_missing(attach.skip(1), state)
    }
}

/// The attach registers as records, each echoing its cached value.
pub open spec fn spec_attach_tlvs(attach: Seq<u16>, state: Map<u16, u32>) -> Seq<Tlv> {
    Seq::new(attach.len(), |i: int| Tlv { t: attach[i], v: state[attach[i]] })
}

/// One generic write step: the records of the packet to send (`None`
/// when the write is dropped: unknown or read-only field, unsupported or
/// over-wide value, or a field that handles itself), or the attach tag
/// whose cached value is missing.  Values wider than the wire format's
/// 24-bit ceiling are dropped like unsupported values rather than
/// truncated.
pub open spec fn spec_write_once(
    m: DeviceTypes,
    state: Map<u16, u32>,
    name: Seq<char>,
    value: Seq<char>,
) -> (Option<Seq<Tlv>>, Option<u16>) {
    match spec_model_field_by_name(m, name) {
        None => (None, None),
        Some(f) => {
            if !spec_field_writable(f) {
                (None, None)
            } else {
                match spec_write_xform(f, value) {
                    None => (None, None),
                    Some(raw) => {
                        if raw > VALUE_MAX {
                            (None, None)
                        } else if spec_write_callback(f) is Some {
                            (None, None)
                        } else {
                            let attach = match spec_write_attach(f, raw) {
                                Some(a) => a,
                                None => Seq::empty(),
                            };
                            match spec_first_missing(attach, state) {
                                Some(t) => (None, Some(t)),
                                None => (
                                    Some(
                                        seq![Tlv { t: spec_field_id(f), v: raw }]
                                            + spec_attach_tlvs(attach, state),
                                    ),
                                    None,
                                ),
                            }
                        }
                    },
                }
            }
        },
    }
}

/// The cache after a write step: the primary register takes the written
/// value; attach registers only echoed their cached values and stay.
pub open spec fn spec_write_state(
    state: Map<u16, u32>,
    step: (Option<Seq<Tlv>>, Option<u16>),
) -> Map<u16, u32> {
    match step.0 {
        Some(tlvs) => state.insert(tlvs[0].t, tlvs[0].v),
        None => state,
    }
}

/// A full property write: the prerequisite write the field orders (power
/// `OFF` before mode `off`), then the write itself.  Yields the packets
/// in order, the cache they leave behind, and the missing attach tag
/// that aborted the flow, if any.  A prerequisite failure aborts before
/// the main write; a main-write failure keeps the prerequisite packet.
pub open spec fn spec_set_property(
    m: DeviceTypes,
    state: Map<u16, u32>,
    name: Seq<char>,
    value: Seq<char>,
) -> (Seq<Seq<Tlv>>, Map<u16, u32>, Option<u16>) {
    match spec_model_field_by_name(m, name) {
        None => (Seq::empty(), state, None),
        Some(f) => {
            if !spec_field_writable(f) {
                (Seq::empty(), state, None)
            } else {
                let pre = spec_pre_write(f, value);
                let pre_step = match pre {
                    Some(pw) => spec_write_once(m, state, pw.0, pw.1),
                    None => (None, None),
                };
                if pre_step.1 is Some {
                    (Seq::empty(), state, pre_step.1)
                } else {
                    let packs1: Seq<Seq<Tlv>> = match pre_step.0 {
                        Some(tlvs) => seq![tlvs],
                        None => Seq::empty(),
                    };
                    let state1 = spec_write_state(state, pre_step);
                    let main = spec_write_once(m, state1, name, value);
                    if main.1 is Some {
                        (packs1, state1, main.1)
                    } else {
                        let packs2: Seq<Seq<Tlv>> = match main.0 {
                            Some(tlvs) => packs1.push(tlvs),
                            None => packs1,
                        };
                        (packs2, spec_write_state(state1, main), None)
                    }
                }
            }
        },
    }
}

/// Every record of a write packet fits the wire format.
proof fn lemma_write_once_wire_ok(
    m: DeviceTypes,
    state: Map<u16, u32>,
    name: Seq<char>,
    value: Seq<char>,
)
    requires
        spec_state_wire_ok(state),
    ensures
        spec_write_once(m, state, name, value).0 matches Some(tlvs) ==> tlvs_wire_ok(tlvs)
            && 1 <= tlvs.len() <= 3,
{
    let step = spec_write_once(m, state, name, value);
    if step.0 is Some {
        let f = spec_model_field_by_name(m, name)->Some_0;
        let raw = spec_write_xform(f, value)->Some_0;
        let attach = match spec_write_attach(f, raw) {
            Some(a) => a,
            None => Seq::<u16>::empty(),
        };
        let tlvs = step.0->Some_0;
        crate::rac_056905_ww::lemma_registry_coherent(f);
        assert(forall|i: int| 0 <= i < attach.len() ==> #[trigger] attach[i] <= TAG_MAX);
        assert(forall|i: int|
            0 <= i < attach.len() ==> state.contains_key(#[trigger] attach[i])) by {
            lemma_first_missing_none(attach, state);
        }
        assert(forall|i: int| 0 <= i < tlvs.len() ==> tlv_wire_ok(#[trigger] tlvs[i]));
    }
}

/// When no attach register is missing, every attach register is cached.
proof fn lemma_first_missing_none(attach: Seq<u16>, state: Map<u16, u32>)
    requires
        spec_first_missing(attach, state) is None,
    ensures
        forall|i: int| 0 <= i < attach.len() ==> state.contains_key(#[trigger] attach[i]),
    decreases attach.len(),
{
    if attach.len() > 0 {
        lemma_first_missing_none(attach.skip(1), state);
        assert(forall|i: int|
            1 <= i < attach.len() ==> state.contains_key(#[trigger] attach[i])) by {
            assert(forall|i: int|
                1 <= i < attach.len() ==> attach[i] == attach.skip(1)[i - 1]);
        }
    }
}

/// One device's session: identity, model binding and register cache.
pub struct DeviceWrapper {
    id: String,
    topic: String,
    raw_clip_state: RegisterCache,
    device: DeviceTypes,
}

impl DeviceWrapper {
    /// The model this session is bound to.
    pub closed spec fn model(self) -> DeviceTypes {
        self.device
    }

    /// The device's identifier.
    pub closed spec fn device_id(self) -> Seq<char> {
        self.id@
    }

    /// The broker topic outbound packets are published to.
    pub closed spec fn device_topic(self) -> Seq<char> {
        self.topic@
    }

    /// The cached raw register values.
    pub closed spec fn state(self) -> Map<u16, u32> {
        self.raw_clip_state@
    }

    /// Session well-formedness: every cached value fits the wire format,
    /// so a write can echo it.
    pub open spec fn wf(self) -> bool {
        spec_state_wire_ok(self.state())
    }

    /// A fresh session for a provisioned device: nothing cached yet.
    pub fn new(device: DeviceTypes, id: String, topic: String) -> (s: Self)
        ensures
            s.model() == device,
            s.device_id() == id@,
            s.device_topic() == topic@,
            s.state() == Map::<u16, u32>::empty(),
            s.wf(),
    {
        DeviceWrapper { id, topic, raw_clip_state: RegisterCache::new(), device }
    }

    /// The last-seen raw value of a register.
    pub fn get_raw_clip_state(&self, t: u16) -> (r: Option<u32>)
        ensures
            r == spec_cache_get(self.state(), t),
    {
        self.raw_clip_state.get(t)
    }

    /// Dispatch one inbound register update: store the raw value under
    /// the arriving tag, translate it, and follow at most
    /// `REDIRECT_LIMIT` redirect hops — without storing anything under a
    /// redirect tag; yields the property publish for the hub, if the
    /// update surfaces one.
    pub fn process_key_value(&mut self, ponder_prefix: String, t: u16, v: u32) -> (r: Option<
        HubPublish,
    >)
        requires
            old(self).wf(),
            v <= VALUE_MAX,
        ensures
            final(self).wf(),
            final(self).model() == old(self).model(),
            final(self).device_id() == old(self).device_id(),
            final(self).device_topic() == old(self).device_topic(),
            ({
                let d = spec_dispatch(
                    old(self).model(),
                    old(self).state(),
                    t,
                    v,
                    REDIRECT_LIMIT as nat,
                );
                &&& final(self).state() == d.0
                &&& (match d.1 {
                    Some(p) => r matches Some(hp) && spec_publish_match(
                        hp,
                        ponder_prefix@,
                        old(self).device_id(),
                        p,
                    ),
                    None => r is None,
                })
            }),
    {
        let ghost target = spec_dispatch(
            self.model(),
            self.state(),
            t,
            v,
            REDIRECT_LIMIT as nat,
        );

        self.raw_clip_state.insert(t, v);
        proof {
            assert forall|tt: u16| self.state().contains_key(tt) implies self.state()[tt]
                <= VALUE_MAX by {
                if tt != t {
                    assert(old(self).state().contains_key(tt));
                }
            }
        }

        let mut cur_t = t;
        let mut hops: usize = REDIRECT_LIMIT;

        loop
            invariant
                self.wf(),
                v <= VALUE_MAX,
                self.device == old(self).device,
                self.id == old(self).id,
                self.topic == old(self).topic,
                self.state() == old(self).state().insert(t, v),
                target == spec_dispatch(
                    old(self).model(),
                    old(self).state(),
                    t,
                    v,
                    REDIRECT_LIMIT as nat,
                ),
                target.0 == self.state(),
                spec_dispatch_lookup(self.model(), self.state(), cur_t, v, hops as nat)
                    == target.1,
            decreases hops,
        {
            if hops == 0 {
                return None;
            }
            let maybe_field = self.device.get_field_by_id(cur_t);
            match maybe_field {
                None => {
                    return None;
                },
                Some(def) => {
                    let new_v = match def.read_xform(v, &self.raw_clip_state) {
                        Some(s) => s,
                        None => u32_to_string(v),
                    };
                    match def.read_callback(new_v.clone()) {
                        Some(new_t) => {
                            cur_t = new_t;
                            hops = hops - 1;
                        },
                        None => {
                            if def.readable() {
                                let name = def.name();
                                return Some(
                                    HubPublish {
                                        topic: concat5(
                                            ponder_prefix.as_str(),
                                            "/",
                                            self.id.as_str(),
                                            "/",
                                            name.as_str(),
                                        ),
                                        payload: new_v,
                                        retain: true,
                                    },
                                );
                            } else {
                                return None;
                            }
                        },
                    }
                },
            }
        }
    }

    /// Dispatch a whole packet's records in order; later records see the
    /// cache as earlier ones left it.  Yields the property publishes in
    /// record order.
    pub fn process_tlv(&mut self, ponder_prefix: String, tlv: Vec<Tlv>) -> (r: Vec<HubPublish>)
        requires
            old(self).wf(),
            tlvs_wire_ok(tlv@),
        ensures
            final(self).wf(),
            final(self).model() == old(self).model(),
            final(self).device_id() == old(self).device_id(),
            final(self).device_topic() == old(self).device_topic(),
            ({
                let d = spec_dispatch_records(old(self).model(), old(self).state(), tlv@);
                &&& final(self).state() == d.0
                &&& r@.len() == d.1.len()
                &&& (forall|i: int|
                    0 <= i < d.1.len() ==> spec_publish_match(
                        #[trigger] r@[i],
                        ponder_prefix@,
                        old(self).device_id(),
                        d.1[i],
                    ))
            }),
    {
        let ghost m = self.model();
        let ghost st0 = self.state();
        let ghost d = spec_dispatch_records(m, st0, tlv@);
        let mut out: Vec<HubPublish> = Vec::new();
        let mut i: usize = 0;

        proof {
            assert(tlv@.skip(0) =~= tlv@);
        }

        while i < tlv.len()
            invariant
                i <= tlv@.len(),
                self.wf(),
                tlvs_wire_ok(tlv@),
                d == spec_dispatch_records(m, st0, tlv@),
                st0 == old(self).state(),
                self.model() == m,
                old(self).model() == m,
                self.device_id() == old(self).device_id(),
                self.device_topic() == old(self).device_topic(),
                ({
                    let rest = spec_dispatch_records(m, self.state(), tlv@.skip(i as int));
                    &&& rest.0 == d.0
                    &&& out@.len() + rest.1.len() == d.1.len()
                    &&& (forall|k: int|
                        0 <= k < out@.len() ==> spec_publish_match(
                            #[trigger] out@[k],
                            ponder_prefix@,
                            old(self).device_id(),
                            d.1[k],
                        ))
                    &&& (forall|k: int|
                        0 <= k < rest.1.len() ==> #[trigger] rest.1[k] == d.1[
                        out@.len() + k])
                }),
            decreases tlv@.len() - i,
        {
            let ghost state_before = self.state();
            let ghost rest_before = spec_dispatch_records(m, state_before, tlv@.skip(i as int));
            let ghost out_before = out@;
            let rec = tlv[i];
            proof {
                assert(tlv@.skip(i as int)[0] == rec);
                assert(tlv@.skip(i as int).skip(1) =~= tlv@.skip(i + 1));
                assert(tlv_wire_ok(tlv@[i as int]));
            }
            let p = self.process_key_value(ponder_prefix.clone(), rec.t, rec.v);
            proof {
                let head = spec_dispatch(m, state_before, rec.t, rec.v, REDIRECT_LIMIT as nat);
                let rest_new = spec_dispatch_records(m, self.state(), tlv@.skip(i + 1));
                assert(rest_before.0 == rest_new.0);
                if head.1 is Some {
                    let pp = head.1->Some_0;
                    assert(rest_before.1 == seq![pp] + rest_new.1);
                    assert((seq![pp] + rest_new.1)[0] == pp);
                    assert(forall|k: int|
                        0 <= k < rest_new.1.len() ==> (seq![pp] + rest_new.1)[k + 1]
                            == #[trigger] rest_new.1[k]);
                }
            }
            if let Some(hp) = p {
                out.push(hp);
            }
            i = i + 1;
        }

        proof {
            assert(tlv@.skip(tlv@.len() as int).len() == 0);
        }
        out
    }

    /// One generic write step (the path a prerequisite write also takes):
    /// translate, gather attach values, frame, and update the cache for
    /// the primary register.
    fn write_once(&mut self, prop: String, value: String) -> (r: (
        Option<PacketOut>,
        Option<WriteError>,
    ))
        requires
            old(self).wf(),
        ensures
            final(self).wf(),
            final(self).model() == old(self).model(),
            final(self).device_id() == old(self).device_id(),
            final(self).device_topic() == old(self).device_topic(),
            ({
                let step = spec_write_once(old(self).model(), old(self).state(), prop@, value@);
                &&& final(self).state() == spec_write_state(old(self).state(), step)
                &&& (match step.0 {
                    Some(tlvs) => r.0 matches Some(p) && p.topic@ == old(self).device_topic()
                        && p.did@ == old(self).device_id() && p.frame_hex@ == spec_hex_encode(
                        spec_frame(
                            CommandHeader { b0: 1, b1: 1, b2: 2, b3: 1, b4: 1 },
                            spec_encode(tlvs),
                        ),
                    ),
                    None => r.0 is None,
                })
                &&& (match step.1 {
                    Some(tag) => r.1 == Some(WriteError::MissingAttachState(tag)),
                    None => r.1 is None,
                })
            }),
    {
        let ghost step = spec_write_once(self.model(), self.state(), prop@, value@);
        proof {
            lemma_write_once_wire_ok(self.model(), self.state(), prop@, value@);
        }

        let maybe_field = self.device.get_field_by_ha(prop.clone());
        let def = match maybe_field {
            Some(def) => def,
            None => {
                return (None, None);
            },
        };
        if !def.writable() {
            return (None, None);
        }
        let new_v = match def.write_xform(value.clone()) {
            Some(raw) => raw,
            None => {
                return (None, None);
            },
        };
        if new_v > VALUE_MAX {
            return (None, None);
        }
        if def.write_callback(value.clone()).is_some() {
            return (None, None);
        }

        let attach: Vec<u16> = match def.write_attach(new_v) {
            Some(a) => a,
            None => Vec::new(),
        };
        let ghost attach_spec = match spec_write_attach(def, new_v) {
            Some(a) => a,
            None => Seq::<u16>::empty(),
        };
        proof {
            assert(attach@ =~= attach_spec);
            assert(attach_spec.skip(0) =~= attach_spec);
        }

        let mut tlvs: Vec<Tlv> = Vec::new();
        tlvs.push(Tlv { t: def.id(), v: new_v });
        let mut i: usize = 0;
        while i < attach.len()
            invariant
                i <= attach@.len(),
                attach@ == attach_spec,
                step == spec_write_once(old(self).model(), old(self).state(), prop@, value@),
                spec_model_field_by_name(old(self).model(), prop@) == Some(def),
                spec_field_writable(def),
                spec_write_xform(def, value@) == Some(new_v),
                new_v <= VALUE_MAX,
                spec_write_callback(def) is None,
                attach_spec == (match spec_write_attach(def, new_v) {
                    Some(a) => a,
                    None => Seq::<u16>::empty(),
                }),
                spec_first_missing(attach_spec, self.state()) == spec_first_missing(
                    attach_spec.skip(i as int),
                    self.state(),
                ),
                tlvs@ == seq![
                    Tlv { t: spec_field_id(def), v: new_v },
                ] + spec_attach_tlvs(attach_spec.take(i as int), self.state()),
                self.wf(),
                self == old(self),
            decreases attach@.len() - i,
        {
            let tag = attach[i];
            let cached = match self.raw_clip_state.get(tag) {
                Some(c) => c,
                None => {
                    proof {
                        assert(attach_spec.skip(i as int)[0] == tag);
                        assert(spec_first_missing(attach_spec.skip(i as int), self.state())
                            == Some(tag));
                        assert(step.1 == Some(tag));
                        assert(step.0 is None);
                    }
                    return (None, Some(WriteError::MissingAttachState(tag)));
                },
            };
            proof {
                assert(attach_spec.skip(i as int)[0] == tag);
                assert(attach_spec.skip(i as int).skip(1) =~= attach_spec.skip(i + 1));
                assert(seq![
                    Tlv { t: spec_field_id(def), v: new_v },
                ] + spec_attach_tlvs(attach_spec.take(i + 1), self.state()) =~= (seq![
                    Tlv { t: spec_field_id(def), v: new_v },
                ] + spec_attach_tlvs(attach_spec.take(i as int), self.state())).push(
                    Tlv { t: tag, v: cached },
                ));
            }
            tlvs.push(Tlv { t: tag, v: cached });
            i = i + 1;
        }

        proof {
            assert(attach_spec.skip(attach_spec.len() as int).len() == 0);
            assert(spec_first_missing(attach_spec, self.state()) is None);
            assert(attach_spec.take(attach_spec.len() as int) =~= attach_spec);
            assert(step.0 == Some(tlvs@));
            assert(step.1 is None);
            lemma_encode_len(tlvs@);
        }

        let tlv_buf = build_tlv(tlvs.as_slice());
        let frame = match build_frame(write_command(), tlv_buf.as_slice()) {
            Some(f) => f,
            None => {
                proof {
                    assert(false);
                }
                Vec::new()
            },
        };
        let frame_hex = hex_encode(frame.as_slice());
        let packet = PacketOut { topic: self.topic.clone(), did: self.id.clone(), frame_hex };

        self.raw_clip_state.insert(def.id(), new_v);
        proof {
            assert(tlvs@[0] == Tlv { t: spec_field_id(def), v: new_v });
            assert(spec_write_state(old(self).state(), step) == old(self).state().insert(
                spec_field_id(def),
                new_v,
            ));
            assert forall|tt: u16| self.state().contains_key(tt) implies self.state()[tt]
                <= VALUE_MAX by {
                if tt != spec_field_id(def) {
                    assert(old(self).state().contains_key(tt));
                }
            }
        }
        (Some(packet), None)
    }

    /// Write one property: run the prerequisite write the field orders,
    /// then the write itself.  Returns the packets to publish, in order,
    /// and the missing attach tag that aborted the flow, if any; packets
    /// already produced before the failure are kept.  Setting mode to
    /// `off` therefore yields the single power packet: the prerequisite
    /// write powers the unit off, and `off` has no mode register value of
    /// its own.
    pub fn set_property(&mut self, prop: String, value: String) -> (r: (
        Vec<PacketOut>,
        Option<WriteError>,
    ))
        requires
            old(self).wf(),
        ensures
            final(self).wf(),
            final(self).model() == old(self).model(),
            final(self).device_id() == old(self).device_id(),
            final(self).device_topic() == old(self).device_topic(),
            ({
                let d = spec_set_property(old(self).model(), old(self).state(), prop@, value@);
                &&& final(self).state() == d.1
                &&& r.0@.len() == d.0.len()
                &&& (forall|i: int|
                    0 <= i < d.0.len() ==> ((#[trigger] r.0@[i]).topic@ == old(self).device_topic()
                        && r.0@[i].did@ == old(self).device_id()
                        && r.0@[i].frame_hex@ == spec_hex_encode(
                        spec_frame(
                            (CommandHeader { b0: 1, b1: 1, b2: 2, b3: 1, b4: 1 }),
                            spec_encode(d.0[i]),
                        ),
                    )))
                &&& (match d.2 {
                    Some(tag) => r.1 == Some(WriteError::MissingAttachState(tag)),
                    None => r.1 is None,
                })
            }),
    {
        let mut packets: Vec<PacketOut> = Vec::new();

        let maybe_field = self.device.get_field_by_ha(prop.clone());
        let def = match maybe_field {
            Some(def) => def,
            None => {
                return (packets, None);
            },
        };
        if !def.writable() {
            return (packets, None);
        }

        if let Some((pre_prop, pre_value)) = def.pre_write_xform_set_property(value.clone()) {
            let (packet, err) = self.write_once(pre_prop, pre_value);
            if let Some(e) = err {
                return (packets, Some(e));
            }
            if let Some(p) = packet {
                packets.push(p);
            }
        }

        let (packet, err) = self.write_once(prop, value);
        if let Some(e) = err {
            return (packets, Some(e));
        }
        if let Some(p) = packet {
            packets.push(p);
        }
        (packets, None)
    }

    /// The initial state query packet sent right after provisioning.
    pub fn query(&self) -> (r: PacketOut)
        ensures
            r.topic@ == self.device_topic(),
            r.did@ == self.device_id(),
            r.frame_hex@ == spec_hex_encode(
                spec_frame(
                    CommandHeader { b0: 1, b1: 1, b2: 2, b3: 2, b4: 1 },
                    spec_encode(seq![Tlv { t: 0x1f5, v: 2 }]),
                ),
            ),
    {
        let mut tlvs: Vec<Tlv> = Vec::new();
        tlvs.push(Tlv { t: 0x1f5, v: 2 });
        proof {
            assert(tlvs@ =~= seq![Tlv { t: 0x1f5, v: 2 }]);
            lemma_encode_len(tlvs@);
        }
        let tlv_buf = build_tlv(tlvs.as_slice());
        let frame = match build_frame(query_command(), tlv_buf.as_slice()) {
            Some(f) => f,
            None => {
                proof {
                    assert(false);
                }
                Vec::new()
            },
        };
        let frame_hex = hex_encode(frame.as_slice());
        PacketOut { topic: self.topic.clone(), did: self.id.clone(), frame_hex }
    }

    /// The discovery announcement and availability message published at
    /// provisioning completion and on rediscovery.
    pub fn publish_config(&self, discovery_prefix: String, ponder_prefix: String) -> (r: (
        DiscoveryOut,
        HubPublish,
    ))
        ensures
            r.0.topic@ == discovery_prefix@ + "/"@ + spec_model_class(self.model()) + "/"@
                + ponder_prefix@ + "/"@ + self.device_id() + "/config"@,
            r.0.device_id@ == self.device_id(),
            r.0.ponder_prefix@ == ponder_prefix@,
            r.0.model == self.model(),
            r.1.topic@ == ponder_prefix@ + "/"@ + self.device_id() + "/availability"@,
            r.1.payload@ == "online"@,
            r.1.retain == false,
    {
        let class = self.device.get_ha_class();
        let head = concat5(
            discovery_prefix.as_str(),
            "/",
            class.as_str(),
            "/",
            ponder_prefix.as_str(),
        );
        let config_topic = concat5(head.as_str(), "/", self.id.as_str(), "/config", "");
        let discovery = DiscoveryOut {
            topic: config_topic,
            device_id: self.id.clone(),
            ponder_prefix: ponder_prefix.clone(),
            model: self.device,
        };
        let availability = HubPublish {
            topic: concat5(
                ponder_prefix.as_str(),
                "/",
                self.id.as_str(),
                "/availability",
                "",
            ),
            payload: String::from_str("online"),
            retain: false,
        };
        proof {
            reveal_strlit("");
            assert(discovery.topic@ =~= discovery_prefix@ + "/"@ + spec_model_class(
                self.model(),
            ) + "/"@ + ponder_prefix@ + "/"@ + self.device_id() + "/config"@);
            assert(availability.topic@ =~= ponder_prefix@ + "/"@ + self.device_id()
                + "/availability"@);
        }
        (discovery, availability)
    }
}

} // verus!
