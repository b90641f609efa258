//! Field registry of the RAC_056905_WW air-conditioner model: the table
//! mapping register tags to named properties, with the transforms between
//! raw register values and property values.
//!
//! Every transform is a pure table, stated exactly by a companion spec
//! function:
//!
//! * `read_xform` turns a raw value into a display value; the mode
//!   reading consults the cached power register, so a powered-off unit
//!   reads as mode `off` whatever the mode register holds.
//! * `read_callback` redirects a power update to the mode field, so that
//!   powering off surfaces as mode `off` rather than as a power reading.
//! * `pre_write_xform` orders a prerequisite write: setting mode to
//!   `off` must first set power to `OFF`.
//! * `write_xform` turns a property value back into a raw register
//!   value; `None` means unsupported, and the write is dropped.
//! * `write_attach` lists the registers that must ride along, with their
//!   cached values, in the same write packet.

use crate::cache::RegisterCache;
use crate::text::{concat5, parse_temperature, spec_temp_register, spec_u32_decimal, str_eq, u32_to_string};
use vstd::prelude::*;
use vstd::string::StringExecFns;

verus! {

/// Register tag of the power switch.
pub const TAG_POWER: u16 = 0x1f7;

/// Register tag of the operating mode.
pub const TAG_MODE: u16 = 0x1f9;

/// Register tag of the fan speed.
pub const TAG_FAN_MODE: u16 = 0x1fa;

/// Register tag of the measured temperature.
pub const TAG_CURRENT_TEMPERATURE: u16 = 0x1fd;

/// Register tag of the target temperature.
pub const TAG_TEMPERATURE: u16 = 0x1fe;

/// Register tag of the vertical swing flap.
pub const TAG_VERTICAL_SWING: u16 = 0x321;

/// Register tag of the horizontal swing flap.
pub const TAG_SWING: u16 = 0x322;

/// The fields of the RAC_056905_WW model.
#[allow(non_camel_case_types)]
#[derive(Clone, Copy, Debug, PartialEq, Eq, Structural)]
pub enum RAC_056905_WW_Fields {
    CurrentTemperature,
    Power,
    Mode,
    FanMode,
    Temperature,
    VerticalSwingMode,
    SwingMode,
}

/// The field registered under a tag, if any.
pub open spec fn spec_field_from_id(t: u16) -> Option<RAC_056905_WW_Fields> {
    if t == TAG_CURRENT_TEMPERATURE {
        Some(RAC_056905_WW_Fields::CurrentTemperature)
    } else if t == TAG_POWER {
        Some(RAC_056905_WW_Fields::Power)
    } else if t == TAG_MODE {
        Some(RAC_056905_WW_Fields::Mode)
    } else if t == TAG_FAN_MODE {
        Some(RAC_056905_WW_Fields::FanMode)
    } else if t == TAG_TEMPERATURE {
        Some(RAC_056905_WW_Fields::Temperature)
    } else if t == TAG_VERTICAL_SWING {
        Some(RAC_056905_WW_Fields::VerticalSwingMode)
    } else if t == TAG_SWING {
        Some(RAC_056905_WW_Fields::SwingMode)
    } else {
        None
    }
}

/// The field registered under a property name, if any.
pub open spec fn spec_field_from_name(n: Seq<char>) -> Option<RAC_056905_WW_Fields> {
    if n == "current_temperature"@ {
        Some(RAC_056905_WW_Fields::CurrentTemperature)
    } else if n == "power"@ {
        Some(RAC_056905_WW_Fields::Power)
    } else if n == "mode"@ {
        Some(RAC_056905_WW_Fields::Mode)
    } else if n == "fan_mode"@ {
        Some(RAC_056905_WW_Fields::FanMode)
    } else if n == "temperature"@ {
        Some(RAC_056905_WW_Fields::Temperature)
    } else if n == "vertical_swing_mode"@ {
        Some(RAC_056905_WW_Fields::VerticalSwingMode)
    } else if n == "swing_mode"@ {
        Some(RAC_056905_WW_Fields::SwingMode)
    } else {
        None
    }
}

/// The register tag a field reads and writes.
pub open spec fn spec_field_id(f: RAC_056905_WW_Fields) -> u16 {
    match f {
        RAC_056905_WW_Fields::CurrentTemperature => TAG_CURRENT_TEMPERATURE,
        RAC_056905_WW_Fields::Power => TAG_POWER,
        RAC_056905_WW_Fields::Mode => TAG_MODE,
        RAC_056905_WW_Fields::FanMode => TAG_FAN_MODE,
        RAC_056905_WW_Fields::Temperature => TAG_TEMPERATURE,
        RAC_056905_WW_Fields::VerticalSwingMode => TAG_VERTICAL_SWING,
        RAC_056905_WW_Fields::SwingMode => TAG_SWING,
    }
}

/// The property name a field publishes under.
pub open spec fn spec_field_name(f: RAC_056905_WW_Fields) -> Seq<char> {
    match f {
        RAC_056905_WW_Fields::CurrentTemperature => "current_temperature"@,
        RAC_056905_WW_Fields::Power => "power"@,
        RAC_056905_WW_Fields::Mode => "mode"@,
        RAC_056905_WW_Fields::FanMode => "fan_mode"@,
        RAC_056905_WW_Fields::Temperature => "temperature"@,
        RAC_056905_WW_Fields::VerticalSwingMode => "vertical_swing_mode"@,
        RAC_056905_WW_Fields::SwingMode => "swing_mode"@,
    }
}

/// Whether inbound updates of the field are published.
pub open spec fn spec_field_readable(f: RAC_056905_WW_Fields) -> bool {
    match f {
        RAC_056905_WW_Fields::Power => false,
        _ => true,
    }
}

/// Whether the field accepts property writes.
pub open spec fn spec_field_writable(f: RAC_056905_WW_Fields) -> bool {
    match f {
        RAC_056905_WW_Fields::CurrentTemperature => false,
        _ => true,
    }
}

/// The display value of a raw register value, if the value is
/// recognised.  The mode reading consults the cached power register:
/// a powered-off unit reads as mode `off`.
pub open spec fn spec_read_xform(
    f: RAC_056905_WW_Fields,
    v: u32,
    state: Map<u16, u32>,
) -> Option<Seq<char>> {
    match f {
        RAC_056905_WW_Fields::CurrentTemperature => Some(spec_u32_decimal(v as int / 2)),
        RAC_056905_WW_Fields::Power => Some(
            if v == 0 {
                "OFF"@
            } else {
                "ON"@
            },
        ),
        RAC_056905_WW_Fields::Mode => {
            if state.contains_key(TAG_POWER) && state[TAG_POWER] == 0 {
                Some("off"@)
            } else if v == 0 {
                Some("cool"@)
            } else if v == 1 {
                Some("dry"@)
            } else if v == 2 {
                Some("fan_only"@)
            } else if v == 4 {
                Some("heat"@)
            } else if v == 6 {
                Some("auto"@)
            } else {
                None
            }
        },
        RAC_056905_WW_Fields::FanMode => {
            if v == 2 {
                Some("very low"@)
            } else if v == 3 {
                Some("low"@)
            } else if v == 4 {
                Some("medium"@)
            } else if v == 5 {
                Some("high"@)
            } else if v == 6 {
                Some("very high"@)
            } else if v == 8 {
                Some("auto"@)
            } else {
                None
            }
        },
        RAC_056905_WW_Fields::Temperature => Some(spec_u32_decimal(v as int / 2)),
        RAC_056905_WW_Fields::VerticalSwingMode => {
            if v == 0 {
                Some("off"@)
            } else if 1 <= v <= 6 {
                Some(spec_u32_decimal(v as int))
            } else if v == 100 {
                Some("on"@)
            } else {
                None
            }
        },
        RAC_056905_WW_Fields::SwingMode => {
            if v == 0 {
                Some("off"@)
            } else if 1 <= v <= 5 {
                Some(spec_u32_decimal(v as int))
            } else if v == 13 {
                Some("1-3"@)
            } else if v == 35 {
                Some("3-5"@)
            } else if v == 100 {
                Some("on"@)
            } else {
                None
            }
        },
    }
}

/// The tag an inbound update is re-dispatched to instead of being
/// published: a power update is redirected to the mode field.
pub open spec fn spec_read_callback(f: RAC_056905_WW_Fields) -> Option<u16> {
    match f {
        RAC_056905_WW_Fields::Power => Some(TAG_MODE),
        _ => None,
    }
}

/// The property write that must happen first: setting mode to `off`
/// requires power `OFF` beforehand.
pub open spec fn spec_pre_write(f: RAC_056905_WW_Fields, v: Seq<char>) -> Option<
    (Seq<char>, Seq<char>),
> {
    match f {
        RAC_056905_WW_Fields::Mode => {
            if v == "off"@ {
                Some(("power"@, "OFF"@))
            } else {
                None
            }
        },
        _ => None,
    }
}

/// The raw register value of a property value; `None` when the value is
/// not supported and the write must be dropped.
pub open spec fn spec_write_xform(f: RAC_056905_WW_Fields, v: Seq<char>) -> Option<u32> {
    match f {
        RAC_056905_WW_Fields::CurrentTemperature => None,
        RAC_056905_WW_Fields::Power => Some(
            if v == "ON"@ {
                1
            } else {
                0
            },
        ),
        RAC_056905_WW_Fields::Mode => {
            if v == "cool"@ {
                Some(0)
            } else if v == "dry"@ {
                Some(1)
            } else if v == "fan_only"@ {
                Some(2)
            } else if v == "heat"@ {
                Some(4)
            } else if v == "auto"@ {
                Some(6)
            } else {
                None
            }
        },
        RAC_056905_WW_Fields::FanMode => {
            if v == "very low"@ {
                Some(2)
            } else if v == "low"@ {
                Some(3)
            } else if v == "medium"@ {
                Some(4)
            } else if v == "high"@ {
                Some(5)
            } else if v == "very high"@ {
                Some(6)
            } else if v == "auto"@ {
                Some(8)
            } else {
                None
            }
        },
        RAC_056905_WW_Fields::Temperature => spec_temp_register(v),
        RAC_056905_WW_Fields::VerticalSwingMode => {
            if v == "off"@ {
                Some(0)
            } else if v == "1"@ {
                Some(1)
            } else if v == "2"@ {
                Some(2)
            } else if v == "3"@ {
                Some(3)
            } else if v == "4"@ {
                Some(4)
            } else if v == "5"@ {
                Some(5)
            } else if v == "6"@ {
                Some(6)
            } else if v == "on"@ {
                Some(100)
            } else {
                None
            }
        },
        RAC_056905_WW_Fields::SwingMode => {
            if v == "off"@ {
                Some(0)
            } else if v == "1"@ {
                Some(1)
            } else if v == "2"@ {
                Some(2)
            } else if v == "3"@ {
                Some(3)
            } else if v == "4"@ {
                Some(4)
            } else if v == "5"@ {
                Some(5)
            } else if v == "1-3"@ {
                Some(13)
            } else if v == "3-5"@ {
                Some(35)
            } else if v == "on"@ {
                Some(100)
            } else {
                None
            }
        },
    }
}

/// Whether a field takes over its own write handling, suppressing the
/// generic write path.  No field of this model does.
pub open spec fn spec_write_callback(f: RAC_056905_WW_Fields) -> Option<()> {
    None
}

/// The extra register tags that must accompany a write of this field in
/// the same packet, carrying their cached values.
pub open spec fn spec_write_attach(f: RAC_056905_WW_Fields, raw: u32) -> Option<Seq<u16>> {
    match f {
        RAC_056905_WW_Fields::CurrentTemperature => None,
        RAC_056905_WW_Fields::Power => Some(
            if raw == 0 {
                Seq::<u16>::empty()
            } else {
                seq![TAG_MODE, TAG_FAN_MODE]
            },
        ),
        RAC_056905_WW_Fields::Mode => Some(seq![TAG_FAN_MODE, TAG_TEMPERATURE]),
        RAC_056905_WW_Fields::FanMode => Some(seq![TAG_MODE, TAG_TEMPERATURE]),
        RAC_056905_WW_Fields::Temperature => Some(seq![TAG_MODE, TAG_FAN_MODE]),
        RAC_056905_WW_Fields::VerticalSwingMode => Some(seq![TAG_MODE, TAG_FAN_MODE]),
        RAC_056905_WW_Fields::SwingMode => Some(seq![TAG_MODE, TAG_FAN_MODE]),
    }
}

/// Registry coherence: looking a field's own tag or name up finds the
/// field again, and every registered tag fits the wire format.
pub proof fn lemma_registry_coherent(f: RAC_056905_WW_Fields)
    ensures
        spec_field_from_id(spec_field_id(f)) == Some(f),
        spec_field_from_name(spec_field_name(f)) == Some(f),
        spec_field_id(f) <= crate::tlv::TAG_MAX,
{
    reveal_strlit("current_temperature");
    reveal_strlit("power");
    reveal_strlit("mode");
    reveal_strlit("fan_mode");
    reveal_strlit("temperature");
    reveal_strlit("vertical_swing_mode");
    reveal_strlit("swing_mode");
    assert("current_temperature"@.len() == 19);
    assert("power"@.len() == 5);
    assert("mode"@.len() == 4);
    assert("fan_mode"@.len() == 8);
    assert("temperature"@.len() == 11);
    assert("vertical_swing_mode"@.len() == 19);
    assert("swing_mode"@.len() == 10);
    assert("current_temperature"@ != "vertical_swing_mode"@) by {
        assert("current_temperature"@[0] == 'c');
        assert("vertical_swing_mode"@[0] == 'v');
    }
}

impl RAC_056905_WW_Fields {
    /// Look a field up by register tag.
    pub fn from_id(id: u16) -> (r: Option<Self>)
        ensures
            r == spec_field_from_id(id),
    {
        if id == TAG_CURRENT_TEMPERATURE {
            Some(Self::CurrentTemperature)
        } else if id == TAG_POWER {
            Some(Self::Power)
        } else if id == TAG_MODE {
            Some(Self::Mode)
        } else if id == TAG_FAN_MODE {
            Some(Self::FanMode)
        } else if id == TAG_TEMPERATURE {
            Some(Self::Temperature)
        } else if id == TAG_VERTICAL_SWING {
            Some(Self::VerticalSwingMode)
        } else if id == TAG_SWING {
            Some(Self::SwingMode)
        } else {
            None
        }
    }

    /// Look a field up by property name.
    pub fn from_name(name: &str) -> (r: Option<Self>)
        ensures
            r == spec_field_from_name(name@),
    {
        if str_eq(name, "current_temperature") {
            Some(Self::CurrentTemperature)
        } else if str_eq(name, "power") {
            Some(Self::Power)
        } else if str_eq(name, "mode") {
            Some(Self::Mode)
        } else if str_eq(name, "fan_mode") {
            Some(Self::FanMode)
        } else if str_eq(name, "temperature") {
            Some(Self::Temperature)
        } else if str_eq(name, "vertical_swing_mode") {
            Some(Self::VerticalSwingMode)
        } else if str_eq(name, "swing_mode") {
            Some(Self::SwingMode)
        } else {
            None
        }
    }

    /// The register tag this field reads and writes.
    pub fn id(&self) -> (r: u16)
        ensures
            r == spec_field_id(*self),
    {
        match self {
            Self::CurrentTemperature => TAG_CURRENT_TEMPERATURE,
            Self::Power => TAG_POWER,
            Self::Mode => TAG_MODE,
            Self::FanMode => TAG_FAN_MODE,
            Self::Temperature => TAG_TEMPERATURE,
            Self::VerticalSwingMode => TAG_VERTICAL_SWING,
            Self::SwingMode => TAG_SWING,
        }
    }

    /// The property name this field publishes under.
    pub fn name(&self) -> (r: String)
        ensures
            r@ == spec_field_name(*self),
    {
        String::from_str(
            match self {
                Self::CurrentTemperature => "current_temperature",
                Self::Power => "power",
                Self::Mode => "mode",
                Self::FanMode => "fan_mode",
                Self::Temperature => "temperature",
                Self::VerticalSwingMode => "vertical_swing_mode",
                Self::SwingMode => "swing_mode",
            },
        )
    }

    /// Whether inbound updates of this field are published.
    pub fn readable(&self) -> (r: bool)
        ensures
            r == spec_field_readable(*self),
    {
        match self {
            Self::Power => false,
            _ => true,
        }
    }

    /// Whether this field accepts property writes.
    pub fn writable(&self) -> (r: bool)
        ensures
            r == spec_field_writable(*self),
    {
        match self {
            Self::CurrentTemperature => false,
            _ => true,
        }
    }

    /// The display value of a raw register value, consulting the cached
    /// state where the reading depends on another register.
    pub fn read_xform(&self, v: u32, raw_clip_state: &RegisterCache) -> (r: Option<String>)
        ensures
            r.deep_view() == spec_read_xform(*self, v, raw_clip_state@),
    {
        match self {
            Self::CurrentTemperature => Some(u32_to_string(v / 2)),
            Self::Power => Some(
                String::from_str(
                    if v == 0 {
                        "OFF"
                    } else {
                        "ON"
                    },
                ),
            ),
            Self::Mode => {
                let power_off = match raw_clip_state.get(TAG_POWER) {
                    Some(p) => p == 0,
                    None => false,
                };
                if power_off {
                    Some(String::from_str("off"))
                } else if v == 0 {
                    Some(String::from_str("cool"))
                } else if v == 1 {
                    Some(String::from_str("dry"))
                } else if v == 2 {
                    Some(String::from_str("fan_only"))
                } else if v == 4 {
                    Some(String::from_str("heat"))
                } else if v == 6 {
                    Some(String::from_str("auto"))
                } else {
                    None
                }
            },
            Self::FanMode => {
                if v == 2 {
                    Some(String::from_str("very low"))
                } else if v == 3 {
                    Some(String::from_str("low"))
                } else if v == 4 {
                    Some(String::from_str("medium"))
                } else if v == 5 {
                    Some(String::from_str("high"))
                } else if v == 6 {
                    Some(String::from_str("very high"))
                } else if v == 8 {
                    Some(String::from_str("auto"))
                } else {
                    None
                }
            },
            Self::Temperature => Some(u32_to_string(v / 2)),
            Self::VerticalSwingMode => {
                if v == 0 {
                    Some(String::from_str("off"))
                } else if 1 <= v && v <= 6 {
                    Some(u32_to_string(v))
                } else if v == 100 {
                    Some(String::from_str("on"))
                } else {
                    None
                }
            },
            Self::SwingMode => {
                if v == 0 {
                    Some(String::from_str("off"))
                } else if 1 <= v && v <= 5 {
                    Some(u32_to_string(v))
                } else if v == 13 {
                    Some(String::from_str("1-3"))
                } else if v == 35 {
                    Some(String::from_str("3-5"))
                } else if v == 100 {
                    Some(String::from_str("on"))
                } else {
                    None
                }
            },
        }
    }

    /// The tag this update is re-dispatched to instead of publishing.
    pub fn read_callback(&self, _v: String) -> (r: Option<u16>)
        ensures
            r == spec_read_callback(*self),
    {
        match self {
            Self::Power => Some(TAG_MODE),
            _ => None,
        }
    }

    /// The property write that must happen before this one.
    pub fn pre_write_xform_set_property(&self, v: String) -> (r: Option<(String, String)>)
        ensures
            r.deep_view() == spec_pre_write(*self, v@),
    {
        match self {
            Self::Mode => {
                if str_eq(v.as_str(), "off") {
                    Some((String::from_str("power"), String::from_str("OFF")))
                } else {
                    None
                }
            },
            _ => None,
        }
    }

    /// The raw register value of a property value; `None` drops the
    /// write as unsupported.
    pub fn write_xform(&self, v: String) -> (r: Option<u32>)
        ensures
            r == spec_write_xform(*self, v@),
    {
        match self {
            Self::CurrentTemperature => None,
            Self::Power => Some(
                if str_eq(v.as_str(), "ON") {
                    1
                } else {
                    0
                },
            ),
            Self::Mode => {
                if str_eq(v.as_str(), "cool") {
                    Some(0)
                } else if str_eq(v.as_str(), "dry") {
                    Some(1)
                } else if str_eq(v.as_str(), "fan_only") {
                    Some(2)
                } else if str_eq(v.as_str(), "heat") {
                    Some(4)
                } else if str_eq(v.as_str(), "auto") {
                    Some(6)
                } else {
                    None
                }
            },
            Self::FanMode => {
                if str_eq(v.as_str(), "very low") {
                    Some(2)
                } else if str_eq(v.as_str(), "low") {
                    Some(3)
                } else if str_eq(v.as_str(), "medium") {
                    Some(4)
                } else if str_eq(v.as_str(), "high") {
                    Some(5)
                } else if str_eq(v.as_str(), "very high") {
                    Some(6)
                } else if str_eq(v.as_str(), "auto") {
                    Some(8)
                } else {
                    None
                }
            },
            Self::Temperature => parse_temperature(v.as_str()),
            Self::VerticalSwingMode => {
                if str_eq(v.as_str(), "off") {
                    Some(0)
                } else if str_eq(v.as_str(), "1") {
                    Some(1)
                } else if str_eq(v.as_str(), "2") {
                    Some(2)
                } else if str_eq(v.as_str(), "3") {
                    Some(3)
                } else if str_eq(v.as_str(), "4") {
                    Some(4)
                } else if str_eq(v.as_str(), "5") {
                    Some(5)
                } else if str_eq(v.as_str(), "6") {
                    Some(6)
                } else if str_eq(v.as_str(), "on") {
                    Some(100)
                } else {
                    None
                }
            },
            Self::SwingMode => {
                if str_eq(v.as_str(), "off") {
                    Some(0)
                } else if str_eq(v.as_str(), "1") {
                    Some(1)
                } else if str_eq(v.as_str(), "2") {
                    Some(2)
                } else if str_eq(v.as_str(), "3") {
                    Some(3)
                } else if str_eq(v.as_str(), "4") {
                    Some(4)
                } else if str_eq(v.as_str(), "5") {
                    Some(5)
                } else if str_eq(v.as_str(), "1-3") {
                    Some(13)
                } else if str_eq(v.as_str(), "3-5") {
                    Some(35)
                } else if str_eq(v.as_str(), "on") {
                    Some(100)
                } else {
                    None
                }
            },
        }
    }

    /// Whether this field handles its own write side effects; `Some`
    /// suppresses the generic write path.
    pub fn write_callback(&self, _v: String) -> (r: Option<()>)
        ensures
            r == spec_write_callback(*self),
    {
        None
    }

    /// The extra register tags that must accompany a write of this field.
    pub fn write_attach(&self, raw: u32) -> (r: Option<Vec<u16>>)
        ensures
            r.deep_view() == spec_write_attach(*self, raw),
    {
        let r: Option<Vec<u16>> = match self {
            Self::CurrentTemperature => None,
            Self::Power => Some(
                if raw == 0 {
                    Vec::new()
                } else {
                    let mut a: Vec<u16> = Vec::new();
                    a.push(TAG_MODE);
                    a.push(TAG_FAN_MODE);
                    a
                },
            ),
            Self::Mode => {
                let mut a: Vec<u16> = Vec::new();
                a.push(TAG_FAN_MODE);
                a.push(TAG_TEMPERATURE);
                Some(a)
            },
            Self::FanMode => {
                let mut a: Vec<u16> = Vec::new();
                a.push(TAG_MODE);
                a.push(TAG_TEMPERATURE);
                Some(a)
            },
            Self::Temperature => {
                let mut a: Vec<u16> = Vec::new();
                a.push(TAG_MODE);
                a.push(TAG_FAN_MODE);
                Some(a)
            },
            Self::VerticalSwingMode => {
                let mut a: Vec<u16> = Vec::new();
                a.push(TAG_MODE);
                a.push(TAG_FAN_MODE);
                Some(a)
            },
            Self::SwingMode => {
                let mut a: Vec<u16> = Vec::new();
                a.push(TAG_MODE);
                a.push(TAG_FAN_MODE);
                Some(a)
            },
        };
        proof {
            if r is Some {
                assert(r.deep_view()->Some_0 =~= spec_write_attach(*self, raw)->Some_0);
            }
        }
        r
    }
}

/// One topic value of the discovery capability table, as JSON text:
/// `"prefix/id<suffix>"` with the closing quote carried by the suffix.
pub open spec fn spec_topic_json(prefix: Seq<char>, id: Seq<char>, suffix: Seq<char>) -> Seq<
    char,
> {
    "\""@ + prefix + "/"@ + id + suffix
}

/// The discovery capability table of the RAC_056905_WW model: each entry
/// is a descriptor key and its value as JSON text (the topic values are
/// built from the hub prefix and the device id).
pub open spec fn spec_inner_config(id: Seq<char>, prefix: Seq<char>) -> Seq<
    (Seq<char>, Seq<char>),
> {
    seq![
        ("name"@, "\"LG Air Conditioner\""@),
        ("temperature_unit"@, "\"C\""@),
        ("temp_step"@, "0.5"@),
        ("precision"@, "0.5"@),
        ("fan_modes"@, "[\"auto\",\"very low\",\"low\",\"medium\",\"high\",\"very high\"]"@),
        ("swing_modes"@, "[\"1\",\"2\",\"3\",\"4\",\"5\",\"1-3\",\"3-5\",\"on\",\"off\"]"@),
        ("vertical_swing_modes"@, "[\"1\",\"2\",\"3\",\"4\",\"5\",\"6\",\"on\",\"off\"]"@),
        ("current_temperature_topic"@, spec_topic_json(prefix, id, "/current_temperature\""@)),
        ("power_command_topic"@, spec_topic_json(prefix, id, "/power/set\""@)),
        ("mode_state_topic"@, spec_topic_json(prefix, id, "/mode\""@)),
        ("mode_command_topic"@, spec_topic_json(prefix, id, "/mode/set\""@)),
        ("fan_mode_state_topic"@, spec_topic_json(prefix, id, "/fan_mode\""@)),
        ("fan_mode_command_topic"@, spec_topic_json(prefix, id, "/fan_mode/set\""@)),
        ("temperature_state_topic"@, spec_topic_json(prefix, id, "/temperature\""@)),
        ("temperature_command_topic"@, spec_topic_json(prefix, id, "/temperature/set\""@)),
        ("swing_mode_state_topic"@, spec_topic_json(prefix, id, "/swing_mode\""@)),
        ("swing_mode_command_topic"@, spec_topic_json(prefix, id, "/swing_mode/set\""@)),
    ]
}

/// The RAC_056905_WW air-conditioner model.
#[allow(non_camel_case_types)]
#[derive(Clone, Copy, Debug, PartialEq, Eq, Structural)]
pub struct RAC_056905_WW;

impl RAC_056905_WW {
    /// The hub device class this model is discovered as.
    pub fn get_ha_class(&self) -> (r: String)
        ensures
            r@ == "climate"@,
    {
        String::from_str("climate")
    }

    /// The vendor model string.
    pub fn get_model(&self) -> (r: String)
        ensures
            r@ == "RAC_056905_WW"@,
    {
        String::from_str("RAC_056905_WW")
    }

    /// Look a field of this model up by register tag.
    pub fn get_field_by_id(&self, t: u16) -> (r: Option<RAC_056905_WW_Fields>)
        ensures
            r == spec_field_from_id(t),
    {
        RAC_056905_WW_Fields::from_id(t)
    }

    /// Look a field of this model up by property name.
    pub fn get_field_by_ha(&self, prop: String) -> (r: Option<RAC_056905_WW_Fields>)
        ensures
            r == spec_field_from_name(prop@),
    {
        RAC_056905_WW_Fields::from_name(prop.as_str())
    }

    /// The discovery capability table for one device of this model:
    /// descriptor keys with their values as JSON text, ready to be
    /// merged into the discovery envelope.
    pub fn get_inner_config(&self, id: &str, ponder_prefix: &str) -> (r: Vec<(String, String)>)
        ensures
            r.deep_view() == spec_inner_config(id@, ponder_prefix@),
    {
        let mut r: Vec<(String, String)> = Vec::new();
        r.push((String::from_str("name"), String::from_str("\"LG Air Conditioner\"")));
        r.push((String::from_str("temperature_unit"), String::from_str("\"C\"")));
        r.push((String::from_str("temp_step"), String::from_str("0.5")));
        r.push((String::from_str("precision"), String::from_str("0.5")));
        r.push((
            String::from_str("fan_modes"),
            String::from_str("[\"auto\",\"very low\",\"low\",\"medium\",\"high\",\"very high\"]"),
        ));
        r.push((
            String::from_str("swing_modes"),
            String::from_str("[\"1\",\"2\",\"3\",\"4\",\"5\",\"1-3\",\"3-5\",\"on\",\"off\"]"),
        ));
        r.push((
            String::from_str("vertical_swing_modes"),
            String::from_str("[\"1\",\"2\",\"3\",\"4\",\"5\",\"6\",\"on\",\"off\"]"),
        ));
        r.push((
            String::from_str("current_temperature_topic"),
            concat5("\"", ponder_prefix, "/", id, "/current_temperature\""),
        ));
        r.push((
            String::from_str("power_command_topic"),
            concat5("\"", ponder_prefix, "/", id, "/power/set\""),
        ));
        r.push((
            String::from_str("mode_state_topic"),
            concat5("\"", ponder_prefix, "/", id, "/mode\""),
        ));
        r.push((
            String::from_str("mode_command_topic"),
            concat5("\"", ponder_prefix, "/", id, "/mode/set\""),
        ));
        r.push((
            String::from_str("fan_mode_state_topic"),
            concat5("\"", ponder_prefix, "/", id, "/fan_mode\""),
        ));
        r.push((
            String::from_str("fan_mode_command_topic"),
            concat5("\"", ponder_prefix, "/", id, "/fan_mode/set\""),
        ));
        r.push((
            String::from_str("temperature_state_topic"),
            concat5("\"", ponder_prefix, "/", id, "/temperature\""),
        ));
        r.push((
            String::from_str("temperature_command_topic"),
            concat5("\"", ponder_prefix, "/", id, "/temperature/set\""),
        ));
        r.push((
            String::from_str("swing_mode_state_topic"),
            concat5("\"", ponder_prefix, "/", id, "/swing_mode\""),
        ));
        r.push((
            String::from_str("swing_mode_command_topic"),
            concat5("\"", ponder_prefix, "/", id, "/swing_mode/set\""),
        ));
        proof {
            assert(r.deep_view() =~= spec_inner_config(id@, ponder_prefix@));
        }
        r
    }
}

} // verus!
