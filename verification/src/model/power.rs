//! Cooling and power: `SYNO.Core.Hardware.FanSpeed` and
//! `SYNO.Core.ExternalDevice.UPS`.

use vstd::prelude::*;

use super::{opt_text, opt_view, text_at};
use crate::dsm::{field_bool, field_i64, opt_read_bool, opt_read_i64};
use crate::json::Json;
use crate::text::{i64_text, same_text, signed_decimal};

verus! {

/// The fan policy DSM is running.
#[derive(Debug, Clone, PartialEq, Eq)]
pub struct Cooling {
    /// `coolfan`, `quietfan`, `lowtempfan` — DSM's own words for the profile.
    pub mode: Option<String>,
    /// Whether any disk's temperature reading has failed.
    pub disk_temperature_fault: bool,
}

/// An attached UPS, if there is one.
#[derive(Debug, Clone, PartialEq, Eq)]
pub struct Ups {
    pub enabled: bool,
    pub manufacturer: Option<String>,
    pub model: Option<String>,
    /// Battery charge, 0–100.
    pub charge_percent: Option<i64>,
    /// Estimated runtime in seconds.
    pub runtime_seconds: Option<i64>,
    /// `usb`, `snmp`, `network`.
    pub mode: Option<String>,
}

impl Default for Cooling {
    fn default() -> (r: Cooling)
        ensures
            r.mode is None && !r.disk_temperature_fault,
    {
        Cooling { mode: None, disk_temperature_fault: false }
    }
}

impl Default for Ups {
    fn default() -> (r: Ups)
        ensures
            !r.enabled && r.manufacturer is None && r.model is None,
            r.charge_percent is None && r.runtime_seconds is None && r.mode is None,
    {
        Ups { enabled: false, manufacturer: None, model: None, charge_percent: None, runtime_seconds: None, mode: None }
    }
}

/// Non-empty text under `key`.
pub open spec fn nonempty_text(v: Json, key: Seq<char>) -> Option<Seq<char>> {
    match text_at(v, key) {
        Some(t) => if t.len() > 0 { Some(t) } else { None },
        None => None,
    }
}

pub open spec fn fan_mode_label(mode: Option<Seq<char>>) -> Seq<char> {
    match mode {
        Some(m) => if m == "coolfan"@ {
            "Cool mode"@
        } else if m == "quietfan"@ {
            "Quiet mode"@
        } else if m == "lowtempfan"@ {
            "Low-temperature mode"@
        } else if m == "fullfan"@ {
            "Full-speed mode"@
        } else if m.len() > 0 {
            m
        } else {
            "—"@
        },
        None => "—"@,
    }
}

/// Runtime as a phrase: hours and minutes from an hour up, minutes below,
/// a dash when there is none.
pub open spec fn runtime_phrase(seconds: Option<i64>) -> Seq<char> {
    match seconds {
        Some(s) => if s > 0 {
            let minutes = s / 60;
            if minutes >= 60 {
                signed_decimal(minutes / 60) + " h "@ + signed_decimal(minutes % 60) + " min"@
            } else {
                signed_decimal(minutes) + " min"@
            }
        } else {
            "—"@
        },
        None => "—"@,
    }
}

pub open spec fn ups_phrase(manufacturer: Option<Seq<char>>, model: Option<Seq<char>>) -> Seq<char> {
    match (manufacturer, model) {
        (Some(m), Some(md)) => m + " "@ + md,
        (Some(m), None) => m,
        (None, Some(md)) => md,
        (None, None) => "Unknown UPS"@,
    }
}

pub open spec fn flag_or_false(o: Option<bool>) -> bool {
    match o {
        Some(b) => b,
        None => false,
    }
}

/// How the reply to `SYNO.Core.Hardware.FanSpeed`/`get` reads. The fault
/// flag is sent as the string `"yes"`/`"no"`.
pub open spec fn cooling_reads(r: Cooling, data: Json) -> bool {
    &&& opt_view(r.mode) == nonempty_text(data, "dual_fan_speed"@)
    &&& r.disk_temperature_fault == flag_or_false(opt_read_bool(data.field("all_disk_temp_fail"@)))
}

/// How the reply to `SYNO.Core.ExternalDevice.UPS`/`get` reads.
pub open spec fn ups_reads(r: Ups, data: Json) -> bool {
    &&& r.enabled == flag_or_false(opt_read_bool(data.field("enable"@)))
    &&& opt_view(r.manufacturer) == nonempty_text(data, "manufacture"@)
    &&& opt_view(r.model) == nonempty_text(data, "model"@)
    &&& r.charge_percent == opt_read_i64(data.field("charge"@))
    &&& r.runtime_seconds == opt_read_i64(data.field("runtime"@))
    &&& opt_view(r.mode) == nonempty_text(data, "mode"@)
}

pub(crate) fn nonempty(v: &Json, key: &str) -> (r: Option<String>)
    ensures
        opt_view(r) == nonempty_text(*v, key@),
{
    match opt_text(v, key) {
        Some(t) => if t.as_str().is_empty() {
            None
        } else {
            Some(t)
        },
        None => None,
    }
}

impl Cooling {
    /// A phrase for the row: DSM's `dual_fan_speed` is the setting the
    /// Control Panel calls "Fan Speed Mode"; an unrecognised mode is shown
    /// rather than hidden.
    pub fn mode_label(&self) -> (r: String)
        ensures
            r@ == fan_mode_label(opt_view(self.mode)),
    {
        match &self.mode {
            Some(m) => {
                let t = m.as_str();
                if same_text(t, "coolfan") {
                    String::from_str("Cool mode")
                } else if same_text(t, "quietfan") {
                    String::from_str("Quiet mode")
                } else if same_text(t, "lowtempfan") {
                    String::from_str("Low-temperature mode")
                } else if same_text(t, "fullfan") {
                    String::from_str("Full-speed mode")
                } else if !t.is_empty() {
                    m.clone()
                } else {
                    String::from_str("—")
                }
            },
            None => String::from_str("—"),
        }
    }

    /// Read `SYNO.Core.Hardware.FanSpeed`/`get`. The fault flag is sent as
    /// the string `"yes"`/`"no"`.
    pub fn from_json(data: &Json) -> (r: Cooling)
        ensures
            cooling_reads(r, *data),
    {
        Cooling {
            mode: nonempty(data, "dual_fan_speed"),
            disk_temperature_fault: match field_bool(data, "all_disk_temp_fail") {
                Some(b) => b,
                None => false,
            },
        }
    }
}

impl Ups {
    /// Read `SYNO.Core.ExternalDevice.UPS`/`get`.
    pub fn from_json(data: &Json) -> (r: Ups)
        ensures
            ups_reads(r, *data),
    {
        Ups {
            enabled: match field_bool(data, "enable") {
                Some(b) => b,
                None => false,
            },
            manufacturer: nonempty(data, "manufacture"),
            model: nonempty(data, "model"),
            charge_percent: field_i64(data, "charge"),
            runtime_seconds: field_i64(data, "runtime"),
            mode: nonempty(data, "mode"),
        }
    }

    /// Runtime as a phrase.
    pub fn runtime_label(&self) -> (r: String)
        ensures
            r@ == runtime_phrase(self.runtime_seconds),
    {
        match self.runtime_seconds {
            Some(s) => if s > 0 {
                let minutes = s / 60;
                if minutes >= 60 {
                    let mut out = i64_text(minutes / 60);
                    out.append(" h ");
                    let m = i64_text(minutes % 60);
                    out.append(m.as_str());
                    out.append(" min");
                    out
                } else {
                    let mut out = i64_text(minutes);
                    out.append(" min");
                    out
                }
            } else {
                String::from_str("—")
            },
            None => String::from_str("—"),
        }
    }

    /// Manufacturer and model as one phrase.
    pub fn description(&self) -> (r: String)
        ensures
            r@ == ups_phrase(opt_view(self.manufacturer), opt_view(self.model)),
    {
        match (&self.manufacturer, &self.model) {
            (Some(m), Some(model)) => {
                let mut out = m.clone();
                out.append(" ");
                out.append(model.as_str());
                out
            },
            (Some(m), None) => m.clone(),
            (None, Some(model)) => model.clone(),
            (None, None) => String::from_str("Unknown UPS"),
        }
    }
}

} // verus!
