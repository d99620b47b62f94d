//! The measuring half of a Hue motion sensor.
//!
//! One physical sensor publishes four services on the bridge, motion, temperature, light level and
//! battery, each with its own resource id and each arriving on its own. Which binding a resource
//! belongs to is decided by the property holding its id, not by the order services came back in:
//! the bridge does not promise an order.

use vstd::prelude::*;
use vstd::string::StringExecFns;
use crate::host;
use crate::host::{Conversion, HostCall, HostCallView, Instance, InstanceView};
use crate::json;
use crate::json::{JView, Json, NumberView, Object};
use crate::text;

verus! {

/// A measurement, the report form first: a newer bridge carries the value in both, an older one
/// only in the flat form.
pub open spec fn reading_of(resource: JView, service: Seq<char>, field: Seq<char>) -> Option<JView> {
    match resource.get(service) {
        Some(block) => match block.get2(field + "_report"@, field) {
            Some(v) => Some(v),
            None => block.get(field),
        },
        None => None,
    }
}

/// A measurement, the report form first.
pub fn reading<'a>(resource: &'a Json, service: &str, field: &str) -> (r: Option<&'a Json>)
    ensures
        text::view_of(r) == reading_of(resource@, service@, field@),
{
    match resource.get(service) {
        Some(block) => {
            let mut report = field.to_string();
            report.append("_report");
            match block.get2(report.as_str(), field) {
                Some(v) => Some(v),
                None => block.get(field),
            }
        },
        None => None,
    }
}

/// Whether a resource is the one that a property of a device names.
pub open spec fn is_about(inst: InstanceView, property: Seq<char>, resource: JView) -> bool {
    match json::as_str(resource.get("id"@)) {
        Some(id) => host::property(inst, property) == Some(id),
        None => false,
    }
}

/// Whether a resource is the one that a property of a device names.
pub fn concerns(inst: &Instance, property: &str, resource: &Json) -> (r: bool)
    ensures
        r == is_about(inst@, property@, resource@),
{
    match json::str_of(resource.get("id")) {
        Some(id) => match inst.property(property) {
            Some(p) => text::same(p, id),
            None => false,
        },
        None => false,
    }
}

/// What is reported of a battery: its charge on the first binding, at most 100 percent.
pub open spec fn battery_calls(inst: InstanceView, resource: JView) -> Seq<HostCallView> {
    match json::as_u64(resource.get2("power_state"@, "battery_level"@)) {
        Some(percent) => if is_about(inst, "Power id"@, resource) {
            seq![
                host::notification(
                    1,
                    "battery_changed"@,
                    json::one(
                        "percent"@,
                        json::int_value(
                            if percent < 100 {
                                percent
                            } else {
                                100
                            },
                        ),
                    ),
                ),
            ]
        } else {
            seq![]
        },
        None => seq![],
    }
}

/// What is reported of a battery.
pub fn battery(inst: &Instance, resource: &Json) -> (r: Vec<HostCall>)
    ensures
        text::views(r@) == battery_calls(inst@, resource@),
{
    match json::u64_of(resource.get2("power_state", "battery_level")) {
        Some(percent) => {
            if concerns(inst, "Power id", resource) {
                let shown = if percent < 100 {
                    percent
                } else {
                    100
                };
                let args = Object::new().with("percent", Json::integer(shown));
                host::one_call(HostCall::notify(1, "battery_changed", args))
            } else {
                host::no_calls()
            }
        },
        None => host::no_calls(),
    }
}

/// A reading on a binding, to be converted on the way.
pub open spec fn converted(
    proxy: u32,
    conversion: Conversion,
    raw: Option<NumberView>,
) -> Seq<HostCallView> {
    match raw {
        Some(raw) => seq![
            HostCallView::NotifyConverted {
                proxy,
                name: "value_changed"@,
                key: "value"@,
                conversion,
                raw,
            },
        ],
        None => seq![],
    }
}

/// Whether somebody was seen, on the first binding.
pub open spec fn motion_calls(resource: JView) -> Seq<HostCallView> {
    match json::as_bool(reading_of(resource, "motion"@, "motion"@)) {
        Some(detected) => seq![
            host::notification(
                1,
                "detected_changed"@,
                json::one("detected"@, JView::Bool(detected)),
            ),
        ],
        None => seq![],
    }
}

/// What one resource comes to for a sensor: nothing where it is about something else.
pub open spec fn reported(inst: InstanceView, resource: JView) -> Seq<HostCallView> {
    if is_about(inst, "Motion id"@, resource) {
        motion_calls(resource)
    } else if is_about(inst, "Temperature id"@, resource) {
        converted(
            2,
            Conversion::Celsius,
            json::as_number(reading_of(resource, "temperature"@, "temperature"@)),
        )
    } else if is_about(inst, "Light level id"@, resource) {
        converted(
            3,
            Conversion::Lux,
            json::as_number(reading_of(resource, "light"@, "light_level"@)),
        )
    } else {
        battery_calls(inst, resource)
    }
}

fn convert(proxy: u32, conversion: Conversion, value: Option<&Json>) -> (r: Vec<HostCall>)
    ensures
        text::views(r@) == converted(proxy, conversion, json::as_number(text::view_of(value))),
{
    match json::number_of(value) {
        Some(raw) => host::one_call(
            HostCall::NotifyConverted {
                proxy,
                name: "value_changed".to_string(),
                key: "value".to_string(),
                conversion,
                raw: raw.clone(),
            },
        ),
        None => host::no_calls(),
    }
}

/// One resource, as it concerns this sensor. Empty when it is about something else.
///
/// A temperature and a light level are handed on as the bridge wrote them, with the conversion
/// that the host makes of them.
pub fn report(inst: &Instance, resource: &Json) -> (r: Vec<HostCall>)
    ensures
        text::views(r@) == reported(inst@, resource@),
{
    if concerns(inst, "Motion id", resource) {
        match json::bool_of(reading(resource, "motion", "motion")) {
            Some(detected) => {
                let args = Object::new().with("detected", Json::Bool(detected));
                host::one_call(HostCall::notify(1, "detected_changed", args))
            },
            None => host::no_calls(),
        }
    } else if concerns(inst, "Temperature id", resource) {
        convert(2, Conversion::Celsius, reading(resource, "temperature", "temperature"))
    } else if concerns(inst, "Light level id", resource) {
        // The light service names its value `light_level` inside a block called `light`, so the
        // service and field names differ here where they match everywhere else.
        convert(3, Conversion::Lux, reading(resource, "light", "light_level"))
    } else {
        battery(inst, resource)
    }
}

} // verus!
