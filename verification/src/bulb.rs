//! A bulb behind the bridge: what a command sends, and what an answer or an event reports.
//!
//! One loaded module answers for every device behind a bridge, so what is heard is handed to
//! whichever half knows what it means.

use vstd::prelude::*;
use vstd::string::{StrSliceExecFns, StringExecFns};
use crate::button;
use crate::catalog;
use crate::host;
use crate::host::{HostCall, HostCallView, HttpRequest, Instance, InstanceView};
use crate::json;
use crate::json::{JView, Json, Members, Number, NumberView, Object};
use crate::number;
use crate::publish;
use crate::role;
use crate::role::Role;
use crate::sensor;
use crate::text;
use crate::wire;

verus! {

/// The module that answers for everything behind a bridge.
#[derive(Default)]
pub struct HueBulb;

/// The longest transition that a bridge takes, in milliseconds.
pub const LONGEST_RAMP: u64 = 6_553_000;

/// How long a held dimming key takes from one end to the other, in milliseconds.
pub const HELD_RAMP: u64 = 4000;

/// What brings a light to a level, in so many milliseconds.
pub open spec fn level_members(level: u8, ramp_ms: Option<u64>) -> Members {
    let a = json::one("on"@, publish::switched(level > 0));
    let b = if level > 0 {
        json::put(a, "dimming"@, publish::dimmed(level))
    } else {
        a
    };
    match ramp_ms {
        Some(ms) => json::put(
            b,
            "dynamics"@,
            JView::Obj(
                json::one(
                    "duration"@,
                    json::int_value(
                        if ms < LONGEST_RAMP {
                            ms
                        } else {
                            LONGEST_RAMP
                        },
                    ),
                ),
            ),
        ),
        None => b,
    }
}

/// What brings a light to a level, in so many milliseconds.
///
/// Hue takes brightness as a percentage but treats 0 as "dimmest on", not off, so a level of 0 has
/// to become `on: false` or the bulb sits at 1% instead of going out.
pub fn level_body(level: u8, ramp_ms: Option<u64>) -> (r: Json)
    ensures
        r@ == JView::Obj(level_members(level, ramp_ms)),
{
    let mut body = Object::new().with("on", publish::switch(level > 0));
    if level > 0 {
        body.insert("dimming", publish::dim(level));
    }
    match ramp_ms {
        Some(ms) => {
            let duration = if ms < LONGEST_RAMP {
                ms
            } else {
                LONGEST_RAMP
            };
            let dynamics = Object::new().with("duration", Json::integer(duration));
            body.insert("dynamics", Json::object(dynamics));
        },
        None => {},
    }
    Json::object(body)
}

/// The request that sends a body to this light; nothing where its bridge or its id is not known.
pub open spec fn light_request(inst: InstanceView, body: JView) -> Option<HostCallView> {
    match (host::property(inst, "Bridge address"@), host::property(inst, "Light id"@)) {
        (Some(bridge), Some(id)) => if bridge.len() == 0 || id.len() == 0 {
            None
        } else {
            Some(
                HostCallView::Http(
                    host::with_body(
                        host::with_header(
                            host::request(
                                "PUT"@,
                                "https://"@ + bridge + "/clip/v2/resource/light/"@ + id,
                            ),
                            "hue-application-key"@,
                            json::str_or(host::property(inst, "Application key"@), ""@),
                        ),
                        wire::rendered(body),
                    ),
                ),
            )
        },
        _ => None,
    }
}

/// The level of a light resource, where it says anything of one: nothing when it is off, its
/// brightness when it says that, and what was known otherwise.
pub open spec fn light_level(inst: InstanceView, light: JView) -> Option<u64> {
    let known = match json::as_u64(host::remembered(inst, "level"@)) {
        Some(n) => n,
        None => 100,
    };
    let on = match json::as_bool(light.get2("on"@, "on"@)) {
        Some(on) => Some(on),
        None => json::as_bool(host::remembered(inst, "on"@)),
    };
    let brightness = number::brightness(light.get2("dimming"@, "brightness"@));
    if on is None && brightness is None {
        None
    } else if on == Some(false) {
        Some(0)
    } else {
        match brightness {
            Some(level) => Some(level),
            None => Some(known),
        }
    }
}

/// A device that remembers the level it was brought to. The last level it was actually at is kept
/// when it goes out, so that switching it on can restore it.
pub open spec fn remembering(inst: InstanceView, level: u64) -> InstanceView {
    let a = if level > 0 {
        host::remember(inst, "level"@, json::int_value(level))
    } else {
        inst
    };
    host::remember(a, "on"@, JView::Bool(level > 0))
}

/// A report that a light's level changed.
pub open spec fn level_changed(level: u64) -> HostCallView {
    host::notification(1, "level_changed"@, json::one("level"@, json::int_value(level)))
}

/// A report that a light's colour temperature changed.
pub open spec fn cct_changed(kelvin: u64) -> HostCallView {
    host::notification(1, "cct_changed"@, json::one("kelvin"@, json::int_value(kelvin)))
}

/// A report that a light's colour changed.
pub open spec fn color_changed(hue: JView, sat: JView) -> HostCallView {
    host::notification(1, "color_changed"@, json::put(json::one("hue"@, hue), "sat"@, sat))
}

/// What is reported of the level of a light.
pub open spec fn level_calls(level: Option<u64>) -> Seq<HostCallView> {
    match level {
        Some(level) => seq![level_changed(level)],
        None => seq![],
    }
}

/// What is reported of the colour temperature in a light resource.
pub open spec fn cct_calls(light: JView) -> Seq<HostCallView> {
    match json::as_u64(light.get2("color_temperature"@, "mirek"@)) {
        Some(mirek) => if mirek > 0 {
            seq![cct_changed((1_000_000u64 / mirek) as u64)]
        } else {
            seq![]
        },
        None => seq![],
    }
}

/// A number of a light resource, as a floating-point number is written.
pub open spec fn coordinate(light: JView, axis: Seq<char>) -> Option<NumberView> {
    match light.get("color"@) {
        Some(color) => match json::as_number(color.get2("xy"@, axis)) {
            Some(n) => number::floated(n),
            None => None,
        },
        None => None,
    }
}

/// What is reported of the colour in a light resource.
pub open spec fn color_calls(light: JView) -> Seq<HostCallView> {
    match (coordinate(light, "x"@), coordinate(light, "y"@)) {
        (Some(x), Some(y)) => seq![color_changed(JView::Num(x), JView::Num(y))],
        _ => seq![],
    }
}

/// What a light resource comes to for the light it is about: the device as it remembers it then,
/// and what is reported.
pub open spec fn light_reported(inst: InstanceView, light: JView) -> (
    InstanceView,
    Seq<HostCallView>,
) {
    let level = light_level(inst, light);
    (
        match level {
            Some(level) => remembering(inst, level),
            None => inst,
        },
        level_calls(level) + cct_calls(light) + color_calls(light),
    )
}

/// What a resource comes to for a device: nothing unless it is about this device, and nothing at
/// all for the bridge, which hears its own stream.
pub open spec fn heard(inst: InstanceView, resource: JView) -> (InstanceView, Seq<HostCallView>) {
    match role::role_of(inst) {
        Role::Bulb => if sensor::is_about(inst, "Light id"@, resource) {
            light_reported(inst, resource)
        } else {
            (inst, seq![])
        },
        Role::Motion => (inst, sensor::reported(inst, resource)),
        Role::Control => (inst, button::reported(inst, resource)),
        Role::Bridge => (inst, seq![]),
    }
}

/// What the first `n` resources come to for a device, one after the other.
pub open spec fn heard_all(inst: InstanceView, resources: Seq<JView>, n: nat) -> (
    InstanceView,
    Seq<HostCallView>,
)
    decreases n,
{
    if n == 0 {
        (inst, seq![])
    } else {
        let (before, calls) = heard_all(inst, resources, (n - 1) as nat);
        let (after, more) = heard(before, resources[n - 1]);
        (after, calls + more)
    }
}

/// What the first `n` updates of a frame come to for a device, one after the other.
pub open spec fn heard_frame(inst: InstanceView, updates: Seq<JView>, n: nat) -> (
    InstanceView,
    Seq<HostCallView>,
)
    decreases n,
{
    if n == 0 {
        (inst, seq![])
    } else {
        let (before, calls) = heard_frame(inst, updates, (n - 1) as nat);
        let resources = catalog::data_or_none(Some(updates[n - 1]));
        let (after, more) = heard_all(before, resources, resources.len());
        (after, calls + more)
    }
}

/// What a frame of the event stream comes to for a device.
pub open spec fn frame_heard(inst: InstanceView, frame: JView) -> (
    InstanceView,
    Seq<HostCallView>,
) {
    let updates = json::list_or_empty(json::as_array(Some(frame)));
    heard_frame(inst, updates, updates.len())
}

/// What a line of the event stream comes to for a device: nothing where it is not a document.
pub open spec fn stream_heard(inst: InstanceView, args: Members) -> (
    InstanceView,
    Seq<HostCallView>,
) {
    match json::as_str(json::lookup(args, "data"@)) {
        Some(line) => match wire::parsed(line) {
            Some(frame) => frame_heard(inst, frame),
            None => (inst, seq![]),
        },
        None => (inst, seq![]),
    }
}

/// What an answer of the bridge comes to for a device.
pub open spec fn answer_heard(inst: InstanceView, args: Members) -> (
    InstanceView,
    Seq<HostCallView>,
) {
    let resources = catalog::data_or_none(json::lookup(args, "body"@));
    heard_all(inst, resources, resources.len())
}

/// What a light is asked for: a body to send, and the level it is then at, where that is known.
pub struct OrderView {
    pub body: JView,
    pub level: Option<u8>,
}

/// An order for a level.
pub open spec fn to_level(level: u8, ramp_ms: Option<u64>) -> OrderView {
    OrderView { body: JView::Obj(level_members(level, ramp_ms)), level: Some(level) }
}

/// The level a light was last at, as a byte.
pub open spec fn last_level(inst: InstanceView) -> u8 {
    match json::as_u64(host::remembered(inst, "level"@)) {
        Some(n) => (n % 256) as u8,
        None => 100,
    }
}

/// The level that switching a light on brings it to: the one it was last at.
pub open spec fn restored(last: u8) -> u8 {
    if last == 0 {
        100
    } else {
        last
    }
}

/// What a command asks of a light; nothing where it is not a command of a light. `x` and `y` are
/// the point of the gamut that the hue and saturation of the arguments stand for.
pub open spec fn ordered(
    inst: InstanceView,
    cmd: Seq<char>,
    args: Members,
    x: NumberView,
    y: NumberView,
) -> Option<OrderView> {
    let ramp = json::as_u64(json::lookup(args, "ramp_ms"@));
    let last = last_level(inst);
    if cmd == "on"@ {
        Some(to_level(restored(last), ramp))
    } else if cmd == "off"@ {
        Some(to_level(0, ramp))
    } else if cmd == "toggle"@ {
        if json::as_bool(host::remembered(inst, "on"@)) == Some(true) {
            Some(to_level(0, ramp))
        } else {
            Some(to_level(restored(last), ramp))
        }
    } else if cmd == "set_level"@ {
        let level = match json::as_u64(json::lookup(args, "level"@)) {
            Some(n) => (n % 256) as u8,
            None => 0,
        };
        Some(to_level(level, ramp))
    } else if cmd == "set_cct"@ {
        Some(
            OrderView {
                body: JView::Obj(
                    json::one(
                        "color_temperature"@,
                        publish::tempered(publish::kelvin_arg(args)),
                    ),
                ),
                level: None,
            },
        )
    } else if cmd == "set_color"@ {
        Some(
            OrderView {
                body: JView::Obj(json::one("color"@, publish::gamut_point(x, y))),
                level: None,
            },
        )
    } else if cmd == "ramp_stop"@ {
        Some(to_level(last, Some(HELD_RAMP)))
    } else if cmd == "ramp_start"@ {
        if json::as_str(json::lookup(args, "direction"@)) == Some("up"@) {
            Some(to_level(100, Some(HELD_RAMP)))
        } else {
            Some(to_level(1, Some(HELD_RAMP)))
        }
    } else {
        None
    }
}

/// An argument, or zero.
pub open spec fn arg_or_zero(args: Members, key: Seq<char>) -> JView {
    match json::lookup(args, key) {
        Some(v) => v,
        None => JView::Num(NumberView::Float("0.0"@)),
    }
}

/// What is reported at once of a command, besides a level: a colour temperature or a colour.
pub open spec fn intended(cmd: Seq<char>, args: Members) -> Seq<HostCallView> {
    if cmd == "set_cct"@ {
        match json::as_u64(json::lookup(args, "kelvin"@)) {
            Some(kelvin) => seq![cct_changed(kelvin)],
            None => seq![],
        }
    } else if cmd == "set_color"@ {
        seq![color_changed(arg_or_zero(args, "hue"@), arg_or_zero(args, "sat"@))]
    } else {
        seq![]
    }
}

/// What a command comes to: the device as it remembers it then, and what the host is asked to do.
/// A command that is not one of a light, or whose light cannot be reached, is a warning and
/// changes nothing; any other is one request, followed by a report of what was asked for.
pub open spec fn commanded(
    inst: InstanceView,
    cmd: Seq<char>,
    args: Members,
    x: NumberView,
    y: NumberView,
) -> (InstanceView, Seq<HostCallView>) {
    match ordered(inst, cmd, args, x, y) {
        Some(order) => match light_request(inst, order.body) {
            Some(request) => match order.level {
                Some(level) => (
                    remembering(inst, level as u64),
                    seq![request] + seq![level_changed(level as u64)] + intended(cmd, args),
                ),
                None => (inst, seq![request] + intended(cmd, args)),
            },
            None => (
                inst,
                seq![
                    HostCallView::Warn(
                        "hue: set Bridge address and Light id on this device first"@,
                    ),
                ],
            ),
        },
        None => (inst, seq![HostCallView::Warn("hue: unhandled `"@ + cmd + "`"@)]),
    }
}

/// A report that a binding can be reached.
pub open spec fn online(binding: u32) -> HostCallView {
    host::notification(binding, "online_changed"@, json::one("online"@, JView::Bool(true)))
}

/// The collections the bridge reads once at start.
///
/// `button` is deliberately not among them: a button resource carries its last event, and reading
/// it at start would report an old press as if it had just happened.
pub open spec fn at_start() -> Seq<Seq<char>> {
    seq!["light"@, "motion"@, "temperature"@, "light_level"@, "device_power"@]
}

/// What opens the event stream of a bridge.
pub open spec fn stream_request(bridge: Seq<char>, key: Seq<char>) -> Seq<char> {
    "GET /eventstream/clip/v2 HTTP/1.1\r\nHost: "@ + bridge
        + "\r\nAccept: text/event-stream\r\nCache-Control: no-cache\r\nhue-application-key: "@ + key
        + "\r\n\r\n"@
}

/// One read of a collection.
pub open spec fn collection_read(
    bridge: Seq<char>,
    key: Seq<char>,
    collection: Seq<char>,
) -> HostCallView {
    HostCallView::Http(
        host::with_header(
            host::request("GET"@, "https://"@ + bridge + "/clip/v2/resource/"@ + collection),
            "hue-application-key"@,
            key,
        ),
    )
}

/// What the bridge does when it starts: it opens the event stream, once, for the whole house, and
/// reads each collection of states.
pub open spec fn opening(bridge: Seq<char>, key: Seq<char>) -> Seq<HostCallView> {
    seq![HostCallView::Tx { control: 0, data: vstd::utf8::encode_utf8(stream_request(bridge, key)) }]
        + at_start().map_values(|c: Seq<char>| collection_read(bridge, key, c))
}

/// What a device does when it starts: every binding is reported reachable, and the bridge opens
/// the event stream. Everything behind the bridge asks for nothing.
pub open spec fn bound(inst: InstanceView) -> Seq<HostCallView> {
    let role = role::role_of(inst);
    let bindings = role::bindings_of(role, inst).map_values(|b: u32| online(b));
    match (host::property(inst, "Bridge address"@), host::property(inst, "Application key"@)) {
        (Some(bridge), Some(key)) => if role == Role::Bridge {
            bindings + opening(bridge, key)
        } else {
            bindings
        },
        _ => bindings,
    }
}

fn remember_level(inst: &mut Instance, level: u64)
    ensures
        final(inst)@ == remembering(old(inst)@, level),
{
    if level > 0 {
        inst.remember("level", Json::integer(level));
    }
    inst.remember("on", Json::Bool(level > 0));
}

fn coordinate_in(light: &Json, axis: &str) -> (r: Option<Number>)
    ensures
        text::view_of(r) == coordinate(light@, axis@),
{
    match light.get("color") {
        Some(color) => match json::number_of(color.get2("xy", axis)) {
            Some(n) => number::as_float(n),
            None => None,
        },
        None => None,
    }
}

fn notify_level(level: u64) -> (r: HostCall)
    ensures
        r@ == level_changed(level),
{
    HostCall::notify(1, "level_changed", Object::new().with("level", Json::integer(level)))
}

fn notify_cct(kelvin: u64) -> (r: HostCall)
    ensures
        r@ == cct_changed(kelvin),
{
    HostCall::notify(1, "cct_changed", Object::new().with("kelvin", Json::integer(kelvin)))
}

fn notify_color(hue: Json, sat: Json) -> (r: HostCall)
    ensures
        r@ == color_changed(hue@, sat@),
{
    HostCall::notify(1, "color_changed", Object::new().with("hue", hue).with("sat", sat))
}

fn level_heard(inst: &Instance, light: &Json) -> (r: Option<u64>)
    ensures
        r == light_level(inst@, light@),
{
    let known = match json::u64_of(inst.scratch.get("level")) {
        Some(n) => n,
        None => 100,
    };
    let on = match json::bool_of(light.get2("on", "on")) {
        Some(on) => Some(on),
        None => json::bool_of(inst.scratch.get("on")),
    };
    let brightness = number::brightness_of(light.get2("dimming", "brightness"));
    match (on, brightness) {
        (None, None) => None,
        (Some(false), _) => Some(0),
        (_, Some(level)) => Some(level),
        (_, None) => Some(known),
    }
}

/// The calls of one list followed by those of another.
fn extend(calls: &mut Vec<HostCall>, more: Vec<HostCall>)
    ensures
        text::views(final(calls)@) == text::views(old(calls)@) + text::views(more@),
{
    let ghost start = text::views(calls@);
    let ghost all = text::views(more@);
    let mut rest = more;
    calls.append(&mut rest);
    assert(text::views(calls@) =~= start + all);
}

/// An order for a light.
pub struct Order {
    pub body: Json,
    pub level: Option<u8>,
}

impl View for Order {
    type V = OrderView;

    open spec fn view(&self) -> OrderView {
        OrderView { body: self.body@, level: self.level }
    }
}

fn order_level(level: u8, ramp_ms: Option<u64>) -> (r: Order)
    ensures
        r@ == to_level(level, ramp_ms),
{
    Order { body: level_body(level, ramp_ms), level: Some(level) }
}

/// The level a light was last at, as a byte.
fn level_before(inst: &Instance) -> (r: u8)
    ensures
        r == last_level(inst@),
{
    match json::u64_of(inst.scratch.get("level")) {
        Some(n) => (n % 256) as u8,
        None => 100,
    }
}

fn restore(last: u8) -> (r: u8)
    ensures
        r == restored(last),
{
    if last == 0 {
        100
    } else {
        last
    }
}

fn order(inst: &Instance, cmd: &str, args: &Object, x: &Number, y: &Number) -> (r: Option<Order>)
    ensures
        text::view_of(r) == ordered(inst@, cmd@, args@, x@, y@),
{
    let ramp = json::u64_of(args.get("ramp_ms"));
    let last = level_before(inst);
    if text::same(cmd, "on") {
        Some(order_level(restore(last), ramp))
    } else if text::same(cmd, "off") {
        Some(order_level(0, ramp))
    } else if text::same(cmd, "toggle") {
        let on = match json::bool_of(inst.scratch.get("on")) {
            Some(on) => on,
            None => false,
        };
        if on {
            Some(order_level(0, ramp))
        } else {
            Some(order_level(restore(last), ramp))
        }
    } else if text::same(cmd, "set_level") {
        let level = match json::u64_of(args.get("level")) {
            Some(n) => (n % 256) as u8,
            None => 0,
        };
        Some(order_level(level, ramp))
    } else if text::same(cmd, "set_cct") {
        let kelvin = match json::u64_of(args.get("kelvin")) {
            Some(n) => n,
            None => 2700,
        };
        let body = Object::new().with("color_temperature", publish::temper(kelvin));
        Some(Order { body: Json::object(body), level: None })
    } else if text::same(cmd, "set_color") {
        let body = Object::new().with("color", publish::point(x, y));
        Some(Order { body: Json::object(body), level: None })
    } else if text::same(cmd, "ramp_stop") {
        // Hue has no open-ended ramp; the held key becomes a long fade.
        Some(order_level(last, Some(HELD_RAMP)))
    } else if text::same(cmd, "ramp_start") {
        let up = match json::str_of(args.get("direction")) {
            Some(direction) => text::same(direction, "up"),
            None => false,
        };
        if up {
            Some(order_level(100, Some(HELD_RAMP)))
        } else {
            Some(order_level(1, Some(HELD_RAMP)))
        }
    } else {
        None
    }
}

fn value_or_zero(args: &Object, key: &str) -> (r: Json)
    ensures
        r@ == arg_or_zero(args@, key@),
{
    match args.get(key) {
        Some(v) => v.clone(),
        None => Json::Num(Number::Float("0.0".to_string())),
    }
}

fn intent(cmd: &str, args: &Object) -> (r: Vec<HostCall>)
    ensures
        text::views(r@) == intended(cmd@, args@),
{
    if text::same(cmd, "set_cct") {
        match json::u64_of(args.get("kelvin")) {
            Some(kelvin) => host::one_call(notify_cct(kelvin)),
            None => host::no_calls(),
        }
    } else if text::same(cmd, "set_color") {
        host::one_call(notify_color(value_or_zero(args, "hue"), value_or_zero(args, "sat")))
    } else {
        host::no_calls()
    }
}

fn read_collection(bridge: &str, key: &str, collection: &str) -> (r: HostCall)
    ensures
        r@ == collection_read(bridge@, key@, collection@),
{
    let mut url = "https://".to_string();
    url.append(bridge);
    url.append("/clip/v2/resource/");
    url.append(collection);
    HostCall::Http(HttpRequest::new("GET", url).header("hue-application-key", key))
}

fn open_stream(bridge: &str, key: &str) -> (r: Vec<HostCall>)
    ensures
        text::views(r@) == opening(bridge@, key@),
{
    let mut request = "GET /eventstream/clip/v2 HTTP/1.1\r\nHost: ".to_string();
    request.append(bridge);
    request.append(
        "\r\nAccept: text/event-stream\r\nCache-Control: no-cache\r\nhue-application-key: ",
    );
    request.append(key);
    request.append("\r\n\r\n");
    let mut calls: Vec<HostCall> = Vec::new();
    calls.push(HostCall::Tx { control: 0, data: request.as_str().as_bytes_vec() });
    // One request per collection, not one per device: the collection endpoints return everything
    // in one answer each, and every device behind the bridge picks itself out.
    calls.push(read_collection(bridge, key, "light"));
    calls.push(read_collection(bridge, key, "motion"));
    calls.push(read_collection(bridge, key, "temperature"));
    calls.push(read_collection(bridge, key, "light_level"));
    calls.push(read_collection(bridge, key, "device_power"));
    assert(text::views(calls@) =~= opening(bridge@, key@));
    calls
}

impl HueBulb {
    /// The request that sends a body to this light; nothing where its bridge or its id is not
    /// known.
    pub fn request(inst: &Instance, body: Json) -> (r: Option<HostCall>)
        ensures
            text::view_of(r) == light_request(inst@, body@),
    {
        let bridge = match inst.property("Bridge address") {
            Some(s) => s,
            None => {
                return None;
            },
        };
        let key = match inst.property("Application key") {
            Some(s) => s,
            None => "",
        };
        let id = match inst.property("Light id") {
            Some(s) => s,
            None => {
                return None;
            },
        };
        if text::is_empty(bridge) || text::is_empty(id) {
            return None;
        }
        let mut url = "https://".to_string();
        url.append(bridge);
        url.append("/clip/v2/resource/light/");
        url.append(id);
        Some(
            HostCall::Http(
                HttpRequest::new("PUT", url).header("hue-application-key", key).json(
                    wire::render(&body),
                ),
            ),
        )
    }

    /// Turns a light resource, from a read or from the stream, into what changed.
    ///
    /// An event carries only the fields that moved, so a missing field means "unchanged", and the
    /// remembered value fills it in.
    pub fn report(inst: &mut Instance, light: &Json) -> (r: Vec<HostCall>)
        ensures
            (final(inst)@, text::views(r@)) == light_reported(old(inst)@, light@),
    {
        broadcast use text::views_push;

        let mut out = host::no_calls();
        let ghost before = inst@;
        match level_heard(inst, light) {
            Some(level) => {
                remember_level(inst, level);
                out.push(notify_level(level));
            },
            None => {},
        }
        assert(text::views(out@) =~= level_calls(light_level(before, light@)));
        match json::u64_of(light.get2("color_temperature", "mirek")) {
            Some(mirek) => {
                if mirek > 0 {
                    out.push(notify_cct(1_000_000 / mirek));
                }
            },
            None => {},
        }
        assert(text::views(out@) =~= level_calls(light_level(before, light@)) + cct_calls(light@));
        match (coordinate_in(light, "x"), coordinate_in(light, "y")) {
            (Some(x), Some(y)) => {
                out.push(notify_color(Json::Num(x), Json::Num(y)));
            },
            _ => {},
        }
        assert(text::views(out@) =~= light_reported(before, light@).1);
        out
    }

    /// One resource, handed to whichever half knows what it means. Empty for everything that is
    /// not about this device.
    pub fn mine(inst: &mut Instance, resource: &Json) -> (r: Vec<HostCall>)
        ensures
            (final(inst)@, text::views(r@)) == heard(old(inst)@, resource@),
    {
        match Role::of(inst) {
            Role::Bulb => {
                if sensor::concerns(inst, "Light id", resource) {
                    HueBulb::report(inst, resource)
                } else {
                    host::no_calls()
                }
            },
            Role::Motion => sensor::report(inst, resource),
            Role::Control => button::report(inst, resource),
            // The bridge hearing its own stream. Everything on it belongs to something behind it.
            Role::Bridge => host::no_calls(),
        }
    }

    /// Some resources, one after the other, as they concern this device.
    pub fn all_mine(inst: &mut Instance, resources: &Vec<Json>) -> (r: Vec<HostCall>)
        ensures
            (final(inst)@, text::views(r@)) == heard_all(
                old(inst)@,
                text::views(resources@),
                resources@.len(),
            ),
    {
        let mut out = host::no_calls();
        let mut i: usize = 0;
        while i < resources.len()
            invariant
                i <= resources.len(),
                (inst@, text::views(out@)) == heard_all(
                    old(inst)@,
                    text::views(resources@),
                    i as nat,
                ),
            decreases resources.len() - i,
        {
            let more = HueBulb::mine(inst, &resources[i]);
            extend(&mut out, more);
            i = i + 1;
        }
        out
    }

    /// One frame of the bridge's event stream, as it concerns this device.
    ///
    /// The frame is the whole house, and every device behind the bridge is handed the same one.
    /// Keeping only what names us is the rule that makes one connection serve all of them.
    pub fn on_frame(&self, inst: &mut Instance, frame: &Json) -> (r: Vec<HostCall>)
        ensures
            (final(inst)@, text::views(r@)) == frame_heard(old(inst)@, frame@),
    {
        let mut out = host::no_calls();
        match json::array_of(Some(frame)) {
            Some(updates) => {
                let mut i: usize = 0;
                while i < updates.len()
                    invariant
                        i <= updates.len(),
                        (inst@, text::views(out@)) == heard_frame(
                            old(inst)@,
                            text::views(updates@),
                            i as nat,
                        ),
                    decreases updates.len() - i,
                {
                    match catalog::data_of(Some(&updates[i])) {
                        Some(resources) => {
                            assert(text::views(resources@).len() == resources@.len());
                            let more = HueBulb::all_mine(inst, resources);
                            extend(&mut out, more);
                        },
                        None => {
                            assert(text::views(out@) + seq![] =~= text::views(out@));
                        },
                    }
                    i = i + 1;
                }
                assert(text::views(updates@).len() == updates@.len());
            },
            None => {},
        }
        out
    }

    /// One line of the bridge's event stream, as it concerns this device. A line that is not a
    /// document is a keep-alive or not finished yet.
    pub fn on_stream(&self, inst: &mut Instance, args: &Object) -> (r: Vec<HostCall>)
        ensures
            (final(inst)@, text::views(r@)) == stream_heard(old(inst)@, args@),
    {
        match json::str_of(args.get("data")) {
            Some(line) => match wire::parse(line) {
                Some(frame) => self.on_frame(inst, &frame),
                None => host::no_calls(),
            },
            None => host::no_calls(),
        }
    }

    /// Reports a level at once rather than waiting for the bridge, whose next word corrects it if
    /// it disagreed.
    pub fn optimistic(level: u8) -> (r: Vec<HostCall>)
        ensures
            text::views(r@) == seq![level_changed(level as u64)],
    {
        host::one_call(notify_level(level as u64))
    }

    /// A command to this light. `x` and `y` are the point of the gamut that the hue and saturation
    /// among the arguments stand for; only `set_color` uses them.
    pub fn on_command(
        &self,
        inst: &mut Instance,
        _proxy: u32,
        cmd: &str,
        args: &Object,
        x: &Number,
        y: &Number,
    ) -> (r: Vec<HostCall>)
        ensures
            (final(inst)@, text::views(r@)) == commanded(old(inst)@, cmd@, args@, x@, y@),
    {
        let order = match order(inst, cmd, args, x, y) {
            Some(order) => order,
            None => {
                let mut warning = "hue: unhandled `".to_string();
                warning.append(cmd);
                warning.append("`");
                return host::one_call(HostCall::Warn(warning));
            },
        };
        let request = match HueBulb::request(inst, order.body) {
            Some(request) => request,
            None => {
                return host::one_call(
                    HostCall::Warn(
                        "hue: set Bridge address and Light id on this device first".to_string(),
                    ),
                );
            },
        };
        let mut out = host::one_call(request);
        match order.level {
            Some(level) => {
                remember_level(inst, level as u64);
                extend(&mut out, HueBulb::optimistic(level));
            },
            None => {},
        }
        extend(&mut out, intent(cmd, args));
        out
    }

    /// What a device does when it starts.
    pub fn on_bind(&self, inst: &mut Instance) -> (r: Vec<HostCall>)
        ensures
            final(inst)@ == old(inst)@,
            text::views(r@) == bound(old(inst)@),
    {
        let role = Role::of(inst);
        let bindings = role.bindings(inst);
        let ghost all = role::bindings_of(role, inst@).map_values(|b: u32| online(b));
        let mut out = host::no_calls();
        let mut i: usize = 0;
        while i < bindings.len()
            invariant
                i <= bindings.len(),
                all == bindings@.map_values(|b: u32| online(b)),
                text::views(out@) == all.take(i as int),
            decreases bindings.len() - i,
        {
            broadcast use text::views_push;

            let args = Object::new().with("online", Json::Bool(true));
            out.push(HostCall::notify(bindings[i], "online_changed", args));
            assert(text::views(out@) =~= all.take(i + 1));
            i = i + 1;
        }
        assert(text::views(out@) =~= all);
        if role == Role::Bridge {
            match (inst.property("Bridge address"), inst.property("Application key")) {
                (Some(bridge), Some(key)) => {
                    extend(&mut out, open_stream(bridge, key));
                },
                _ => {},
            }
        }
        out
    }

    /// The bridge answering, or a line of its event stream.
    pub fn on_event(&self, inst: &mut Instance, _control: u32, note: &str, args: &Object) -> (r:
        Vec<HostCall>)
        ensures
            (final(inst)@, text::views(r@)) == (if note@ == "rx"@ {
                stream_heard(old(inst)@, args@)
            } else if note@ == "http_response"@ {
                answer_heard(old(inst)@, args@)
            } else {
                (old(inst)@, seq![])
            }),
    {
        if text::same(note, "rx") {
            return self.on_stream(inst, args);
        }
        if !text::same(note, "http_response") {
            return host::no_calls();
        }
        match catalog::data_of(args.get("body")) {
            Some(data) => {
                assert(text::views(data@).len() == data@.len());
                HueBulb::all_mine(inst, data)
            },
            None => host::no_calls(),
        }
    }
}

} // verus!
