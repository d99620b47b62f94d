//! Laws of commands: what each of them sends, remembers and reports.

use vstd::prelude::*;
use crate::bulb;
use crate::host;
use crate::host::{HostCallView, HttpRequestView, InstanceView};
use crate::json;
use crate::json::{JView, Members, NumberView};
use crate::number;
use crate::publish;
use crate::text;
use crate::wire;

verus! {

/// Whether a light can be addressed, by the light's id at the bridge's address with a key.
pub open spec fn is_at(
    inst: InstanceView,
    bridge: Seq<char>,
    key: Seq<char>,
    light: Seq<char>,
) -> bool {
    &&& json::lookup(inst.properties, "Bridge address"@) == Some(JView::Str(bridge))
    &&& json::lookup(inst.properties, "Light id"@) == Some(JView::Str(light))
    &&& json::lookup(inst.properties, "Application key"@) == Some(JView::Str(key))
    &&& bridge.len() > 0
    &&& light.len() > 0
}

/// The request that writes a body to a light.
pub open spec fn write(
    bridge: Seq<char>,
    key: Seq<char>,
    light: Seq<char>,
    body: JView,
) -> HostCallView {
    HostCallView::Http(
        HttpRequestView {
            method: "PUT"@,
            url: "https://"@ + bridge + "/clip/v2/resource/light/"@ + light,
            headers: seq![("hue-application-key"@, key)],
            body: Some(wire::rendered(body)),
        },
    )
}

/// A report of one value on the binding of a light.
pub open spec fn report(name: Seq<char>, key: Seq<char>, value: u64) -> HostCallView {
    HostCallView::Notify {
        proxy: 1,
        name,
        args: seq![(key, JView::Num(NumberView::PosInt(value)))],
    }
}

/// Whether a body asks for a level, in a time: it is on exactly where the level is not nothing, it
/// has the brightness only then, it has the time only where one is given, and has nothing else.
pub open spec fn asks_level(body: JView, level: u64, time: Option<u64>) -> bool {
    &&& body.get2("on"@, "on"@) == Some(JView::Bool(level > 0))
    &&& body.get("dimming"@) is Some <==> level > 0
    &&& level > 0 ==> body.get2("dimming"@, "brightness"@) == Some(
        JView::Num(NumberView::Float(text::decimal(level as nat) + ".0"@)),
    )
    &&& body.get2("dynamics"@, "duration"@) == match time {
        Some(ms) => Some(
            JView::Num(
                NumberView::PosInt(
                    if ms < 6_553_000 {
                        ms
                    } else {
                        6_553_000
                    },
                ),
            ),
        ),
        None => None,
    }
    &&& forall|key: Seq<char>|
        #[trigger] body.get(key) is Some ==> key == "on"@ || key == "dimming"@ || key
            == "dynamics"@
}

/// Whether a command brought a light to a level, in a time: one request that asks for it and one
/// report of it, and a device that remembers the level unless it is nothing, that it is on unless
/// it is, and everything else as before.
pub open spec fn brought_to(
    inst: InstanceView,
    outcome: (InstanceView, Seq<HostCallView>),
    bridge: Seq<char>,
    key: Seq<char>,
    light: Seq<char>,
    level: u64,
    time: Option<u64>,
) -> bool {
    let (after, calls) = outcome;
    &&& calls.len() == 2
    &&& exists|body: JView|
        calls[0] == #[trigger] write(bridge, key, light, body) && asks_level(body, level, time)
    &&& calls[1] == report("level_changed"@, "level"@, level)
    &&& after.properties == inst.properties
    &&& json::lookup(after.scratch, "on"@) == Some(JView::Bool(level > 0))
    &&& json::lookup(after.scratch, "level"@) == if level > 0 {
        Some(JView::Num(NumberView::PosInt(level)))
    } else {
        json::lookup(inst.scratch, "level"@)
    }
    &&& forall|k: Seq<char>|
        k != "on"@ && k != "level"@ ==> #[trigger] json::lookup(after.scratch, k) == json::lookup(
            inst.scratch,
            k,
        )
}

/// The level that a light remembers as its last one, as a byte; full where it remembers none.
pub open spec fn last(inst: InstanceView) -> u64 {
    match json::lookup(inst.scratch, "level"@) {
        Some(JView::Num(NumberView::PosInt(n))) => n % 256,
        _ => 100,
    }
}

/// A whole number among the arguments of a command.
pub open spec fn whole_arg(args: Members, key: Seq<char>) -> Option<u64> {
    match json::lookup(args, key) {
        Some(JView::Num(NumberView::PosInt(n))) => Some(n),
        _ => None,
    }
}

proof fn words()
    ensures
        "on"@[0] == 'o' && "on"@.len() == 2,
        "off"@[0] == 'o' && "off"@.len() == 3,
        "toggle"@[0] == 't',
        "set_level"@.len() == 9 && "set_level"@[4] == 'l',
        "set_color"@.len() == 9 && "set_color"@[4] == 'c',
        "set_cct"@.len() == 7,
        "ramp_start"@.len() == 10 && "ramp_start"@[0] == 'r',
        "ramp_stop"@.len() == 9 && "ramp_stop"@[0] == 'r',
        "set_level"@[0] == 's',
        "set_color"@[0] == 's',
        "set_cct"@[0] == 's',
        "dimming"@.len() == 7 && "dimming"@[0] == 'd',
        "dynamics"@.len() == 8 && "dynamics"@[0] == 'd',
        "level"@[0] == 'l',
        "hue"@[0] == 'h',
        "sat"@[0] == 's',
        "x"@[0] == 'x',
        "y"@[0] == 'y',
{
    reveal_strlit("on");
    reveal_strlit("off");
    reveal_strlit("toggle");
    reveal_strlit("set_level");
    reveal_strlit("set_color");
    reveal_strlit("set_cct");
    reveal_strlit("ramp_start");
    reveal_strlit("ramp_stop");
    reveal_strlit("dimming");
    reveal_strlit("dynamics");
    reveal_strlit("level");
    reveal_strlit("hue");
    reveal_strlit("sat");
    reveal_strlit("x");
    reveal_strlit("y");
}

pub(crate) proof fn body_asks(level: u8, time: Option<u64>)
    ensures
        asks_level(JView::Obj(bulb::level_members(level, time)), level as u64, time),
{
    broadcast use {json::lookup_put, json::one_is_one};

    words();
    let body = JView::Obj(bulb::level_members(level, time));
    assert forall|key: Seq<char>| #[trigger] body.get(key) is Some implies key == "on"@ || key
        == "dimming"@ || key == "dynamics"@ by {
        assert(json::lookup(Members::empty(), key) is None);
        json::lookup_put(seq![], "on"@, publish::switched(level > 0), key);
    }
    json::lookup_put(seq![], "on"@, JView::Bool(level > 0), "on"@);
    json::lookup_put(seq![], "on"@, publish::switched(level > 0), "on"@);
    json::lookup_put(seq![], "on"@, publish::switched(level > 0), "dimming"@);
    json::lookup_put(seq![], "on"@, publish::switched(level > 0), "dynamics"@);
    json::lookup_put(seq![], "brightness"@, number::whole(level), "brightness"@);
    assert(json::lookup(Members::empty(), "dimming"@) is None);
    assert(json::lookup(Members::empty(), "dynamics"@) is None);
}

proof fn level_reached(
    inst: InstanceView,
    cmd: Seq<char>,
    args: Members,
    x: NumberView,
    y: NumberView,
    bridge: Seq<char>,
    key: Seq<char>,
    light: Seq<char>,
    level: u8,
    time: Option<u64>,
)
    requires
        is_at(inst, bridge, key, light),
        cmd != "set_cct"@,
        cmd != "set_color"@,
        bulb::ordered(inst, cmd, args, x, y) == Some(bulb::to_level(level, time)),
    ensures
        brought_to(
            inst,
            bulb::commanded(inst, cmd, args, x, y),
            bridge,
            key,
            light,
            level as u64,
            time,
        ),
{
    broadcast use {json::lookup_put, json::one_is_one};

    words();
    body_asks(level, time);
    let body = JView::Obj(bulb::level_members(level, time));
    let (after, calls) = bulb::commanded(inst, cmd, args, x, y);
    let request = bulb::light_request(inst, body)->0;
    assert(seq![("hue-application-key"@, key)] =~= Seq::<(Seq<char>, Seq<char>)>::empty().push(
        ("hue-application-key"@, key),
    ));
    assert(request == write(bridge, key, light, body));
    assert(calls == seq![request] + seq![bulb::level_changed(level as u64)] + seq![]);
    assert(calls[0] == write(bridge, key, light, body) && asks_level(body, level as u64, time));
    assert(calls[1] == bulb::level_changed(level as u64));
}

/// Switching a light on brings it to the level it was last at, or to full where that was nothing.
pub proof fn on_goes_to_the_last_level(
    inst: InstanceView,
    args: Members,
    x: NumberView,
    y: NumberView,
    bridge: Seq<char>,
    key: Seq<char>,
    light: Seq<char>,
)
    requires
        is_at(inst, bridge, key, light),
    ensures
        brought_to(
            inst,
            bulb::commanded(inst, "on"@, args, x, y),
            bridge,
            key,
            light,
            if last(inst) == 0 {
                100
            } else {
                last(inst)
            },
            whole_arg(args, "ramp_ms"@),
        ),
{
    words();
    let level: u8 = if last(inst) == 0 {
        100
    } else {
        last(inst) as u8
    };
    level_reached(
        inst,
        "on"@,
        args,
        x,
        y,
        bridge,
        key,
        light,
        level,
        whole_arg(args, "ramp_ms"@),
    );
}

/// Switching a light off brings it to nothing.
pub proof fn off_goes_to_nothing(
    inst: InstanceView,
    args: Members,
    x: NumberView,
    y: NumberView,
    bridge: Seq<char>,
    key: Seq<char>,
    light: Seq<char>,
)
    requires
        is_at(inst, bridge, key, light),
    ensures
        brought_to(
            inst,
            bulb::commanded(inst, "off"@, args, x, y),
            bridge,
            key,
            light,
            0,
            whole_arg(args, "ramp_ms"@),
        ),
{
    words();
    let time = whole_arg(args, "ramp_ms"@);
    level_reached(inst, "off"@, args, x, y, bridge, key, light, 0, time);
}

/// Toggling a light that is on brings it to nothing, and any other to where switching it on does.
pub proof fn toggle_goes_to_the_other_side(
    inst: InstanceView,
    args: Members,
    x: NumberView,
    y: NumberView,
    bridge: Seq<char>,
    key: Seq<char>,
    light: Seq<char>,
)
    requires
        is_at(inst, bridge, key, light),
    ensures
        brought_to(
            inst,
            bulb::commanded(inst, "toggle"@, args, x, y),
            bridge,
            key,
            light,
            if json::lookup(inst.scratch, "on"@) == Some(JView::Bool(true)) {
                0
            } else if last(inst) == 0 {
                100
            } else {
                last(inst)
            },
            whole_arg(args, "ramp_ms"@),
        ),
{
    words();
    let level: u8 = if json::lookup(inst.scratch, "on"@) == Some(JView::Bool(true)) {
        0
    } else if last(inst) == 0 {
        100
    } else {
        last(inst) as u8
    };
    level_reached(
        inst,
        "toggle"@,
        args,
        x,
        y,
        bridge,
        key,
        light,
        level,
        whole_arg(args, "ramp_ms"@),
    );
}

/// Setting a level brings a light to that level, as a byte, or to nothing where none is given.
pub proof fn set_level_goes_to_the_level(
    inst: InstanceView,
    args: Members,
    x: NumberView,
    y: NumberView,
    bridge: Seq<char>,
    key: Seq<char>,
    light: Seq<char>,
)
    requires
        is_at(inst, bridge, key, light),
    ensures
        brought_to(
            inst,
            bulb::commanded(inst, "set_level"@, args, x, y),
            bridge,
            key,
            light,
            match whole_arg(args, "level"@) {
                Some(n) => n % 256,
                None => 0,
            },
            whole_arg(args, "ramp_ms"@),
        ),
{
    words();
    let level: u8 = match whole_arg(args, "level"@) {
        Some(n) => (n % 256) as u8,
        None => 0,
    };
    level_reached(
        inst,
        "set_level"@,
        args,
        x,
        y,
        bridge,
        key,
        light,
        level,
        whole_arg(args, "ramp_ms"@),
    );
}

/// Holding the brighter key fades a light to full, and holding any other to its dimmest.
pub proof fn holding_fades_all_the_way(
    inst: InstanceView,
    args: Members,
    x: NumberView,
    y: NumberView,
    bridge: Seq<char>,
    key: Seq<char>,
    light: Seq<char>,
)
    requires
        is_at(inst, bridge, key, light),
    ensures
        brought_to(
            inst,
            bulb::commanded(inst, "ramp_start"@, args, x, y),
            bridge,
            key,
            light,
            if json::lookup(args, "direction"@) == Some(JView::Str("up"@)) {
                100
            } else {
                1
            },
            Some(4000),
        ),
{
    words();
    let level: u8 = if json::lookup(args, "direction"@) == Some(JView::Str("up"@)) {
        100
    } else {
        1
    };
    level_reached(inst, "ramp_start"@, args, x, y, bridge, key, light, level, Some(4000));
}

/// Letting go of a key brings a light to the level it remembers as its last one, full where it
/// remembers none, and reports that level. What it remembers of its level stays.
pub proof fn letting_go_stays_at_the_last_level(
    inst: InstanceView,
    args: Members,
    x: NumberView,
    y: NumberView,
    bridge: Seq<char>,
    key: Seq<char>,
    light: Seq<char>,
)
    requires
        is_at(inst, bridge, key, light),
    ensures
        brought_to(
            inst,
            bulb::commanded(inst, "ramp_stop"@, args, x, y),
            bridge,
            key,
            light,
            last(inst),
            Some(4000),
        ),
        json::lookup(inst.scratch, "level"@) matches Some(JView::Num(NumberView::PosInt(n))) ==> n
            < 256 ==> json::lookup(
            bulb::commanded(inst, "ramp_stop"@, args, x, y).0.scratch,
            "level"@,
        ) == json::lookup(inst.scratch, "level"@),
{
    words();
    let level = last(inst) as u8;
    level_reached(inst, "ramp_stop"@, args, x, y, bridge, key, light, level, Some(4000));
}

/// A held key ends where it was let go: after holding the brighter key, letting go stays at full.
pub proof fn letting_go_of_brighter_stays_bright(
    inst: InstanceView,
    args: Members,
    more: Members,
    x: NumberView,
    y: NumberView,
    bridge: Seq<char>,
    key: Seq<char>,
    light: Seq<char>,
)
    requires
        is_at(inst, bridge, key, light),
        json::lookup(args, "direction"@) == Some(JView::Str("up"@)),
    ensures
        ({
            let held = bulb::commanded(inst, "ramp_start"@, args, x, y).0;
            bulb::commanded(held, "ramp_stop"@, more, x, y).1[1] == report(
                "level_changed"@,
                "level"@,
                100,
            )
        }),
{
    holding_fades_all_the_way(inst, args, x, y, bridge, key, light);
    let held = bulb::commanded(inst, "ramp_start"@, args, x, y).0;
    letting_go_stays_at_the_last_level(held, more, x, y, bridge, key, light);
}

/// The colour temperature in mireds that stands for so many kelvin, as far as a bulb goes.
pub open spec fn in_mireds(kelvin: u64, mirek: u64) -> bool {
    let k: int = if kelvin == 0 {
        1
    } else {
        kelvin as int
    };
    &&& 153 <= mirek <= 500
    &&& 153 < mirek < 500 ==> mirek * k <= 1_000_000 < (mirek + 1) * k
    &&& mirek == 153 ==> 1_000_000 < 154 * k
    &&& mirek == 500 ==> 500 * k <= 1_000_000
}

/// A number of kelvin, in mireds, is as near as a bulb goes.
pub proof fn mireds(kelvin: u64)
    ensures
        in_mireds(kelvin, number::mirek_of(kelvin)),
{
    let k: int = if kelvin == 0 {
        1
    } else {
        kelvin as int
    };
    let m: int = 1_000_000int / k;
    assert(m * k <= 1_000_000 < (m + 1) * k) by (nonlinear_arith)
        requires
            k > 0,
            m == 1_000_000int / k,
    ;
    if m < 153 {
        assert((m + 1) * k <= 154 * k) by (nonlinear_arith)
            requires
                m < 153,
                k > 0,
        ;
    }
    if m > 500 {
        assert(500 * k <= m * k) by (nonlinear_arith)
            requires
                m > 500,
                k > 0,
        ;
    }
}

/// A colour temperature is sent in mireds, and nothing else is; it is reported as it was asked for,
/// and nothing is where none was asked for. Nothing that is remembered changes.
pub proof fn set_cct_sends_mireds(
    inst: InstanceView,
    args: Members,
    x: NumberView,
    y: NumberView,
    bridge: Seq<char>,
    key: Seq<char>,
    light: Seq<char>,
)
    requires
        is_at(inst, bridge, key, light),
    ensures
        ({
            let (after, calls) = bulb::commanded(inst, "set_cct"@, args, x, y);
            &&& after == inst
            &&& exists|mirek: u64|
                calls[0] == #[trigger] write(
                    bridge,
                    key,
                    light,
                    JView::Obj(
                        seq![
                            (
                                "color_temperature"@,
                                JView::Obj(seq![("mirek"@, JView::Num(NumberView::PosInt(mirek)))]),
                            ),
                        ],
                    ),
                ) && in_mireds(
                    match whole_arg(args, "kelvin"@) {
                        Some(kelvin) => kelvin,
                        None => 2700,
                    },
                    mirek,
                )
            &&& match whole_arg(args, "kelvin"@) {
                Some(kelvin) => calls.len() == 2 && calls[1] == report(
                    "cct_changed"@,
                    "kelvin"@,
                    kelvin,
                ),
                None => calls.len() == 1,
            }
        }),
{
    broadcast use json::one_is_one;

    words();
    let kelvin = match whole_arg(args, "kelvin"@) {
        Some(kelvin) => kelvin,
        None => 2700,
    };
    mireds(kelvin);
    let mirek = number::mirek_of(kelvin);
    let body = JView::Obj(
        seq![
            (
                "color_temperature"@,
                JView::Obj(seq![("mirek"@, JView::Num(NumberView::PosInt(mirek)))]),
            ),
        ],
    );
    assert(seq![("hue-application-key"@, key)] =~= Seq::<(Seq<char>, Seq<char>)>::empty().push(
        ("hue-application-key"@, key),
    ));
    assert(bulb::light_request(inst, body) == Some(write(bridge, key, light, body)));
    assert(bulb::commanded(inst, "set_cct"@, args, x, y).1[0] == write(bridge, key, light, body));
}

/// A colour is sent as the point of the gamut it stands for, and reported as it was asked for, a
/// missing hue or saturation as zero. Nothing that is remembered changes.
pub proof fn set_color_sends_a_point(
    inst: InstanceView,
    args: Members,
    x: NumberView,
    y: NumberView,
    bridge: Seq<char>,
    key: Seq<char>,
    light: Seq<char>,
)
    requires
        is_at(inst, bridge, key, light),
    ensures
        ({
            let (after, calls) = bulb::commanded(inst, "set_color"@, args, x, y);
            let zero = JView::Num(NumberView::Float("0.0"@));
            &&& after == inst
            &&& calls.len() == 2
            &&& exists|body: JView|
                calls[0] == #[trigger] write(bridge, key, light, body) && body.get3(
                    "color"@,
                    "xy"@,
                    "x"@,
                ) == Some(JView::Num(x)) && body.get3("color"@, "xy"@, "y"@) == Some(JView::Num(y))
                    && (forall|k: Seq<char>| #[trigger] body.get(k) is Some ==> k == "color"@)
            &&& calls[1] matches HostCallView::Notify { proxy, name, args: said } && proxy == 1
                && name == "color_changed"@ && json::lookup(said, "hue"@) == Some(
                match json::lookup(args, "hue"@) {
                    Some(v) => v,
                    None => zero,
                },
            ) && json::lookup(said, "sat"@) == Some(
                match json::lookup(args, "sat"@) {
                    Some(v) => v,
                    None => zero,
                },
            )
        }),
{
    broadcast use json::lookup_put;

    words();
    let body = JView::Obj(json::one("color"@, publish::gamut_point(x, y)));
    assert(seq![("hue-application-key"@, key)] =~= Seq::<(Seq<char>, Seq<char>)>::empty().push(
        ("hue-application-key"@, key),
    ));
    assert(bulb::light_request(inst, body) == Some(write(bridge, key, light, body)));
    let calls = bulb::commanded(inst, "set_color"@, args, x, y).1;
    assert(calls[0] == write(bridge, key, light, body));
    assert forall|k: Seq<char>| #[trigger] body.get(k) is Some implies k == "color"@ by {
        json::lookup_put(seq![], "color"@, publish::gamut_point(x, y), k);
        assert(json::lookup(Members::empty(), k) is None);
    }
}

/// A command that a light does not know is a warning that names it, and changes nothing.
pub proof fn an_unknown_command_is_a_warning(
    inst: InstanceView,
    cmd: Seq<char>,
    args: Members,
    x: NumberView,
    y: NumberView,
)
    requires
        !seq![
            "on"@,
            "off"@,
            "toggle"@,
            "set_level"@,
            "set_cct"@,
            "set_color"@,
            "ramp_start"@,
            "ramp_stop"@,
        ].contains(cmd),
    ensures
        bulb::commanded(inst, cmd, args, x, y) == (
            inst,
            seq![HostCallView::Warn("hue: unhandled `"@ + cmd + "`"@)],
        ),
{
    let list = seq![
        "on"@,
        "off"@,
        "toggle"@,
        "set_level"@,
        "set_cct"@,
        "set_color"@,
        "ramp_start"@,
        "ramp_stop"@,
    ];
    assert(list[0] != cmd && list[1] != cmd && list[2] != cmd && list[3] != cmd && list[4] != cmd
        && list[5] != cmd && list[6] != cmd && list[7] != cmd);
}

/// A command to a light without an address or an id is a warning, and changes nothing.
pub proof fn an_unaddressed_light_is_a_warning(
    inst: InstanceView,
    cmd: Seq<char>,
    args: Members,
    x: NumberView,
    y: NumberView,
)
    requires
        !host::has_property(inst, "Bridge address"@) || !host::has_property(inst, "Light id"@),
    ensures
        bulb::commanded(inst, cmd, args, x, y).0 == inst,
        bulb::commanded(inst, cmd, args, x, y).1.len() == 1,
        bulb::commanded(inst, cmd, args, x, y).1[0] is Warn,
{
}

} // verus!
