# signify_hue

Philips Hue bridges and everything paired to them, bulbs, motion sensors, dimmers, wall modules and
dials, over CLIP v2.

`src/` is the library: what a command sends, what an answer or an event reports, how a bridge is set
up, what of it is offered, and which scenes on it may be written. Every function states what it
returns and changes, and Verus proves it. `src/laws/` holds what is true of the library as a whole.
JSON text is read and written by `serde_json`, behind the few items of `src/wire.rs`.

| Module | What it is about |
| --- | --- |
| `json`, `number`, `text`, `wire` | JSON values, exact decimals, strings, and the text of JSON |
| `host`, `role` | what the library and its host say to each other, and what a device is |
| `bulb`, `sensor`, `button` | commands to a light, and what each kind of device reports |
| `catalog`, `behaviour`, `offer`, `imports` | what is behind a bridge, as devices, rules and scenes |
| `setup`, `steps` | setting a bridge up, one phase at a time |
| `bridge`, `borrowed`, `publish`, `scene`, `follow` | scenes: borrowed, published, recalled, verified |

`app/` is the driver module around it: the host's own types, and the arithmetic on floating-point
numbers, a colour's point of the gamut, lux, and degrees to one decimal.
