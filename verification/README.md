# Beaglewing

One keyboard, mouse and clipboard for two machines. The desktop captures
input at a screen edge and sends it to a Raspberry Pi, which plays it to the
other machine as an ordinary USB keyboard and pointer. The clipboard follows
over a second channel: text and images at once, files when you cross over.

## Layout

- `src/` is the library. Everything in it is verified with Verus: protocols,
  state machines, and the text, images and file lists that they carry. It
  does no I/O. What may happen goes in as plain values, and what to do about
  it comes back.
- `app/` is the programs around the library: sockets, devices, the desktop
  portal, the clipboards, and the cursor model, whose positions are
  floating-point numbers.
- `tests/` runs the library on concrete values.

## What is proved

Each function states what it returns or changes. The modules named `*_laws`
state what holds across functions. Among others:

- any way a session with the bridge can end releases every key, modifier and
  button (`bridge_laws`);
- input is never captured without a bridge to send it to, and a lost bridge,
  a silent capture, a locked screen or the emergency hotkey brings it home
  (`router_laws`);
- what was sent as a transfer is what is reassembled, and a gap, an oversize
  announcement or a wrong length never delivers anything (`transfer_laws`);
- the two clipboards never echo each other's content (`agent_laws`,
  `helper_laws`).

## What is trusted

`String::push` and `String::from_utf8_lossy` of the standard library, and the
conversions between PNG and BMP of the `image` crate. Their contracts stand
in `src/text.rs` and `src/images.rs`.
