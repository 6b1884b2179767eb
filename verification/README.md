# JARVIS

A voice assistant's front ends: what the desktop client and the browser
dashboard do with speech, text and the gateway's events, as a library whose
behaviour is stated in contracts and proved with Verus.

## Layout

- `src/desktop/` is the desktop client: voice activity, microphone pipeline,
  speech gate, voice intents, sentence splitting, markdown, the transcript, the
  session that ties them together, the circuit breakers of the gateway client,
  settings, crash reports.
- `src/dashboard/` is the dashboard: the heads-up display, its microphone and
  audio queue, the speech queue, the floating window, screenshots, the setup
  wizard.
- `src/text.rs`, `json.rs`, `hex.rs`, `wire.rs`, `ring.rs`, `millis.rs`,
  `precision.rs`, `record.rs` and `wav.rs` are shared: text, JSON members and
  records, hexadecimal, framing of byte streams, bounded queues, durations,
  rounding as floating point does it, WAV files.
- `app/` is a terminal client around the library. It does the input and output
  and the floating-point signal processing.
- `tests/` run the compiled library.

State machines take an event and return what has to be done about it; nothing
in the library performs input or output. Samples are generic or given by their
bits, so that the library is free of floating point.

## Proofs

Every function states what it returns or changes over mathematical models. What
holds of several functions together stands in public proof functions whose
names start with `law_`.

Outside code is called through a few trusted items, each with a doc comment
that says what is taken on faith: parts of the standard library in `text.rs`,
the members and values of JSON in `json.rs` and `record.rs`, image scaling, JPEG
and base64 in `desktop/screen.rs`.

## The terminal client

With the argument `dashboard` it is the dashboard, else the desktop client.

It talks to the gateway at `JARVIS_GATEWAY_URL` (`http://127.0.0.1:3030` by
default). Lines on standard input are chat turns, lines that start with a colon
are commands; `:help` lists them. The settings panel starts from the
environment, with the model of `JARVIS_DEFAULT_MODEL` where `ANTHROPIC_MODEL` is
not set. Sound goes through raw pipes of 32-bit float samples, named by
`JARVIS_MIC` and `JARVIS_SPEAKER`.
