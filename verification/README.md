# proxa

A low-latency voice chat client. The library decides; the application around it talks to the
network, the sound devices, the codec and the terminal.

`src/` is the library, verified with Verus:

- `protocol`, `bytes`: datagrams and control frames.
- `session`: the connection to the relay, as a machine of events and actions.
- `peer`, `peer_model`, `peer_laws`, `jitter`, `refill`, `refill_laws`: the playback of one peer,
  with its jitter buffer.
- `client`: the peers of a room and the sounds that play over them.
- `output`: what the speakers play, from all peers and the sound under way.
- `encode`, `pipeline`, `level`: the sending side, from microphone samples to datagrams.
- `mix`, `resample`, `blocks`, `samples`, `routing`: which samples are brought together, whatever
  the arithmetic of samples is.
- `assets`: what an Ogg file holds, through the `ogg` crate, and the sounds decoded so far.
- `backend`, `models`, `paths`, `cli`, `error`, `types`: devices, models, keys, messages and small
  types.

`app/` is ordinary Rust: the terminal client with its I/O and its floating-point signal
processing. `tests/` runs the library from outside.

Four functions call outside code and are trusted to do what their contracts say:
`assets::open_stream` and `assets::read_packet` (`ogg`), `cli::choose_text` (`rand`), and
`paths::equal_here` (the paths of the standard library).
