# hijacker2

Plays an audio file into whatever a microphone is linked to on a PipeWire server.

The program opens the file, makes a stream for it, looks up where the microphone goes (the one that
the user names, or else the default one) and links the stream to the same places, channel by
channel. A ring buffer carries the decoded samples to the stream.

- `src/` is the library, verified with Verus: the course of a run as a state machine, the description
  of the audio, the search among the objects on the server, the choice of links, the default devices,
  and the ring buffer.
- `app/` is the program around it: the command line, the audio file, the connection to the server and
  the thread that decodes.
- `tests/` runs the library on concrete values.

What the library takes on trust stands in its own items, each with a comment that says what it
relies on: `u32::count_ones`, `str::parse` and `ToString` for `u32`, and the calls into `symphonia`,
`serde_json`, `ringbuf` and `bytemuck`.
