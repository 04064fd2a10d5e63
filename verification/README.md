# Chronicle

The core of a daemon that records a screen and its sound and makes them searchable, written in
Rust and proved with Verus.

`src/` is the library. Every function in it carries a contract that Verus proves:

- `audio`: cutting sample streams into segments, framing them as Ogg/Opus, dropping and counting
  buffers, the microphone's formats and its on/off switch.
- `capture`: starting and stopping one stream per display, what is done with a frame, and what
  is known about the application in front.
- `ipc`: the messages between the daemon and its UI, how a line is answered, and the retention
  setting.
- `ocr`: joining recognized text.
- `storage`: where files go, how long they stay, which are orphans, the schema, and search.
- `transcription`: models and their digests, reading Opus files, and turning whisper's output
  into text.
- `container`: the `ogg` crate behind contracts.
- `text`: strings as sequences of characters.

Public proof functions, named for what they say, state what holds across functions: that no
sample is lost, that an encoded file reads back, that a search page needs no more rows than are
fetched, that a rolled-back start names every stream that survived it.

Where the library runs an operation of its caller's (a codec, a query, a stream), the operation
takes the state that it works on and gives back what it has left. The contracts follow that state
from call to call, so they say which operations ran, how often and in which order.

What the proofs rest on besides Verus are the contracts of a few functions of `ogg`, `sha1`,
`chrono` and std. Each of those stands beside a doc comment that says what it claims.

`tests/` runs the library, in part against a real SQLite database. `app/` holds the drivers:
database, file system, socket, Apple's frameworks, the Opus codec and whisper.
