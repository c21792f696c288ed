# cb-daemon

A bridge between an air-conditioning control box and the programs that talk to it.
The box is reached over an accessory device or a serial line and speaks framed text:
`<U>` payload `</U=` checksum `>`. Clients connect over a WebSocket and speak JSON.
The daemon keeps a mailbox of the registers that the box has reported, negotiates a
full dump, forwards writes and reads, and answers each client.

## Layout

- `src/` is the library, verified with Verus.
  - `text`: hexadecimal digits, UTF-8 and the text helpers that the rest builds on.
  - `crc`, `frame`, `frame_laws`: the checksum, frames and the scanner that finds them
    in a stream.
  - `link`: how bytes are cut and paced for each transport, and a link for tests.
  - `registers`: identifiers, records, register payloads and the register bank.
  - `engine`: the session with the box. It is a state machine from the payloads that
    arrive and the commands that are given to the frames to write and the events to
    publish. The runner ties it to a link.
  - `mailbox`: register values as clients see them. Typed payloads, what is said of a
    value that does not fit, what may be written, merging a partial write into what is known, snapshots and events.
  - `daemon`: client messages and replies, reads and writes that wait for an answer,
    the idle watchdog, settings, the log filter, and a box for tests.
- `app/` is the daemon around the library: files, sockets, devices, clocks and JSON.
- `tests/` runs the library on concrete values.

## What is proved

Each function of `src/` states in its contract what it returns, over the models in the
same module: `Seq` for bytes and text, `Map` for the register bank, and a plain model of
the session. Statements that span several functions are public proof functions whose
names begin with `law_`. Among them:

- a frame that was encoded is found again, whatever noise or damaged frame stands before
  it and however the stream is cut, and a clean stream is read without an error;
- the listings of the units of a type, and those of the types, make up the whole mailbox,
  and storing a listing again rebuilds what it lists;
- an acknowledgement that is due goes out before anything else, it tells whether the last
  frame other than a ping arrived intact, a refused dump request is sent again, and a reset
  is given up after its third refusal;
- writes go out in the order in which they were given, a read waits for the flush that
  asks for it, and is answered with what the box reports;
- a list of the values of a payload, in the order of its fields, stands for the object
  that names them;
- a field that a client sends wins over the mailbox, and every other field keeps its
  value; what is written reads back;
- every read and write that waits is answered once, by the report or by its deadline.

## What is trusted

Two places call code that Verus does not check: `text` (UTF-8 conversion, pushing a
character, quoting) and `daemon::filter` (parsing a log filter). The contract of each
such item says above it what it takes for granted.
