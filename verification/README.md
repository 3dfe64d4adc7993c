# enl

A stateless, one-shot command line tool for [ECHONET Lite](https://echonet.jp/english/), the Japanese
smart-home protocol, around a library that is verified with [Verus](https://github.com/verus-lang/verus).

- `src/` is the library: the frame codec, the dictionary of properties, the subcommands, their JSON
  output and its JSON Schemas, the command line, and the decisions of the UDP layer. Every function
  states in its contract what it returns, and Verus proves it.
- `app/` is the program: arguments, sockets, the lock file, the clock, the log and printing.
- `tests/` runs the library on concrete values.

## What is proved

- What is written is read back: every valid frame, hexadecimal text, object, property map and IPv4
  address.
- A frame whose counts or lengths do not fit in their bytes is refused, never written damaged.
- Nothing is lost: a property that the dictionary does not know stands in the output as raw data, and
  a service or class without a name does not break anything.
- Whatever a subcommand prints conforms to the JSON Schema that `schema` publishes for it, whatever
  bytes came back.
- A refusal of the device, and nothing else, ends in exit code 4; bad input ends in exit code 1.
- `discover` prints every node that answers, once, in the order of the addresses; `listen` prints the
  first notifications that pass the filters, as many as were asked for.
- A busy port is tried again within a window and no longer, and other failures are final at once.

JSON values are those of `serde_json`. The few items of `src/json.rs` that state what its functions do
are trusted, not proved, and so is `String::push` in `src/text.rs`.

## Subcommands

`discover`, `get`, `set`, `describe`, `raw`, `listen` and `schema`. stdout is one JSON object; errors
are one line of JSON on stderr.

`set --nowait` asks for no response: it sends from any free port and prints `"result":"sent"`, which
means that the request was sent and not that the device did anything.

| exit code | meaning |
|---|---|
| 0 | success |
| 1 | invalid input, or a response that cannot be interpreted |
| 2 | arguments that cannot be read |
| 3 | no response in time |
| 4 | refused by the device |
| 5 | network or port |
