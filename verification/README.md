# exo_attention

The attention scheduler of an agent host, verified with Verus.

Producers (a scheduler, chat adapters, the agent itself) append items to a
conversation's inbox. One dispatcher at a time, the holder of the conversation's
lease, drains what is pending into turns, oldest first and coalesced. Around it
stand the adapters that carry messages of chat platforms, the requests for human
input and the reminders of them, wakeups under a turn lease, and the contracts
that harnesses and sandboxes have to meet.

- `src/` is the library. Its functions are pure, or machines that say which
  operation is next and are told what came of it; their contracts are stated
  over views of the data, and the laws that relate them are public proof
  functions (`*_laws.rs`, `lifecycle.rs`, and beside the functions they are
  about).
- `app/` runs the machines: files, clocks, timers, and the traits that a host
  implements.
- `tests/` runs the library on concrete values, the file-backed inbox and the
  contracts included.

What the library takes from other crates without proof is marked
`external_body` or `assume_specification`, each with what is claimed of it:
JSON values and their text (`serde_json`), time between instants (`chrono`),
base64 (`base64`), and `String::push`.
