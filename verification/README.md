# lez_events

Structured events for LEZ programs, and the tools around them, verified with
Verus.

- `src/` is the library.
  - `codec`, `record`, `buffer`, `events`: encoding, emitting and collecting
    events within their size limits.
  - `withdraw`: a program that reports its outcome by events.
  - `token`: minting of tokens.
  - `decoder`, `text`: receipts in human-readable form.
  - `bench`: the decisions of the end-to-end benchmark. Scenarios are plans
    (`plan`, `scenarios`), and the rest measures and reports (`harness`,
    `sizes`, `disk`, `polling`, `bedrock`, `cli`).
- `tests/` runs the library on concrete values.
- `app/` is the command line: files, processes, clocks, the wallet and the
  chain.

The functions of the library state in their contracts what they return and
change. Calls into `borsh`, `chrono` and the standard library stand behind small
functions whose contracts are believed; their comments say what is claimed.
Times are integers here. Their texts come from `app/`, which formats them as
floating-point numbers.
