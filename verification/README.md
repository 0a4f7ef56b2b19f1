# hare

A lightweight hardware information tool for Linux: it reads and sets CPU
parameters exposed by the kernel under `/sys` and `/proc` (current
frequency, scaling governor, online status, cluster ids, utilization), on
the command line or in an interactive terminal monitor.

The library (`src/`) is written in Verus and verified: the public
functions carry contracts over mathematical models of their data, and the
properties that span several operations are stated and proved as public
`law_*` proof functions next to the code they are about. All reads and
writes of kernel files go through a `Source`, whose answers are tied to
its arguments by relations it states of itself (what it served for a
path, what it listed, whether a path exists); nothing else is assumed of
it. Where an outcome depends on what a source answers, the contracts say
what holds for every answer, and a verified function that takes the
answers as arguments says what is made of them.

## Layout

- `src/text.rs`, `src/path.rs`, `src/order.rs`: text handling (splitting,
  trimming, decimal numbers), slash-separated paths, and a stable sort by
  index.
- `src/number.rs`: the number syntax of `str::parse::<f64>`, and the kHz
  value of a frequency typed in MHz.
- `src/hardware/`: the `Source` abstraction through which all kernel files
  are read and written, the `Value` model and its rendering, the `Metric`
  trait, the CPU metrics, and the registry that holds them.
- `src/tui/`: the monitor's state machine (`app.rs`), its input handling
  (`event.rs`), its screen geometry (`layout.rs`, through ratatui's layout
  solver) and the text it shows (`view.rs`).
- `src/cli/`: the command types and their dispatch.
- `app/`: the program around the library: argument parsing with clap, the
  real sysfs source, printing, and the terminal loop and drawing with
  crossterm and ratatui.
- `tests/`: tests of the library against in-memory sources.
