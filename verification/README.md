# oprs

A process monitor for Linux: it follows processes and the system, computes
metrics from `/proc` statistics, and shows them in a terminal table, as text,
or exports them to CSV files or round-robin databases.

The library in `src/` is written in Verus. Its functions carry `requires` and
`ensures` contracts over spec functions and views, and Verus proves them.
The program around it lives in `app/`: arguments, settings, reading `/proc`,
the terminal, files, and the floating-point formatting of values.

## Layout

- `process/`: the forest of processes and how it is refreshed from the
  statuses read from the system, the filters that choose what is shown, the
  statistics of a process and the metrics drawn from them, and the collector
  that keeps their history.
- `metrics.rs`, `parsers.rs`, `agg.rs`, `format.rs`: metric names, how they
  are parsed from the command line, their aggregations and formats.
- `display/`: the text and terminal displays; `display/term/` holds the key
  bindings and menus, the layout of the panes, column sizes, scrolling, the
  selection, search and marks.
- `clock.rs`: the timer that paces the updates.
- `application.rs`: the decisions of the main loop, as a function from state
  and interaction to the next state; `app/main.rs` runs the loop.
- `export/`: the CSV and round-robin database exports.
- `cfg.rs`, `console/`, `utils.rs`, `strings.rs`: settings, themes and
  character sets, small helpers on paths and text.

## Design notes

- The forest keeps its processes in a vector sorted by identifier; the tree
  is given by the parent identifier of each process. Its view is a map from
  identifiers to process information, and the refresh is stated over that
  map: a process is kept exactly when it is accepted or is an ancestor of an
  accepted one.
- The key bindings of a menu are a vector in which the last binding of a key
  wins, so that each lookup has an exact contract.
- Times are counted in nanoseconds in the contracts. What the clock reads is
  never known in advance: the timer's decisions are a verified function of
  the elapsed time, and the functions that read the clock state what holds
  whatever it read.
- Calls into other crates (the terminal library's layout solver and text
  widths, `memchr`) and into parts of std that vstd does not specify stand
  behind small wrappers whose doc comments say what their contracts claim.
