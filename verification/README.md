# rsfetch

A small neofetch-style system information tool: host, OS, kernel, shell,
uptime, CPU, memory/swap and disk usage next to an auto-detected ASCII logo.

- `src/` is the library, verified with Verus: formatting of sizes and
  durations, the rows and their alignment, logo parsing and detection, the
  two-column layout, themes and color decisions, and the precedence of
  command-line flags over the config file over built-in defaults. Each public
  function states its result exactly; the `law_*` proof functions state the
  properties that tie them together (aligned columns, color adding only escape
  sequences, trimmed logos, values that fit their unit, and so on).
- `app/` is the program around it: command-line parsing (clap), reading the
  TOML config file (serde, toml), querying the system (sysinfo), detecting a
  color terminal (supports-color) and printing.
- `tests/` runs the library on concrete values.

Coloring goes through `owo-colors`; the one trusted function is the call that
renders styled text, whose contract states the ANSI escapes that crate writes.
