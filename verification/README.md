# clilint

Clilint checks the behavior of command-line programs. It runs a program,
scores each expectation from `0.0` through `4.0`, and gives focused messages
that a person or coding agent can use to improve the program.

The library in `src/` is written in Verus: each function carries a contract,
and Verus proves that the code meets it.

- `model` — Scores, Check Results, Check Outcomes and Reports; what a
  Check Result must say, and how a Report's summary is counted.
- `check_bundle` — check bundle names, versions, validation, composition of
  bundles, and the checker fields each checker type allows.
- `project_config` — the project configuration as an ordered map of
  installed bundles, relative paths, loading bundles in inheritance order,
  and installing or removing a bundle only when the rest still combines.
- `engine` — the decisions of a check run: assertions, built-in and
  judgment-based results, Checker CLI requests and responses, and the
  assembly of a Report.
- `evidence` — evidence as a JSON tree, and the part of it that stays the
  same from run to run.
- `assessment` — validation of a supplied Assessment against its request.
- `help_checker` — the hierarchical help check as a state machine that
  chooses the next help command and judges each answer.
- `report` — the human-readable report.
- `cli` — the command-line grammar.
- `runner` — a run's timeout, its reported exit status, terminal-escape
  detection, and the runs that answer repeated invocations.
- `text` — text helpers.

`app/` is the program around the library: argument handling, reading and
writing files, running processes, and the JSON and TOML encodings.
