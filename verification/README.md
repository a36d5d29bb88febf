# cptool

A deterministic command-line tool for competitive-programming problem
packages: it scaffolds packages, generates the official data, runs the
registered programs, checks a package's health, manages fixtures and
collects audit evidence.

The decisions the tool makes are a library verified with Verus: every
public function states in its `ensures` what it returns or changes, and
the properties that span several calls are proved as lemmas.

## Layout

- `src/` — the verified library.
  - `problem.rs`, `raw_schema.rs`, `schema.rs`, `problem_yaml.rs`,
    `yaml_shape.rs`: the package configuration, how `problem.yaml` is read,
    checked and written back.
  - `data.rs`, `file_generator.rs`, `batch_args.rs`, `task_expect.rs`:
    case selection, generator arguments and the checks on generated data.
  - `program.rs`, `judge.rs`, `stress*.rs`, `evidence.rs`, `report.rs`,
    `explain.rs`: running programs, judging their runs, stress checks and
    the reports the command line prints.
  - `check_package.rs`, `audit.rs`, `add.rs`, `fixture.rs`, `package.rs`,
    `clean.rs`, `export/`: package checks, edits and export.
  - `text.rs`, `text_facts.rs`, `markdown.rs`, `digest.rs`, `time.rs`:
    text handling, with the facts about lines and trimming that the output
    normalization rests on.
- `tests/` — tests of the library on concrete values.
- `app/` — the command line: argument parsing, files, processes and the
  loops that run programs, handing plain values to the library and back.
