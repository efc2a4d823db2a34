# mantra

Requirement traceability: requirements are collected from Markdown documents, linked to
the code that traces them, to test runs and coverage data, and to reviews; from that, each
requirement gets a verification state.

The library in `src/` is written in Verus and verified; every public function states what
it returns in its contract.

- `requirements`, `markup`, `markdown`, `json`: requirements from Markdown files (front
  matter, requirement headings, field lists, descriptions), on top of comrak's syntax tree
  and JSON5 values.
- `hierarchy`, `dot_hierarchy`, `graph`: the requirement hierarchy (roots, leaves,
  descendants, cycles, inherited markings, parents implied by dotted IDs).
- `verification`, `report`: direct and indirect verification states and the validity of
  collected data.
- `test_runs`, `test_run_states`: test runs from JUnit and Cobertura data, their nesting
  and outcomes, line coverage states.
- `well_known`: JUnit XML and Cobertura XML, JSON and JSON5 text read through quick-junit,
  covcon and json5 into those test runs and covered files.
- `coverage`: covered lines mapped to the traces whose spans contain them.
- `extract`: requirement headings of wiki pages.
- `cfg`, `collect_cfg`, `properties`, `text`: configuration, properties, text helpers.

`app/` walks directories, reads files and renders the library's errors as messages.

What the library does not hold: the database that collections are stored in and the
queries that fill and read it, the reports built from it, reading requirement, trace and
review schema files, and the walking of directories. Identifiers of requirements and
products are taken as given, without checks on their form.

`app/` also reads the configuration file, with `"$inherit"` for values taken from the
general configuration.
