# pexer

A command-line examiner for Portable Executable files: metadata, sections,
imports and exports, printable strings matched against named regular
expressions, YARA rules, overlay and section-table anomalies, an import graph
between the PE files of a directory, and an optional VirusTotal report.

## Layout

- `src/` — the library, verified with Verus:
  - `strings.rs`: extraction of printable ASCII runs and rule matching;
  - `pe_parser.rs`: the model of a parsed PE file and the two parsers;
  - `deep_scan.rs`: overlay analysis and section anomalies;
  - `graph.rs`: the import graph;
  - `report.rs`: the rows of the printed tables (imports by DLL, exports,
    SHA-256 text, truncation);
  - `config.rs`, `yara.rs`, `yara_engine.rs`, `third_party.rs`:
    configuration, YARA rule compilation and scanning, the VirusTotal reply;
  - `disassemble.rs`: the x86 listing of a run of bytes;
  - `text.rs`: shared text helpers.
- `app/` — the program: argument handling, file and network I/O, progress
  spinners, table printing and SVG drawing of the graph.
- `tests/` — tests of the library on concrete inputs.
