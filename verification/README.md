# mango_core

The core rules of the Mango comic-drama workstation, written in Verus and
proved against their contracts.

- `src/` is the verified library: the FFmpeg filter-graph builder and the
  pure parts of the media commands (time stamps, split plans, concat checks,
  audio mixing graphs, progress parsing, cache keys, how timeline clips are
  joined), export planning and timeline resolution, the Ken Burns presets,
  the generation-task state machine, status watch and event log format,
  checkpoint diffs and retention (from the stored times, read with chrono),
  asset naming, content hashes and import checks, update statements, project
  directory names, account validation and credential parameters, and the
  session cache in front of the
  credential store (with verified steps that take each answer of the
  store). Each module states its contracts over `Seq`, `Map` and
  spec functions; the `law_*` proof functions state the properties that span
  several calls.
- `tests/` runs the library on concrete values.
- `app/` is the runtime around it: it runs FFmpeg and ffprobe, touches the
  file system, and writes the filter values that carry decimals.
