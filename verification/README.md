# rpi_open_emulator

A launcher for a local library of ROMs played with RetroArch and Libretro
cores, with its logic written in Verus and proved against its contracts.

## Layout

- `src/` — the verified library.
  - `config.rs`: the configuration (RetroArch, folders, systems, history),
    the first-start template and the migrations decided from disk probes.
  - `default_systems.rs`: the table of Libretro systems (distinct keys).
  - `catalog.rs`: game entries, titles derived from file names, cover
    candidates, the folder walk and the rows written by a scan.
  - `library.rs`: the ROM entries of a folder, sorted by file name.
  - `emulator.rs`: choosing the system and the core of a ROM, the RetroArch
    binary, the `--appendconfig` text and the command line.
  - `state.rs`, `screens.rs`: the filtering of the library, the sidebar
    counts and navigation, and the texts and commands of the screens.
  - `settings.rs`: the settings form and how it is written back.
  - `status.rs`: the status-line messages and the one-session-at-a-time
    bookkeeping of RetroArch runs.
  - `cover.rs`: PNG covers decoded to RGBA (decoding by the `png` crate).
  - `themes.rs`, `licensing.rs`, `plugins.rs`, `scraper.rs`: presets,
    feature flags and extension points.
  - `text.rs`, `order.rs`, `paths.rs`: characters and strings, lexicographic
    order and a stable index sort, and the `std::path` operations used.
- `tests/` — tests run against the compiled library.
- `app/` — the program: the egui window, the TOML file, the SQLite
  catalogue, the file-system probes and the RetroArch process.
