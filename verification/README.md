# theseus

The decisions of a game launcher, verified with Verus: how install jobs are
prepared, run, paused, resumed, canceled and rolled back; how the files of an
instance on disk are brought together with those recorded; which folders are
watched, and whom an event of the file system concerns; how downloads of the same
file are shared; and how the launcher looks for updates of itself.

- `src/install/` holds the install jobs: the requests (`requests`), their
  preparation (`prepare`), what each does (`request`), how its run ends (`run`),
  how its state changes (`lifecycle`), what the user can ask of it (`commands`),
  what the user is told of errors (`errors`), modpacks (`pack`, `local_pack`),
  loaders and what stands beside them (`loaders`), files of CurseForge
  (`curseforge`) and the installer of Cleanroom (`cleanroom`, `archive`).
- `src/content/` holds the files of instances.
- `src/watcher/` holds the watched folders and what follows from events.
- `src/single_flight.rs`, `src/updater.rs`, `src/metadata.rs` and `src/jre.rs` hold
  shared downloads, updates of the launcher, versions and Java runtimes.
- `src/text.rs`, `src/paths.rs`, `src/decimal.rs`, `src/names.rs`, `src/order.rs` and
  `src/error.rs` are what the others are built on. Paths are texts; what reads one
  takes whether it is a path of Windows.

The library decides; it does no input or output. Where a decision depends on
something from outside, a function takes it as an argument, and the type that
asked for it says which function that is. `app/` runs the loops: it does what the
library asks for and hands back what came of it.

Public proof functions whose names start with `law_` state what holds of the
library as a whole. Functions marked as external, and names without a body, stand
for functions of other crates; their doc comments say what is taken for granted.
