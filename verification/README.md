# lookout_core

A monitor for a Synology DiskStation, split in two.

- `src/` is the library, verified with Verus. It holds everything the
  monitor decides: reading DSM's reply envelope and each API's records
  (`dsm/`, `model/`), choosing which calls to make and assembling their
  results into a snapshot (`poll.rs`), the tiered history of samples
  (`trend.rs`), the settings and the connect dialog's answer
  (`config.rs`), container actions (`action.rs`), and what each page shows
  (`present.rs`). Every public function states its result in its `ensures`;
  the laws that span functions are the public `lemma_*` proof functions.
- `app/` is the program around it: HTTP transport, files on disk, the
  GTK/libadwaita window, and the few things that need floating point
  (byte and rate formatting, charts).
- `tests/` runs the library on concrete inputs.

Calls into serde_json (reading and writing JSON text) sit behind small
trusted wrappers in `src/dsm/envelope.rs`; their results are named, not
restated.
