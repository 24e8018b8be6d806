# animus_patch_loader

The Animus patch loader installs Turkish localisation patches into PC games
and PlayStation packages: it checks a patch manifest, downloads and unpacks
the archive safely, applies each install action with a backup and a journal,
verifies the result, and can roll any install back to the game's original
files. It also builds signed, encrypted `.animus` packages.

The library is written in Verus. Every public function that decides or
computes something carries a contract that the verifier proves; calls into
outside crates (hashing, encryption, signing, URL parsing, UUIDs, the OS
credential store) go through small trusted wrappers whose contracts restate
what those crates document. SHA-256 is computed by an incremental hasher
whose contracts name the bytes fed to it, so every recorded digest is tied
to the bytes it was computed from.

## Layout

- `src/` — the verified library
  - `patch/engine.rs` — manifest validation, loader version gate, dry run,
    handler choice, install progress, disk and process checks
  - `patch/install.rs` — the order of an install as a state machine: undo
    the previous patch, apply and journal each action, verify, write the
    records, roll back on failure
  - `patch/journal.rs` — journal records, verification, rollback plans and
    the install/uninstall decisions, with the law that a rollback gives back
    the files from before the install
  - `patch/fat_dat.rs` — the in-place FAT2/DAT archive append and its undo
  - `patch/archive_order.rs` — the order of that append and of its undo as
    state machines: no DAT or FAT byte before the undo files, journal,
    metadata and registration; the FAT put back before the DAT is cut
  - `download.rs` — URL checks, MediaFire page parsing, the download cache
    and resume rules
  - `packer.rs` — the `.animus` package format: header, sealed chunks,
    signed footer, server key record
  - `security/` — relative path and archive entry checks
  - `backup.rs`, `storage.rs`, `order.rs` — backup folders, recovery copies,
    installation listings
  - `emulator.rs`, `game_detection.rs` — PlayStation emulators and Steam
    library detection
  - `credential.rs`, `logging.rs`, `hashing.rs`, `text.rs`, `models.rs`,
    `error.rs`
- `tests/` — tests of the library on concrete values
- `app/` — the command-line program around the library: files, network,
  processes, and the package builder's streaming loop
