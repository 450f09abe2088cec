# kakera

Kakera is a launcher and library manager for visual novels: it keeps the library
(titles, tags, routes, reading sessions), launches games natively, through Wine,
Proton or Steam, and backs up and synchronises save files between installations as
content-addressed snapshots.

This crate is its core, written in Verus: every function in `src/` carries a
contract, and Verus proves that the code meets it.

## Layout

- `src/` – the verified library.
  - `paths`, `text` – path and text models, manifest path rules.
  - `save_sync`, `snapshot`, `hashing` – discovering save files, snapshot manifests,
    the blob store, restore planning.
  - `sync_protocol`, `sync_session`, `peer` – framing and the decisions of the
    peer-to-peer snapshot exchange, pairing codes.
  - `library`, `edits`, `actions`, `storage`, `models` – the library view (search,
    filters, sorting, tags), edits made from the detail panel, launch preparation.
  - `launcher`, `wine`, `system`, `logs`, `covers`, `presence`, `vndb`, `time`,
    `markup` – launch commands, runner detection, host commands, log and cover
    paths, Discord presence text, VNDB requests, timestamps, VNDB description markup.
- `tests/` – tests that run the library on concrete values.
- `app/` – a small command-line front end: file system and process work, JSON
  records, and the calls into the library.

The `law_*` proof functions state properties that hold across calls, for example
that a manifest path reads back as the names it was written from, that restored
files go back where they were found, and that parsing a description loses no text.
