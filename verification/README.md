# zome_utils

Helpers for Holochain zome development, as a verified library.

`src/` holds what the helpers compute, each function with a proved contract:

- `conversions`, `conversions_tag`: link tags and strings (UTF-8), path
  components and strings (UTF-32), anchors (`a.b.c`), hashes as text
  (`u` + URL-safe base64), timestamps as 8 little-endian bytes. The round
  trips for strings, components, anchors and timestamps are proved; those for
  hashes are proved for every hash whose text the hash decoder accepts.
- `links`: which links are fetched under a hash-type filter, item links, and
  which fetched links are kept with their values.
- `get`, `query`, `utils`: the decisions between the conductor's answers
  (which update is the latest, which record or entry is found, which error
  is raised), and index searches.
- `debug`: the texts of errors and of a call's context.
- `error`: the library's error type and each error's reason text.

`app/` holds the helpers that talk to the conductor through hdk; they
convert hdk's types to the library's plain values and back.

Vocabulary: a Path is a vector of Components (bytes); an Anchor is a path of
human-readable strings, written as one string with its components separated
by `.` (e.g. `profiles.c.cam.camille`); an Item is anything linked from a
path that is not itself a path.
