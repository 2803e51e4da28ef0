# koharu_project

Storage for comic translation projects and for text style presets, verified with
Verus.

- `src/` is the library. `session` opens, edits and compacts a project;
  `snapshot` frames and reads the file of its scene, `legacy` brings scenes of
  earlier formats up to date, `edit_log` says what replaying the log restores, and
  `compaction` why a crash loses nothing. `presets` and `preset_list` name, create,
  delete and list the presets, `preset_store` says what is listed after a change,
  and `slug` makes the readable part of their identifiers.
- `tests/` runs the library on concrete values.
- `app/` is what touches the disk and the network: locks, files, serialisation
  and the HTTP routes.

The contracts of calls into other crates are believed, not proved. They stand in
`text`, `paths`, `maps`, `snapshot`, `presets` and `clock`, each with a comment on
what it claims.
