# darkbluff

A text detective game for the terminal: the player walks the scenes of a
small town, asks its people about topics, collects clues and judges the
guilty, chapter after chapter, on the surface and in the shadow world. The
story lives in a data directory of YAML records and Markdown texts.

The game logic is a library written in Verus: every function carries a
`requires`/`ensures` contract that Verus proves.

## Layout

- `src/content/`: the content model, loading from a data source, the
  condition language, dialogue files and the content checker.
- `src/engine/`: the session state machine. `Session::handle` takes one
  input (a command line, a menu choice, a confirmation, an acknowledgement)
  and gives one outcome; asking, judging, moving, the map with its
  rollbacks, narrative triggers and the automatic chapter advance each have
  their own module.
- `src/save/`: the save format, checkpoints and rollback, snapshots, load
  decisions, and the storage interface (`SaveBackend`) with an in-memory
  store.
- `src/ui/`: the terminal front end's state: the command line, completion,
  the transcript, menus, the map and notes panels, and key handling.
- `app/`: the program around the library: command-line arguments, the files
  on disk (data source, save store), YAML and JSON decoding, logging and the
  ratatui drawing loop.
- `tests/`: tests of the library on in-memory data.

## What the contracts rest on

Storage and data sources are traits. The session is proved for every answer
a backend may give; it records, as ghost state, each save that the backend
reported written. A backend may describe the saves its files hold; the
in-memory store does, and with it a save written on quitting is proved to be
the one that "continue" loads back. A data source may describe its files as a map
(`DataSource::files`); the in-memory source does. Loading from such a source
is proved to hold exactly the texts those files give, the records of the
listed YAML files in the sorted order of their names (each one what the
decoder answered for that file's text), one chapter per directory with a
`chapter.yaml`, and only well-formed dialogue files; it fails only at a
record file that is not a file, that the decoder refuses, or a chapter whose
dialogue files do not all parse, never for a missing text. The decoder of
YAML records is supplied by the program; what it answers for a text is
described by its `may_*` relations, which hold of any decoder unless it
states more.
