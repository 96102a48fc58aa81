# reorganize

A small command-line tool that tidies a folder: every file is moved into a
category folder (Images, Documents, Code, ...) chosen from its extension,
never over an existing file, and each run is logged so that it can be undone.

The decisions are a verified library (`src/`, checked with Verus):

- `organizer` — categories, the extension classifier, planning destinations
  without ever handing one out twice, and numbered names for clashes;
- `naming` — cleaning model-proposed names into safe folder names and stems;
- `undo` — the run-log format (what is written reads back the same), and the
  bookkeeping of an undo, newest move first;
- `inspect` — recognising file formats from their first bytes and condensing
  text excerpts;
- `ai` — the prompt for a local model and what its reply may change;
- `cli`, `directory`, `paths`, `text` — arguments, folder choice, file-name
  parts and the string operations the rest is built from.

`app/` is the program around it: prompts, progress output, the filesystem and
the network.

```
reorganize              Organize a folder
reorganize --dry-run    Show what would move, without moving anything
reorganize undo         Reverse the most recent run
```
