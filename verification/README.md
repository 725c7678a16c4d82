# rip

Rest In Pieces: rip through a directory and delete it as fast as possible.

`src/` is the verified library: every decision of the tool, with its contract,
proved by Verus. `app/` is the program around it. It parses the command line,
walks the tree (`jwalk`), removes entries in parallel (`rayon`), moves targets
to the trash (`trash`) and draws bars (`indicatif`).

What is proved, among other things:

- A filesystem root among the targets is refused, under every option. An empty
  path is no root: it is refused because nothing is there.
- Nothing starts without a yes, `--force` or `--dry-run`. A dry run removes
  nothing, names every entry and counts what a run counts in which every removal
  works.
- A link is removed as a link. The walk is asked not to follow links, a link is
  never recorded as a directory, its permissions are never changed, and on
  Windows every open asks for the link itself. That `jwalk` does as it is asked
  is not proved.
- Files go first, then directories in batches, deepest first. Every entry that
  was found is handed out and counted exactly once. If each entry was recorded
  with the number of components of its path, as `Entry::new` does, no directory
  that still stands when a batch starts lies below one of the batch. If, besides,
  the walk found all that lies below its directories, and the disk lets go of
  every file and of every empty directory, exactly what was found goes.
- The summary of a tree counts the files and the directories that went and, as
  errors, those of the walk and the removals that failed.
- A target that fails stops no other, and every target has its turn once.
- On Windows, drive and share paths are opened in `\\?\` form, a path with a zero
  in it is never opened, and a handle that was opened is closed.
- Each warning says what it is about, and only the one before a move to the
  Recycle Bin calls that recoverable.

Colours come from `colored`, through the trusted functions in `src/paint.rs`.
Whether they are written is up to the environment, so the contracts of the
warnings hold with and without them.

`tests/` runs the library on concrete values.
