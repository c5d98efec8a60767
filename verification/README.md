# Gocode

The parts of a terminal coding agent that decide things, written in Verus: what a tool may touch,
what an update may replace, and what a key press does.

## Layout

- `src/text.rs`, `src/sorting.rs`: texts and sorting, with the models that contracts speak of.
- `src/protocol.rs`: what the interface and the agent's runtime say to each other.
- `src/tools/`: workspace paths, permissions, patches, undo and redo, processes and their output,
  git worktrees, and the built-in tools.
- `src/updater/`: versions, releases, checksums, archives, and replacing an executable.
- `src/tui/`: the interface's state, what every event does to it, and what is drawn.
- `app/`: the disk, processes, the network and the terminal.
- `tests/`: the library on concrete values.

## What is proved

Functions have contracts over mathematical values, and proof functions named `law_…` state what holds
across several of them. Among them:

- whatever a patch, a write or a command names, what it leads to lies inside the workspace, by the
  symbolic links that the caller found on the way; paths are those of Unix, with `/` between names;
- undo and redo do not overwrite what something else changed unless that is asked for, and redo brings
  everything back, where no file that was changed lies below another one;
- a process's output is bounded, and what stands behind a marker of a secret is taken out of each piece
  that was read; a secret that two reads cut in two is not found;
- an archive puts nothing but the executable in place, from a single top-level directory, and replacing
  it never loses it;
- a prompt blocks typing, and nothing is updated without an explicit yes.

What the library takes from other crates without proof stands beside the call, in a function marked
`external_body` whose comment says what is claimed.
