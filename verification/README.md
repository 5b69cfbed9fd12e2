# Rusting Raceway

A recreation of Mario Party's Rocking Raceway built with Bevy.

- `src/` is the game's logic as a Verus-verified library: the movement keys packed
  into an input byte and handed to the network session (`inputs`), the two run modes
  (`args`), the screen states (`states`), the menu's buttons, settings and stroked
  title text (`menu`), how track paths are assembled and mirrored (`physics`), and
  how players advance along their paths (`gameplay`).
- `app/` is the Bevy program around it: windows, rendering, UI, the GGRS session,
  the command line, and the floating-point geometry of the stadium.
- `tests/` exercises the library.

Run without matchmaking with `-l` (`--local_only`).
