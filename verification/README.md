# numworks_games

Games for the NumWorks calculator (Snake, Connect Four, Pac-Man), the
shared menus and widgets they use, a small tile-based 2D engine and a PPM
image reader, written as a Verus library whose behaviour is stated in
`requires` / `ensures` contracts and proved.

## Layout

- `src/` — the verified library.
  - `eadk`, `graphical`, `utils`, `numbers`, `storage`: colors, keys, draw
    operations (returned as `DrawOp` values rather than performed), text
    measures, decimal strings and the stored settings file.
  - `menu`, `widgets`: selection menus, the paged settings menu and the
    number input, each as a step function from keys and time to the next
    state and what to redraw.
  - `snake`, `puissance4`, `pacman`: the rules of each game (moves,
    collisions, scoring, the ghosts' choices and timers) and what each
    screen draws. The Connect Four search is stated against a game tree
    (`spec_minimax`): its alpha-beta score is the tree's value, and the
    column it plays reaches that value, whatever order the random draws
    give the columns.
  - `num_engine`: dirty-cell tracking, viewports, tilemaps, sprites,
    hitboxes, interlacing, layer ordering, the walk over dirty spans and
    per-cell compositing.
  - `ppm`: reading the numbers of a PPM header.
- `tests/` — tests run against the compiled library.
- `app/` — the part that talks to the calculator: the device calls, the
  loops that scan the keyboard and wait, drawing the returned operations,
  and the parts that compute with floating point (movement speeds,
  particles, physics bodies).

`heapless` is the one outside crate; the library calls it through small
trusted wrappers whose contracts state what its source does.
