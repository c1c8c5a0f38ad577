# dice_ball

Dice Ball is a two-dice table game: a shooter rolls until a seven that is
not a double; every other roll is a hit that pays its number spot (and, for
a double, its hard-way spot), four hits make a run, and the fourth, fifth
and sixth runs pay the grand slam.

`src/` is the verified library (Verus):

- `table` – the fifteen betting spots and a table of one number per spot.
- `dice` – a roll of two dice.
- `rules` – what a roll pays (`hand`), the game state and one played roll
  (`game_loop`).
- `player` – the chips of a player, the bets on each spot, and what the
  betting controls do.
- `text` – the bet-size field: reading and writing a `u32`.
- `chips` – how the chips on a spot are drawn.
- `sim` – the strategy simulator: one game roll by roll (`GameSim`), a whole
  game (`GameSim::play`), and the totals over many games
  (`SimTotals::play_games`). `game_step` and `replay` state a game roll by
  roll; every recorded game is one replayed from a new game with real dice.
  The proofs show a game stays within its integer types except for the
  counters that grow with a long shooter, and that the totals overflow only
  in the hard 6 / hard 8 sums or after 2^40 games.

`app/` is the window (eframe) and the simulator's report, which uses
floating point.
