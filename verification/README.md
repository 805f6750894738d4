# Batalha Naval

A battleship game for Godot, in Rust. The rules are a library verified with Verus (`src/`); the
Godot classes, the screen and the files of players are ordinary Rust (`app/`).

- `src/domain/`: the board and its ships, shots, the three enemies (easy, medium, hard) and the
  enemy player, the players' records.
- `src/application/`: the placing phase, the choice of difficulty, the turns of a match, what the
  battle screen shows.
- `src/presentation/`: how each cell of a board is drawn.
- `src/infrastructure/`: the store of players, in memory.
- `app/`: the Godot scene classes, drawing on tile maps, the JSON file of players, and the hard
  enemy's floating-point weighing of the board.
