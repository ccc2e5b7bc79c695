# Coerceo

An unofficial clone of the strategic board game [Coerceo](http://coerceo.com/), with a computer
player. The rules, the game state and the search of the computer player form a library whose
behaviour is stated in `requires` / `ensures` contracts and proved with Verus; a small program
around it draws the board with imgui and glium and runs the computer player on a thread.

## Layout

- `src/model/bitboard.rs`: bitboards (one bit per field of a color) and their bit lemmas.
- `src/model/tables.rs`, `src/model/constants.rs`: the neighbor tables, hex masks, the rule for
  removable hexes and the starting positions.
- `src/model/lookup_tables.rs`: the same tables computed from the coordinates of the board.
- `src/model/table_geometry.rs`: proofs, entry by entry, that the tables equal that geometry.
- `src/model/zobrist.rs`: Zobrist hashing of positions.
- `src/model/board.rs`: the board and the rules: legal moves, playing a move (with the cascade
  of removed hexes and the captures), move generation and the outcome.
- `src/model/connectivity.rs`: the extant hexes stay joined across edges, from the starting
  positions through every move, and a side with pieces is stalemated exactly when it has no
  legal move.
- `src/model/ttable.rs`: the transposition table of the search.
- `src/model/history.rs`: positions since the last irreversible move and repetitions.
- `src/model/game.rs`: the game state with undo and redo.
- `src/ai.rs`: evaluation, quiescence search, alpha-beta negamax and one round of iterative
  deepening, each with the value it returns stated as a recursive spec over the position and
  the transposition table.
- `src/quiescence.rs`: the value of the quiescence search, and the numbering of moves that the
  search specs walk in the order of the move generator.
- `src/update.rs`: what the events of the interface do.
- `app/`: the window, the drawing of the board and the thread of the computer player.
- `tests/`: tests of the library, perft counts among them.
