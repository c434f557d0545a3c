# qchess_bot

A chess agent trained by Q-learning. The verified library holds everything
about the agent that is not the neural network itself:

- `src/chess.rs`: files, ranks, squares, roles, moves and their UCI form,
  with mirroring of moves for the side to move.
- `src/encode.rs`: `UciMoveId`, the numbering of the 1880 moves the policy
  network chooses among (queen-like moves, knight jumps, promotions), with
  proofs that decoding and encoding are inverse to each other.
- `src/model.rs`: the 13 planes of 8x8 squares that describe a position to
  the network, always seen from the side to move, and the output slot of a
  move.
- `src/replay.rs`: the bounded first-in first-out replay memory and the
  random drawing of training batches from it.
- `src/train.rs`: when the trainer trains, and how random and inferred moves
  are put together for a batch of games.

`app/` is the program around it: the burn networks, the training loops
against random play and against a UCI engine, and the conversions between
shakmaty's types and the library's.
