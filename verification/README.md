# xiangqi_assistant

A Xiangqi (Chinese chess) assistant: it follows a game shown in another
program's window, checks and plays moves, and asks an engine or the
chessdb.cn cloud book for analysis.

* `src/` is the library, written in Verus and verified: the board model
  (`types`, `fen`, `flip`), the rules (`legality`, `game`), board diffs
  (`diff`), the engine protocol and cloud-book texts (`engine`), the
  synchronisation state machine with the linked window (`link`), the
  recognition grid and stability filter (`vision`), the decisions around
  analysis requests (`analysis`) and the state behind the user interface
  (`assistant`).
* `tests/` runs the library on concrete positions.
* `app/` is the program around it: engine processes, the network, window
  capture, the ONNX models and mouse input.
