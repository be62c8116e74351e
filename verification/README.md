# typing_test_tui

A typing test for the terminal, with a single player mode and multiplayer
lobbies, whose logic is a library verified with Verus.

- `src/` is the library. `typing/` is the typing engine (letters, words,
  the test and its cursor, the laws every keystroke keeps, and the layout of
  the text in lines); `selection.rs` is the menu tree the mode menu is built
  on; `mode_selection.rs` and `word_mode_selection.rs` are the mode menus;
  `toast.rs` is the queue of notifications; `data.rs` picks the quotes and
  random words a test is made of; `config.rs` holds the saved settings;
  `multiplayer.rs` reads the server's messages and keeps the game model.
- `tests/` runs the library on concrete inputs.
- `app/` is the program around it: the terminal, the event loop, the
  settings file, the word and quote files, and the websocket connection.

Without `--words-path` and `--quotes-path` the program has no words or
quotes, and the tests show the fallback messages.
