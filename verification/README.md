# checkers

A terminal game of checkers (draughts) against a language model, written as a
verified library with a thin program around it.

- `src/` is the library, checked by Verus: the board and the rules
  (`game_core`), the game kept in one place (`game`), the session and the
  screens as a state machine (`state`), what the screens show (`interface`),
  the requests to the model and the reading of its replies (`ai`), the
  welcome texts (`application`), and two markdown renderers for the terminal
  (`markdown`, `markdown_renderer`, `utils::markdown`). The laws of the game
  stand as proof functions in `game_core::laws`, `game_core::move_laws`,
  `game_core::reach` and `state::laws`.
- `app/` is the program: the terminal, the keys, the model's network calls
  and the main loop.
- `tests/` runs the library on concrete games and texts.

The model is asked only when `GEMINI_API_KEY` and `GEMINI_MODEL` are set (an
`.env` file is read); the request templates are read from
`src/utils/prompts/`. Without them the computer plays its first capture, or
its first move.
