# icy_term

The logic of a terminal for bulletin board systems, written in Verus with
its behaviour stated as `requires`/`ensures` contracts and proved.

- `src/` is the verified library. Each module holds one part of the
  terminal: `pattern_recognizer` (recognising prompts in received bytes),
  `rng` (the Lehmer generator), `connect` and `com_thread` (buffering and
  pacing of the connection), `find_dialog` (searching the screen),
  `buffer_view` (blinking, selections, copying text), `terminal_renderer`
  (the byte layouts of the textures that draw the screen), `music`
  (ANSI music timing and the sound queue), `screen_modes`,
  `dialing_directory`, `capture_dialog`, `file_transfer`, `main_window`,
  `terminal_window`, `hover_list` and `buffer_update_thread`.
- `tests/` runs the library on concrete values.
- `app/` is a small command-line program around the library: it reads the
  options, opens a TCP connection on a thread, plays sounds and prints what
  the remote system sends. It is ordinary Rust and is not verified.
