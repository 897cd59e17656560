# codex_tui

The interaction state of an inline terminal chat interface, written in Rust and verified with Verus.

- **Prompt editing.** `drafts`, `undo`, `composer` and `vim_history` keep one bounded timeline of
  complete drafts. Typing, pastes, Vim commands and recalled prompts are steps on it.
- **Task list.** `task_window` chooses which tasks of a plan to show, `task_list_panel` lays them out,
  `tasks_settings_view` and `chat_widget` hold the setting that pins the list and the start of a turn
  that the chat waits for.
- **History above the viewport.** `inline_history` knows where the history stands and which of its
  rows the viewport covers. `inline_append`, `covered_history`, `windows_viewport`,
  `inline_viewport`, `transcript_replay` and `history_tail` write, restore and replace it.
  `history_lines` and `history_painting` are what they are built on.
- **Terminal.** `terminal` is the picture of the terminal that these modules work on. What the backend
  has to do is collected there as commands, together with how many of them the backend performs
  before it fails; every function says what it leaves behind wherever the failure comes. `screen`
  says what the screen shows after the commands, and proves that the history stays on it.
- **Ground.** `text` and `styled` measure and cut text, `geometry`, `numbers` and `content` are small
  helpers.

Every type has a view, and the contracts of the functions are stated over the views. What holds of
several functions together is stated by the public proof functions whose names start with `law_`.

Three functions are believed rather than proved, all in `text`: the width of a text, which ratatui
measures, its grapheme clusters, which unicode-segmentation finds, and `String::push` of the standard
library.

`app/` holds what needs a real terminal: drawing with ratatui, writing with crossterm, keys and clocks,
and requests that are awaited. Wrapping text into rows is left to the program that uses the library; functions that
need wrapped text take it as an argument.
