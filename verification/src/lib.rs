//! Interaction state of an inline terminal chat interface.

pub mod chat_widget;
pub mod composer;
pub mod content;
pub mod covered_history;
pub mod drafts;
pub mod geometry;
pub mod history_lines;
pub mod history_painting;
pub mod history_tail;
pub mod inline_append;
pub mod inline_history;
pub mod inline_viewport;
pub mod numbers;
pub mod screen;
pub mod styled;
pub mod task_list_panel;
pub mod task_window;
pub mod tasks_settings_view;
pub mod terminal;
pub mod text;
pub mod transcript_replay;
pub mod undo;
pub mod vim_history;
pub mod windows_viewport;
