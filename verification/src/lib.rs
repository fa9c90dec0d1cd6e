//! Terminal front end of caliban, as a verified library.

pub mod agent_events;
pub mod app;
pub mod ask;
pub mod attach;
pub mod clipboard;
pub mod completer;
pub mod effect;
pub mod events;
pub mod external_editor;
pub mod input;
pub mod json;
pub mod layout;
pub mod menu;
pub mod mouse_select;
pub mod order;
pub mod overlay;
pub mod path;
pub mod permissions;
pub mod render;
pub mod replies;
pub mod reverse_history;
pub mod rewind;
pub mod shell_escape;
pub mod slash;
pub mod style;
pub mod terminal;
pub mod text;
pub mod toast;
pub mod transcript_viewer;
pub mod types;
pub mod version;
