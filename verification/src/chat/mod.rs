//! The chat page: its transcript, input box and streaming state, and the
//! layout of the transcript into styled rows.
pub mod compose;
pub mod entry;
pub mod input;
pub mod layout;
pub mod state;
pub mod wrap;

pub use entry::{ChatEntry, Message, Role, ToolCall};
pub use input::{InputBox, InputHistory, KeyDisposition, PasteDetector, SlashMenu, SlashMenuMode};
pub use layout::{build_streaming_tail, render_entries, TOOL_RESULT_FOLD_THRESHOLD};
pub use state::{entries_to_messages, ChatState, SCROLL_FOLLOW};
pub use wrap::{wrap_lines, wrap_string_to_visual_lines};
