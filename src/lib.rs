//! Classification and dispatch of file-system change events to a set of
//! registered sync processes, with tracking of the process's own writes so
//! that they are never mistaken for outside edits.

pub mod chat;
pub mod commands;
pub mod doku;
pub mod events;
pub mod manager;
pub mod openai;
pub mod paths;
pub mod personas;
pub mod process;
pub mod stamp;
pub mod text;
pub mod todos;
pub mod tracker;

pub use chat::{Chat, Message};
pub use commands::{CommandEntry, CommandLog};
pub use doku::{DokuEntry, DokuIndex};
pub use events::{EventKind, EventOrigin, FileEvent};
pub use manager::{Action, Dispatch, Manager, RawKind};
pub use openai::OpenAIClient;
pub use personas::{parse_personas, render_personas};
pub use process::{
    SyncProcess, SyncRule, TransformStep, create_chat_processor, create_command_processor,
    create_doku_processor, create_persona_parser, create_sync_a_to_b, create_sync_a_to_c,
    create_todo_processor,
};
pub use todos::{TodoEntry, TodoLog};
pub use tracker::{OriginTracker, TargetMapping};
