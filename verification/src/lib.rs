//! Real-time log streaming: log records, stack-trace cleaning, the connection
//! registry and the broadcast decisions of the log server.

pub mod entry;
pub mod json;
pub mod lemmas;
pub mod level;
pub mod number;
pub mod server;
pub mod stack;
pub mod text;
pub mod value;

pub use entry::{LogEntry, LogMetadata};
pub use level::LogLevel;
pub use number::JsonNumber;
pub use server::{client_count, init, is_initialized, service_name, Outgoing, ServerView, SlogX};
pub use stack::StackFrame;
pub use value::StructuredValue;
