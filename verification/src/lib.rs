//! Core engine of a media download manager: task registry and output
//! history, format metadata and selector expressions, external-tool
//! argument construction, and the supervision logic that turns subprocess
//! observations into an ordered event stream.

pub mod args;
pub mod commands;
pub mod dispatch;
pub mod events;
pub mod manager;
pub mod messages;
pub mod options;
pub mod search;
pub mod supervise;
pub mod text;
pub mod video;
