//! Aggregation engine over a set of independently operated log servers.
//!
//! The engine answers three questions: which channels are tracked anywhere,
//! which log server tracks which channels, and which logins a user has gone
//! by on any of them. It decides and computes; its caller makes the requests
//! and hands back what came of them.

pub mod config;
pub mod dedup;
pub mod directory;
pub mod dispatch;
pub mod fanout;
pub mod history;
pub mod ivr;
pub mod listmap;
pub mod logs;
pub mod umami;
pub mod user;

pub use directory::{ChannelDirectory, InstancesStats};
pub use history::{
    namehistory, namehistory_merge, namehistory_resolved, NamehistoryResponseError, NamehistoryStep,
};
pub use logs::Channel;
pub use user::{parse_id_arg, parse_name_arg, UserType};
