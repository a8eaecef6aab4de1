//! Emoji usage statistics for a chat workspace: a parser for bracketed
//! references, a roster of servers, channels and custom emoji, and a store
//! that records emoji usage and answers ranking queries.

pub mod arg;
pub mod utility;
pub mod model;
pub mod database;
pub mod recorder;
pub mod ranking;
pub mod queries;
pub mod table;
pub mod roster;
pub mod report;
pub mod command;
pub mod bot;
pub mod workspace;
