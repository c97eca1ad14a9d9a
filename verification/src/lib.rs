//! mockingbird: records HTTP interactions into cassettes and replays them.

pub mod body;
pub mod capture;
pub mod cassette;
pub mod error;
pub mod filter;
pub mod headers;
pub mod cli;
pub mod client;
pub mod clock;
pub mod json;
pub mod matcher;
pub mod middleware;
pub mod mode;
pub mod order;
pub mod playback;
pub mod proxy;
pub mod request;
pub mod response;
pub mod text;
pub mod url_parts;
