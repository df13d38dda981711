//! Batches API route definitions into chat-style prompts for a local
//! inference server and collects the sanitized replies into an ordered
//! output document.
//!
//! The library holds the data transformations: choosing the route list from
//! a config or from direct flags, assembling the ordered message list for a
//! route, extracting and cleaning the reply text, and accumulating one
//! record per route. The surrounding binary does the file, network and
//! serialization work and hands plain values in and out.

pub mod config;
pub mod output;
pub mod prompt;
pub mod response;
pub mod sanitize;
pub mod text;
