//! Staged deployment of an executable bytecode image onto a ledger: the image is verified,
//! cut into chunks that fit single transactions, written into a staging buffer chunk by
//! chunk, and then promoted into a program account.

pub mod chunks;
pub mod error;
pub mod image;
pub mod pipeline;
pub mod planner;
pub mod staging;
pub mod wire;
