//! Re-renders the line-oriented diagnostic output of a packet-capture
//! tool as readable per-connection output: each incoming line is
//! classified by a small grammar, scattered hex-dump rows of one packet
//! are merged into a single line, and each newly seen host pair is
//! announced once, with a stable palette slot per host.

pub mod accum;
pub mod colors;
pub mod format;
pub mod grammar;
