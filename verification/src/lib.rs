//! Planning and bookkeeping for an S3 command-line client: how a file is cut
//! into multipart chunks, how chunk uploads are scheduled and their
//! concurrency tuned, how finished parts are assembled, and the small pieces
//! of configuration, region-cache and naming logic around them.

pub mod upload_plan;
pub mod scheduler;
pub mod controller;
pub mod parts;
pub mod progress;
pub mod text;
pub mod table;
pub mod regions;
pub mod config;
pub mod naming;
pub mod number;
pub mod multipart;
pub mod cli;
pub mod content;
