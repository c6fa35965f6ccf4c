//! A verified retrieval-and-analysis engine over personal-activity
//! records: chunking of raw text into bounded units, an append-only
//! in-memory corpus, keyword scoring and ranking against it, prompt
//! assembly with an ordered provider fallback chain, and a deterministic
//! statistical analyzer over the same record stream.

pub mod analyzer;
pub mod chunker;
pub mod corpus;
pub mod discovery;
pub mod report;
pub mod retrieval;
pub mod source;
pub mod synthesis;
pub mod system;
pub mod text;
