//! Regular-expression support for string columns: two interchangeable matching
//! engines behind one adapter, span arithmetic for literal replacement and
//! zero-width matches, a two-level cache of compiled patterns, group
//! extraction over nullable string columns, and the settings that govern them.

pub mod text;
pub mod engine;
pub mod matches;
pub mod std_engine;
pub mod fancy_engine;
pub mod adapter;
pub mod lru;
pub mod settings;
pub mod cache;
pub mod extract;
pub mod meta;
