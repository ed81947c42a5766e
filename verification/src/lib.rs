//! Cache-behaviour experiments: datasets laid out to fill a cache, minimal
//! per-element touch operations, and a fixed-count driver that repeats them.
//!
//! An experiment is selected from a command line ([`selector`]), set up from
//! a configuration ([`config`]) and run to completion ([`runner`]). The
//! datasets are packed elements in one buffer ([`dataset`]) or heap blocks
//! ([`blocks`]); the touches are the write cycle of [`dataset`] and the
//! strided read of [`reads`]. Timing is left to whoever starts the process.

pub mod blocks;
pub mod config;
pub mod dataset;
pub mod decimal;
pub mod error;
pub mod family;
pub mod layout;
pub mod reads;
pub mod runner;
pub mod selector;
pub mod text;
