//! Verified core of the `mpq` command family: argument decoding, file
//! selection, comparison reports and archive tree construction for MPQ
//! archives.

#![allow(unused_imports)]

pub mod text;
pub mod archive_api;
pub mod command;
pub mod pattern;
pub mod order;
pub mod listing;
pub mod compare;
pub mod rebuild;
pub mod mpq_path;
pub mod tree;
pub mod display;
pub mod checksum;
pub mod info;
pub mod render;
