//! Firmware image identification and download sequencing for a storage
//! enclosure.

pub mod cli;
pub mod command;
pub mod download;
pub mod enclosure;
pub mod image;
pub mod select;
pub mod text;
