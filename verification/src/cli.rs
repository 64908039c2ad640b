//! What the command line asks for.

use vstd::prelude::*;

verus! {

/// The directory that is scanned where no file is named: the current one.
pub const SCAN_DIRECTORY: &'static str = ".";

/// The arguments of the command line.
#[derive(Debug, PartialEq, Eq)]
pub struct Cli {
    /// The path of the image to download, where one is named.
    pub file_name: Option<String>,
}

/// Where the image to download comes from.
#[derive(Debug, PartialEq, Eq)]
pub enum Source {
    /// This file.
    File(String),
    /// Whichever image the scan of this directory gives.
    Directory(String),
}

impl Cli {
    /// Tells where the image comes from: the file that is named, or else
    /// the scan of the current directory.
    pub fn source(&self) -> (source: Source)
        ensures
            match self.file_name {
                Some(name) => source matches Source::File(path) && path@ == name@,
                None => source matches Source::Directory(path) && path@ == SCAN_DIRECTORY@,
            },
    {
        match &self.file_name {
            Some(name) => Source::File(name.clone()),
            None => Source::Directory(String::from_str(SCAN_DIRECTORY)),
        }
    }
}

} // verus!
