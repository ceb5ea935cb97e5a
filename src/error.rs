use vstd::prelude::*;

verus! {

/// The ways in which fetching or loading the dataset can fail.
#[derive(Debug, Clone, Copy, PartialEq, Eq, Structural)]
pub enum LoadError {
    /// The HTTP request could not be made or completed.
    Transport,
    /// The server answered with a status other than 200.
    HttpStatus(u16),
    /// A directory or file could not be created, read or written.
    Filesystem,
    /// An archive is not a valid gzip stream.
    Gzip,
    /// A decompressed archive is shorter than its header says it must be.
    Truncated,
}

} // verus!
