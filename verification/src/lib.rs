//! Recovers playable MP3 data from the XOR-obscured ADF audio archives of an
//! old video game, and derives output file names from input paths.
//!
//! The library holds the verified core: the byte-wise transform with its
//! chunked processing loop, and the file-name handling. Opening, reading and
//! writing the actual files is left to the caller, who feeds byte chunks
//! through [`codec::transform_chunk`] or whole buffers through
//! [`codec::process_files`].

use vstd::prelude::*;

pub mod codec;
pub mod names;

verus! {

/// How a transcoding run can fail. Every failure is fatal to the run: the
/// caller reports it and stops, no retry is attempted.
#[derive(Clone, Copy, Debug, PartialEq, Eq, Structural)]
pub enum TranscodeError {
    /// The source file cannot be opened or its length cannot be determined.
    OpenError,
    /// The destination file cannot be created.
    CreateError,
    /// A chunk read did not complete.
    ReadError,
    /// A chunk write did not complete.
    WriteError,
    /// No output name can be derived from the input path.
    InvalidNameError,
}

} // verus!
