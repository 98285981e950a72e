//! Asset-format version rules and the error types of the loading
//! layer. The byte-level readers themselves are I/O and belong to the
//! host application; these are the pure rules they share.

use vstd::prelude::*;

verus! {

/// The first file version whose animation payload may be compressed.
pub const FIRST_FILE_VERSION_WITH_COMPRESSION_FLAG: i32 = 1300;

/// Whether a file of this version carries a compression flag.
pub fn versionHasCompressionFlag(version: i32) -> (r: bool)
    ensures
        r == (version as int >= FIRST_FILE_VERSION_WITH_COMPRESSION_FLAG as int),
{
    return version >= 1300;
}

/// Whether an animation of this version stores compressed keyframes by
/// default (newer files carry an explicit flag on top of this).
pub fn usesAnimationCompression(version: i32) -> (r: bool)
    ensures
        r == (version as int >= FIRST_FILE_VERSION_WITH_COMPRESSION_FLAG as int),
{
    version >= 1300
}

/// Errors of the binary loaders: a read failure (as a message), a bad
/// magic token, an unsupported version, or malformed content.
pub enum LoaderError {
    IoError(String),
    MagicError,
    VersionError,
    FormatError(String),
}

/// Errors of a raw data source: a read failure or malformed content,
/// as messages.
pub enum SourceError {
    IoError(String),
    FormatError(String),
}

} // verus!
