//! The library's error taxonomy.

use vstd::prelude::*;

verus! {

/// The sections of a package archive, in the order in which they are written.
#[derive(Clone, Copy, Debug, PartialEq, Eq, Structural)]
pub enum SectionKind {
    Manifest,
    ConfigSpec,
    Icon,
    AppImage,
    License,
    Instructions,
}

/// How a network transfer failed.
#[derive(Clone, Copy, Debug, PartialEq, Eq, Structural)]
pub enum TransportErrorKind {
    Connect,
    Timeout,
    Other,
}

/// Every failure that the library reports.
#[derive(Clone, Debug, PartialEq, Eq)]
pub enum Error {
    /// A package, volume or interface identifier holds a forbidden character.
    InvalidIdentifier,
    /// A version or version range could not be parsed.
    InvalidVersion,
    /// The archive header is missing, too short, or carries the wrong magic.
    CorruptHeader,
    /// A section of the archive lies outside the file or overlaps another.
    CorruptArchive(SectionKind),
    /// A section could not be decoded.
    Deserialization,
    /// A value could not be encoded.
    Serialization,
    /// The download failed in transport.
    NetworkTransport(TransportErrorKind),
    /// The container runtime refused the image; its captured error output.
    ContainerRuntimeFailure(String),
    /// The registry slot is already installing or updating.
    ConflictingTransientState,
    /// The registry slot that an install works on does not exist.
    MissingPackage,
    /// A transactional store failed to commit.
    StoreCommit,
    /// A file could not be read or written.
    Filesystem,
    /// A value that must be ASCII is not.
    NotAscii,
    /// A helper command ended with a non-zero exit code, or by a signal
    /// where there is no code.
    ExitStatus(Option<i32>),
    /// A helper command printed what could not be read.
    InvalidOutput,
    /// Deleting the network in use would leave the host unreachable.
    WouldDisconnect,
}

} // verus!
