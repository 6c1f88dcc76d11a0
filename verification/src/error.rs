//! What can go wrong while a package is built.

use vstd::prelude::*;

verus! {

/// `std::io::Error`, the error of the writers and codecs. Nothing is known of
/// what is inside a value; it is carried through as it came.
#[verifier::external_type_specification]
#[verifier::external_body]
pub struct ExIoError(std::io::Error);

/// Why a build was given up. Every error ends the whole build: there is no
/// partial package, and nothing is tried again.
///
/// An error that came from a writer, a codec or the filesystem is carried as
/// it came.
#[derive(Debug)]
pub enum BuildError {
    /// The compression selector names none of the supported codecs.
    UnknownCompression(String),
    /// A directory could not be resolved, read or walked.
    Path(std::io::Error),
    /// An entry carries a name that cannot stand for one path component.
    InvalidName(String),
    /// The owner or the mode of an entry could not be changed.
    Permission(std::io::Error),
    /// The tar writer failed.
    Archive(std::io::Error),
    /// The level lies beyond what the codec's own checks admit, so the codec
    /// was not called.
    LevelRejected(u32),
    /// The codec failed, or refused its level.
    Compression(std::io::Error),
    /// The `ar` writer failed.
    Container(std::io::Error),
}

/// The stage of a build at which an error arises.
#[derive(Debug, Clone, Copy, PartialEq, Eq, Structural)]
pub enum Stage {
    /// Reading the arguments.
    Configuration,
    /// Resolving and walking the directories.
    Path,
    /// Normalising ownership and modes.
    Permission,
    /// Writing a tar stream.
    Archive,
    /// Compressing a tar stream.
    Compression,
    /// Writing the container.
    Container,
}

impl BuildError {
    /// The stage at which this error arises.
    pub open spec fn spec_stage(self) -> Stage {
        match self {
            BuildError::UnknownCompression(_) => Stage::Configuration,
            BuildError::Path(_) => Stage::Path,
            BuildError::InvalidName(_) => Stage::Path,
            BuildError::Permission(_) => Stage::Permission,
            BuildError::Archive(_) => Stage::Archive,
            BuildError::LevelRejected(_) => Stage::Compression,
            BuildError::Compression(_) => Stage::Compression,
            BuildError::Container(_) => Stage::Container,
        }
    }

    /// The stage at which this error arises.
    pub fn stage(&self) -> (r: Stage)
        ensures
            r == self.spec_stage(),
    {
        match self {
            BuildError::UnknownCompression(_) => Stage::Configuration,
            BuildError::Path(_) => Stage::Path,
            BuildError::InvalidName(_) => Stage::Path,
            BuildError::Permission(_) => Stage::Permission,
            BuildError::Archive(_) => Stage::Archive,
            BuildError::LevelRejected(_) => Stage::Compression,
            BuildError::Compression(_) => Stage::Compression,
            BuildError::Container(_) => Stage::Container,
        }
    }
}

} // verus!
