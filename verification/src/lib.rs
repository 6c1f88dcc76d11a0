//! Building Debian binary packages in memory.
//!
//! A package is assembled from two directory trees, the payload root and the
//! control directory: both are archived with tar, compressed with one of three
//! codecs, and combined with a format marker into an `ar` container.
//!
//! The library reads and writes no file. A caller hands it the trees as plain
//! values and gets the bytes of every file of the build back, together with
//! the changes of ownership and the steps on the output directory that go
//! with them.
//!
//! # What is proved and what is taken on trust
//!
//! Which entries go into an archive and under which names, how ownership and
//! modes are normalised, and which parts a package holds in which order: all
//! of this is verified, and `laws` states what follows from it. The bytes of
//! a tar header, of an `ar` header and of a compressed stream come from the
//! `tar`, `ar`, `flate2`, `xz` and `zstd` crates. Each call into them stands
//! in a small function of its own whose contract is believed, not proved;
//! those functions are the ones marked `external_body` in `archive`,
//! `container` and `compression`.
//!
//! All of these calls write into memory, so whether one succeeds is settled
//! by its arguments: the tar writer may turn a name down and a codec a level,
//! and nothing else fails. The library gives both judgements a name and
//! states over them exactly when a build succeeds and, where it does not,
//! which step gives the error.

pub mod archive;
pub mod args;
pub mod compression;
pub mod container;
pub mod control;
pub mod error;
pub mod exclusion;
pub mod laws;
pub mod output;
pub mod package;
pub mod path;
pub mod permissions;
pub mod text;
pub mod tree;

pub use crate::args::{Args, CompressTypeArg};
pub use crate::compression::CompressType;
pub use crate::container::{Artifact, MemberMeta};
pub use crate::control::Control;
pub use crate::error::BuildError;
pub use crate::package::{compress_files, do_build_deb, Package};
pub use crate::path::CanonPath;
pub use crate::tree::{Content, Entry, Tree};
