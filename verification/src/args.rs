//! What a caller asks for, before anything is read or written.

use vstd::prelude::*;
use crate::compression::CompressType;
use crate::error::BuildError;
use crate::path::CanonPath;
use crate::text::str_eq;

verus! {

/// The compression variant as the caller selects it, without a level.
#[derive(Debug, Clone, Copy, PartialEq, Eq, Structural)]
pub enum CompressTypeArg {
    Xz,
    Gz,
    Zstd,
}

/// The level as the zstd codec takes it: the same 32 bits read as a signed
/// number.
pub open spec fn zstd_level(level: u32) -> i32 {
    if level <= 0x7fff_ffff {
        level as i32
    } else {
        (level - 0x1_0000_0000) as i32
    }
}

impl CompressTypeArg {
    /// The variant that a selector names, if it names one.
    pub open spec fn spec_from_name(name: Seq<char>) -> Option<CompressTypeArg> {
        if name == "xz"@ {
            Some(CompressTypeArg::Xz)
        } else if name == "gz"@ {
            Some(CompressTypeArg::Gz)
        } else if name == "zstd"@ {
            Some(CompressTypeArg::Zstd)
        } else {
            None
        }
    }

    /// Reads a selector: `xz`, `gz` or `zstd`, and nothing else.
    pub fn from_name(name: &str) -> (r: Option<CompressTypeArg>)
        ensures
            r == Self::spec_from_name(name@),
    {
        if str_eq(name, "xz") {
            Some(CompressTypeArg::Xz)
        } else if str_eq(name, "gz") {
            Some(CompressTypeArg::Gz)
        } else if str_eq(name, "zstd") {
            Some(CompressTypeArg::Zstd)
        } else {
            None
        }
    }

    /// The variant with a level.
    pub open spec fn spec_with_level(self, level: u32) -> CompressType {
        match self {
            CompressTypeArg::Xz => CompressType::Xz { level },
            CompressTypeArg::Gz => CompressType::Gz { level },
            CompressTypeArg::Zstd => CompressType::Zstd { level: zstd_level(level) },
        }
    }

    /// Joins the variant and the level. The level is not checked here: it is
    /// the codec that knows its bounds.
    pub fn with_level(self, level: u32) -> (r: CompressType)
        ensures
            r == self.spec_with_level(level),
    {
        match self {
            CompressTypeArg::Xz => CompressType::Xz { level },
            CompressTypeArg::Gz => CompressType::Gz { level },
            CompressTypeArg::Zstd => {
                if level <= 0x7fff_ffff {
                    CompressType::Zstd { level: level as i32 }
                } else {
                    let high: u32 = level - 0x8000_0000;
                    CompressType::Zstd { level: high as i32 + i32::MIN }
                }
            },
        }
    }
}

/// The arguments of one build.
#[derive(Debug)]
pub struct Args {
    pub root_path: String,
    /// The control directory; where there is none, a directory of the default
    /// name inside the root stands in.
    pub control_path: Option<String>,
    pub output_dir: String,
    pub compress_type: CompressTypeArg,
    pub level: u32,
    pub pkg_name: String,
}

/// The name of the control directory that stands in where none is given.
pub open spec fn default_control_name() -> Seq<char> {
    "letsdeb-control"@
}

impl Args {
    /// The output directory where none is given: the current directory.
    pub fn default_output_dir() -> (r: String)
        ensures
            r@ == "."@,
    {
        String::from_str(".")
    }

    /// The level where none is given.
    pub fn default_level() -> (r: u32)
        ensures
            r == 6,
    {
        6
    }

    /// The control directory where none is given: `letsdeb-control` inside
    /// the root.
    pub fn default_control_path(root: &CanonPath) -> (r: CanonPath)
        ensures
            r@ == root@.push(default_control_name()),
    {
        root.child("letsdeb-control")
    }

    /// Puts the arguments together, with the defaults where a value is left
    /// out. A selector that names no compression variant is turned down here,
    /// before a build has touched anything.
    pub fn from_values(
        root_path: String,
        control_path: Option<String>,
        output_dir: Option<String>,
        compress_type: &str,
        level: Option<u32>,
        pkg_name: String,
    ) -> (r: Result<Args, BuildError>)
        ensures
            match CompressTypeArg::spec_from_name(compress_type@) {
                None => r matches Err(BuildError::UnknownCompression(name)) && name@
                    == compress_type@,
                Some(kind) => r matches Ok(args) && {
                    &&& args.root_path == root_path
                    &&& args.control_path == control_path
                    &&& args.output_dir@ == (match output_dir {
                        Some(dir) => dir@,
                        None => "."@,
                    })
                    &&& args.compress_type == kind
                    &&& args.level == (match level {
                        Some(level) => level,
                        None => 6u32,
                    })
                    &&& args.pkg_name == pkg_name
                },
            },
    {
        let kind = match CompressTypeArg::from_name(compress_type) {
            Some(kind) => kind,
            None => {
                return Err(BuildError::UnknownCompression(String::from_str(compress_type)));
            },
        };
        let output_dir = match output_dir {
            Some(dir) => dir,
            None => Args::default_output_dir(),
        };
        let level = match level {
            Some(level) => level,
            None => Args::default_level(),
        };
        Ok(Args { root_path, control_path, output_dir, compress_type: kind, level, pkg_name })
    }

    /// The compression variant and level of this build.
    pub fn compression(&self) -> (r: CompressType)
        ensures
            r == self.compress_type.spec_with_level(self.level),
    {
        self.compress_type.with_level(self.level)
    }
}

} // verus!
