//! The fields of a control file.

use vstd::prelude::*;

verus! {

/// The fields that describe a package in its control file.
#[derive(Debug)]
pub struct Control {
    pub package: String,
    pub version: String,
    pub architecture: String,
    pub section: String,
    pub maintainer: String,
    pub installed_size: String,
    pub description: String,
    pub essential: String,
    pub depends: Option<String>,
}

impl Default for Control {
    /// The fields of a package made for trying things out: nothing installed,
    /// nothing depended on.
    fn default() -> (r: Control)
        ensures
            r.package@ == "test"@,
            r.version@ == "0.0"@,
            r.architecture@ == "all"@,
            r.section@ == "utils"@,
            r.maintainer@ == "tester <tester@aosc.io>"@,
            r.installed_size@ == "0"@,
            r.description@ == "Test package"@,
            r.essential@ == "no"@,
            r.depends is None,
    {
        Control {
            package: String::from_str("test"),
            version: String::from_str("0.0"),
            architecture: String::from_str("all"),
            section: String::from_str("utils"),
            maintainer: String::from_str("tester <tester@aosc.io>"),
            installed_size: String::from_str("0"),
            description: String::from_str("Test package"),
            essential: String::from_str("no"),
            depends: None,
        }
    }
}

} // verus!
