//! The classification drivers.
//!
//! A driver is a named strategy for asking an external tool what content
//! type a file has.  The external tool itself runs outside the library; the
//! library holds each driver's identity and the verified decisions over
//! what the tool produced: whether the availability probe's output shows a
//! usable tool, and how the tool's one-line answer is normalised before it
//! is compared against the inclusion rules.

use vstd::prelude::*;

use crate::text::contains_substr;
use crate::text::has_substr;
use crate::text::trim_blank;
use crate::text::trim_spec;

verus! {

/// Generic driver abstraction.
///
/// Each content-type driver carries a name, decides availability from what
/// its availability probe produced (`spawned` says whether the probe
/// process could be run at all, `err` is its captured diagnostic output),
/// and normalises the probe's one-line answer.  Running the probes is
/// process work and stays with the embedding program.
pub trait Driver {
    /// The driver's name.
    spec fn spec_name(&self) -> Seq<char>;

    /// Whether the availability probe's outcome shows a usable tool.
    spec fn spec_usable(&self, spawned: bool, err: Seq<char>) -> bool;

    fn name(&self) -> (r: &str)
        ensures
            r@ == self.spec_name(),
    ;

    fn usable_from_probe(&self, spawned: bool, err: &str) -> (r: bool)
        ensures
            r == self.spec_usable(spawned, err@),
    ;

    fn parse_probe<'a>(&self, out: &'a str) -> (r: &'a str)
        ensures
            r@ == trim_spec(out@),
    ;
}

/// A driver that uses the file(1) tool for content-type checks.
///
/// The tool is usable when its help output mentions the `--mime-type`
/// switch it is invoked with.
#[derive(Clone, Copy, Debug, PartialEq, Eq, Structural)]
pub struct FileDriver {}

impl FileDriver {
    pub fn new() -> (r: Self) {
        FileDriver {  }
    }
}

impl Driver for FileDriver {
    open spec fn spec_name(&self) -> Seq<char> {
        "file"@
    }

    open spec fn spec_usable(&self, spawned: bool, err: Seq<char>) -> bool {
        spawned && has_substr(err, "--mime-type"@)
    }

    fn name(&self) -> (r: &str) {
        "file"
    }

    fn usable_from_probe(&self, spawned: bool, err: &str) -> (r: bool) {
        spawned && contains_substr(err, "--mime-type")
    }

    fn parse_probe<'a>(&self, out: &'a str) -> (r: &'a str) {
        trim_blank(out)
    }
}

/// A driver that uses the xdg-mime(1) tool for content-type checks.
///
/// The tool is usable when its probe process could be started at all.
#[derive(Clone, Copy, Debug, PartialEq, Eq, Structural)]
pub struct MimeDriver {}

impl MimeDriver {
    pub fn new() -> (r: Self) {
        MimeDriver {  }
    }
}

impl Driver for MimeDriver {
    open spec fn spec_name(&self) -> Seq<char> {
        "xdg-mime"@
    }

    open spec fn spec_usable(&self, spawned: bool, err: Seq<char>) -> bool {
        spawned
    }

    fn name(&self) -> (r: &str) {
        "xdg-mime"
    }

    fn usable_from_probe(&self, spawned: bool, err: &str) -> (r: bool) {
        spawned
    }

    fn parse_probe<'a>(&self, out: &'a str) -> (r: &'a str) {
        trim_blank(out)
    }
}

/// A generic driver that abstracts all available drivers.
///
/// The driver set is closed and known at build time, so it is a tagged
/// variant set rather than a dynamic-dispatch interface: plain data that
/// workers can share.
#[derive(Clone, Copy, Debug, PartialEq, Eq, Structural)]
pub enum GenericDriver {
    MimeDriver(MimeDriver),
    FileDriver(FileDriver),
}

impl Driver for GenericDriver {
    open spec fn spec_name(&self) -> Seq<char> {
        match self {
            GenericDriver::MimeDriver(driver) => driver.spec_name(),
            GenericDriver::FileDriver(driver) => driver.spec_name(),
        }
    }

    open spec fn spec_usable(&self, spawned: bool, err: Seq<char>) -> bool {
        match self {
            GenericDriver::MimeDriver(driver) => driver.spec_usable(spawned, err),
            GenericDriver::FileDriver(driver) => driver.spec_usable(spawned, err),
        }
    }

    fn name(&self) -> (r: &str) {
        match self {
            GenericDriver::MimeDriver(driver) => driver.name(),
            GenericDriver::FileDriver(driver) => driver.name(),
        }
    }

    fn usable_from_probe(&self, spawned: bool, err: &str) -> (r: bool) {
        match self {
            GenericDriver::MimeDriver(driver) => driver.usable_from_probe(spawned, err),
            GenericDriver::FileDriver(driver) => driver.usable_from_probe(spawned, err),
        }
    }

    fn parse_probe<'a>(&self, out: &'a str) -> (r: &'a str) {
        match self {
            GenericDriver::MimeDriver(driver) => driver.parse_probe(out),
            GenericDriver::FileDriver(driver) => driver.parse_probe(out),
        }
    }
}

} // verus!
